//! The configuration of an expander, and what its caller has read of the
//! files it names.

use vstd::prelude::*;
use vstd::string::*;
use crate::chars::same_text;
use crate::modules::analiticcl::{AnaliticclConfig, AnaliticclConfigView};
use crate::modules::finalfusion::{FinalFusionConfig, FinalFusionConfigView, WordEmbeddings};
use crate::modules::fst::{FstConfig, FstConfigView};
use crate::modules::lookup::{LookupConfig, LookupConfigView};

verus! {

/// The modules of an expander: for each kind the configurations of its
/// modules, in order.
#[derive(Debug, Clone)]
pub struct Config {
    lookup: Vec<LookupConfig>,
    fst: Vec<FstConfig>,
    analiticcl: Vec<AnaliticclConfig>,
    finalfusion: Vec<FinalFusionConfig>,
}

/// The mathematical value of a [`Config`].
pub struct ConfigView {
    pub lookup: Seq<LookupConfigView>,
    pub fst: Seq<FstConfigView>,
    pub analiticcl: Seq<AnaliticclConfigView>,
    pub finalfusion: Seq<FinalFusionConfigView>,
}

/// The values of a sequence of lookup configurations.
pub open spec fn lookup_views(v: Seq<LookupConfig>) -> Seq<LookupConfigView> {
    Seq::new(v.len(), |i: int| v[i]@)
}

/// The values of a sequence of fst configurations.
pub open spec fn fst_views(v: Seq<FstConfig>) -> Seq<FstConfigView> {
    Seq::new(v.len(), |i: int| v[i]@)
}

/// The values of a sequence of configurations of variant models.
pub open spec fn analiticcl_views(v: Seq<AnaliticclConfig>) -> Seq<AnaliticclConfigView> {
    Seq::new(v.len(), |i: int| v[i]@)
}

/// The values of a sequence of configurations of word embeddings.
pub open spec fn finalfusion_views(v: Seq<FinalFusionConfig>) -> Seq<FinalFusionConfigView> {
    Seq::new(v.len(), |i: int| v[i]@)
}

impl View for Config {
    type V = ConfigView;

    closed spec fn view(&self) -> ConfigView {
        ConfigView {
            lookup: lookup_views(self.lookup@),
            fst: fst_views(self.fst@),
            analiticcl: analiticcl_views(self.analiticcl@),
            finalfusion: finalfusion_views(self.finalfusion@),
        }
    }
}

impl ConfigView {
    /// No modules.
    pub open spec fn empty() -> ConfigView {
        ConfigView {
            lookup: Seq::empty(),
            fst: Seq::empty(),
            analiticcl: Seq::empty(),
            finalfusion: Seq::empty(),
        }
    }
}

impl Config {
    /// No modules.
    pub fn new() -> (r: Self)
        ensures
            r@ == ConfigView::empty(),
    {
        let r = Config {
            lookup: Vec::new(),
            fst: Vec::new(),
            analiticcl: Vec::new(),
            finalfusion: Vec::new(),
        };
        proof {
            assert(r@.lookup =~= Seq::<LookupConfigView>::empty());
            assert(r@.fst =~= Seq::<FstConfigView>::empty());
            assert(r@.analiticcl =~= Seq::<AnaliticclConfigView>::empty());
            assert(r@.finalfusion =~= Seq::<FinalFusionConfigView>::empty());
        }
        r
    }

    /// The same with one more lookup module.
    pub fn with_lookup(self, config: LookupConfig) -> (r: Self)
        ensures
            r@ == (ConfigView { lookup: self@.lookup.push(config@), ..self@ }),
    {
        let mut r = self;
        r.lookup.push(config);
        proof {
            assert(r@.lookup =~= self@.lookup.push(config@));
        }
        r
    }

    /// The same with one more fst module.
    pub fn with_fst(self, config: FstConfig) -> (r: Self)
        ensures
            r@ == (ConfigView { fst: self@.fst.push(config@), ..self@ }),
    {
        let mut r = self;
        r.fst.push(config);
        proof {
            assert(r@.fst =~= self@.fst.push(config@));
        }
        r
    }

    /// The same with one more module over a variant model.
    pub fn with_analiticcl(self, config: AnaliticclConfig) -> (r: Self)
        ensures
            r@ == (ConfigView { analiticcl: self@.analiticcl.push(config@), ..self@ }),
    {
        let mut r = self;
        r.analiticcl.push(config);
        proof {
            assert(r@.analiticcl =~= self@.analiticcl.push(config@));
        }
        r
    }

    /// The same with one more module over word embeddings.
    pub fn with_finalfusion(self, config: FinalFusionConfig) -> (r: Self)
        ensures
            r@ == (ConfigView { finalfusion: self@.finalfusion.push(config@), ..self@ }),
    {
        let mut r = self;
        r.finalfusion.push(config);
        proof {
            assert(r@.finalfusion =~= self@.finalfusion.push(config@));
        }
        r
    }

    pub fn lookup(&self) -> (r: &Vec<LookupConfig>)
        ensures
            lookup_views(r@) == self@.lookup,
    {
        &self.lookup
    }

    pub fn fst(&self) -> (r: &Vec<FstConfig>)
        ensures
            fst_views(r@) == self@.fst,
    {
        &self.fst
    }

    pub fn analiticcl(&self) -> (r: &Vec<AnaliticclConfig>)
        ensures
            analiticcl_views(r@) == self@.analiticcl,
    {
        &self.analiticcl
    }

    pub fn finalfusion(&self) -> (r: &Vec<FinalFusionConfig>)
        ensures
            finalfusion_views(r@) == self@.finalfusion,
    {
        &self.finalfusion
    }

    /// The configuration taken apart.
    pub fn into_parts(self) -> (r: (
        Vec<LookupConfig>,
        Vec<FstConfig>,
        Vec<AnaliticclConfig>,
        Vec<FinalFusionConfig>,
    ))
        ensures
            lookup_views(r.0@) == self@.lookup,
            fst_views(r.1@) == self@.fst,
            analiticcl_views(r.2@) == self@.analiticcl,
            finalfusion_views(r.3@) == self@.finalfusion,
    {
        (self.lookup, self.fst, self.analiticcl, self.finalfusion)
    }
}

impl Default for Config {
    fn default() -> (r: Self)
        ensures
            r@ == ConfigView::empty(),
    {
        Config::new()
    }
}

/// A file that has been read: its path and its text.
#[derive(Debug, Clone)]
struct SourceFile {
    path: String,
    content: String,
}

/// What the caller has read of the files that a configuration names: the
/// texts of the lexicons, the variant models and the word embeddings. Where
/// a path comes twice among the texts, its first text is the one found. The
/// models and the embeddings are taken in the order in which they were
/// added.
pub struct Sources {
    files: Vec<SourceFile>,
    variant_models: Vec<analiticcl::VariantModel>,
    embeddings: Vec<WordEmbeddings>,
}

/// The text that stands first under `path` among `files`.
pub open spec fn source_of(files: Seq<(Seq<char>, Seq<char>)>, path: Seq<char>) -> Option<
    Seq<char>,
>
    decreases files.len(),
{
    if files.len() == 0 {
        None
    } else if files[0].0 == path {
        Some(files[0].1)
    } else {
        source_of(files.drop_first(), path)
    }
}

impl View for Sources {
    type V = Seq<(Seq<char>, Seq<char>)>;

    closed spec fn view(&self) -> Seq<(Seq<char>, Seq<char>)> {
        Seq::new(self.files@.len(), |i: int| (self.files@[i].path@, self.files@[i].content@))
    }
}

impl Sources {
    /// The variant models that are left, first the one that is taken next.
    pub closed spec fn variant_models(&self) -> Seq<analiticcl::VariantModel> {
        self.variant_models@
    }

    /// The word embeddings that are left, first the ones that are taken
    /// next.
    pub closed spec fn embeddings(&self) -> Seq<WordEmbeddings> {
        self.embeddings@
    }

    /// Nothing.
    pub fn new() -> (r: Self)
        ensures
            r@ == Seq::<(Seq<char>, Seq<char>)>::empty(),
            r.variant_models().len() == 0,
            r.embeddings().len() == 0,
    {
        let r = Sources { files: Vec::new(), variant_models: Vec::new(), embeddings: Vec::new() };
        proof {
            assert(r@ =~= Seq::<(Seq<char>, Seq<char>)>::empty());
        }
        r
    }

    /// Adds a variant model, after those that are there.
    pub fn add_variant_model(&mut self, model: analiticcl::VariantModel)
        ensures
            final(self)@ == old(self)@,
            final(self).variant_models() == old(self).variant_models().push(model),
            final(self).embeddings() == old(self).embeddings(),
    {
        self.variant_models.push(model);
    }

    /// Adds word embeddings, after those that are there.
    pub fn add_embeddings(&mut self, model: WordEmbeddings)
        ensures
            final(self)@ == old(self)@,
            final(self).variant_models() == old(self).variant_models(),
            final(self).embeddings() == old(self).embeddings().push(model),
    {
        self.embeddings.push(model);
    }

    /// Takes the first variant model that is left, or `None` where none is.
    pub fn take_variant_model(&mut self) -> (r: Option<analiticcl::VariantModel>)
        ensures
            final(self)@ == old(self)@,
            final(self).embeddings() == old(self).embeddings(),
            match r {
                Some(model) => old(self).variant_models().len() > 0 && model == old(
                    self,
                ).variant_models()[0] && final(self).variant_models() == old(
                    self,
                ).variant_models().drop_first(),
                None => old(self).variant_models().len() == 0 && final(self).variant_models()
                    == old(self).variant_models(),
            },
    {
        if self.variant_models.len() > 0 {
            Some(self.variant_models.remove(0))
        } else {
            None
        }
    }

    /// Takes the first word embeddings that are left, or `None` where none
    /// are.
    pub fn take_embeddings(&mut self) -> (r: Option<WordEmbeddings>)
        ensures
            final(self)@ == old(self)@,
            final(self).variant_models() == old(self).variant_models(),
            match r {
                Some(model) => old(self).embeddings().len() > 0 && model == old(
                    self,
                ).embeddings()[0] && final(self).embeddings() == old(
                    self,
                ).embeddings().drop_first(),
                None => old(self).embeddings().len() == 0 && final(self).embeddings() == old(
                    self,
                ).embeddings(),
            },
    {
        if self.embeddings.len() > 0 {
            Some(self.embeddings.remove(0))
        } else {
            None
        }
    }

    /// Adds the text `content` of the file `path`.
    pub fn insert(&mut self, path: &str, content: String)
        ensures
            final(self)@ == old(self)@.push((path@, content@)),
            final(self).variant_models() == old(self).variant_models(),
            final(self).embeddings() == old(self).embeddings(),
    {
        self.files.push(SourceFile { path: path.to_owned(), content });
        proof {
            assert(final(self)@ =~= old(self)@.push((path@, content@)));
        }
    }

    /// The text of the file `path`, or `None` where it was not added.
    pub fn get(&self, path: &str) -> (r: Option<&str>)
        ensures
            match r {
                Some(content) => source_of(self@, path@) == Some(content@),
                None => source_of(self@, path@).is_none(),
            },
    {
        let mut i: usize = 0;
        proof {
            assert(self@.skip(0) =~= self@);
        }
        while i < self.files.len()
            invariant
                i <= self.files.len(),
                source_of(self@, path@) == source_of(self@.skip(i as int), path@),
            decreases self.files.len() - i,
        {
            proof {
                assert(self@.skip(i as int)[0] == (self.files@[i as int].path@, self.files@[i as int].content@));
                assert(self@.skip(i as int).drop_first() =~= self@.skip(i + 1));
            }
            if same_text(self.files[i].path.as_str(), path) {
                return Some(self.files[i].content.as_str());
            }
            i = i + 1;
        }
        None
    }
}

} // verus!
