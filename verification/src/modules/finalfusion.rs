//! A module over word embeddings: what it reads from the parameters of a
//! query, and what it makes of the neighbours that were found.
//!
//! The embeddings are read by the caller, and the module holds them. The
//! search among them computes with floating-point numbers and is the
//! caller's: the module says for how many neighbours to search, which
//! depends on the number of words that the embeddings hold, the caller
//! searches, and the module makes its records of what was found.

use vstd::prelude::*;
use vstd::string::*;
use crate::chars::texts;
use crate::error::{Error, ErrorView};
use crate::expansion::{
    record_views, ExpansionMap, Score, TermExpansion, TermExpansionView, TermExpansions,
};
use crate::lexer::{term_views, Term, TermView};
use crate::modules::{
    one_record_each, outcome_of, read_number, scope_number, Module, Outcome,
};
use crate::params::{QueryParamView, QueryParams};

verus! {

/// `finalfusion::embeddings::Embeddings`: a vocabulary and the vectors of
/// its words. The library holds them and hands them out; it does not look
/// into them.
#[verifier::external_type_specification]
#[verifier::external_body]
#[verifier::reject_recursive_types(V)]
#[verifier::reject_recursive_types(S)]
pub struct ExEmbeddings<V, S>(finalfusion::embeddings::Embeddings<V, S>);

/// `finalfusion::vocab::VocabWrap`: a vocabulary of any kind.
#[verifier::external_type_specification]
#[verifier::external_body]
pub struct ExVocabWrap(finalfusion::vocab::VocabWrap);

/// `finalfusion::storage::StorageViewWrap`: vectors that can be viewed as a
/// matrix.
#[verifier::external_type_specification]
#[verifier::external_body]
pub struct ExStorageViewWrap(finalfusion::storage::StorageViewWrap);

/// Word embeddings as the module holds them.
pub type WordEmbeddings = finalfusion::embeddings::Embeddings<
    finalfusion::vocab::VocabWrap,
    finalfusion::storage::StorageViewWrap,
>;

/// The words of the vocabulary of embeddings.
pub uninterp spec fn embedded_words(model: WordEmbeddings) -> Set<Seq<char>>;

/// Calls `finalfusion::vocab::Vocab::words_len` on the vocabulary of the
/// embeddings, which returns the number of its words.
#[verifier::external_body]
fn vocabulary_len(model: &WordEmbeddings) -> (r: usize)
    ensures
        r == embedded_words(*model).len(),
{
    finalfusion::vocab::Vocab::words_len(model.vocab())
}

/// How a module over word embeddings is set up.
#[derive(Debug, Clone)]
pub struct FinalFusionConfig {
    /// Short identifier.
    id: String,
    /// Name for people to read.
    name: String,
    /// Where the embeddings are kept.
    file: String,
    /// The number of nearest neighbours, unless the query sets another.
    k: usize,
}

/// The mathematical value of a [`FinalFusionConfig`].
pub struct FinalFusionConfigView {
    pub id: Seq<char>,
    pub name: Seq<char>,
    pub file: Seq<char>,
    pub k: usize,
}

impl View for FinalFusionConfig {
    type V = FinalFusionConfigView;

    closed spec fn view(&self) -> FinalFusionConfigView {
        FinalFusionConfigView { id: self.id@, name: self.name@, file: self.file@, k: self.k }
    }
}

impl FinalFusionConfig {
    /// A configuration that asks for ten neighbours.
    pub fn new(id: &str, name: &str, file: &str) -> (r: Self)
        ensures
            r@ == (FinalFusionConfigView { id: id@, name: name@, file: file@, k: 10 }),
    {
        FinalFusionConfig { id: id.to_owned(), name: name.to_owned(), file: file.to_owned(), k: 10 }
    }

    /// The same with another number of neighbours.
    pub fn with_k(self, k: usize) -> (r: Self)
        ensures
            r@ == (FinalFusionConfigView { k, ..self@ }),
    {
        let mut r = self;
        r.k = k;
        r
    }

    pub fn id(&self) -> (r: &str)
        ensures
            r@ == self@.id,
    {
        self.id.as_str()
    }

    pub fn name(&self) -> (r: &str)
        ensures
            r@ == self@.name,
    {
        self.name.as_str()
    }

    /// Where the embeddings are kept.
    pub fn file(&self) -> (r: &str)
        ensures
            r@ == self@.file,
    {
        self.file.as_str()
    }

    /// The number of nearest neighbours, unless the query sets another.
    pub fn k(&self) -> (r: usize)
        ensures
            r == self@.k,
    {
        self.k
    }
}

/// The parameter that sets the number of neighbours of a query.
pub open spec fn neighbours_key() -> Seq<char> {
    "k"@
}

/// The failure of a parameter `k` that is no unsigned integer.
pub open spec fn invalid_neighbours() -> ErrorView {
    ErrorView::QueryExpandError("invalid value for k (nearest-neighbours) parameter"@)
}

/// The number of neighbours of a query: that of the first parameter `k` in
/// the module's scope, cut to the width of `usize`, or that of the
/// configuration where there is no such parameter. A parameter `k` that is
/// no unsigned integer is a failure, and so is a parameter of the module's
/// scope with any other key; the first such parameter decides.
pub open spec fn neighbours_of(cfg: FinalFusionConfigView, params: Seq<QueryParamView>) -> Result<
    usize,
    ErrorView,
> {
    match scope_number(params, cfg.id, "finalfusion"@, neighbours_key(), invalid_neighbours()) {
        Ok(Some(n)) => Ok(n as usize),
        Ok(None) => Ok(cfg.k),
        Err(e) => Err(e),
    }
}

/// For how many neighbours to search among embeddings with `vocabulary`
/// words, where `k` are asked for: not at all where there are no words, else
/// for `k`, but for one at least and for no more than there are words.
pub open spec fn search_limit(k: usize, vocabulary: nat) -> Option<usize> {
    if vocabulary == 0 {
        None
    } else if k == 0 {
        Some(1usize)
    } else if k < vocabulary {
        Some(k)
    } else {
        Some(vocabulary as usize)
    }
}

/// The words of neighbours.
pub open spec fn neighbour_words(found: Seq<(Seq<char>, u32)>) -> Seq<Seq<char>> {
    Seq::new(found.len(), |i: int| found[i].0)
}

/// The scores of neighbours: each is the bits of a number of single
/// precision.
pub open spec fn neighbour_scores(found: Seq<(Seq<char>, u32)>) -> Seq<Score> {
    Seq::new(found.len(), |i: int| Score::Single(found[i].1))
}

/// The first `k` of the neighbours `found`, or all of them where they are
/// fewer.
pub open spec fn first_neighbours(found: Seq<(Seq<char>, u32)>, k: usize) -> Seq<
    (Seq<char>, u32),
> {
    if found.len() > k {
        found.take(k as int)
    } else {
        found
    }
}

/// The values of neighbours.
pub open spec fn neighbour_views(found: Seq<(String, u32)>) -> Seq<(Seq<char>, u32)> {
    Seq::new(found.len(), |i: int| (found[i].0@, found[i].1))
}

/// The values of neighbours that may be missing.
pub open spec fn opt_neighbour_views(found: Option<Vec<(String, u32)>>) -> Option<
    Seq<(Seq<char>, u32)>,
> {
    match found {
        Some(f) => Some(neighbour_views(f@)),
        None => None,
    }
}

/// The values of the neighbours of each term.
pub open spec fn all_neighbour_views(found: Seq<Option<Vec<(String, u32)>>>) -> Seq<
    Option<Seq<(Seq<char>, u32)>>,
> {
    Seq::new(found.len(), |i: int| opt_neighbour_views(found[i]))
}

/// The record of a module over word embeddings with the given neighbours
/// and their scores.
pub open spec fn neighbours_record(
    cfg: FinalFusionConfigView,
    words: Seq<Seq<char>>,
    scores: Seq<Score>,
) -> TermExpansionView {
    TermExpansionView {
        expansions: words,
        scores,
        source_id: Some(cfg.id),
        source_name: Some(cfg.name),
        link: None,
    }
}

/// The neighbours of a term that count: the first `k` of those that the
/// search gave; none where it gave nothing, because the embeddings have no
/// vector for the term.
pub open spec fn kept_neighbours(found: Option<Seq<(Seq<char>, u32)>>, k: usize) -> Seq<
    (Seq<char>, u32),
> {
    match found {
        Some(f) => first_neighbours(f, k),
        None => Seq::empty(),
    }
}

/// What a map becomes when the neighbours `found` of `term` are put into
/// it: where neighbours count, the term gets one record of the module, which
/// holds them and their scores, in place of what it had; where none does,
/// nothing changes.
pub open spec fn with_neighbours(
    m: ExpansionMap,
    cfg: FinalFusionConfigView,
    term: Seq<char>,
    found: Option<Seq<(Seq<char>, u32)>>,
    k: usize,
) -> ExpansionMap {
    let kept = kept_neighbours(found, k);
    if kept.len() > 0 {
        m.insert(
            term,
            seq![neighbours_record(cfg, neighbour_words(kept), neighbour_scores(kept))],
        )
    } else {
        m
    }
}

/// What the search gave for term `i`: nothing where `found` holds nothing
/// for it.
pub open spec fn neighbours_for(found: Seq<Option<Seq<(Seq<char>, u32)>>>, i: int) -> Option<
    Seq<(Seq<char>, u32)>,
> {
    if 0 <= i < found.len() {
        found[i]
    } else {
        None
    }
}

/// What the neighbours `found` make, one result of the search for each of
/// the first `n` of `terms`, taken in the order of the terms.
pub open spec fn gathered(
    cfg: FinalFusionConfigView,
    terms: Seq<TermView>,
    found: Seq<Option<Seq<(Seq<char>, u32)>>>,
    k: usize,
    n: nat,
) -> ExpansionMap
    decreases n,
{
    if n == 0 {
        Map::empty()
    } else {
        with_neighbours(
            gathered(cfg, terms, found, k, (n - 1) as nat),
            cfg,
            terms[n - 1].text(),
            neighbours_for(found, n - 1),
            k,
        )
    }
}

/// What a module over word embeddings answers where the neighbours `found`
/// were found: the failure of its parameters, if they give one, else what
/// the neighbours make.
pub open spec fn neighbours_answer(
    cfg: FinalFusionConfigView,
    terms: Seq<TermView>,
    params: Seq<QueryParamView>,
    found: Seq<Option<Seq<(Seq<char>, u32)>>>,
) -> Outcome {
    match neighbours_of(cfg, params) {
        Ok(k) => Ok(gathered(cfg, terms, found, k, terms.len())),
        Err(e) => Err(e),
    }
}

/// What is gathered holds one record in each entry.
pub proof fn lemma_gathered_shape(
    cfg: FinalFusionConfigView,
    terms: Seq<TermView>,
    found: Seq<Option<Seq<(Seq<char>, u32)>>>,
    k: usize,
    n: nat,
)
    ensures
        one_record_each(gathered(cfg, terms, found, k, n)),
    decreases n,
{
    if n > 0 {
        lemma_gathered_shape(cfg, terms, found, k, (n - 1) as nat);
    }
}

/// A module over word embeddings.
pub struct FinalFusionModule {
    config: FinalFusionConfig,
    model: Option<WordEmbeddings>,
    ready: bool,
}

impl FinalFusionModule {
    /// The configuration.
    pub closed spec fn settings(&self) -> FinalFusionConfigView {
        self.config@
    }

    /// The embeddings of the module, where it holds them.
    pub closed spec fn embeddings(&self) -> Option<WordEmbeddings> {
        self.model
    }

    /// Whether the module holds its embeddings.
    pub open spec fn has_model(&self) -> bool {
        self.embeddings().is_some()
    }

    /// The number of words that the embeddings of the module hold: none
    /// where it holds no embeddings.
    pub open spec fn vocabulary(&self) -> nat {
        match self.embeddings() {
            Some(model) => embedded_words(model).len(),
            None => 0,
        }
    }

    /// Whether the module has been loaded.
    pub closed spec fn is_ready(&self) -> bool {
        self.ready
    }

    /// A module without its embeddings, not loaded.
    pub fn new(config: FinalFusionConfig) -> (r: Self)
        ensures
            r.settings() == config@,
            r.embeddings().is_none(),
            !r.is_ready(),
    {
        FinalFusionModule { config, model: None, ready: false }
    }

    /// The same with its embeddings.
    pub fn with_model(self, model: WordEmbeddings) -> (r: Self)
        ensures
            r.settings() == self.settings(),
            r.embeddings() == Some(model),
            r.is_ready() == self.is_ready(),
    {
        let mut r = self;
        r.model = Some(model);
        r
    }

    /// Whether the module has been loaded.
    pub fn ready(&self) -> (r: bool)
        ensures
            r == self.is_ready(),
    {
        self.ready
    }

    /// The configuration.
    pub fn config(&self) -> (r: &FinalFusionConfig)
        ensures
            r@ == self.settings(),
    {
        &self.config
    }

    /// The embeddings, where they were handed over.
    pub fn model(&self) -> (r: Option<&WordEmbeddings>)
        ensures
            match r {
                Some(model) => self.embeddings() == Some(*model),
                None => self.embeddings().is_none(),
            },
    {
        self.model.as_ref()
    }

    /// The type of the module.
    pub fn kind(&self) -> (r: &'static str)
        ensures
            r@ == "finalfusion"@,
    {
        "finalfusion"
    }

    pub fn id(&self) -> (r: &str)
        ensures
            r@ == self.settings().id,
    {
        self.config.id.as_str()
    }

    pub fn name(&self) -> (r: &str)
        ensures
            r@ == self.settings().name,
    {
        self.config.name.as_str()
    }

    /// Takes the embeddings that were handed over into use. Fails where
    /// none were. To be called once.
    pub fn load(&mut self) -> (r: Result<(), Error>)
        requires
            !old(self).is_ready(),
        ensures
            final(self).settings() == old(self).settings(),
            final(self).embeddings() == old(self).embeddings(),
            match r {
                Ok(()) => old(self).has_model() && final(self).is_ready(),
                Err(e) => !old(self).has_model() && !final(self).is_ready() && e@
                    == ErrorView::LoadError("no embeddings were supplied"@),
            },
    {
        if self.model.is_some() {
            self.ready = true;
            Ok(())
        } else {
            Err(Error::load("no embeddings were supplied"))
        }
    }

    /// The number of neighbours that a query asks for under `params`, or
    /// the failure that the parameters of the module's scope give: a `k`
    /// that is no unsigned integer, or any other key.
    pub fn neighbours(&self, params: &QueryParams) -> (r: Result<usize, Error>)
        ensures
            match r {
                Ok(k) => neighbours_of(self.settings(), params@) == Ok::<usize, ErrorView>(k),
                Err(e) => neighbours_of(self.settings(), params@) == Err::<usize, ErrorView>(e@),
            },
    {
        match read_number(
            params,
            self.config.id.as_str(),
            "finalfusion",
            "k",
            "invalid value for k (nearest-neighbours) parameter",
        ) {
            Ok(Some(n)) => Ok(#[verifier::truncate] (n as usize)),
            Ok(None) => Ok(self.config.k),
            Err(e) => Err(e),
        }
    }

    /// For how many neighbours to search among the embeddings of the
    /// module, where `k` are asked for; `None` where no search is to be
    /// made, because the module holds no embeddings or they hold no words.
    pub fn limit(&self, k: usize) -> (r: Option<usize>)
        ensures
            r == search_limit(k, self.vocabulary()),
    {
        let vocabulary = match &self.model {
            Some(model) => vocabulary_len(model),
            None => 0,
        };
        if vocabulary == 0 {
            None
        } else if k == 0 {
            Some(1)
        } else if k < vocabulary {
            Some(k)
        } else {
            Some(vocabulary)
        }
    }

    /// The record for a term of which the neighbours `words` with the
    /// scores `scores` were found.
    pub fn record(&self, words: Vec<String>, scores: Vec<Score>) -> (r: TermExpansion)
        ensures
            r@ == neighbours_record(self.settings(), texts(words@), scores@),
            words@.len() == scores@.len() ==> r@.aligned(),
    {
        TermExpansion::new().with_source(
            self.config.id.as_str(),
            self.config.name.as_str(),
        ).with_expansions(words).with_scores(scores)
    }

    /// Puts what the search gave for `term` into `expansions`: `term` gets
    /// one record of the module, which holds the first `k` of the neighbours
    /// that were found, each with its score, in place of what it had; where
    /// the search gave nothing or none of the neighbours is kept, nothing
    /// changes.
    pub fn add_neighbours(
        &self,
        expansions: &mut TermExpansions,
        term: &str,
        found: Option<Vec<(String, u32)>>,
        k: usize,
    )
        requires
            old(expansions).wf(),
        ensures
            final(expansions).wf(),
            final(expansions)@ == with_neighbours(
                old(expansions)@,
                self.settings(),
                term@,
                opt_neighbour_views(found),
                k,
            ),
    {
        match found {
            Some(found) => {
                let ghost all = neighbour_views(found@);
                let mut found = found;
                if found.len() > k {
                    found.truncate(k);
                }
                proof {
                    assert(neighbour_views(found@) =~= first_neighbours(all, k));
                }
                if found.len() == 0 {
                    return ;
                }
                let (words, scores) = split_neighbours(found);
                proof {
                    assert(texts(words@) =~= neighbour_words(first_neighbours(all, k)));
                    assert(scores@ =~= neighbour_scores(first_neighbours(all, k)));
                }
                let record = self.record(words, scores);
                let mut records: Vec<TermExpansion> = Vec::new();
                records.push(record);
                proof {
                    assert(record_views(records@) =~= seq![record@]);
                }
                expansions.insert(term.to_owned(), records);
            },
            None => {},
        }
    }

    /// What the module answers where the search gave `found`, one result
    /// for each term, in the order of the terms: a term for which it gave
    /// neighbours gets an entry with one record, which holds as many of them
    /// as the query asks for; a term of which no neighbour is kept gets
    /// nothing. Fails as `neighbours` does. The module must have been
    /// loaded.
    pub fn expand_query(
        &self,
        terms: &Vec<Term>,
        params: &QueryParams,
        found: &Vec<Option<Vec<(String, u32)>>>,
    ) -> (r: Result<TermExpansions, Error>)
        requires
            self.is_ready(),
        ensures
            outcome_of(r) == neighbours_answer(
                self.settings(),
                term_views(terms@),
                params@,
                all_neighbour_views(found@),
            ),
            r matches Ok(m) ==> m.wf() && one_record_each(m@),
    {
        let k = match self.neighbours(params) {
            Ok(k) => k,
            Err(e) => {
                return Err(e);
            },
        };
        let mut expansions = TermExpansions::new();
        let ghost tv = term_views(terms@);
        let ghost cfg = self.settings();
        let ghost all = all_neighbour_views(found@);
        let mut i: usize = 0;
        while i < terms.len()
            invariant
                i <= terms.len(),
                tv == term_views(terms@),
                cfg == self.settings(),
                all == all_neighbour_views(found@),
                expansions.wf(),
                expansions@ == gathered(cfg, tv, all, k, i as nat),
            decreases terms.len() - i,
        {
            let text = terms[i].as_str();
            let one: Option<Vec<(String, u32)>> = if i < found.len() {
                match &found[i] {
                    Some(f) => Some(clone_neighbours(f)),
                    None => None,
                }
            } else {
                None
            };
            proof {
                assert(tv[i as int].text() == text@);
                assert(opt_neighbour_views(one) == neighbours_for(all, i as int));
            }
            self.add_neighbours(&mut expansions, text, one, k);
            i = i + 1;
        }
        proof {
            lemma_gathered_shape(cfg, tv, all, k, terms@.len());
        }
        Ok(expansions)
    }
}

/// A copy of the neighbours `found`.
fn clone_neighbours(found: &Vec<(String, u32)>) -> (r: Vec<(String, u32)>)
    ensures
        neighbour_views(r@) == neighbour_views(found@),
{
    let mut out: Vec<(String, u32)> = Vec::new();
    let mut i: usize = 0;
    while i < found.len()
        invariant
            i <= found.len(),
            out@.len() == i,
            forall|j: int| 0 <= j < i ==> (#[trigger] out@[j]).0@ == found@[j].0@ && out@[j].1 == found@[j].1,
        decreases found.len() - i,
    {
        out.push((found[i].0.clone(), found[i].1));
        i = i + 1;
    }
    proof {
        assert(neighbour_views(out@) =~= neighbour_views(found@));
    }
    out
}

/// The words of `found` and their scores.
fn split_neighbours(found: Vec<(String, u32)>) -> (r: (Vec<String>, Vec<Score>))
    ensures
        r.0@.len() == found@.len(),
        r.1@.len() == found@.len(),
        forall|i: int| 0 <= i < found@.len() ==> (#[trigger] r.0@[i])@ == found@[i].0@,
        forall|i: int| 0 <= i < found@.len() ==> #[trigger] r.1@[i] == Score::Single(found@[i].1),
{
    let mut words: Vec<String> = Vec::new();
    let mut scores: Vec<Score> = Vec::new();
    let mut i: usize = 0;
    while i < found.len()
        invariant
            i <= found.len(),
            words@.len() == i,
            scores@.len() == i,
            forall|j: int| 0 <= j < i ==> (#[trigger] words@[j])@ == found@[j].0@,
            forall|j: int| 0 <= j < i ==> #[trigger] scores@[j] == Score::Single(found@[j].1),
        decreases found.len() - i,
    {
        words.push(found[i].0.clone());
        scores.push(Score::Single(found[i].1));
        i = i + 1;
    }
    (words, scores)
}

/// The search of a module over word embeddings for one query: the module
/// with what the search gave for each term of the query.
pub struct NeighbourSearch<'a> {
    module: &'a FinalFusionModule,
    found: Vec<Option<Vec<(String, u32)>>>,
}

impl<'a> NeighbourSearch<'a> {
    /// The module.
    pub closed spec fn of(&self) -> FinalFusionModule {
        *self.module
    }

    /// What the search gave, one result for each term.
    pub closed spec fn neighbours(&self) -> Seq<Option<Seq<(Seq<char>, u32)>>> {
        all_neighbour_views(self.found@)
    }

    /// The search of `module` that gave `found`, one result for each term of
    /// the query.
    pub fn new(module: &'a FinalFusionModule, found: Vec<Option<Vec<(String, u32)>>>) -> (r: Self)
        ensures
            r.of() == *module,
            r.neighbours() == all_neighbour_views(found@),
    {
        NeighbourSearch { module, found }
    }
}

impl<'a> Module for NeighbourSearch<'a> {
    open spec fn ident(&self) -> Seq<char> {
        self.of().settings().id
    }

    open spec fn loaded(&self) -> bool {
        self.of().is_ready()
    }

    open spec fn label(&self) -> Seq<char> {
        self.of().settings().name
    }

    open spec fn family(&self) -> Seq<char> {
        "finalfusion"@
    }

    open spec fn answers(
        &self,
        terms: Seq<TermView>,
        params: Seq<QueryParamView>,
        answer: Outcome,
    ) -> bool {
        answer == neighbours_answer(self.of().settings(), terms, params, self.neighbours())
    }

    fn kind(&self) -> (r: &'static str) {
        self.module.kind()
    }

    fn id(&self) -> (r: &str) {
        self.module.id()
    }

    fn name(&self) -> (r: &str) {
        self.module.name()
    }

    /// A search loads nothing: its module is loaded by itself.
    fn load(&mut self) -> (r: Result<(), Error>)
        ensures
            r is Err,
            *final(self) == *old(self),
    {
        Err(Error::load("a search loads nothing"))
    }

    /// What the neighbours that were found make for the terms, or the
    /// failure of the parameters of the query.
    fn expand_query(&self, terms: &Vec<Term>, params: &QueryParams) -> (r: Result<
        TermExpansions,
        Error,
    >)
    {
        self.module.expand_query(terms, params, &self.found)
    }
}

} // verus!
