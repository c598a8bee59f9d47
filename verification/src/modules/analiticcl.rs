//! A module over a variant model: what it reads from the parameters of a
//! query, and what it makes of the variants that were found.
//!
//! The model is built by the caller, from the files that the configuration
//! names, and the module holds it. The search in the model computes with
//! floating-point numbers and is the caller's: the module says what a query
//! sets in place of the search parameters of the configuration, the caller
//! searches, and the module makes its records of what was found.

use vstd::prelude::*;
use vstd::string::*;
use crate::chars::{same_text, texts};
use crate::error::{Error, ErrorView};
use crate::expander::term_keys;
use crate::expansion::{
    record_views, ExpansionMap, Score, TermExpansion, TermExpansionView, TermExpansions,
};
use crate::lexer::{term_views, Term, TermView};
use crate::modules::settings::{DistanceThreshold, SearchParameters, VocabParams, Weights};
use crate::modules::{one_record_each, outcome_of, Module, Outcome};
use crate::params::{
    param_ref_views, scoped, Number, ParamValue, ParamValueView, QueryParam, QueryParamView,
    QueryParams,
};

verus! {

/// `analiticcl::VariantModel`: a lexicon that is indexed for the search of
/// variants. The library holds it and hands it out; it does not look into
/// it.
#[verifier::external_type_specification]
#[verifier::external_body]
pub struct ExVariantModel(analiticcl::VariantModel);

/// A lexicon or frequency list of a variant model.
#[derive(Debug, Clone)]
pub struct Lexicon {
    filename: String,
    params: VocabParams,
}

/// The mathematical value of a [`Lexicon`].
pub struct LexiconView {
    pub filename: Seq<char>,
    pub params: VocabParams,
}

impl View for Lexicon {
    type V = LexiconView;

    closed spec fn view(&self) -> LexiconView {
        LexiconView { filename: self.filename@, params: self.params }
    }
}

impl Lexicon {
    pub fn new(filename: &str, params: VocabParams) -> (r: Self)
        ensures
            r@ == (LexiconView { filename: filename@, params }),
    {
        Lexicon { filename: filename.to_owned(), params }
    }

    pub fn filename(&self) -> (r: &str)
        ensures
            r@ == self@.filename,
    {
        self.filename.as_str()
    }

    /// How the lexicon is read.
    pub fn params(&self) -> (r: VocabParams)
        ensures
            r == self@.params,
    {
        self.params
    }
}

/// A list of weighted variants of a variant model.
#[derive(Debug, Clone)]
pub struct VariantList {
    filename: String,
    params: Option<VocabParams>,
    transparent: bool,
}

/// The mathematical value of a [`VariantList`].
pub struct VariantListView {
    pub filename: Seq<char>,
    pub params: Option<VocabParams>,
    pub transparent: bool,
}

impl View for VariantList {
    type V = VariantListView;

    closed spec fn view(&self) -> VariantListView {
        VariantListView {
            filename: self.filename@,
            params: self.params,
            transparent: self.transparent,
        }
    }
}

impl VariantList {
    pub fn new(filename: &str, params: Option<VocabParams>, transparent: bool) -> (r: Self)
        ensures
            r@ == (VariantListView { filename: filename@, params, transparent }),
    {
        VariantList { filename: filename.to_owned(), params, transparent }
    }

    pub fn filename(&self) -> (r: &str)
        ensures
            r@ == self@.filename,
    {
        self.filename.as_str()
    }

    /// How the list is read, where the configuration says so.
    pub fn params(&self) -> (r: Option<VocabParams>)
        ensures
            r == self@.params,
    {
        self.params
    }

    pub fn transparent(&self) -> (r: bool)
        ensures
            r == self@.transparent,
    {
        self.transparent
    }
}

/// The values of a sequence of lexicons.
pub open spec fn lexicon_views(v: Seq<Lexicon>) -> Seq<LexiconView> {
    Seq::new(v.len(), |i: int| v[i]@)
}

/// The values of a sequence of variant lists.
pub open spec fn variant_list_views(v: Seq<VariantList>) -> Seq<VariantListView> {
    Seq::new(v.len(), |i: int| v[i]@)
}

/// How a module over a variant model is set up.
#[derive(Debug, Clone)]
pub struct AnaliticclConfig {
    /// Short identifier.
    id: String,
    /// Name for people to read.
    name: String,
    /// The weights of the parts of a score.
    weights: Weights,
    /// Where the alphabet is kept.
    alphabet: String,
    /// Lexicons and frequency lists.
    lexicons: Vec<Lexicon>,
    /// Lists of weighted variants.
    variantlists: Vec<VariantList>,
    /// Lists of confusables.
    confusable_lists: Vec<String>,
    /// The parameters of a search, unless the query sets others.
    searchparams: SearchParameters,
}

/// The mathematical value of an [`AnaliticclConfig`].
pub struct AnaliticclConfigView {
    pub id: Seq<char>,
    pub name: Seq<char>,
    pub weights: Weights,
    pub alphabet: Seq<char>,
    pub lexicons: Seq<LexiconView>,
    pub variantlists: Seq<VariantListView>,
    pub confusable_lists: Seq<Seq<char>>,
    pub searchparams: SearchParameters,
}

impl View for AnaliticclConfig {
    type V = AnaliticclConfigView;

    closed spec fn view(&self) -> AnaliticclConfigView {
        AnaliticclConfigView {
            id: self.id@,
            name: self.name@,
            weights: self.weights,
            alphabet: self.alphabet@,
            lexicons: lexicon_views(self.lexicons@),
            variantlists: variant_list_views(self.variantlists@),
            confusable_lists: texts(self.confusable_lists@),
            searchparams: self.searchparams,
        }
    }
}

impl AnaliticclConfig {
    /// A configuration without lexicons and lists, with the weights and
    /// the search parameters of a model that sets none.
    pub fn new(id: &str, name: &str, alphabet: &str) -> (r: Self)
        ensures
            r@ == (AnaliticclConfigView {
                id: id@,
                name: name@,
                weights: Weights::standard(),
                alphabet: alphabet@,
                lexicons: Seq::empty(),
                variantlists: Seq::empty(),
                confusable_lists: Seq::empty(),
                searchparams: SearchParameters::standard(),
            }),
    {
        let r = AnaliticclConfig {
            id: id.to_owned(),
            name: name.to_owned(),
            weights: Weights::default(),
            alphabet: alphabet.to_owned(),
            lexicons: Vec::new(),
            variantlists: Vec::new(),
            confusable_lists: Vec::new(),
            searchparams: SearchParameters::default(),
        };
        proof {
            assert(r@.lexicons =~= Seq::<LexiconView>::empty());
            assert(r@.variantlists =~= Seq::<VariantListView>::empty());
            assert(r@.confusable_lists =~= Seq::<Seq<char>>::empty());
        }
        r
    }

    /// The same with other weights.
    pub fn with_weights(self, weights: Weights) -> (r: Self)
        ensures
            r@ == (AnaliticclConfigView { weights, ..self@ }),
    {
        let mut r = self;
        r.weights = weights;
        r
    }

    /// The same with other search parameters.
    pub fn with_searchparams(self, searchparams: SearchParameters) -> (r: Self)
        ensures
            r@ == (AnaliticclConfigView { searchparams, ..self@ }),
    {
        let mut r = self;
        r.searchparams = searchparams;
        r
    }

    /// The same with one more lexicon, which is read as `params` say. It
    /// comes after the lexicons that are there.
    pub fn with_lexicon(self, filename: &str, params: VocabParams) -> (r: Self)
        ensures
            r@ == (AnaliticclConfigView {
                lexicons: self@.lexicons.push(LexiconView { filename: filename@, params }),
                ..self@
            }),
    {
        let mut r = self;
        r.lexicons.push(Lexicon::new(filename, params));
        proof {
            assert(r@.lexicons =~= self@.lexicons.push(LexiconView { filename: filename@, params }));
        }
        r
    }

    /// The same with one more list of weighted variants.
    pub fn with_variantlist(
        self,
        filename: &str,
        params: Option<VocabParams>,
        transparent: bool,
    ) -> (r: Self)
        ensures
            r@ == (AnaliticclConfigView {
                variantlists: self@.variantlists.push(
                    VariantListView { filename: filename@, params, transparent },
                ),
                ..self@
            }),
    {
        let mut r = self;
        r.variantlists.push(VariantList::new(filename, params, transparent));
        proof {
            assert(r@.variantlists =~= self@.variantlists.push(
                VariantListView { filename: filename@, params, transparent },
            ));
        }
        r
    }

    /// The same with one more list of confusables.
    pub fn with_confusable_list(self, filename: &str) -> (r: Self)
        ensures
            r@ == (AnaliticclConfigView {
                confusable_lists: self@.confusable_lists.push(filename@),
                ..self@
            }),
    {
        let mut r = self;
        r.confusable_lists.push(filename.to_owned());
        proof {
            assert(r@.confusable_lists =~= self@.confusable_lists.push(filename@));
        }
        r
    }

    pub fn id(&self) -> (r: &str)
        ensures
            r@ == self@.id,
    {
        self.id.as_str()
    }

    pub fn name(&self) -> (r: &str)
        ensures
            r@ == self@.name,
    {
        self.name.as_str()
    }

    /// Where the alphabet is kept.
    pub fn alphabet(&self) -> (r: &str)
        ensures
            r@ == self@.alphabet,
    {
        self.alphabet.as_str()
    }

    /// The weights of the parts of a score.
    pub fn weights(&self) -> (r: Weights)
        ensures
            r == self@.weights,
    {
        self.weights
    }

    /// The parameters of a search, unless the query sets others.
    pub fn searchparams(&self) -> (r: SearchParameters)
        ensures
            r == self@.searchparams,
    {
        self.searchparams
    }

    pub fn lexicons(&self) -> (r: &Vec<Lexicon>)
        ensures
            lexicon_views(r@) == self@.lexicons,
    {
        &self.lexicons
    }

    pub fn variantlists(&self) -> (r: &Vec<VariantList>)
        ensures
            variant_list_views(r@) == self@.variantlists,
    {
        &self.variantlists
    }

    pub fn confusable_lists(&self) -> (r: &Vec<String>)
        ensures
            texts(r@) == self@.confusable_lists,
    {
        &self.confusable_lists
    }
}

/// What a query sets in place of the search parameters of the
/// configuration. A distance is an absolute one.
#[derive(Debug, Clone, Copy, PartialEq, Eq)]
pub struct SearchOverrides {
    pub max_matches: Option<usize>,
    pub edit_distance: Option<u8>,
    pub anagram_distance: Option<u8>,
    pub score_threshold: Option<Number>,
    pub cutoff_threshold: Option<Number>,
}

impl SearchOverrides {
    /// Nothing set.
    pub open spec fn none() -> SearchOverrides {
        SearchOverrides {
            max_matches: None,
            edit_distance: None,
            anagram_distance: None,
            score_threshold: None,
            cutoff_threshold: None,
        }
    }
}

/// The failure of a parameter that is not of the kind its key asks for.
pub open spec fn invalid(what: Seq<char>) -> ErrorView {
    ErrorView::QueryExpandError("invalid value for "@ + what + " parameter"@)
}

/// The failure of a parameter with a key that the module does not know.
pub open spec fn unexpected(key: Seq<char>) -> ErrorView {
    ErrorView::QueryExpandError("Got unexpected parameter for analiticcl: "@ + key)
}

/// What the parameter `p` adds to `so`, or the failure that it gives.
/// `max_matches`, `edit_distance` and `anagram_distance` ask for an unsigned
/// integer, which is cut to the width of the setting; `score_threshold` and
/// `cutoff_threshold` ask for a number. Any other key is a failure.
pub open spec fn applied(so: SearchOverrides, p: QueryParamView) -> Result<
    SearchOverrides,
    ErrorView,
> {
    if p.key == "max_matches"@ {
        match p.value.as_u64() {
            Some(n) => Ok(SearchOverrides { max_matches: Some(n as usize), ..so }),
            None => Err(invalid("max_matches"@)),
        }
    } else if p.key == "edit_distance"@ {
        match p.value.as_u64() {
            Some(n) => Ok(SearchOverrides { edit_distance: Some(n as u8), ..so }),
            None => Err(invalid("edit_distance"@)),
        }
    } else if p.key == "anagram_distance"@ {
        match p.value.as_u64() {
            Some(n) => Ok(SearchOverrides { anagram_distance: Some(n as u8), ..so }),
            None => Err(invalid("anagram_distance"@)),
        }
    } else if p.key == "score_threshold"@ {
        match p.value {
            ParamValueView::Number(n) => Ok(SearchOverrides { score_threshold: Some(n), ..so }),
            _ => Err(invalid("score_threshold"@)),
        }
    } else if p.key == "cutoff_threshold"@ {
        match p.value {
            ParamValueView::Number(n) => Ok(SearchOverrides { cutoff_threshold: Some(n), ..so }),
            _ => Err(invalid("cutoff_threshold"@)),
        }
    } else {
        Err(unexpected(p.key))
    }
}

/// What the first `n` of the parameters `ps` set, or the first failure
/// among them.
pub open spec fn overrides(ps: Seq<QueryParamView>, n: nat) -> Result<SearchOverrides, ErrorView>
    decreases n,
{
    if n == 0 {
        Ok(SearchOverrides::none())
    } else {
        match overrides(ps, (n - 1) as nat) {
            Ok(so) => applied(so, ps[n - 1]),
            Err(e) => Err(e),
        }
    }
}

/// What a query sets for the module `id`: `None` where it has no parameter
/// in the module's scope, else what these parameters set, or the first
/// failure among them.
pub open spec fn search_overrides_of(id: Seq<char>, params: Seq<QueryParamView>) -> Result<
    Option<SearchOverrides>,
    ErrorView,
> {
    let own = scoped(params, id);
    if own.len() == 0 {
        Ok(None)
    } else {
        match overrides(own, own.len()) {
            Ok(so) => Ok(Some(so)),
            Err(e) => Err(e),
        }
    }
}

/// The search parameters `base` with what `so` sets in their place: a
/// distance that is set is an absolute one.
pub open spec fn overridden(base: SearchParameters, so: SearchOverrides) -> SearchParameters {
    SearchParameters {
        max_matches: match so.max_matches {
            Some(n) => n,
            None => base.max_matches,
        },
        max_edit_distance: match so.edit_distance {
            Some(n) => DistanceThreshold::Absolute(n),
            None => base.max_edit_distance,
        },
        max_anagram_distance: match so.anagram_distance {
            Some(n) => DistanceThreshold::Absolute(n),
            None => base.max_anagram_distance,
        },
        score_threshold: match so.score_threshold {
            Some(n) => n,
            None => base.score_threshold,
        },
        cutoff_threshold: match so.cutoff_threshold {
            Some(n) => n,
            None => base.cutoff_threshold,
        },
        ..base
    }
}

/// The parameters of the search for a query: those of the configuration
/// with what the query sets for the module `cfg`, or the failure of the
/// first parameter of the module's scope that is not as its key asks.
pub open spec fn search_parameters_of(cfg: AnaliticclConfigView, params: Seq<QueryParamView>)
    -> Result<SearchParameters, ErrorView> {
    match search_overrides_of(cfg.id, params) {
        Ok(Some(so)) => Ok(overridden(cfg.searchparams, so)),
        Ok(None) => Ok(cfg.searchparams),
        Err(e) => Err(e),
    }
}

/// The score of each variant that a module finds: the weight that its
/// configuration gives to the frequency.
pub open spec fn score_of(cfg: AnaliticclConfigView) -> Score {
    Score::Single(cfg.searchparams.freq_weight)
}

/// The search parameters `base` with what `so` sets in their place.
pub fn with_overrides(base: SearchParameters, so: SearchOverrides) -> (r: SearchParameters)
    ensures
        r == overridden(base, so),
{
    let mut r = base;
    match so.max_matches {
        Some(n) => {
            r.max_matches = n;
        },
        None => {},
    }
    match so.edit_distance {
        Some(n) => {
            r.max_edit_distance = DistanceThreshold::Absolute(n);
        },
        None => {},
    }
    match so.anagram_distance {
        Some(n) => {
            r.max_anagram_distance = DistanceThreshold::Absolute(n);
        },
        None => {},
    }
    match so.score_threshold {
        Some(n) => {
            r.score_threshold = n;
        },
        None => {},
    }
    match so.cutoff_threshold {
        Some(n) => {
            r.cutoff_threshold = n;
        },
        None => {},
    }
    r
}

/// The record of a module over a variant model with the given variants,
/// each with the same score.
pub open spec fn variants_record(cfg: AnaliticclConfigView, found: Seq<Seq<char>>, score: Score)
    -> TermExpansionView {
    TermExpansionView {
        expansions: found,
        scores: Seq::new(found.len(), |i: int| score),
        source_id: Some(cfg.id),
        source_name: Some(cfg.name),
        link: None,
    }
}

/// The failure of a parameter that is not of the kind that `what` asks for.
fn invalid_value(what: &str) -> (e: Error)
    ensures
        e@ == invalid(what@),
{
    let mut text = String::new();
    text.append("invalid value for ");
    text.append(what);
    text.append(" parameter");
    proof {
        assert(text@ =~= "invalid value for "@ + what@ + " parameter"@);
    }
    Error::QueryExpandError(text)
}

/// What the parameter `p` adds to `so`, or the failure that it gives.
pub fn apply_param(so: SearchOverrides, p: &QueryParam) -> (r: Result<SearchOverrides, Error>)
    ensures
        match r {
            Ok(next) => applied(so, p@) == Ok::<SearchOverrides, ErrorView>(next),
            Err(e) => applied(so, p@) == Err::<SearchOverrides, ErrorView>(e@),
        },
{
    let key = p.key();
    let mut next = so;
    if same_text(key, "max_matches") {
        match p.value().as_u64() {
            Some(n) => {
                next.max_matches = Some(#[verifier::truncate] (n as usize));
                Ok(next)
            },
            None => Err(invalid_value("max_matches")),
        }
    } else if same_text(key, "edit_distance") {
        match p.value().as_u64() {
            Some(n) => {
                next.edit_distance = Some(#[verifier::truncate] (n as u8));
                Ok(next)
            },
            None => Err(invalid_value("edit_distance")),
        }
    } else if same_text(key, "anagram_distance") {
        match p.value().as_u64() {
            Some(n) => {
                next.anagram_distance = Some(#[verifier::truncate] (n as u8));
                Ok(next)
            },
            None => Err(invalid_value("anagram_distance")),
        }
    } else if same_text(key, "score_threshold") {
        match p.value() {
            ParamValue::Number(n) => {
                next.score_threshold = Some(*n);
                Ok(next)
            },
            _ => Err(invalid_value("score_threshold")),
        }
    } else if same_text(key, "cutoff_threshold") {
        match p.value() {
            ParamValue::Number(n) => {
                next.cutoff_threshold = Some(*n);
                Ok(next)
            },
            _ => Err(invalid_value("cutoff_threshold")),
        }
    } else {
        let mut text = String::new();
        text.append("Got unexpected parameter for analiticcl: ");
        text.append(key);
        proof {
            assert(text@ =~= "Got unexpected parameter for analiticcl: "@ + key@);
        }
        Err(Error::QueryExpandError(text))
    }
}

/// Whether `record` is a record of the module `cfg` that holds variants,
/// each with the score `score`.
pub open spec fn is_variants_record(
    record: TermExpansionView,
    cfg: AnaliticclConfigView,
    score: Score,
) -> bool {
    record.expansions.len() > 0 && record == variants_record(cfg, record.expansions, score)
}

/// Whether `m` is what a search for `terms` may give: an entry for terms
/// only, with one record of the module, which holds variants.
pub open spec fn is_variants_answer(
    m: ExpansionMap,
    cfg: AnaliticclConfigView,
    terms: Seq<TermView>,
    score: Score,
) -> bool {
    forall|k: Seq<char>| #[trigger]
        m.dom().contains(k) ==> term_keys(terms).contains(k) && m[k].len() == 1
            && is_variants_record(m[k][0], cfg, score)
}

/// What a map becomes when the variants `found` of `term` are put into it:
/// where variants were found, the term gets one record of the module, which
/// holds them, in place of what it had; where none was found, nothing
/// changes.
pub open spec fn with_found(
    m: ExpansionMap,
    cfg: AnaliticclConfigView,
    term: Seq<char>,
    found: Seq<Seq<char>>,
    score: Score,
) -> ExpansionMap {
    if found.len() > 0 {
        m.insert(term, seq![variants_record(cfg, found, score)])
    } else {
        m
    }
}

/// Whether variants of `term` are searched for: an empty term has none.
pub open spec fn is_searched(term: Seq<char>) -> bool {
    term.len() > 0
}

/// The variants of term `i` that count: those that were found for it, but
/// none where the term is not searched, and none where `found` holds no
/// list for it.
pub open spec fn found_for(terms: Seq<TermView>, found: Seq<Seq<Seq<char>>>, i: int) -> Seq<
    Seq<char>,
> {
    if 0 <= i < found.len() && 0 <= i < terms.len() && is_searched(terms[i].text()) {
        found[i]
    } else {
        Seq::empty()
    }
}

/// What the variants `found` make, one list of them for each of the first
/// `n` of `terms`, taken in the order of the terms.
pub open spec fn collected(
    cfg: AnaliticclConfigView,
    terms: Seq<TermView>,
    found: Seq<Seq<Seq<char>>>,
    score: Score,
    n: nat,
) -> ExpansionMap
    decreases n,
{
    if n == 0 {
        Map::empty()
    } else {
        with_found(
            collected(cfg, terms, found, score, (n - 1) as nat),
            cfg,
            terms[n - 1].text(),
            found_for(terms, found, n - 1),
            score,
        )
    }
}

/// The texts of each of the lists `v`.
pub open spec fn nested_texts(v: Seq<Vec<String>>) -> Seq<Seq<Seq<char>>> {
    Seq::new(v.len(), |i: int| texts(v[i]@))
}

/// What is collected holds an entry for terms only, each with one record
/// of the module, which holds variants.
pub proof fn lemma_collected_shape(
    cfg: AnaliticclConfigView,
    terms: Seq<TermView>,
    found: Seq<Seq<Seq<char>>>,
    score: Score,
    n: nat,
)
    requires
        n <= terms.len(),
    ensures
        is_variants_answer(collected(cfg, terms, found, score, n), cfg, terms, score),
    decreases n,
{
    if n > 0 {
        lemma_collected_shape(cfg, terms, found, score, (n - 1) as nat);
        assert(terms[n - 1].text() == terms[n - 1].text());
    }
}

/// A module over a variant model.
pub struct AnaliticclModule {
    config: AnaliticclConfig,
    model: Option<analiticcl::VariantModel>,
    ready: bool,
}

impl AnaliticclModule {
    /// The configuration.
    pub closed spec fn settings(&self) -> AnaliticclConfigView {
        self.config@
    }

    /// The model of the module, where it holds one.
    pub closed spec fn variant_model(&self) -> Option<analiticcl::VariantModel> {
        self.model
    }

    /// Whether the module holds its model.
    pub open spec fn has_model(&self) -> bool {
        self.variant_model().is_some()
    }

    /// Whether the module has been loaded.
    pub closed spec fn is_ready(&self) -> bool {
        self.ready
    }

    /// A module without its model, not loaded.
    pub fn new(config: AnaliticclConfig) -> (r: Self)
        ensures
            r.settings() == config@,
            r.variant_model().is_none(),
            !r.is_ready(),
    {
        AnaliticclModule { config, model: None, ready: false }
    }

    /// The same with its model.
    pub fn with_model(self, model: analiticcl::VariantModel) -> (r: Self)
        ensures
            r.settings() == self.settings(),
            r.variant_model() == Some(model),
            r.is_ready() == self.is_ready(),
    {
        let mut r = self;
        r.model = Some(model);
        r
    }

    /// Takes the model that was handed over into use. Fails where none
    /// was. To be called once.
    pub fn load(&mut self) -> (r: Result<(), Error>)
        requires
            !old(self).is_ready(),
        ensures
            final(self).settings() == old(self).settings(),
            final(self).variant_model() == old(self).variant_model(),
            match r {
                Ok(()) => old(self).has_model() && final(self).is_ready(),
                Err(e) => !old(self).has_model() && !final(self).is_ready() && e@
                    == ErrorView::LoadError("no model was supplied"@),
            },
    {
        if self.model.is_some() {
            self.ready = true;
            Ok(())
        } else {
            Err(Error::load("no model was supplied"))
        }
    }

    /// Whether the module has been loaded.
    pub fn ready(&self) -> (r: bool)
        ensures
            r == self.is_ready(),
    {
        self.ready
    }

    /// The model, where one was handed over.
    pub fn model(&self) -> (r: Option<&analiticcl::VariantModel>)
        ensures
            match r {
                Some(model) => self.variant_model() == Some(*model),
                None => self.variant_model().is_none(),
            },
    {
        self.model.as_ref()
    }

    /// Puts the variants `found` of `term` into `expansions`: where there
    /// are any, `term` gets one record of the module, which holds them, each
    /// with the score `score`, in place of what it had; where there is none,
    /// nothing changes.
    pub fn add_found(
        &self,
        expansions: &mut TermExpansions,
        term: &str,
        found: Vec<String>,
        score: Score,
    )
        requires
            old(expansions).wf(),
        ensures
            final(expansions).wf(),
            final(expansions)@ == with_found(
                old(expansions)@,
                self.settings(),
                term@,
                texts(found@),
                score,
            ),
    {
        match self.record(found, score) {
            Some(record) => {
                let mut records: Vec<TermExpansion> = Vec::new();
                records.push(record);
                proof {
                    assert(record_views(records@) =~= seq![record@]);
                }
                expansions.insert(term.to_owned(), records);
            },
            None => {},
        }
    }

    /// Whether variants of `term` are searched for: an empty term has none.
    pub fn searches(&self, term: &str) -> (r: bool)
        ensures
            r == is_searched(term@),
    {
        !term.is_empty()
    }

    /// What the module answers where the variants `found` were found, one
    /// list for each term, in the order of the terms: a term of which
    /// variants were found gets an entry with one record, in which each
    /// variant has the score `score`. A term of which none was found, a
    /// term that is not searched, and a term for which `found` holds no
    /// list, get nothing.
    pub fn expand_with(&self, terms: &Vec<Term>, found: &Vec<Vec<String>>, score: Score) -> (r:
        TermExpansions)
        requires
            self.is_ready(),
        ensures
            r.wf(),
            one_record_each(r@),
            r@ == collected(
                self.settings(),
                term_views(terms@),
                nested_texts(found@),
                score,
                terms@.len(),
            ),
    {
        let mut expansions = TermExpansions::new();
        let ghost tv = term_views(terms@);
        let ghost cfg = self.settings();
        let ghost all = nested_texts(found@);
        let mut i: usize = 0;
        while i < terms.len()
            invariant
                i <= terms.len(),
                tv == term_views(terms@),
                cfg == self.settings(),
                all == nested_texts(found@),
                expansions.wf(),
                expansions@ == collected(cfg, tv, all, score, i as nat),
            decreases terms.len() - i,
        {
            let text = terms[i].as_str();
            let one: Vec<String> = if i < found.len() && self.searches(text) {
                crate::modules::lookup::clone_strings(&found[i])
            } else {
                Vec::new()
            };
            proof {
                assert(tv[i as int].text() == text@);
                assert(texts(one@) =~= found_for(tv, all, i as int));
            }
            self.add_found(&mut expansions, text, one, score);
            i = i + 1;
        }
        proof {
            lemma_collected_shape(cfg, tv, all, score, terms@.len());
        }
        expansions
    }

    /// What the module answers where the search gave `found`, one list of
    /// variants for each term, in the order of the terms: the failure of
    /// the parameters of the module's scope, if they give one, else an entry
    /// with one record for each term of which variants were found. Each
    /// variant gets as its score the weight that the configuration gives to
    /// the frequency. The module must have been loaded.
    pub fn expand_query(
        &self,
        terms: &Vec<Term>,
        params: &QueryParams,
        found: &Vec<Vec<String>>,
    ) -> (r: Result<TermExpansions, Error>)
        requires
            self.is_ready(),
        ensures
            outcome_of(r) == search_answer(
                self.settings(),
                term_views(terms@),
                params@,
                nested_texts(found@),
            ),
            r matches Ok(m) ==> m.wf() && one_record_each(m@),
    {
        match self.search_overrides(params) {
            Ok(_) => Ok(self.expand_with(terms, found, self.score())),
            Err(e) => Err(e),
        }
    }

    /// The score of each variant that the module finds.
    pub fn score(&self) -> (r: Score)
        ensures
            r == score_of(self.settings()),
    {
        Score::Single(self.config.searchparams.freq_weight)
    }

    /// The parameters of the search for a query: those of the configuration
    /// with what `params` set in their place, or the failure of the first
    /// parameter of the module's scope that is not as its key asks.
    pub fn search_parameters(&self, params: &QueryParams) -> (r: Result<SearchParameters, Error>)
        ensures
            match r {
                Ok(p) => search_parameters_of(self.settings(), params@) == Ok::<
                    SearchParameters,
                    ErrorView,
                >(p),
                Err(e) => search_parameters_of(self.settings(), params@) == Err::<
                    SearchParameters,
                    ErrorView,
                >(e@),
            },
    {
        match self.search_overrides(params) {
            Ok(Some(so)) => Ok(with_overrides(self.config.searchparams, so)),
            Ok(None) => Ok(self.config.searchparams),
            Err(e) => Err(e),
        }
    }

    /// The configuration.
    pub fn config(&self) -> (r: &AnaliticclConfig)
        ensures
            r@ == self.settings(),
    {
        &self.config
    }

    /// The type of the module.
    pub fn kind(&self) -> (r: &'static str)
        ensures
            r@ == "analiticcl"@,
    {
        "analiticcl"
    }

    pub fn id(&self) -> (r: &str)
        ensures
            r@ == self.settings().id,
    {
        self.config.id.as_str()
    }

    pub fn name(&self) -> (r: &str)
        ensures
            r@ == self.settings().name,
    {
        self.config.name.as_str()
    }

    /// What `params` set in place of the search parameters of the
    /// configuration: `None` where they hold nothing for this module, else
    /// what the parameters of the module's scope set, taken in order, or the
    /// failure of the first of them that is not as its key asks.
    pub fn search_overrides(&self, params: &QueryParams) -> (r: Result<
        Option<SearchOverrides>,
        Error,
    >)
        ensures
            match r {
                Ok(so) => search_overrides_of(self.settings().id, params@) == Ok::<
                    Option<SearchOverrides>,
                    ErrorView,
                >(so),
                Err(e) => search_overrides_of(self.settings().id, params@) == Err::<
                    Option<SearchOverrides>,
                    ErrorView,
                >(e@),
            },
    {
        let own = params.iter_for_module(self.config.id.as_str());
        if own.len() == 0 {
            return Ok(None);
        }
        let ghost ps = param_ref_views(own@);
        let mut so = SearchOverrides {
            max_matches: None,
            edit_distance: None,
            anagram_distance: None,
            score_threshold: None,
            cutoff_threshold: None,
        };
        let mut i: usize = 0;
        while i < own.len()
            invariant
                i <= own.len(),
                own.len() > 0,
                ps == param_ref_views(own@),
                ps == scoped(params@, self.settings().id),
                overrides(ps, i as nat) == Ok::<SearchOverrides, ErrorView>(so),
            decreases own.len() - i,
        {
            proof {
                assert(ps[i as int] == own@[i as int]@);
            }
            match apply_param(so, own[i]) {
                Ok(next) => {
                    so = next;
                },
                Err(e) => {
                    proof {
                        assert(overrides(ps, (i + 1) as nat) == Err::<SearchOverrides, ErrorView>(
                            e@,
                        ));
                        lemma_overrides_failed(ps, (i + 1) as nat, ps.len());
                    }
                    return Err(e);
                },
            }
            i = i + 1;
        }
        Ok(Some(so))
    }

    /// The record for a term of which the variants `found` were found, or
    /// `None` where none was. Each variant gets the score `score`.
    pub fn record(&self, found: Vec<String>, score: Score) -> (r: Option<TermExpansion>)
        ensures
            match r {
                Some(record) => found@.len() > 0 && record@.aligned() && record@
                    == variants_record(self.settings(), texts(found@), score),
                None => found@.len() == 0,
            },
    {
        if found.len() == 0 {
            return None;
        }
        let mut scores: Vec<Score> = Vec::new();
        let mut i: usize = 0;
        while i < found.len()
            invariant
                i <= found.len(),
                scores@ == Seq::new(i as nat, |j: int| score),
            decreases found.len() - i,
        {
            scores.push(score);
            proof {
                assert(scores@ =~= Seq::new((i + 1) as nat, |j: int| score));
            }
            i = i + 1;
        }
        Some(
            TermExpansion::new().with_source(
                self.config.id.as_str(),
                self.config.name.as_str(),
            ).with_expansions(found).with_scores(scores),
        )
    }
}

/// The search of a module over a variant model for one query: the module
/// with the variants that were found for each term of the query.
pub struct VariantSearch<'a> {
    module: &'a AnaliticclModule,
    found: Vec<Vec<String>>,
}

impl<'a> VariantSearch<'a> {
    /// The module.
    pub closed spec fn of(&self) -> AnaliticclModule {
        *self.module
    }

    /// The variants that were found, one list for each term.
    pub closed spec fn variants(&self) -> Seq<Seq<Seq<char>>> {
        nested_texts(self.found@)
    }

    /// The search of `module` that found the variants `found`, one list for
    /// each term of the query.
    pub fn new(module: &'a AnaliticclModule, found: Vec<Vec<String>>) -> (r: Self)
        ensures
            r.of() == *module,
            r.variants() == nested_texts(found@),
    {
        VariantSearch { module, found }
    }
}

/// What a search answers to `terms` under `params`: the failure of the
/// parameters of the module's scope, if they give one, else what the
/// variants that were found make, each with the score of the module.
pub open spec fn search_answer(
    cfg: AnaliticclConfigView,
    terms: Seq<TermView>,
    params: Seq<QueryParamView>,
    found: Seq<Seq<Seq<char>>>,
) -> Outcome {
    match search_overrides_of(cfg.id, params) {
        Err(e) => Err(e),
        Ok(_) => Ok(collected(cfg, terms, found, score_of(cfg), terms.len())),
    }
}

impl<'a> Module for VariantSearch<'a> {
    open spec fn ident(&self) -> Seq<char> {
        self.of().settings().id
    }

    open spec fn loaded(&self) -> bool {
        self.of().is_ready()
    }

    open spec fn label(&self) -> Seq<char> {
        self.of().settings().name
    }

    open spec fn family(&self) -> Seq<char> {
        "analiticcl"@
    }

    open spec fn answers(
        &self,
        terms: Seq<TermView>,
        params: Seq<QueryParamView>,
        answer: Outcome,
    ) -> bool {
        answer == search_answer(self.of().settings(), terms, params, self.variants())
    }

    fn kind(&self) -> (r: &'static str) {
        self.module.kind()
    }

    fn id(&self) -> (r: &str) {
        self.module.id()
    }

    fn name(&self) -> (r: &str) {
        self.module.name()
    }

    /// A search loads nothing: its module is loaded by itself.
    fn load(&mut self) -> (r: Result<(), Error>)
        ensures
            r is Err,
            *final(self) == *old(self),
    {
        Err(Error::load("a search loads nothing"))
    }

    /// What the variants that were found make for the terms, or the failure
    /// of the parameters of the query.
    fn expand_query(&self, terms: &Vec<Term>, params: &QueryParams) -> (r: Result<
        TermExpansions,
        Error,
    >)
    {
        self.module.expand_query(terms, params, &self.found)
    }
}

/// After a failure no later parameter counts.
pub proof fn lemma_overrides_failed(ps: Seq<QueryParamView>, n: nat, m: nat)
    requires
        n <= m,
        overrides(ps, n).is_err(),
    ensures
        overrides(ps, m) == overrides(ps, n),
    decreases m,
{
    if m > n {
        lemma_overrides_failed(ps, n, (m - 1) as nat);
    }
}

} // verus!
