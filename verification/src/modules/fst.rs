//! A module that finds the words of a lexicon within an edit distance of a
//! term.
//!
//! The lexicon is a text with one word on each line; what follows a
//! tabulator on a line is of no account. A line that begins with `#` is a
//! comment.

use vstd::prelude::*;
use vstd::string::*;
use vstd::utf8::encode_utf8;
use crate::chars::{chars_of, run, scan, string_of, sub_vec, texts, CharClass};
use crate::error::{Error, ErrorView};
use crate::expansion::{record_views, ExpansionMap, TermExpansion, TermExpansionView, TermExpansions};
use crate::lexer::{term_views, Term, TermView};
use crate::modules::{read_number, scope_number, Module, Outcome};
use crate::params::{QueryParamView, QueryParams};
use crate::text::{lines, lines_of, trim, trimmed};

verus! {

/// `fst::Set`: a set of byte strings.
#[verifier::external_type_specification]
#[verifier::external_body]
#[verifier::reject_recursive_types(D)]
pub struct ExSet<D>(fst::Set<D>);

/// The words that a set holds: its keys, read as UTF-8.
pub uninterp spec fn set_words(set: fst::Set<Vec<u8>>) -> Set<Seq<char>>;

/// What a search for `term` within `distance` returns from a set that holds
/// `words`.
pub uninterp spec fn fuzzy(words: Set<Seq<char>>, term: Seq<char>, distance: u32) -> Option<
    Seq<Seq<char>>,
>;

/// Whether `a` stands before `b` in the order of byte strings.
pub open spec fn bytes_before(a: Seq<u8>, b: Seq<u8>) -> bool
    decreases a.len(),
{
    if b.len() == 0 {
        false
    } else if a.len() == 0 {
        true
    } else if a[0] != b[0] {
        a[0] < b[0]
    } else {
        bytes_before(a.drop_first(), b.drop_first())
    }
}

/// Whether the words `v` stand in the order of their UTF-8 bytes, none
/// twice.
pub open spec fn ascending(v: Seq<Seq<char>>) -> bool {
    forall|i: int, j: int|
        0 <= i < j < v.len() ==> bytes_before(encode_utf8(#[trigger] v[i]), encode_utf8(#[trigger] v[j]))
}

/// Whether each of the words `v` stands in the order of UTF-8 bytes where
/// the one before it stands, or after it.
pub open spec fn in_order(v: Seq<Seq<char>>) -> bool {
    forall|i: int|
        0 <= i && i + 1 < v.len() ==> !bytes_before(
            encode_utf8(#[trigger] v[i + 1]),
            encode_utf8(v[i]),
        )
}

/// How the failure to build a set is displayed.
pub open spec fn build_failure() -> Seq<char> {
    "FST error"@
}

/// The texts of the strings of a result that may be missing.
pub open spec fn opt_texts(o: Option<Vec<String>>) -> Option<Seq<Seq<char>>> {
    match o {
        Some(v) => Some(texts(v@)),
        None => None,
    }
}

/// Calls `Default::default` of `fst::Set<Vec<u8>>`, which builds a set from
/// no keys.
#[verifier::external_body]
fn empty_set() -> (r: fst::Set<Vec<u8>>)
    ensures
        set_words(r) == Set::<Seq<char>>::empty(),
{
    fst::Set::default()
}

/// Calls `fst::Set::from_iter`, which builds a set in memory from the keys
/// it is given. It fails where a key stands before the one before it in the
/// order of bytes, and nowhere else: a key may come twice, and writing to
/// memory does not fail. The set then holds these keys. A failure is
/// returned as it is displayed: the display of a failure to build is one
/// short text, whatever the keys.
#[verifier::external_body]
fn build_set(words: &Vec<String>) -> (r: Result<fst::Set<Vec<u8>>, String>)
    ensures
        r is Ok <==> in_order(texts(words@)),
        r matches Ok(set) ==> set_words(set) == texts(words@).to_set(),
        r matches Err(shown) ==> shown@ == build_failure(),
{
    fst::Set::from_iter(words.iter()).map_err(|e| format!("{}", e))
}

/// Calls `slice::sort`, which puts the strings in order and loses none.
/// Strings are ordered by their bytes.
#[verifier::external_body]
fn sort_words(words: &mut Vec<String>)
    ensures
        texts(final(words)@).to_multiset() == texts(old(words)@).to_multiset(),
        in_order(texts(final(words)@)),
{
    words.sort()
}

/// Calls `fst::automaton::Levenshtein::new` and, with the automaton,
/// `fst::Set::search` and `fst::set::Stream::into_strs`. The stream yields
/// the keys of the set that the automaton matches, in the order of their
/// bytes, each once. Which keys the automaton matches is not stated: it is
/// made for the keys within `distance` edits of `term`. `None` stands for an
/// automaton that would be too large and for a key that is not UTF-8.
#[verifier::external_body]
fn search(set: &fst::Set<Vec<u8>>, term: &str, distance: u32) -> (r: Option<Vec<String>>)
    ensures
        opt_texts(r) == fuzzy(set_words(*set), term@, distance),
        r matches Some(found) ==> ascending(texts(found@)) && forall|i: int|
            0 <= i < found@.len() ==> set_words(*set).contains((#[trigger] found@[i])@),
{
    match fst::automaton::Levenshtein::new(term, distance) {
        Ok(automaton) => fst::IntoStreamer::into_stream(set.search(automaton)).into_strs().ok(),
        Err(_) => None,
    }
}

/// How an fst module is set up.
#[derive(Debug, Clone)]
pub struct FstConfig {
    /// Short identifier.
    id: String,
    /// Name for people to read.
    name: String,
    /// Where the lexicon is kept.
    file: String,
    /// The edit distance of a search, unless the query sets another.
    distance: u8,
    /// Whether the words of the lexicon stand in the order of their bytes.
    sorted: bool,
    /// Whether the first line is a header.
    skipfirstline: bool,
}

/// The mathematical value of an [`FstConfig`].
pub struct FstConfigView {
    pub id: Seq<char>,
    pub name: Seq<char>,
    pub file: Seq<char>,
    pub distance: u8,
    pub sorted: bool,
    pub skipfirstline: bool,
}

impl View for FstConfig {
    type V = FstConfigView;

    closed spec fn view(&self) -> FstConfigView {
        FstConfigView {
            id: self.id@,
            name: self.name@,
            file: self.file@,
            distance: self.distance,
            sorted: self.sorted,
            skipfirstline: self.skipfirstline,
        }
    }
}

impl FstConfig {
    pub fn new(id: &str, name: &str, file: &str, distance: u8, sorted: bool) -> (r: Self)
        ensures
            r@ == (FstConfigView {
                id: id@,
                name: name@,
                file: file@,
                distance,
                sorted,
                skipfirstline: false,
            }),
    {
        FstConfig {
            id: id.to_owned(),
            name: name.to_owned(),
            file: file.to_owned(),
            distance,
            sorted,
            skipfirstline: false,
        }
    }

    /// The same with another edit distance.
    pub fn with_distance(self, distance: u8) -> (r: Self)
        ensures
            r@ == (FstConfigView { distance, ..self@ }),
    {
        let mut r = self;
        r.distance = distance;
        r
    }

    /// The same with the first line taken as a header.
    pub fn with_skipfirstline(self) -> (r: Self)
        ensures
            r@ == (FstConfigView { skipfirstline: true, ..self@ }),
    {
        let mut r = self;
        r.skipfirstline = true;
        r
    }

    pub fn id(&self) -> (r: &str)
        ensures
            r@ == self@.id,
    {
        self.id.as_str()
    }

    pub fn name(&self) -> (r: &str)
        ensures
            r@ == self@.name,
    {
        self.name.as_str()
    }

    /// Where the lexicon is kept.
    pub fn file(&self) -> (r: &str)
        ensures
            r@ == self@.file,
    {
        self.file.as_str()
    }

    /// A copy.
    pub fn duplicate(&self) -> (r: Self)
        ensures
            r@ == self@,
    {
        FstConfig {
            id: self.id.clone(),
            name: self.name.clone(),
            file: self.file.clone(),
            distance: self.distance,
            sorted: self.sorted,
            skipfirstline: self.skipfirstline,
        }
    }
}

/// The word that a line of a lexicon gives: what stands before its first
/// tabulator, without white space around the line; `None` for a comment and
/// for a line without a word.
pub open spec fn word_of(line: Seq<char>) -> Option<Seq<char>> {
    let t = trimmed(line);
    let k = run(t, 0, CharClass::Except('\t')) as int;
    if (line.len() > 0 && line[0] == '#') || k == 0 {
        None
    } else {
        Some(t.subrange(0, k))
    }
}

/// The words that the first `n` of the lines `ls` give, in order.
pub open spec fn words_of(ls: Seq<Seq<char>>, skipfirstline: bool, n: nat) -> Seq<Seq<char>>
    decreases n,
{
    if n == 0 {
        Seq::empty()
    } else {
        let before = words_of(ls, skipfirstline, (n - 1) as nat);
        if skipfirstline && n == 1 {
            before
        } else {
            match word_of(ls[n - 1]) {
                Some(w) => before.push(w),
                None => before,
            }
        }
    }
}

/// The words of a lexicon, in order.
pub open spec fn lexicon_words(content: Seq<char>, skipfirstline: bool) -> Seq<Seq<char>> {
    words_of(lines(content), skipfirstline, lines(content).len())
}

/// The words of the lexicon `content`, in order.
pub fn read_words(content: &str, skipfirstline: bool) -> (r: Vec<String>)
    ensures
        texts(r@) == lexicon_words(content@, skipfirstline),
{
    let chars = chars_of(content);
    let ls = lines_of(&chars);
    let ghost all = lines(content@);
    let mut words: Vec<String> = Vec::new();
    let mut i: usize = 0;
    proof {
        assert(texts(words@) =~= Seq::<Seq<char>>::empty());
    }
    while i < ls.len()
        invariant
            i <= ls.len(),
            ls@.len() == all.len(),
            forall|j: int| 0 <= j < ls@.len() ==> (#[trigger] ls@[j])@ == all[j],
            texts(words@) == words_of(all, skipfirstline, i as nat),
        decreases ls.len() - i,
    {
        let line = &ls[i];
        if !(skipfirstline && i == 0) && !(line.len() > 0 && line[0] == '#') {
            let t = trim(line);
            let k = scan(&t, 0, CharClass::Except('\t'));
            if k > 0 {
                let ghost before = texts(words@);
                words.push(string_of(&sub_vec(&t, 0, k)));
                proof {
                    assert(texts(words@) =~= before.push(t@.subrange(0, k as int)));
                }
            }
        }
        i = i + 1;
    }
    words
}

/// A module that finds the words of a lexicon within an edit distance of a
/// term.
pub struct FstModule {
    config: FstConfig,
    set: fst::Set<Vec<u8>>,
    source: Option<String>,
    ready: bool,
}

/// The record of an fst module with the given words.
pub open spec fn fst_record(cfg: FstConfigView, found: Seq<Seq<char>>) -> TermExpansionView {
    TermExpansionView {
        expansions: found,
        scores: Seq::empty(),
        source_id: Some(cfg.id),
        source_name: Some(cfg.name),
        link: None,
    }
}

/// The parameter that sets the edit distance of a query.
pub open spec fn distance_key() -> Seq<char> {
    "distance"@
}

/// The failure of a parameter `distance` that is no unsigned integer.
pub open spec fn invalid_distance() -> ErrorView {
    ErrorView::QueryExpandError("invalid value for distance parameter"@)
}

/// The edit distance of a query: that of the first parameter `distance` in
/// the module's scope, cut to 32 bits, or that of the configuration where
/// there is no such parameter. A parameter `distance` that is no unsigned
/// integer is a failure, and so is a parameter of the module's scope with
/// any other key; the first such parameter decides.
pub open spec fn distance_of(cfg: FstConfigView, params: Seq<QueryParamView>) -> Result<
    u32,
    ErrorView,
> {
    match scope_number(params, cfg.id, "fst"@, distance_key(), invalid_distance()) {
        Ok(Some(n)) => Ok(n as u32),
        Ok(None) => Ok(cfg.distance as u32),
        Err(e) => Err(e),
    }
}

/// Whether a search for `key` returns words.
pub open spec fn hits(words: Set<Seq<char>>, key: Seq<char>, distance: u32) -> bool {
    fuzzy(words, key, distance) matches Some(found) && found.len() > 0
}

/// Whether one of `terms` has the text `key` and a search for it returns
/// words.
pub open spec fn finds(
    words: Set<Seq<char>>,
    terms: Seq<TermView>,
    distance: u32,
    key: Seq<char>,
) -> bool {
    &&& exists|i: int| 0 <= i < terms.len() && #[trigger] terms[i].text() == key
    &&& hits(words, key, distance)
}

/// What an fst module with the words `words` finds for `terms` within
/// `distance`: an entry for each term for which the search returns words,
/// with one record that holds them.
pub open spec fn searched(
    words: Set<Seq<char>>,
    cfg: FstConfigView,
    terms: Seq<TermView>,
    distance: u32,
) -> ExpansionMap {
    Map::new(
        |k: Seq<char>| finds(words, terms, distance, k),
        |k: Seq<char>| seq![fst_record(cfg, fuzzy(words, k, distance).unwrap())],
    )
}

/// What an fst module answers: the failure of its parameters, if they give
/// one, else what it finds.
pub open spec fn fst_answer(
    words: Set<Seq<char>>,
    cfg: FstConfigView,
    terms: Seq<TermView>,
    params: Seq<QueryParamView>,
) -> Outcome {
    match distance_of(cfg, params) {
        Ok(distance) => Ok(searched(words, cfg, terms, distance)),
        Err(e) => Err(e),
    }
}

impl FstModule {
    /// The configuration.
    pub closed spec fn settings(&self) -> FstConfigView {
        self.config@
    }

    /// The words of the module's set.
    pub closed spec fn words(&self) -> Set<Seq<char>> {
        set_words(self.set)
    }

    /// The text of the lexicon, where it has been supplied.
    pub closed spec fn lexicon_text(&self) -> Option<Seq<char>> {
        match self.source {
            Some(s) => Some(s@),
            None => None,
        }
    }

    /// Whether the module has been loaded.
    pub closed spec fn is_ready(&self) -> bool {
        self.ready
    }

    /// A module with an empty set and without a lexicon, not loaded.
    pub fn new(config: FstConfig) -> (r: Self)
        ensures
            r.settings() == config@,
            r.words() == Set::<Seq<char>>::empty(),
            r.lexicon_text().is_none(),
            !r.is_ready(),
    {
        FstModule { config, set: empty_set(), source: None, ready: false }
    }

    /// The same with the text of its lexicon, which `load` reads.
    pub fn with_source(self, content: String) -> (r: Self)
        ensures
            r.settings() == self.settings(),
            r.words() == self.words(),
            r.lexicon_text() == Some(content@),
            r.is_ready() == self.is_ready(),
    {
        let mut r = self;
        r.source = Some(content);
        r
    }

    /// The configuration.
    pub fn config(&self) -> (r: &FstConfig)
        ensures
            r@ == self.settings(),
    {
        &self.config
    }

    /// The edit distance of a query under `params`, or the failure that
    /// the parameters of the module's scope give: a `distance` that is no
    /// unsigned integer, or any other key.
    pub fn distance(&self, params: &QueryParams) -> (r: Result<u32, Error>)
        ensures
            match r {
                Ok(d) => distance_of(self.settings(), params@) == Ok::<u32, ErrorView>(d),
                Err(e) => distance_of(self.settings(), params@) == Err::<u32, ErrorView>(e@),
            },
    {
        match read_number(
            params,
            self.config.id.as_str(),
            "fst",
            "distance",
            "invalid value for distance parameter",
        ) {
            Ok(Some(n)) => Ok(#[verifier::truncate] (n as u32)),
            Ok(None) => Ok(self.config.distance as u32),
            Err(e) => Err(e),
        }
    }
}

/// The failure of the load of an fst module with the lexicon `text`, or
/// `None` where it loads. It fails where no lexicon was supplied, and where
/// the configuration says that the words of the lexicon are in order and
/// they are not. Words that are not said to be in order are put in order.
pub open spec fn fst_load_failure(cfg: FstConfigView, text: Option<Seq<char>>) -> Option<
    ErrorView,
> {
    match text {
        None => Some(ErrorView::LoadError("no lexicon was supplied"@)),
        Some(t) => {
            let words = lexicon_words(t, cfg.skipfirstline);
            if cfg.sorted && !in_order(words) {
                Some(ErrorView::LoadError(build_failure()))
            } else {
                None
            }
        },
    }
}

/// What `load` makes of an fst module: it builds the set from the words of
/// the lexicon that was supplied and is loaded then; where it fails, the
/// module is left as it was.
pub open spec fn fst_loads(before: FstModule, after: FstModule, r: Result<(), Error>) -> bool {
    &&& after.settings() == before.settings()
    &&& after.lexicon_text() == before.lexicon_text()
    &&& match r {
        Ok(()) => {
            &&& fst_load_failure(before.settings(), before.lexicon_text()).is_none()
            &&& after.is_ready()
            &&& after.words() == lexicon_words(
                before.lexicon_text().unwrap(),
                before.settings().skipfirstline,
            ).to_set()
        },
        Err(e) => {
            &&& fst_load_failure(before.settings(), before.lexicon_text()) == Some(e@)
            &&& !after.is_ready()
            &&& after.words() == before.words()
        },
    }
}

impl Module for FstModule {
    open spec fn ident(&self) -> Seq<char> {
        self.settings().id
    }

    open spec fn loaded(&self) -> bool {
        self.is_ready()
    }

    open spec fn label(&self) -> Seq<char> {
        self.settings().name
    }

    open spec fn family(&self) -> Seq<char> {
        "fst"@
    }

    open spec fn answers(
        &self,
        terms: Seq<TermView>,
        params: Seq<QueryParamView>,
        answer: Outcome,
    ) -> bool {
        answer == fst_answer(self.words(), self.settings(), terms, params)
    }

    fn kind(&self) -> (r: &'static str) {
        "fst"
    }

    fn id(&self) -> (r: &str) {
        self.config.id.as_str()
    }

    fn name(&self) -> (r: &str) {
        self.config.name.as_str()
    }

    /// Builds the set from the words of the lexicon that was supplied, which
    /// are put in order first unless the configuration says that they are.
    /// Fails where no lexicon was supplied, and where the words are said to
    /// be in order and are not.
    fn load(&mut self) -> (r: Result<(), Error>)
        ensures
            fst_loads(*old(self), *final(self), r),
    {
        match &self.source {
            Some(content) => {
                let mut words = read_words(content.as_str(), self.config.skipfirstline);
                let ghost read = texts(words@);
                if !self.config.sorted {
                    sort_words(&mut words);
                }
                proof {
                    let now = texts(words@);
                    assert(now.to_multiset() == read.to_multiset());
                    assert forall|w: Seq<char>| now.contains(w) <==> read.contains(w) by {
                        now.to_multiset_ensures();
                        read.to_multiset_ensures();
                        assert(now.contains(w) <==> now.to_multiset().count(w) > 0);
                        assert(read.contains(w) <==> read.to_multiset().count(w) > 0);
                    }
                    assert(now.to_set() =~= read.to_set());
                }
                match build_set(&words) {
                    Ok(set) => {
                        self.set = set;
                        self.ready = true;
                        Ok(())
                    },
                    Err(e) => Err(Error::LoadError(e)),
                }
            },
            None => Err(Error::load("no lexicon was supplied")),
        }
    }

    /// Searches the set for each term. Fails where the parameter `distance`
    /// of the module's scope is no unsigned integer.
    fn expand_query(&self, terms: &Vec<Term>, params: &QueryParams) -> (r: Result<
        TermExpansions,
        Error,
    >)
    {
        let distance = match self.distance(params) {
            Ok(d) => d,
            Err(e) => {
                return Err(e);
            },
        };
        let mut expansions = TermExpansions::new();
        let ghost tv = term_views(terms@);
        let ghost cfg = self.settings();
        let ghost words = self.words();
        let mut i: usize = 0;
        proof {
            assert(expansions@ =~= searched(words, cfg, tv.take(0), distance));
        }
        while i < terms.len()
            invariant
                i <= terms.len(),
                tv == term_views(terms@),
                cfg == self.settings(),
                words == self.words(),
                expansions.wf(),
                expansions@ == searched(words, cfg, tv.take(i as int), distance),
            decreases terms.len() - i,
        {
            let text = terms[i].as_str();
            let ghost k = text@;
            proof {
                let a = tv.take(i as int);
                let b = tv.take(i + 1);
                assert(tv[i as int].text() == k);
                assert(b[i as int].text() == k);
                assert forall|q: Seq<char>|
                    finds(words, b, distance, q) <==> (finds(words, a, distance, q) || (q == k
                        && hits(words, k, distance))) by {
                    if finds(words, b, distance, q) {
                        let j = choose|j: int| 0 <= j < b.len() && #[trigger] b[j].text() == q;
                        if j < i {
                            assert(a[j].text() == q);
                        }
                    }
                    if finds(words, a, distance, q) {
                        let j = choose|j: int| 0 <= j < a.len() && #[trigger] a[j].text() == q;
                        assert(b[j].text() == q);
                    }
                }
            }
            match search(&self.set, text, distance) {
                Some(found) => {
                    if found.len() > 0 {
                        let record = TermExpansion::new().with_source(
                            self.config.id.as_str(),
                            self.config.name.as_str(),
                        ).with_expansions(found);
                        let mut records: Vec<TermExpansion> = Vec::new();
                        records.push(record);
                        proof {
                            assert(record_views(records@) =~= seq![
                                fst_record(cfg, fuzzy(words, k, distance).unwrap()),
                            ]);
                        }
                        expansions.insert(text.to_owned(), records);
                    }
                },
                None => {},
            }
            proof {
                assert(expansions@ =~= searched(words, cfg, tv.take(i + 1), distance));
            }
            i = i + 1;
        }
        proof {
            assert(tv.take(i as int) =~= tv);
        }
        Ok(expansions)
    }
}

} // verus!
