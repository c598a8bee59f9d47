//! A module that looks terms up in a table of variants.
//!
//! The table is read from a lexicon: a text with one entry on each line, a
//! keyword and then its variants, with a delimiter between the keyword and
//! the variants and a second one between two variants. A line that begins
//! with `#` is a comment. A line without a variant gives no entry. Where a
//! keyword comes twice, its last line stands.

use vstd::prelude::*;
use vstd::string::*;
use vstd::hash_map::StringHashMap;
use crate::chars::{chars_of, lowercase, run, scan, string_of, sub_vec, texts, to_lower, CharClass};
use crate::error::{Error, ErrorView};
use crate::expansion::{ExpansionMap, TermExpansion, TermExpansionView, TermExpansions};
use crate::lexer::{term_views, Term, TermView};
use crate::modules::{unknown_key, unknown_key_error, Module, Outcome};
use crate::params::{param_ref_views, scoped, QueryParamView, QueryParams};
use crate::text::{fields, fields_of, is_numeric, lines, lines_of, numeric, trim, trimmed};

verus! {

/// How a lookup module is set up.
#[derive(Debug, Clone)]
pub struct LookupConfig {
    /// Short identifier.
    id: String,
    /// Name for people to read.
    name: String,
    /// Where the lexicon is kept.
    file: String,
    /// What stands between the keyword and its variants.
    delimiter: char,
    /// What stands between two variants.
    delimiter2: char,
    /// Whether the first line is a header.
    skipfirstline: bool,
    /// Whether keywords are kept as they are written; they are held in lower
    /// case where not.
    casesensitive: bool,
    /// Whether a variant may be a number; numbers are left out where not.
    allow_numeric: bool,
}

/// The mathematical value of a [`LookupConfig`].
pub struct LookupConfigView {
    pub id: Seq<char>,
    pub name: Seq<char>,
    pub file: Seq<char>,
    pub delimiter: char,
    pub delimiter2: char,
    pub skipfirstline: bool,
    pub casesensitive: bool,
    pub allow_numeric: bool,
}

impl View for LookupConfig {
    type V = LookupConfigView;

    closed spec fn view(&self) -> LookupConfigView {
        LookupConfigView {
            id: self.id@,
            name: self.name@,
            file: self.file@,
            delimiter: self.delimiter,
            delimiter2: self.delimiter2,
            skipfirstline: self.skipfirstline,
            casesensitive: self.casesensitive,
            allow_numeric: self.allow_numeric,
        }
    }
}

/// The delimiter of a lexicon unless another is set: the tabulator.
pub fn tab() -> (c: char)
    ensures
        c == '\t',
{
    '\t'
}

impl LookupConfig {
    /// A configuration with tabulators as delimiters, and with every switch
    /// off.
    pub fn new(id: &str, name: &str, file: &str) -> (r: Self)
        ensures
            r@ == (LookupConfigView {
                id: id@,
                name: name@,
                file: file@,
                delimiter: '\t',
                delimiter2: '\t',
                skipfirstline: false,
                casesensitive: false,
                allow_numeric: false,
            }),
    {
        LookupConfig {
            id: id.to_owned(),
            name: name.to_owned(),
            file: file.to_owned(),
            delimiter: tab(),
            delimiter2: tab(),
            skipfirstline: false,
            casesensitive: false,
            allow_numeric: false,
        }
    }

    /// The same with `delimiter` between the keyword and its variants, and
    /// `delimiter2` between two variants.
    pub fn with_delimiters(self, delimiter: char, delimiter2: char) -> (r: Self)
        ensures
            r@ == (LookupConfigView { delimiter, delimiter2, ..self@ }),
    {
        let mut r = self;
        r.delimiter = delimiter;
        r.delimiter2 = delimiter2;
        r
    }

    /// The same with the first line taken as a header, or not.
    pub fn with_skipfirstline(self, skipfirstline: bool) -> (r: Self)
        ensures
            r@ == (LookupConfigView { skipfirstline, ..self@ }),
    {
        let mut r = self;
        r.skipfirstline = skipfirstline;
        r
    }

    /// The same with keywords kept as they are written, or not.
    pub fn with_casesensitive(self, casesensitive: bool) -> (r: Self)
        ensures
            r@ == (LookupConfigView { casesensitive, ..self@ }),
    {
        let mut r = self;
        r.casesensitive = casesensitive;
        r
    }

    /// The same with numbers taken as variants, or not.
    pub fn with_allow_numeric(self, allow_numeric: bool) -> (r: Self)
        ensures
            r@ == (LookupConfigView { allow_numeric, ..self@ }),
    {
        let mut r = self;
        r.allow_numeric = allow_numeric;
        r
    }

    pub fn id(&self) -> (r: &str)
        ensures
            r@ == self@.id,
    {
        self.id.as_str()
    }

    pub fn name(&self) -> (r: &str)
        ensures
            r@ == self@.name,
    {
        self.name.as_str()
    }

    /// Where the lexicon is kept.
    pub fn file(&self) -> (r: &str)
        ensures
            r@ == self@.file,
    {
        self.file.as_str()
    }

    /// A copy.
    pub fn duplicate(&self) -> (r: Self)
        ensures
            r@ == self@,
    {
        LookupConfig {
            id: self.id.clone(),
            name: self.name.clone(),
            file: self.file.clone(),
            delimiter: self.delimiter,
            delimiter2: self.delimiter2,
            skipfirstline: self.skipfirstline,
            casesensitive: self.casesensitive,
            allow_numeric: self.allow_numeric,
        }
    }
}

/// A table of keywords and their variants.
pub type Table = Map<Seq<char>, Seq<Seq<char>>>;

/// The first `n` of `fs` without those that are written as numbers.
pub open spec fn non_numeric(fs: Seq<Seq<char>>, n: nat) -> Seq<Seq<char>>
    decreases n,
{
    if n == 0 {
        Seq::empty()
    } else if is_numeric(fs[n - 1]) {
        non_numeric(fs, (n - 1) as nat)
    } else {
        non_numeric(fs, (n - 1) as nat).push(fs[n - 1])
    }
}

/// The variants among the fields `fs`.
pub open spec fn variants_of(fs: Seq<Seq<char>>, allow_numeric: bool) -> Seq<Seq<char>> {
    if allow_numeric {
        fs
    } else {
        non_numeric(fs, fs.len())
    }
}

/// The keyword as the table holds it.
pub open spec fn table_key(keyword: Seq<char>, casesensitive: bool) -> Seq<char> {
    if casesensitive {
        keyword
    } else {
        lowercase(keyword)
    }
}

/// The entry that a line of a lexicon gives: its keyword and its variants,
/// or `None` for a comment, for a line without the delimiter and for a line
/// without variants.
pub open spec fn entry_of(line: Seq<char>, cfg: LookupConfigView) -> Option<
    (Seq<char>, Seq<Seq<char>>),
> {
    let t = trimmed(line);
    let k = run(t, 0, CharClass::Except(cfg.delimiter)) as int;
    if (line.len() > 0 && line[0] == '#') || k >= t.len() {
        None
    } else {
        let found = variants_of(
            fields(t.subrange(k + 1, t.len() as int), cfg.delimiter2),
            cfg.allow_numeric,
        );
        if found.len() == 0 {
            None
        } else {
            Some((table_key(t.subrange(0, k), cfg.casesensitive), found))
        }
    }
}

/// The table that the first `n` of the lines `ls` give.
pub open spec fn table_of(ls: Seq<Seq<char>>, cfg: LookupConfigView, n: nat) -> Table
    decreases n,
{
    if n == 0 {
        Map::empty()
    } else {
        let before = table_of(ls, cfg, (n - 1) as nat);
        if cfg.skipfirstline && n == 1 {
            before
        } else {
            match entry_of(ls[n - 1], cfg) {
                Some((key, found)) => before.insert(key, found),
                None => before,
            }
        }
    }
}

/// The table that a lexicon gives.
pub open spec fn lexicon(content: Seq<char>, cfg: LookupConfigView) -> Table {
    table_of(lines(content), cfg, lines(content).len())
}

/// The table of a lookup module.
pub struct LookupData {
    variants: StringHashMap<Vec<String>>,
}

impl View for LookupData {
    type V = Table;

    closed spec fn view(&self) -> Table {
        self.variants@.map_values(|v: Vec<String>| texts(v@))
    }
}

/// A copy of `v`.
pub fn clone_strings(v: &Vec<String>) -> (r: Vec<String>)
    ensures
        texts(r@) == texts(v@),
{
    let mut out: Vec<String> = Vec::new();
    let mut i: usize = 0;
    while i < v.len()
        invariant
            i <= v.len(),
            out@.len() == i,
            forall|k: int| 0 <= k < i ==> (#[trigger] out@[k])@ == v@[k]@,
        decreases v.len() - i,
    {
        out.push(v[i].clone());
        i = i + 1;
    }
    proof {
        assert(texts(out@) =~= texts(v@));
    }
    out
}

impl LookupData {
    /// An empty table.
    pub fn new() -> (r: Self)
        ensures
            r@ == Table::empty(),
    {
        let r = LookupData { variants: StringHashMap::new() };
        proof {
            assert(r@ =~= Table::empty());
        }
        r
    }

    /// Sets the variants of `keyword`, in place of those it had.
    pub fn insert(&mut self, keyword: String, found: Vec<String>)
        ensures
            final(self)@ == old(self)@.insert(keyword@, texts(found@)),
    {
        self.variants.insert(keyword, found);
        proof {
            assert(final(self)@ =~= old(self)@.insert(keyword@, texts(found@)));
        }
    }

    /// The variants of `keyword`, or `None` where the table does not hold
    /// it.
    pub fn get(&self, keyword: &str) -> (r: Option<&Vec<String>>)
        ensures
            match r {
                Some(found) => self@.dom().contains(keyword@) && texts(found@) == self@[keyword@],
                None => !self@.dom().contains(keyword@),
            },
    {
        self.variants.get(keyword)
    }

    /// The number of keywords.
    pub fn len(&self) -> (n: usize)
        ensures
            n == self@.len(),
    {
        proof {
            assert(self@.dom() =~= self.variants@.dom());
        }
        self.variants.len()
    }

    /// The entry that `line` gives, as `entry_of` says.
    fn parse_line(line: &Vec<char>, config: &LookupConfig) -> (r: Option<(String, Vec<String>)>)
        ensures
            match r {
                Some((key, found)) => entry_of(line@, config@) == Some((key@, texts(found@))),
                None => entry_of(line@, config@).is_none(),
            },
    {
        if line.len() > 0 && line[0] == '#' {
            return None;
        }
        let t = trim(line);
        let k = scan(&t, 0, CharClass::Except(config.delimiter));
        if k >= t.len() {
            return None;
        }
        let rest = sub_vec(&t, k + 1, t.len());
        let fs = fields_of(&rest, config.delimiter2);
        let ghost all = fields(rest@, config.delimiter2);
        let mut found: Vec<String> = Vec::new();
        let mut i: usize = 0;
        proof {
            assert(texts(found@) =~= Seq::<Seq<char>>::empty());
        }
        while i < fs.len()
            invariant
                i <= fs.len(),
                fs@.len() == all.len(),
                forall|j: int| 0 <= j < fs@.len() ==> (#[trigger] fs@[j])@ == all[j],
                config.allow_numeric ==> texts(found@) == all.take(i as int),
                !config.allow_numeric ==> texts(found@) == non_numeric(all, i as nat),
            decreases fs.len() - i,
        {
            let ghost before = texts(found@);
            if config.allow_numeric || !numeric(&fs[i]) {
                found.push(string_of(&fs[i]));
                proof {
                    assert(texts(found@) =~= before.push(all[i as int]));
                    assert(all.take(i + 1) =~= all.take(i as int).push(all[i as int]));
                }
            }
            i = i + 1;
        }
        proof {
            assert(all.take(i as int) =~= all);
        }
        if found.len() == 0 {
            return None;
        }
        let keyword = string_of(&sub_vec(&t, 0, k));
        let key = if config.casesensitive {
            keyword
        } else {
            to_lower(keyword.as_str())
        };
        Some((key, found))
    }

    /// The table that the lexicon `content` gives.
    pub fn parse(content: &str, config: &LookupConfig) -> (r: Self)
        ensures
            r@ == lexicon(content@, config@),
    {
        let chars = chars_of(content);
        let ls = lines_of(&chars);
        let ghost all = lines(content@);
        let mut data = LookupData::new();
        let mut i: usize = 0;
        while i < ls.len()
            invariant
                i <= ls.len(),
                ls@.len() == all.len(),
                forall|j: int| 0 <= j < ls@.len() ==> (#[trigger] ls@[j])@ == all[j],
                data@ == table_of(all, config@, i as nat),
            decreases ls.len() - i,
        {
            if !(config.skipfirstline && i == 0) {
                match LookupData::parse_line(&ls[i], config) {
                    Some((key, found)) => {
                        data.insert(key, found);
                    },
                    None => {},
                }
            }
            i = i + 1;
        }
        data
    }
}

/// A module that looks terms up in a table of variants.
pub struct LookupModule {
    config: LookupConfig,
    data: LookupData,
    source: Option<String>,
    ready: bool,
}

/// The record of a lookup module with the given variants.
pub open spec fn lookup_record(cfg: LookupConfigView, found: Seq<Seq<char>>) -> TermExpansionView {
    TermExpansionView {
        expansions: found,
        scores: Seq::empty(),
        source_id: Some(cfg.id),
        source_name: Some(cfg.name),
        link: None,
    }
}

/// Whether one of `terms` has the text `key`.
pub open spec fn asks_for(terms: Seq<TermView>, key: Seq<char>) -> bool {
    exists|i: int| 0 <= i < terms.len() && #[trigger] terms[i].text() == key
}

/// What a lookup module with the table `table` finds for `terms`: an entry
/// for each term whose text the table holds, in lower case unless the module
/// is case sensitive. The entry stands under the text of the term as it was
/// given, and holds one record with the variants of the keyword.
pub open spec fn found_in(table: Table, cfg: LookupConfigView, terms: Seq<TermView>)
    -> ExpansionMap {
    Map::new(
        |k: Seq<char>| asks_for(terms, k) && table.dom().contains(table_key(k, cfg.casesensitive)),
        |k: Seq<char>| seq![lookup_record(cfg, table[table_key(k, cfg.casesensitive)])],
    )
}

/// What a lookup module answers: it knows no parameter, so the first
/// parameter of its scope is a failure; without one, what it finds.
pub open spec fn lookup_answer(
    table: Table,
    cfg: LookupConfigView,
    terms: Seq<TermView>,
    params: Seq<QueryParamView>,
) -> Outcome {
    let own = scoped(params, cfg.id);
    if own.len() > 0 {
        Err(unknown_key("lookup"@, own[0].key))
    } else {
        Ok(found_in(table, cfg, terms))
    }
}

impl LookupModule {
    /// The configuration.
    pub closed spec fn settings(&self) -> LookupConfigView {
        self.config@
    }

    /// The table.
    pub closed spec fn table(&self) -> Table {
        self.data@
    }

    /// The text of the lexicon, where it has been supplied.
    pub closed spec fn lexicon_text(&self) -> Option<Seq<char>> {
        match self.source {
            Some(s) => Some(s@),
            None => None,
        }
    }

    /// Whether the module has been loaded.
    pub closed spec fn is_ready(&self) -> bool {
        self.ready
    }

    /// A module with an empty table and without a lexicon, not loaded.
    pub fn new(config: LookupConfig) -> (r: Self)
        ensures
            r.settings() == config@,
            r.table() == Table::empty(),
            r.lexicon_text().is_none(),
            !r.is_ready(),
    {
        LookupModule { config, data: LookupData::new(), source: None, ready: false }
    }

    /// The same with the text of its lexicon, which `load` reads.
    pub fn with_source(self, content: String) -> (r: Self)
        ensures
            r.settings() == self.settings(),
            r.table() == self.table(),
            r.lexicon_text() == Some(content@),
            r.is_ready() == self.is_ready(),
    {
        let mut r = self;
        r.source = Some(content);
        r
    }

    /// The configuration.
    pub fn config(&self) -> (r: &LookupConfig)
        ensures
            r@ == self.settings(),
    {
        &self.config
    }

    /// The table.
    pub fn data(&self) -> (r: &LookupData)
        ensures
            r@ == self.table(),
    {
        &self.data
    }
}

/// What `load` makes of a lookup module: it reads the table from the
/// lexicon that was supplied and is loaded then; where none was supplied it
/// fails and leaves the module as it was.
pub open spec fn lookup_loads(before: LookupModule, after: LookupModule, r: Result<(), Error>)
    -> bool {
    &&& after.settings() == before.settings()
    &&& after.lexicon_text() == before.lexicon_text()
    &&& match r {
        Ok(()) => {
            &&& before.lexicon_text().is_some()
            &&& after.is_ready()
            &&& after.table() == lexicon(before.lexicon_text().unwrap(), before.settings())
        },
        Err(e) => {
            &&& before.lexicon_text().is_none()
            &&& after.table() == before.table()
            &&& !after.is_ready()
            &&& e@ == ErrorView::LoadError("no lexicon was supplied"@)
        },
    }
}

impl Module for LookupModule {
    open spec fn ident(&self) -> Seq<char> {
        self.settings().id
    }

    open spec fn loaded(&self) -> bool {
        self.is_ready()
    }

    open spec fn label(&self) -> Seq<char> {
        self.settings().name
    }

    open spec fn family(&self) -> Seq<char> {
        "lookup"@
    }

    open spec fn answers(
        &self,
        terms: Seq<TermView>,
        params: Seq<QueryParamView>,
        answer: Outcome,
    ) -> bool {
        answer == lookup_answer(self.table(), self.settings(), terms, params)
    }

    fn kind(&self) -> (r: &'static str) {
        "lookup"
    }

    fn id(&self) -> (r: &str) {
        self.config.id.as_str()
    }

    fn name(&self) -> (r: &str) {
        self.config.name.as_str()
    }

    /// Reads the table from the lexicon that was supplied. Fails where none
    /// was.
    fn load(&mut self) -> (r: Result<(), Error>)
        ensures
            lookup_loads(*old(self), *final(self), r),
    {
        match &self.source {
            Some(content) => {
                let data = LookupData::parse(content.as_str(), &self.config);
                self.data = data;
                self.ready = true;
                Ok(())
            },
            None => Err(Error::load("no lexicon was supplied")),
        }
    }

    /// Looks each term up, in lower case unless the module is case
    /// sensitive; what is found stands under the term as it was given. Fails
    /// where the query holds a parameter for this module, which knows none.
    fn expand_query(&self, terms: &Vec<Term>, params: &QueryParams) -> (r: Result<
        TermExpansions,
        Error,
    >)
    {
        let own = params.iter_for_module(self.config.id.as_str());
        if own.len() > 0 {
            proof {
                assert(param_ref_views(own@)[0] == own@[0]@);
            }
            return Err(unknown_key_error("lookup", own[0].key()));
        }
        let mut expansions = TermExpansions::new();
        let ghost tv = term_views(terms@);
        let ghost cfg = self.settings();
        let ghost table = self.table();
        let mut i: usize = 0;
        proof {
            assert(expansions@ =~= found_in(table, cfg, tv.take(0)));
        }
        while i < terms.len()
            invariant
                i <= terms.len(),
                tv == term_views(terms@),
                cfg == self.settings(),
                table == self.table(),
                expansions.wf(),
                expansions@ == found_in(table, cfg, tv.take(i as int)),
            decreases terms.len() - i,
        {
            let text = terms[i].as_str();
            let key = if self.config.casesensitive {
                text.to_owned()
            } else {
                to_lower(text)
            };
            let ghost k = text@;
            proof {
                assert(tv[i as int].text() == k);
                assert(tv.take(i + 1)[i as int].text() == k);
                assert(key@ == table_key(k, cfg.casesensitive));
                assert forall|q: Seq<char>|
                    asks_for(tv.take(i + 1), q) <==> (asks_for(tv.take(i as int), q) || q == k) by {
                    let a = tv.take(i as int);
                    let b = tv.take(i + 1);
                    if asks_for(b, q) {
                        let j = choose|j: int| 0 <= j < b.len() && #[trigger] b[j].text() == q;
                        if j < i {
                            assert(a[j].text() == q);
                        }
                    }
                    if asks_for(a, q) {
                        let j = choose|j: int| 0 <= j < a.len() && #[trigger] a[j].text() == q;
                        assert(b[j].text() == q);
                    }
                }
            }
            match self.data.get(key.as_str()) {
                Some(found) => {
                    let record = TermExpansion::new().with_source(
                        self.config.id.as_str(),
                        self.config.name.as_str(),
                    ).with_expansions(clone_strings(found));
                    let mut records: Vec<TermExpansion> = Vec::new();
                    records.push(record);
                    proof {
                        assert(crate::expansion::record_views(records@) =~= seq![
                            lookup_record(cfg, table[key@]),
                        ]);
                    }
                    expansions.insert(text.to_owned(), records);
                    proof {
                        assert(expansions@ =~= found_in(table, cfg, tv.take(i + 1)));
                    }
                },
                None => {
                    proof {
                        assert(expansions@ =~= found_in(table, cfg, tv.take(i + 1)));
                    }
                },
            }
            i = i + 1;
        }
        proof {
            assert(tv.take(i as int) =~= tv);
        }
        Ok(expansions)
    }
}

} // verus!
