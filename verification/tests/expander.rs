use kweepeer::expander::{merge_into, names, takes_part};
use kweepeer::{
    Config, Error, FstConfig, LookupConfig, LookupModule, Module, ParamValue, Provider,
    QueryExpander, QueryParams, Sources, Term, TermExpansion, TermExpansions,
};

fn sources() -> Sources {
    let mut sources = Sources::new();
    sources.insert("first.tsv", "separate\tseparated\tseparates\tsplit\nfoo\tX\tbar\n".to_string());
    sources.insert("second.tsv", "foo\tbaz\tX\nonly\tsecond\n".to_string());
    sources.insert("words.txt", "separate\nseparated\nfoo\nfool\n".to_string());
    sources
}

fn expander() -> QueryExpander<Provider> {
    let config = Config::new()
        .with_lookup(LookupConfig::new("first", "First", "first.tsv"))
        .with_lookup(LookupConfig::new("second", "Second", "second.tsv"))
        .with_fst(FstConfig::new("words", "Words", "words.txt", 1, false));
    let mut expander = QueryExpander::new().with_config(config);
    assert!(!expander.loaded());
    expander.load(sources()).unwrap();
    assert!(expander.loaded());
    expander
}

fn list(ids: &[&str]) -> ParamValue {
    ParamValue::Array(ids.iter().map(|s| s.to_string()).collect())
}

fn sources_of(records: &Vec<TermExpansion>) -> Vec<String> {
    records.iter().map(|r| r.source_id().unwrap().to_string()).collect()
}

#[test]
pub fn end_to_end_one_lookup_module() {
    let config = Config::new().with_lookup(LookupConfig::new("first", "First", "first.tsv"));
    let mut expander: QueryExpander<Provider> = QueryExpander::new().with_config(config);
    expander.load(sources()).unwrap();
    let (terms, template) = Term::extract_from_query("separate");
    let map = expander.expand_query(&terms, &QueryParams::new()).unwrap();
    let query = expander.resolve_query_template(&template, &map).unwrap();
    assert_eq!(query, "(\"separated\" OR \"separates\" OR \"split\")");
}

#[test]
pub fn modules_are_asked_in_order() {
    let expander = expander();
    let ids: Vec<&str> = expander.modules().iter().map(|m| m.id()).collect();
    assert_eq!(ids, vec!["first", "second", "words"]);
    let kinds: Vec<&str> = expander.modules().iter().map(|m| m.kind()).collect();
    assert_eq!(kinds, vec!["lookup", "lookup", "fst"]);
    let names: Vec<&str> = expander.modules().iter().map(|m| m.name()).collect();
    assert_eq!(names, vec!["First", "Second", "Words"]);
    let listed: Vec<String> = expander
        .list_modules()
        .iter()
        .map(|m| format!("{} {} {}", m.id, m.name, m.kind))
        .collect();
    assert_eq!(listed, vec!["first First lookup", "second Second lookup", "words Words fst"]);
    let (terms, template) = Term::extract_from_query("foo AND only");
    let map = expander.expand_query(&terms, &QueryParams::new()).unwrap();
    assert_eq!(map.len(), 2);
    assert_eq!(sources_of(map.get("foo").unwrap()), vec!["first", "second", "words"]);
    assert_eq!(sources_of(map.get("only").unwrap()), vec!["second"]);
    let query = expander.resolve_query_template(&template, &map).unwrap();
    assert_eq!(
        query,
        "(\"X\" OR \"bar\") OR (\"baz\") OR (\"foo\" OR \"fool\") AND (\"second\")"
    );
}

#[test]
pub fn expansion_of_two_modules_is_written_once() {
    let expander = expander();
    let (terms, template) = Term::extract_from_query("foo");
    let params = QueryParams::new();
    let map = expander.expand_query(&terms, &params).unwrap();
    let records = map.get("foo").unwrap();
    assert_eq!(records[0].iter(), vec!["X", "bar"]);
    assert_eq!(records[1].iter(), vec!["baz", "X"]);
    let query = expander.resolve_query_template(&template, &map).unwrap();
    assert_eq!(query.matches("\"X\"").count(), 1);
}

#[test]
pub fn same_query_same_expansion() {
    let expander = expander();
    let (terms, template) = Term::extract_from_query("foo separate nothing foo");
    let params = QueryParams::new();
    let first = expander.expand_query(&terms, &params).unwrap();
    let second = expander.expand_query(&terms, &params).unwrap();
    assert_eq!(first.len(), second.len());
    assert_eq!(first.len(), 3);
    for i in 0..first.len() {
        let (term, records) = first.entry(i).unwrap();
        let (term2, records2) = second.entry(i).unwrap();
        assert_eq!(term, term2);
        assert_eq!(records.len(), records2.len());
        for (a, b) in records.iter().zip(records2.iter()) {
            assert_eq!(a.source_id(), b.source_id());
            assert_eq!(a.expansions(), b.expansions());
        }
    }
    assert_eq!(
        expander.resolve_query_template(&template, &first).unwrap(),
        expander.resolve_query_template(&template, &second).unwrap()
    );
    assert_eq!(first.get("nothing").unwrap().len(), 0);
}

#[test]
pub fn with_nothing_excluded_every_module_takes_part() {
    let expander = expander();
    let (terms, _) = Term::extract_from_query("foo");
    let params = QueryParams::new()
        .with("", "excludemods", list(&[]))
        .with("", "includemods", list(&["second"]));
    let map = expander.expand_query(&terms, &params).unwrap();
    assert_eq!(sources_of(map.get("foo").unwrap()), vec!["first", "second", "words"]);
    let params = QueryParams::new().with("", "includemods", list(&["nobody"]));
    let map = expander.expand_query(&terms, &params).unwrap();
    assert_eq!(sources_of(map.get("foo").unwrap()), vec!["first", "second", "words"]);
}

#[test]
pub fn excluded_module_takes_part_only_where_it_is_included() {
    let expander = expander();
    let (terms, _) = Term::extract_from_query("foo");
    let params = QueryParams::new()
        .with("", "excludemods", list(&["first", "words"]))
        .with("", "includemods", list(&["words"]));
    let map = expander.expand_query(&terms, &params).unwrap();
    assert_eq!(sources_of(map.get("foo").unwrap()), vec!["second", "words"]);
    let params = QueryParams::new().with("", "excludemods", list(&["first", "words"]));
    let map = expander.expand_query(&terms, &params).unwrap();
    assert_eq!(sources_of(map.get("foo").unwrap()), vec!["first", "second", "words"]);
    let params = QueryParams::new().with("", "excludemods", ParamValue::String("first".to_string()));
    let map = expander.expand_query(&terms, &params).unwrap();
    assert_eq!(sources_of(map.get("foo").unwrap()), vec!["first", "second", "words"]);
}

#[test]
pub fn who_takes_part() {
    let none: Vec<&str> = vec![];
    let some = vec!["a", "b"];
    assert!(takes_part(&none, &none, "a"));
    assert!(takes_part(&none, &some, "c"));
    assert!(takes_part(&some, &none, "a"));
    assert!(takes_part(&some, &some, "a"));
    assert!(takes_part(&some, &vec!["c"], "c"));
    assert!(!takes_part(&some, &vec!["c"], "a"));
    assert!(takes_part(&some, &vec!["c"], "d"));
    assert!(names(&some, "b"));
    assert!(!names(&some, "ab"));
    assert!(!names(&none, ""));
}

#[test]
pub fn failure_of_a_module_ends_the_expansion() {
    let expander = expander();
    let (terms, _) = Term::extract_from_query("foo");
    let params = QueryParams::new().with("words", "distance", ParamValue::String("x".to_string()));
    match expander.expand_query(&terms, &params) {
        Err(Error::QueryExpandError(detail)) => {
            assert_eq!(detail, "invalid value for distance parameter")
        }
        other => panic!("unexpected: {:?}", other.map(|m| m.len())),
    }
    let mut map = TermExpansions::new();
    assert!(expander.expand_query_into(&mut map, &terms, &params).is_err());
    assert_eq!(map.len(), 0);
    assert!(map.get("foo").is_none());
    let mut record = TermExpansion::new().with_source("mine", "Mine");
    record.add_variant("kept");
    map.insert("foo".to_string(), vec![record]);
    map.insert("other".to_string(), vec![]);
    assert!(expander.expand_query_into(&mut map, &terms, &params).is_err());
    assert_eq!(map.len(), 2);
    assert_eq!(sources_of(map.get("foo").unwrap()), vec!["mine"]);
    assert_eq!(map.get("foo").unwrap()[0].iter(), ["kept"]);
    assert_eq!(map.get("other").unwrap().len(), 0);
    expander.expand_query_into(&mut map, &terms, &QueryParams::new()).unwrap();
    assert_eq!(sources_of(map.get("foo").unwrap()), vec!["mine", "first", "second", "words"]);
}

#[test]
pub fn answers_are_put_together_term_by_term() {
    let record = |id: &str, x: &str| {
        TermExpansion::new().with_source(id, id).with_expansions(vec![x.to_string()])
    };
    let terms = vec![Term::Singular("a"), Term::Phrase("b c"), Term::Singular("a")];
    let mut acc = TermExpansions::new();
    acc.insert("a".to_string(), vec![record("m", "1")]);
    acc.insert("z".to_string(), vec![record("m", "9")]);
    let mut answer = TermExpansions::new();
    answer.insert("a".to_string(), vec![record("n", "2")]);
    answer.insert("q".to_string(), vec![record("n", "3")]);
    merge_into(&mut acc, &terms, answer);
    assert_eq!(acc.len(), 3);
    assert_eq!(sources_of(acc.get("a").unwrap()), vec!["m", "n"]);
    assert_eq!(acc.get("b c").unwrap().len(), 0);
    assert_eq!(sources_of(acc.get("z").unwrap()), vec!["m"]);
    assert!(acc.get("q").is_none());
}

#[test]
pub fn added_modules_come_first() {
    let mut own = LookupModule::new(LookupConfig::new("own", "Own", "own.tsv"))
        .with_source("foo\tmine\n".to_string());
    own.load().unwrap();
    let config = Config::new().with_lookup(LookupConfig::new("first", "First", "first.tsv"));
    let mut expander = QueryExpander::new()
        .with_module(Provider::Lookup(own))
        .with_config(config);
    expander.load(sources()).unwrap();
    let (terms, template) = Term::extract_from_query("foo");
    let map = expander.expand_query(&terms, &QueryParams::new()).unwrap();
    assert_eq!(sources_of(map.get("foo").unwrap()), vec!["own", "first"]);
    assert_eq!(
        expander.resolve_query_template(&template, &map).unwrap(),
        "(\"mine\") OR (\"X\" OR \"bar\")"
    );
}

#[test]
pub fn load_without_the_text_of_a_file_fails() {
    let config = Config::new().with_lookup(LookupConfig::new("l", "L", "missing.tsv"));
    let mut expander: QueryExpander<Provider> = QueryExpander::new().with_config(config);
    match expander.load(sources()) {
        Err(Error::LoadError(detail)) => assert_eq!(detail, "missing.tsv: no text was supplied"),
        other => panic!("unexpected: {:?}", other),
    }
    assert!(!expander.loaded());
    let config = Config::new().with_fst(FstConfig::new("f", "F", "missing.txt", 1, true));
    let mut expander: QueryExpander<Provider> = QueryExpander::new().with_config(config);
    assert!(matches!(expander.load(sources()), Err(Error::LoadError(_))));
}

#[test]
pub fn load_of_an_empty_configuration() {
    let mut expander: QueryExpander<Provider> = QueryExpander::new();
    expander.load(Sources::new()).unwrap();
    assert!(expander.loaded());
    assert_eq!(expander.modules().len(), 0);
    let (terms, template) = Term::extract_from_query("foo bar");
    let map = expander.expand_query(&terms, &QueryParams::new()).unwrap();
    assert_eq!(map.len(), 0);
    assert_eq!(expander.resolve_query_template(&template, &map).unwrap(), " ");
}

#[test]
pub fn texts_of_files() {
    let mut sources = Sources::new();
    assert_eq!(sources.get("a"), None);
    sources.insert("a", "one".to_string());
    sources.insert("b", "two".to_string());
    sources.insert("a", "three".to_string());
    assert_eq!(sources.get("a"), Some("one"));
    assert_eq!(sources.get("b"), Some("two"));
    assert_eq!(sources.get("c"), None);
}

#[test]
pub fn load_fails_as_the_first_module_that_fails() {
    let load = |config: Config| {
        let mut expander: QueryExpander<Provider> = QueryExpander::new().with_config(config);
        let r = expander.load(sources());
        assert_eq!(expander.loaded(), r.is_ok());
        match r {
            Ok(()) => None,
            Err(Error::LoadError(detail)) => Some(detail),
            Err(other) => panic!("unexpected: {:?}", other),
        }
    };
    let config = Config::new()
        .with_fst(FstConfig::new("f", "F", "nowhere.txt", 1, false))
        .with_lookup(LookupConfig::new("l", "L", "missing.tsv"));
    assert_eq!(load(config), Some("missing.tsv: no text was supplied".to_string()));
    let config = Config::new()
        .with_lookup(LookupConfig::new("l", "L", "first.tsv"))
        .with_fst(FstConfig::new("f", "F", "nowhere.txt", 1, false))
        .with_fst(FstConfig::new("g", "G", "other.txt", 1, false));
    assert_eq!(load(config), Some("nowhere.txt: no text was supplied".to_string()));
    let config = Config::new()
        .with_lookup(LookupConfig::new("l", "L", "first.tsv"))
        .with_fst(FstConfig::new("f", "F", "words.txt", 1, true))
        .with_fst(FstConfig::new("g", "G", "other.txt", 1, false));
    assert_eq!(load(config), Some("FST error".to_string()));
    let config = Config::new()
        .with_lookup(LookupConfig::new("l", "L", "first.tsv"))
        .with_fst(FstConfig::new("f", "F", "words.txt", 1, false))
        .with_fst(FstConfig::new("g", "G", "second.tsv", 1, true));
    assert_eq!(load(config), None);
}
