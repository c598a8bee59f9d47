use kweepeer::{
    Error, LookupConfig, LookupData, LookupModule, Module, ParamValue, QueryParams, Term,
};

const LEXICON: &str = "# keyword\tvariants\nseparate\tseparated\tseparates\tsplit\tapart\tdivide\tdivided\nbelangrijk\tgewichtig\t0.75\tvoornaam\nlonely\n";

fn init_test() -> Result<LookupModule, Error> {
    Ok(LookupModule::new(LookupConfig::new("lookup", "lookup", "lookup.tsv"))
        .with_source(LEXICON.to_string()))
}

#[test]
pub fn lookup_test001_lookup_load() -> Result<(), Error> {
    let mut module = init_test()?;
    module.load()?;
    Ok(())
}

#[test]
pub fn lookup_test002_lookup_query() -> Result<(), Error> {
    let mut module = init_test()?;
    module.load()?;
    let terms = vec![Term::Singular("separate")];
    let expansions = module.expand_query(&terms, &QueryParams::default())?;
    assert_eq!(expansions.len(), 1, "Checking number of terms returned");
    let termexpansion = expansions
        .get("separate")
        .expect("term must exists")
        .get(0)
        .expect("term must have results");
    assert_eq!(
        termexpansion.source_id(),
        Some("lookup"),
        "Checking source id"
    );
    assert_eq!(
        termexpansion.source_name(),
        Some("lookup"),
        "Checking source name"
    );
    assert_eq!(
        termexpansion.iter(),
        vec!(
            "separated",
            "separates",
            "split",
            "apart",
            "divide",
            "divided"
        ),
        "Checking returned expansions"
    );
    Ok(())
}

#[test]
pub fn lookup_test002_lookup_query_nomatch() -> Result<(), Error> {
    let mut module = init_test()?;
    module.load()?;
    let terms = vec![Term::Singular("blah")];
    let expansions = module.expand_query(&terms, &QueryParams::default())?;
    assert_eq!(expansions.len(), 0, "Checking number of terms returned");
    Ok(())
}

#[test]
pub fn lookup_load_without_lexicon_fails() {
    let mut module = LookupModule::new(LookupConfig::new("lookup", "lookup", "lookup.tsv"));
    match module.load() {
        Err(Error::LoadError(detail)) => assert_eq!(detail, "no lexicon was supplied"),
        other => panic!("unexpected: {:?}", other),
    }
}

#[test]
pub fn lookup_module_identity() {
    let module = LookupModule::new(LookupConfig::new("l1", "Lookup one", "f.tsv"));
    assert_eq!(module.id(), "l1");
    assert_eq!(module.name(), "Lookup one");
    assert_eq!(module.kind(), "lookup");
    assert_eq!(module.config().id(), "l1");
    assert_eq!(module.config().name(), "Lookup one");
    assert_eq!(module.config().file(), "f.tsv");
    assert_eq!(kweepeer::modules::lookup::tab(), '\t');
}

fn table(content: &str, config: &LookupConfig) -> LookupData {
    LookupData::parse(content, config)
}

fn variants(data: &LookupData, key: &str) -> Option<Vec<String>> {
    data.get(key).cloned()
}

#[test]
pub fn lexicon_numbers_are_left_out() {
    let config = LookupConfig::new("l", "l", "f");
    let data = table(LEXICON, &config);
    assert_eq!(data.len(), 2);
    assert_eq!(
        variants(&data, "belangrijk"),
        Some(vec!["gewichtig".to_string(), "voornaam".to_string()])
    );
    assert_eq!(variants(&data, "lonely"), None);
    assert_eq!(variants(&data, "# keyword"), None);
    let data = table(LEXICON, &config.with_allow_numeric(true));
    assert_eq!(
        variants(&data, "belangrijk"),
        Some(vec![
            "gewichtig".to_string(),
            "0.75".to_string(),
            "voornaam".to_string()
        ])
    );
}

#[test]
pub fn lexicon_line_with_numbers_only_gives_no_entry() {
    let config = LookupConfig::new("l", "l", "f");
    let data = table("a\t1\t2.5\tinf\nb\tx\n", &config);
    assert_eq!(data.len(), 1);
    assert_eq!(variants(&data, "a"), None);
    assert_eq!(variants(&data, "b"), Some(vec!["x".to_string()]));
}

#[test]
pub fn lexicon_keywords_are_held_in_lower_case() {
    let config = LookupConfig::new("l", "l", "f");
    let data = table("Separate\tsplit\nÉCOLE\tschool\n", &config);
    assert_eq!(variants(&data, "separate"), Some(vec!["split".to_string()]));
    assert_eq!(variants(&data, "Separate"), None);
    assert_eq!(variants(&data, "école"), Some(vec!["school".to_string()]));
    let data = table("Separate\tsplit\n", &config.with_casesensitive(true));
    assert_eq!(variants(&data, "Separate"), Some(vec!["split".to_string()]));
    assert_eq!(variants(&data, "separate"), None);
}

#[test]
pub fn lexicon_first_line_may_be_a_header() {
    let config = LookupConfig::new("l", "l", "f");
    let content = "key\tvariant\na\tb\n";
    assert_eq!(table(content, &config).len(), 2);
    let data = table(content, &config.with_skipfirstline(true));
    assert_eq!(data.len(), 1);
    assert_eq!(variants(&data, "key"), None);
    assert_eq!(variants(&data, "a"), Some(vec!["b".to_string()]));
}

#[test]
pub fn lexicon_last_line_of_a_keyword_stands() {
    let config = LookupConfig::new("l", "l", "f");
    let data = table("a\tb\na\tc\td\n", &config);
    assert_eq!(data.len(), 1);
    assert_eq!(variants(&data, "a"), Some(vec!["c".to_string(), "d".to_string()]));
}

#[test]
pub fn lexicon_with_other_delimiters() {
    let config = LookupConfig::new("l", "l", "f").with_delimiters(':', ',');
    let data = table("  a:b,c,,d  \r\n#x:y\nnone\nlast:z", &config);
    assert_eq!(data.len(), 2);
    assert_eq!(
        variants(&data, "a"),
        Some(vec![
            "b".to_string(),
            "c".to_string(),
            "".to_string(),
            "d".to_string()
        ])
    );
    assert_eq!(variants(&data, "last"), Some(vec!["z".to_string()]));
    assert_eq!(variants(&data, "#x"), None);
    assert_eq!(variants(&data, "none"), None);
}

#[test]
pub fn lookup_entries_stand_under_the_term_as_given() {
    let mut module = LookupModule::new(LookupConfig::new("l", "l", "f"))
        .with_source("separate\tsplit\n".to_string());
    module.load().unwrap();
    let terms = vec![Term::Singular("Separate"), Term::Phrase("SEPARATE"), Term::Singular("other")];
    let expansions = module.expand_query(&terms, &QueryParams::new()).unwrap();
    assert_eq!(expansions.len(), 2);
    assert!(expansions.get("separate").is_none());
    assert!(expansions.get("other").is_none());
    for term in ["Separate", "SEPARATE"] {
        let records = expansions.get(term).unwrap();
        assert_eq!(records.len(), 1);
        assert_eq!(records[0].iter(), vec!["split"]);
        assert_eq!(records[0].scores().len(), 0);
        assert_eq!(records[0].link(), None);
        assert_eq!(records[0].source_id(), Some("l"));
    }
}

#[test]
pub fn lookup_takes_no_parameters() {
    let mut module = LookupModule::new(LookupConfig::new("l", "L", "f"))
        .with_source("separate\tsplit\n".to_string());
    module.load().unwrap();
    let terms = vec![Term::Singular("separate")];
    let params = QueryParams::new()
        .with("", "depth", ParamValue::Bool(true))
        .with("other", "depth", ParamValue::Bool(true));
    assert_eq!(module.expand_query(&terms, &params).unwrap().len(), 1);
    let params = params
        .with("l", "depth", ParamValue::Bool(true))
        .with("l", "width", ParamValue::Bool(true));
    match module.expand_query(&terms, &params) {
        Err(Error::QueryExpandError(detail)) => {
            assert_eq!(detail, "Got unexpected parameter for lookup: depth")
        }
        other => panic!("unexpected: {:?}", other.map(|m| m.len())),
    }
    match module.expand_query(&vec![], &params) {
        Err(Error::QueryExpandError(detail)) => {
            assert_eq!(detail, "Got unexpected parameter for lookup: depth")
        }
        other => panic!("unexpected: {:?}", other.map(|m| m.len())),
    }
}

#[test]
pub fn lookup_case_sensitive() {
    let mut module = LookupModule::new(
        LookupConfig::new("l", "l", "f").with_casesensitive(true),
    )
    .with_source("Separate\tsplit\n".to_string());
    module.load().unwrap();
    let terms = vec![Term::Singular("separate")];
    assert_eq!(module.expand_query(&terms, &QueryParams::new()).unwrap().len(), 0);
    let terms = vec![Term::Singular("Separate")];
    let expansions = module.expand_query(&terms, &QueryParams::new()).unwrap();
    assert_eq!(expansions.get("Separate").unwrap()[0].iter(), vec!["split"]);
}
