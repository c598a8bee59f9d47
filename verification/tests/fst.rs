use kweepeer::{Error, FstConfig, FstModule, Module, Number, ParamValue, QueryParams, Term};

const LEXICON: &str = "onbelangrijk\nbelangrijk\t12\nbelangrijke\nbelangrijker\nbelangrijks\nbelangrijkst\nbelangrijkste\nbelangrijkere\nonbelangrijke\n# comment\n\nhuis\nhuizen\n";

fn init_test() -> Result<FstModule, Error> {
    let config = FstConfig::new("fst", "fst", "test.nofreq.lexicon", 2, false);
    Ok(FstModule::new(config).with_source(LEXICON.to_string()))
}

#[test]
pub fn fst_test001_lookup_load() -> Result<(), Error> {
    let mut module = init_test()?;
    module.load()?;
    Ok(())
}

#[test]
pub fn fst_test002_lookup_query() -> Result<(), Error> {
    let mut module = init_test()?;
    module.load()?;
    let terms = vec![Term::Singular("belangrijk")];
    let expansions = module.expand_query(&terms, &QueryParams::new())?;
    assert_eq!(expansions.len(), 1, "Checking number of terms returned");
    let termexpansion = expansions
        .get("belangrijk")
        .expect("term must exists")
        .get(0)
        .expect("term must have results");
    assert_eq!(termexpansion.source_id(), Some("fst"), "Checking source id");
    assert_eq!(
        termexpansion.source_name(),
        Some("fst"),
        "Checking source name"
    );
    assert_eq!(
        termexpansion.iter(),
        [
            "belangrijk",
            "belangrijke",
            "belangrijker",
            "belangrijks",
            "belangrijkst",
            "onbelangrijk"
        ],
        "Checking returned expansions"
    );
    Ok(())
}

#[test]
pub fn fst_test002_lookup_query_nomatch() -> Result<(), Error> {
    let mut module = init_test()?;
    module.load()?;
    let terms = vec![Term::Singular("blah")];
    let expansions = module.expand_query(&terms, &QueryParams::new())?;
    assert_eq!(expansions.len(), 0, "Checking number of terms returned");
    Ok(())
}

#[test]
pub fn fst_distance_from_the_query() {
    let mut module = init_test().unwrap();
    module.load().unwrap();
    let terms = vec![Term::Singular("belangrijk")];
    let params = QueryParams::new().with("fst", "distance", ParamValue::Number(Number::PosInt(1)));
    let expansions = module.expand_query(&terms, &params).unwrap();
    assert_eq!(
        expansions.get("belangrijk").unwrap()[0].iter(),
        ["belangrijk", "belangrijke", "belangrijks"]
    );
    let params = QueryParams::new().with("fst", "distance", ParamValue::Number(Number::PosInt(0)));
    let expansions = module.expand_query(&terms, &params).unwrap();
    assert_eq!(expansions.get("belangrijk").unwrap()[0].iter(), ["belangrijk"]);
    let params = QueryParams::new().with("other", "distance", ParamValue::Number(Number::PosInt(0)));
    let expansions = module.expand_query(&terms, &params).unwrap();
    assert_eq!(expansions.get("belangrijk").unwrap()[0].len(), 6);
    assert_eq!(module.distance(&params).unwrap(), 2);
}

#[test]
pub fn fst_distance_must_be_an_unsigned_integer() {
    let mut module = init_test().unwrap();
    module.load().unwrap();
    let terms = vec![Term::Singular("belangrijk")];
    for value in [
        ParamValue::String("1".to_string()),
        ParamValue::Number(Number::NegInt(-1)),
        ParamValue::Number(Number::Real(1.5f64.to_bits())),
        ParamValue::Null,
    ] {
        let params = QueryParams::new().with("fst", "distance", value);
        match module.expand_query(&terms, &params) {
            Err(Error::QueryExpandError(detail)) => {
                assert_eq!(detail, "invalid value for distance parameter")
            }
            other => panic!("unexpected: {:?}", other.map(|m| m.len())),
        }
    }
}

#[test]
pub fn fst_load_of_a_lexicon_in_order() {
    let config = FstConfig::new("fst", "fst", "f", 1, true);
    let mut module = FstModule::new(config).with_source("aap\nnoot\nnoot\nzus\n".to_string());
    module.load().unwrap();
    let terms = vec![Term::Singular("noot"), Term::Singular("aas")];
    let expansions = module.expand_query(&terms, &QueryParams::new()).unwrap();
    assert_eq!(expansions.len(), 2);
    assert_eq!(expansions.get("noot").unwrap()[0].iter(), ["noot"]);
    assert_eq!(expansions.get("aas").unwrap()[0].iter(), ["aap"]);
}

#[test]
pub fn fst_load_of_a_lexicon_out_of_order_fails() {
    let config = FstConfig::new("fst", "fst", "f", 1, true);
    let mut module = FstModule::new(config).with_source("noot\naap\n".to_string());
    match module.load() {
        Err(Error::LoadError(detail)) => assert_eq!(detail, "FST error"),
        other => panic!("unexpected: {:?}", other),
    }
}

#[test]
pub fn fst_load_without_lexicon_fails() {
    let mut module = FstModule::new(FstConfig::new("fst", "fst", "f", 1, true));
    match module.load() {
        Err(Error::LoadError(detail)) => assert_eq!(detail, "no lexicon was supplied"),
        other => panic!("unexpected: {:?}", other),
    }
}

#[test]
pub fn fst_first_line_may_be_a_header() {
    let config = FstConfig::new("fst", "fst", "f", 0, false).with_skipfirstline();
    let mut module = FstModule::new(config).with_source("word\nnoot\n".to_string());
    module.load().unwrap();
    let terms = vec![Term::Singular("word"), Term::Singular("noot")];
    let expansions = module.expand_query(&terms, &QueryParams::new()).unwrap();
    assert_eq!(expansions.len(), 1);
    assert!(expansions.get("word").is_none());
}

#[test]
pub fn fst_words_of_a_lexicon() {
    let words = kweepeer::modules::fst::read_words(LEXICON, false);
    assert_eq!(words.len(), 11);
    assert_eq!(words[0], "onbelangrijk");
    assert_eq!(words[1], "belangrijk");
    assert_eq!(words[9], "huis");
    let words = kweepeer::modules::fst::read_words(LEXICON, true);
    assert_eq!(words.len(), 10);
    assert_eq!(words[0], "belangrijk");
}

#[test]
pub fn fst_module_identity() {
    let config = FstConfig::new("f1", "Fst one", "lex", 3, true).with_distance(4);
    assert_eq!(config.id(), "f1");
    assert_eq!(config.name(), "Fst one");
    assert_eq!(config.file(), "lex");
    let module = FstModule::new(config);
    assert_eq!(module.id(), "f1");
    assert_eq!(module.name(), "Fst one");
    assert_eq!(module.kind(), "fst");
    assert_eq!(module.distance(&QueryParams::new()).unwrap(), 4);
}

#[test]
pub fn fst_search_at_the_edges() {
    let mut module = init_test().unwrap();
    module.load().unwrap();
    let terms = vec![Term::Singular(""), Term::Separator(" "), Term::Singular("huis")];
    let expansions = module.expand_query(&terms, &QueryParams::new()).unwrap();
    assert_eq!(expansions.len(), 1);
    assert_eq!(expansions.get("huis").unwrap()[0].iter(), ["huis"]);
    let params = QueryParams::new().with("fst", "distance", ParamValue::Number(Number::PosInt(4)));
    let expansions = module.expand_query(&terms, &params).unwrap();
    assert_eq!(expansions.get("").unwrap()[0].iter(), ["huis"]);
    assert_eq!(expansions.get("huis").unwrap()[0].iter(), ["huis", "huizen"]);
    let params =
        QueryParams::new().with("fst", "distance", ParamValue::Number(Number::PosInt(u64::MAX)));
    let expansions = module.expand_query(&terms, &params).unwrap();
    if let Some(records) = expansions.get("huis") {
        assert_eq!(records[0].len(), 11);
    }
    let params =
        QueryParams::new().with("fst", "distance", ParamValue::Number(Number::PosInt(1 << 32)));
    let expansions = module.expand_query(&terms, &params).unwrap();
    assert_eq!(expansions.get("huis").unwrap()[0].iter(), ["huis"]);
}

#[test]
pub fn fst_load_of_an_empty_lexicon() {
    let config = FstConfig::new("fst", "fst", "f", 1, false);
    let mut module = FstModule::new(config).with_source("# nothing\n\n".to_string());
    module.load().unwrap();
    let terms = vec![Term::Singular("huis")];
    assert_eq!(module.expand_query(&terms, &QueryParams::new()).unwrap().len(), 0);
}

#[test]
pub fn fst_takes_no_other_parameter_than_the_distance() {
    let mut module = init_test().unwrap();
    module.load().unwrap();
    let terms = vec![Term::Singular("huis")];
    let one = || ParamValue::Number(Number::PosInt(1));
    let params = QueryParams::new().with("", "depth", one()).with("other", "depth", one());
    assert_eq!(module.expand_query(&terms, &params).unwrap().len(), 1);
    let params = QueryParams::new().with("fst", "distance", one()).with("fst", "depth", one());
    match module.expand_query(&terms, &params) {
        Err(Error::QueryExpandError(detail)) => {
            assert_eq!(detail, "Got unexpected parameter for fst: depth")
        }
        other => panic!("unexpected: {:?}", other.map(|m| m.len())),
    }
    let params = QueryParams::new()
        .with("fst", "depth", one())
        .with("fst", "distance", ParamValue::Null);
    match module.distance(&params) {
        Err(Error::QueryExpandError(detail)) => {
            assert_eq!(detail, "Got unexpected parameter for fst: depth")
        }
        other => panic!("unexpected: {:?}", other),
    }
    let params = QueryParams::new()
        .with("fst", "distance", ParamValue::Null)
        .with("fst", "depth", one());
    match module.distance(&params) {
        Err(Error::QueryExpandError(detail)) => {
            assert_eq!(detail, "invalid value for distance parameter")
        }
        other => panic!("unexpected: {:?}", other),
    }
    let params = QueryParams::new()
        .with("fst", "distance", ParamValue::Number(Number::PosInt(0)))
        .with("fst", "distance", ParamValue::Number(Number::PosInt(4)));
    assert_eq!(module.distance(&params).unwrap(), 0);
}

#[test]
pub fn fst_words_come_in_the_order_of_their_bytes() {
    let config = FstConfig::new("fst", "fst", "f", 1, false);
    let mut module =
        FstModule::new(config).with_source("\u{e9}el\nzel\neel\nzebra\n".to_string());
    module.load().unwrap();
    let terms = vec![Term::Singular("eel"), Term::Singular("\u{e9}\u{e9}l")];
    let expansions = module.expand_query(&terms, &QueryParams::new()).unwrap();
    assert_eq!(expansions.get("eel").unwrap()[0].iter(), ["eel", "zel", "\u{e9}el"]);
    assert_eq!(expansions.get("\u{e9}\u{e9}l").unwrap()[0].iter(), ["\u{e9}el"]);
}

#[test]
pub fn fst_load_puts_words_in_order_unless_they_are_said_to_be() {
    let text = "noot\naap\nnoot\n";
    let mut module =
        FstModule::new(FstConfig::new("fst", "fst", "f", 0, false)).with_source(text.to_string());
    module.load().unwrap();
    let terms = vec![Term::Singular("aap"), Term::Singular("noot")];
    assert_eq!(module.expand_query(&terms, &QueryParams::new()).unwrap().len(), 2);
    let mut module =
        FstModule::new(FstConfig::new("fst", "fst", "f", 0, true)).with_source(text.to_string());
    match module.load() {
        Err(Error::LoadError(detail)) => assert_eq!(detail, "FST error"),
        other => panic!("unexpected: {:?}", other),
    }
    let mut module = FstModule::new(FstConfig::new("fst", "fst", "f", 0, true))
        .with_source("zel\n\u{e9}el\n".to_string());
    module.load().unwrap();
    let mut module = FstModule::new(FstConfig::new("fst", "fst", "f", 0, true))
        .with_source("\u{e9}el\nzel\n".to_string());
    assert!(matches!(module.load(), Err(Error::LoadError(_))));
}
