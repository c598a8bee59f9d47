use kweepeer::{Number, ParamValue, QueryParams};

#[test]
pub fn params_first_match_wins() {
    let params = QueryParams::new()
        .with("", "a", ParamValue::Number(Number::PosInt(1)))
        .with("fst", "a", ParamValue::Number(Number::PosInt(2)))
        .with("", "a", ParamValue::Number(Number::PosInt(3)));
    assert_eq!(params.len(), 3);
    assert_eq!(params.get("", "a"), Some(&ParamValue::Number(Number::PosInt(1))));
    assert_eq!(params.get("fst", "a"), Some(&ParamValue::Number(Number::PosInt(2))));
    assert_eq!(params.get("fst", "b"), None);
    assert_eq!(params.get("lookup", "a"), None);
    assert!(params.contains("", "a"));
    assert!(params.contains("fst", "a"));
    assert!(!params.contains("fst", "b"));
}

#[test]
pub fn params_insert_appends() {
    let mut params = QueryParams::default();
    assert_eq!(params.len(), 0);
    assert!(!params.contains("", "x"));
    params.insert("m", "x", ParamValue::Bool(true));
    params.insert("m", "x", ParamValue::Null);
    let all = params.iter();
    assert_eq!(all.len(), 2);
    assert_eq!(all[0].module_id(), "m");
    assert_eq!(all[0].key(), "x");
    assert_eq!(all[0].value(), &ParamValue::Bool(true));
    assert_eq!(all[1].value(), &ParamValue::Null);
    assert_eq!(params.get("m", "x"), Some(&ParamValue::Bool(true)));
}

#[test]
pub fn params_of_a_scope_in_order() {
    let params = QueryParams::new()
        .with("a", "k1", ParamValue::String("1".to_string()))
        .with("b", "k2", ParamValue::String("2".to_string()))
        .with("a", "k3", ParamValue::String("3".to_string()))
        .with("", "k4", ParamValue::String("4".to_string()));
    let own = params.iter_for_module("a");
    assert_eq!(own.len(), 2);
    assert_eq!(own[0].key(), "k1");
    assert_eq!(own[1].key(), "k3");
    assert_eq!(params.iter_for_module("").len(), 1);
    assert_eq!(params.iter_for_module("c").len(), 0);
}

#[test]
pub fn param_values() {
    assert_eq!(ParamValue::Number(Number::PosInt(7)).as_u64(), Some(7));
    assert_eq!(ParamValue::Number(Number::NegInt(-7)).as_u64(), None);
    assert_eq!(ParamValue::Number(Number::Real(0.5f64.to_bits())).as_u64(), None);
    assert_eq!(ParamValue::String("7".to_string()).as_u64(), None);
    assert_eq!(ParamValue::Null.as_u64(), None);
    assert!(ParamValue::Number(Number::Real(0.5f64.to_bits())).is_number());
    assert!(!ParamValue::Bool(true).is_number());
    let list = ParamValue::Array(vec!["a".to_string(), "b".to_string()]);
    assert_eq!(list.as_str_array(), vec!["a", "b"]);
    assert_eq!(ParamValue::String("a".to_string()).as_str_array(), Vec::<&str>::new());
    assert_eq!(ParamValue::Array(vec![]).as_str_array(), Vec::<&str>::new());
}

#[test]
pub fn params_from_flat_pairs() {
    let pairs = vec![
        ("q".to_string(), "foo".to_string()),
        ("fst.distance".to_string(), "2".to_string()),
        ("a.b.c".to_string(), "x".to_string()),
        (".k".to_string(), "y".to_string()),
        ("m.".to_string(), "z".to_string()),
    ];
    let params = QueryParams::from_pairs(&pairs);
    assert_eq!(params.len(), 5);
    assert_eq!(params.get("", "q"), Some(&ParamValue::String("foo".to_string())));
    assert_eq!(params.get("fst", "distance"), Some(&ParamValue::String("2".to_string())));
    assert_eq!(params.get("a", "b.c"), Some(&ParamValue::String("x".to_string())));
    assert_eq!(params.get("", "k"), Some(&ParamValue::String("y".to_string())));
    assert_eq!(params.get("m", ""), Some(&ParamValue::String("z".to_string())));
    assert_eq!(params.get("", "fst.distance"), None);
}
