use kweepeer::template::resolve;
use kweepeer::{Score, Term, TermExpansion, TermExpansions};

fn record(id: &str, expansions: &[&str]) -> TermExpansion {
    TermExpansion::new()
        .with_source(id, id)
        .with_expansions(expansions.iter().map(|s| s.to_string()).collect())
}

#[test]
pub fn template_one_module() {
    let mut map = TermExpansions::new();
    map.insert("separate".to_string(), vec![record("a", &["separated", "separates", "split"])]);
    assert_eq!(
        resolve("{{separate}}", &map),
        "(\"separated\" OR \"separates\" OR \"split\")"
    );
}

#[test]
pub fn template_two_modules() {
    let mut map = TermExpansions::new();
    map.insert(
        "foo".to_string(),
        vec![record("a", &["bar", "baz"]), record("b", &["qux"])],
    );
    assert_eq!(resolve("{{foo}}", &map), "(\"bar\" OR \"baz\") OR (\"qux\")");
}

#[test]
pub fn template_expansion_of_two_modules_is_written_once() {
    let mut map = TermExpansions::new();
    map.insert(
        "foo".to_string(),
        vec![record("a", &["X", "bar"]), record("b", &["baz", "X"])],
    );
    let resolved = resolve("{{foo}}", &map);
    assert_eq!(resolved, "(\"X\" OR \"bar\") OR (\"baz\")");
    assert_eq!(resolved.matches("\"X\"").count(), 1);
}

#[test]
pub fn template_module_without_anything_new_gets_no_brackets() {
    let mut map = TermExpansions::new();
    map.insert(
        "foo".to_string(),
        vec![
            record("a", &[]),
            record("b", &["x", "x", "y"]),
            record("c", &["y", "x"]),
            record("d", &["z"]),
        ],
    );
    assert_eq!(resolve("{{foo}}", &map), "(\"x\" OR \"y\") OR (\"z\")");
}

#[test]
pub fn template_each_slot_starts_anew() {
    let mut map = TermExpansions::new();
    map.insert("a".to_string(), vec![record("m", &["x"])]);
    map.insert("b".to_string(), vec![record("m", &["x"])]);
    assert_eq!(resolve("{{a}} AND {{b}}", &map), "(\"x\") AND (\"x\")");
}

#[test]
pub fn template_term_without_expansions_leaves_nothing() {
    let mut map = TermExpansions::new();
    map.insert("a".to_string(), vec![record("m", &["x"])]);
    map.insert("c".to_string(), vec![]);
    assert_eq!(resolve("{{a}} AND {{b}} OR {{c}}!", &map), "(\"x\") AND  OR !");
}

#[test]
pub fn template_text_before_the_first_slot_is_not_kept() {
    let mut map = TermExpansions::new();
    map.insert("foo".to_string(), vec![record("m", &["f"])]);
    map.insert("bar".to_string(), vec![record("m", &["b"])]);
    assert_eq!(resolve("+{{foo}} -{{bar}} end", &map), "(\"f\") -(\"b\") end");
}

#[test]
pub fn template_without_slots_is_empty() {
    let map = TermExpansions::new();
    assert_eq!(resolve("", &map), "");
    assert_eq!(resolve("no slots here", &map), "");
    assert_eq!(resolve("{{open", &map), "");
    assert_eq!(resolve("closed}}", &map), "");
    assert_eq!(resolve("{a}", &map), "");
}

#[test]
pub fn template_marks_in_odd_places() {
    let mut map = TermExpansions::new();
    map.insert("a".to_string(), vec![record("m", &["x"])]);
    map.insert("".to_string(), vec![record("m", &["e"])]);
    map.insert("a}b".to_string(), vec![record("m", &["y"])]);
    assert_eq!(resolve("{{a}}}", &map), "(\"x\")}");
    assert_eq!(resolve("{{a}}}} {{a}}", &map), "(\"x\")}} (\"x\")");
    assert_eq!(resolve("{{a}} {{{a}}", &map), "(\"x\") {(\"x\")");
    assert_eq!(resolve("{{q{{a}}", &map), "(\"x\")");
    assert_eq!(resolve("{{a}} {{q{{a}}", &map), "(\"x\") {{q(\"x\")");
    assert_eq!(resolve("{{}}", &map), "(\"e\")");
    assert_eq!(resolve("{{a}b}}", &map), "(\"y\")");
    assert_eq!(resolve("{{a}} é {{a}}ü", &map), "(\"x\") é (\"x\")ü");
}

#[test]
pub fn template_of_a_query() {
    let (terms, template) = Term::extract_from_query("\"foo bar\" AND baz");
    assert_eq!(terms.len(), 2);
    let mut map = TermExpansions::new();
    map.insert("foo bar".to_string(), vec![record("m", &["foobar"])]);
    map.insert("baz".to_string(), vec![record("m", &["bas", "bat"])]);
    assert_eq!(
        resolve(&template, &map),
        "(\"foobar\") AND (\"bas\" OR \"bat\")"
    );
}

#[test]
pub fn expansions_of_a_term() {
    let mut map = TermExpansions::new();
    assert_eq!(map.len(), 0);
    assert!(map.get("a").is_none());
    assert!(!map.contains_key("a"));
    map.insert("a".to_string(), vec![record("m", &["x"])]);
    map.insert("b".to_string(), vec![record("m", &["y"])]);
    map.insert("a".to_string(), vec![record("n", &["z"])]);
    assert_eq!(map.len(), 2);
    assert!(map.contains_key("a"));
    assert_eq!(map.get("a").unwrap().len(), 1);
    assert_eq!(map.get("a").unwrap()[0].source_id(), Some("n"));
    assert_eq!(map.entry(0).unwrap().0, "a");
    assert_eq!(map.entry(1).unwrap().0, "b");
    assert!(map.entry(2).is_none());
    map.extend("a", vec![record("o", &["w"])]);
    map.extend("c", vec![record("o", &["v"])]);
    map.extend("d", vec![]);
    assert_eq!(map.len(), 4);
    assert_eq!(map.get("a").unwrap().len(), 2);
    assert_eq!(map.get("a").unwrap()[1].source_id(), Some("o"));
    assert_eq!(map.get("c").unwrap().len(), 1);
    assert_eq!(map.get("d").unwrap().len(), 0);
    let removed = map.remove("a").unwrap();
    assert_eq!(removed.len(), 2);
    assert!(map.remove("a").is_none());
    assert_eq!(map.len(), 3);
    assert!(map.get("a").is_none());
    assert_eq!(map.get("b").unwrap()[0].iter(), vec!["y"]);
}

#[test]
pub fn record_of_a_module() {
    let mut r = TermExpansion::default();
    assert_eq!(r.len(), 0);
    assert_eq!(r.source_id(), None);
    assert_eq!(r.source_name(), None);
    assert_eq!(r.link(), None);
    r.add_variant("a");
    r.add_variant_with_score("b", Score::Double(0.5f64.to_bits()));
    assert_eq!(r.len(), 2);
    assert_eq!(r.expansions(), &vec!["a".to_string(), "b".to_string()]);
    assert_eq!(r.as_vec(), &vec!["a".to_string(), "b".to_string()]);
    assert_eq!(r.scores(), &vec![Score::Double(0.5f64.to_bits())]);
    let r = r
        .with_source("id", "name")
        .with_link("http://example.org")
        .with_scores(vec![Score::Single(1.0f32.to_bits()), Score::Single(0.0f32.to_bits())]);
    assert_eq!(r.source_id(), Some("id"));
    assert_eq!(r.source_name(), Some("name"));
    assert_eq!(r.link(), Some("http://example.org"));
    assert_eq!(r.scores().len(), 2);
    assert_eq!(r.iter(), vec!["a", "b"]);
}
