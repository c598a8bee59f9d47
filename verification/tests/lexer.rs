use kweepeer::Term;

#[test]
pub fn test001_lexer_singular() {
    let terms = Term::extract_from_query("foo");
    assert_eq!(
        terms,
        (vec!(Term::Singular("foo".into())), "{{foo}}".into())
    )
}

#[test]
pub fn test002_lexer_two() {
    let terms = Term::extract_from_query("foo bar");
    assert_eq!(
        terms,
        (
            vec!(Term::Singular("foo".into()), Term::Singular("bar".into())),
            "{{foo}} {{bar}}".into()
        )
    )
}

#[test]
pub fn test003_lexer_phrase() {
    let terms = Term::extract_from_query("\"foo bar\"");
    assert_eq!(
        terms,
        (vec!(Term::Phrase("foo bar".into())), "{{foo bar}}".into())
    )
}

#[test]
pub fn test004_lexer_mixed1() {
    let terms = Term::extract_from_query("foo \"foo bar\"");
    assert_eq!(
        terms,
        (
            vec!(Term::Singular("foo".into()), Term::Phrase("foo bar".into())),
            "{{foo}} {{foo bar}}".into()
        )
    )
}

#[test]
pub fn test005_lexer_mixed2() {
    let terms = Term::extract_from_query("\"foo bar\" foo");
    assert_eq!(
        terms,
        (
            vec!(Term::Phrase("foo bar".into()), Term::Singular("foo".into())),
            "{{foo bar}} {{foo}}".into()
        )
    )
}

#[test]
pub fn test005_lexer_mixed3() {
    let terms = Term::extract_from_query("\"foo bar\" \"bar foo\"");
    assert_eq!(
        terms,
        (
            vec!(Term::Phrase("foo bar".into()), Term::Phrase("bar foo")),
            "{{foo bar}} {{bar foo}}".into()
        )
    )
}

#[test]
pub fn test006_lexer_operator() {
    let terms = Term::extract_from_query("foo AND bar");
    assert_eq!(
        terms,
        (
            vec!(Term::Singular("foo".into()), Term::Singular("bar".into())),
            "{{foo}} AND {{bar}}".into()
        )
    )
}

#[test]
pub fn test006_lexer_operator2() {
    let terms = Term::extract_from_query("+foo -bar");
    assert_eq!(
        terms,
        (
            vec!(Term::Singular("foo".into()), Term::Singular("bar".into())),
            "+{{foo}} -{{bar}}".into()
        )
    )
}

#[test]
pub fn test007_lexer_operator3() {
    let terms = Term::extract_from_query("foo~0.5 bar^3\"");
    assert_eq!(
        terms,
        (
            vec!(Term::Singular("foo".into()), Term::Singular("bar".into())),
            "{{foo}}~0.5 {{bar}}^3".into()
        )
    )
}

#[test]
pub fn test007_lexer_literals() {
    let terms = Term::extract_from_query("\"foo AND bar!\"");
    assert_eq!(
        terms,
        (
            vec!(Term::Phrase("foo AND bar!".into())),
            "{{foo AND bar!}}".into()
        )
    )
}

#[test]
pub fn lexer_empty_query() {
    let (terms, template) = Term::extract_from_query("");
    assert_eq!(terms, vec![]);
    assert_eq!(template, "");
}

#[test]
pub fn lexer_operators_are_case_sensitive() {
    let (terms, template) = Term::extract_from_query("a and b OR c NOT d");
    assert_eq!(
        terms,
        vec![
            Term::Singular("a"),
            Term::Singular("and"),
            Term::Singular("b"),
            Term::Singular("c"),
            Term::Singular("d")
        ]
    );
    assert_eq!(template, "{{a}} {{and}} {{b}} OR {{c}} NOT {{d}}");
}

#[test]
pub fn lexer_operator_inside_word_is_a_word() {
    let (terms, template) = Term::extract_from_query("ANDY ORE NOTE AN");
    assert_eq!(
        terms,
        vec![
            Term::Singular("ANDY"),
            Term::Singular("ORE"),
            Term::Singular("NOTE"),
            Term::Singular("AN")
        ]
    );
    assert_eq!(template, "{{ANDY}} {{ORE}} {{NOTE}} {{AN}}");
}

#[test]
pub fn lexer_symbolic_operators_and_brackets() {
    let (terms, template) = Term::extract_from_query("(a && b) || !c");
    assert_eq!(
        terms,
        vec![Term::Singular("a"), Term::Singular("b"), Term::Singular("c")]
    );
    assert_eq!(template, "({{a}} && {{b}}) || !{{c}}");
}

#[test]
pub fn lexer_single_ampersand_and_bar_are_dropped() {
    let (terms, template) = Term::extract_from_query("a & b | c");
    assert_eq!(
        terms,
        vec![Term::Singular("a"), Term::Singular("b"), Term::Singular("c")]
    );
    assert_eq!(template, "{{a}}  {{b}}  {{c}}");
}

#[test]
pub fn lexer_unknown_characters_are_dropped() {
    let (terms, template) = Term::extract_from_query("title:foo, bar?");
    assert_eq!(
        terms,
        vec![
            Term::Singular("title"),
            Term::Singular("foo"),
            Term::Singular("bar")
        ]
    );
    assert_eq!(template, "{{title}}{{foo}} {{bar}}");
}

#[test]
pub fn lexer_boost_without_number_is_dropped() {
    let (terms, template) = Term::extract_from_query("foo^ bar~x baz~1.5.2");
    assert_eq!(
        terms,
        vec![
            Term::Singular("foo"),
            Term::Singular("bar"),
            Term::Singular("x"),
            Term::Singular("baz")
        ]
    );
    assert_eq!(template, "{{foo}} {{bar}}{{x}} {{baz}}~1.5.2");
}

#[test]
pub fn lexer_block_is_a_separator() {
    let (terms, template) = Term::extract_from_query("foo {a} b} bar");
    assert_eq!(terms, vec![Term::Singular("foo"), Term::Singular("bar")]);
    assert_eq!(template, "{{foo}} {a} b} {{bar}}");
}

#[test]
pub fn lexer_block_ends_on_its_line() {
    let (terms, template) = Term::extract_from_query("{a}\nb}");
    assert_eq!(terms, vec![Term::Singular("b")]);
    assert_eq!(template, "{a}\n{{b}}");
}

#[test]
pub fn lexer_open_block_is_dropped_to_the_end_of_the_line() {
    let (terms, template) = Term::extract_from_query("foo {bar baz\nqux");
    assert_eq!(terms, vec![Term::Singular("foo"), Term::Singular("qux")]);
    assert_eq!(template, "{{foo}} \n{{qux}}");
}

#[test]
pub fn lexer_open_phrase_is_dropped_with_what_follows() {
    let (terms, template) = Term::extract_from_query("foo \"bar baz");
    assert_eq!(terms, vec![Term::Singular("foo")]);
    assert_eq!(template, "{{foo}} ");
}

#[test]
pub fn lexer_empty_phrase_is_dropped() {
    let (terms, template) = Term::extract_from_query("foo \"\"");
    assert_eq!(terms, vec![Term::Singular("foo")]);
    assert_eq!(template, "{{foo}} ");
    let (terms, template) = Term::extract_from_query("\"\" foo");
    assert_eq!(terms, vec![]);
    assert_eq!(template, "");
}

#[test]
pub fn lexer_phrase_may_hold_line_feeds() {
    let (terms, template) = Term::extract_from_query("\"a\nb\"");
    assert_eq!(terms, vec![Term::Phrase("a\nb")]);
    assert_eq!(template, "{{a\nb}}");
}

#[test]
pub fn lexer_words_of_other_scripts() {
    let (terms, template) = Term::extract_from_query("café naïve_1 €5");
    assert_eq!(
        terms,
        vec![
            Term::Singular("café"),
            Term::Singular("naïve_1"),
            Term::Singular("5")
        ]
    );
    assert_eq!(template, "{{café}} {{naïve_1}} {{5}}");
}

#[test]
pub fn lexer_white_space_of_all_kinds() {
    let (terms, template) = Term::extract_from_query("a\t\n b\u{a0}c\u{3000}d");
    assert_eq!(
        terms,
        vec![
            Term::Singular("a"),
            Term::Singular("b"),
            Term::Singular("c"),
            Term::Singular("d")
        ]
    );
    assert_eq!(template, "{{a}}\t\n {{b}}\u{a0}{{c}}\u{3000}{{d}}");
}

#[test]
pub fn lexer_numbers_are_words() {
    let (terms, template) = Term::extract_from_query("0.5");
    assert_eq!(terms, vec![Term::Singular("0"), Term::Singular("5")]);
    assert_eq!(template, "{{0}}{{5}}");
}

#[test]
pub fn lexer_round_trip_without_drops() {
    let query = "+foo AND (\"bar baz\"~2 || !qux^1.5) {x}";
    let (_, template) = Term::extract_from_query(query);
    let restored = template.replace("{{bar baz}}", "\"bar baz\"").replace("{{", "").replace("}}", "");
    assert_eq!(restored, query);
}

#[test]
pub fn term_as_str() {
    assert_eq!(Term::Singular("foo").as_str(), "foo");
    assert_eq!(Term::Phrase("foo bar").as_str(), "foo bar");
    assert_eq!(Term::Separator(" AND ").as_str(), "");
}
