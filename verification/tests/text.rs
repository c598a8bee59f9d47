use kweepeer::chars::{is_word, same_text, space, string_of, sub_vec, to_lower};
use kweepeer::text::{fields_of, lines_of, numeric, trim};

fn chars(s: &str) -> Vec<char> {
    s.chars().collect()
}

fn strings(v: Vec<Vec<char>>) -> Vec<String> {
    v.iter().map(|c| c.iter().collect()).collect()
}

#[test]
pub fn numbers_are_recognised() {
    for s in [
        "0", "12", "3.14", "-3.14", "+7", "2.5E10", "2.5e-10", "5.", ".5", "-.5e+3", "inf",
        "-inf", "+infinity", "NaN", "INFINITY", "1e5",
    ] {
        assert!(numeric(&chars(s)), "{} is a number", s);
    }
}

#[test]
pub fn other_texts_are_no_numbers() {
    for s in [
        "", ".", "+", "-", "e5", "1e", "1e+", "1.2.3", "1_000", " 1", "1 ", "0x10", "abc",
        "infinit", "nano", "1,5", "--1", "1e5.0", ".e1",
    ] {
        assert!(!numeric(&chars(s)), "{} is no number", s);
    }
}

#[test]
pub fn recognised_numbers_agree_with_the_parser_of_doubles() {
    for s in [
        "0", "3.14", "5.", ".5", "inf", "nan", "1e5", "", ".", "e5", "1e", "abc", "+", "1_0",
        "-.5e+3", "Infinity", "1.e3", "٣",
    ] {
        assert_eq!(numeric(&chars(s)), s.parse::<f64>().is_ok(), "{}", s);
    }
}

#[test]
pub fn lines_are_cut_at_line_feeds() {
    assert_eq!(strings(lines_of(&chars("a\nb"))), vec!["a", "b"]);
    assert_eq!(strings(lines_of(&chars("a\nb\n"))), vec!["a", "b"]);
    assert_eq!(strings(lines_of(&chars("a\n\nb"))), vec!["a", "", "b"]);
    assert_eq!(strings(lines_of(&chars("\n"))), vec![""]);
    assert_eq!(strings(lines_of(&chars(""))), Vec::<String>::new());
    assert_eq!(strings(lines_of(&chars("a\r\nb"))), vec!["a\r", "b"]);
}

#[test]
pub fn fields_are_cut_at_the_delimiter() {
    assert_eq!(strings(fields_of(&chars("a\tb\tc"), '\t')), vec!["a", "b", "c"]);
    assert_eq!(strings(fields_of(&chars("a,,b,"), ',')), vec!["a", "", "b", ""]);
    assert_eq!(strings(fields_of(&chars(""), ',')), vec![""]);
    assert_eq!(strings(fields_of(&chars("abc"), ',')), vec!["abc"]);
}

#[test]
pub fn white_space_is_trimmed_on_both_sides() {
    assert_eq!(trim(&chars("  a b \t\r\n")), chars("a b"));
    assert_eq!(trim(&chars("a")), chars("a"));
    assert_eq!(trim(&chars(" \t ")), chars(""));
    assert_eq!(trim(&chars("")), chars(""));
    assert_eq!(trim(&chars("\u{a0}x\u{2003}")), chars("x"));
}

#[test]
pub fn word_characters() {
    for c in ['a', 'Z', '0', '9', '_', 'é', 'ß', 'Ж', '中', '٣'] {
        assert!(is_word(c), "{} is a word character", c);
    }
    for c in [' ', '-', '+', '"', '{', '}', '(', '!', '&', '|', '^', '~', '.', '€', '\n'] {
        assert!(!is_word(c), "{} is no word character", c);
    }
}

#[test]
pub fn white_space_characters() {
    for c in [' ', '\t', '\n', '\r', '\u{b}', '\u{c}', '\u{85}', '\u{a0}', '\u{1680}', '\u{2000}', '\u{200a}', '\u{2028}', '\u{2029}', '\u{202f}', '\u{205f}', '\u{3000}'] {
        assert!(space(c));
        assert!(c.is_whitespace());
    }
    for c in ['a', '_', '\u{200b}', '\u{1c}', '\u{feff}', '\u{180e}'] {
        assert_eq!(space(c), c.is_whitespace());
    }
}

#[test]
pub fn lower_case() {
    assert_eq!(to_lower("SePaRaTe"), "separate");
    assert_eq!(to_lower("ÉCOLE"), "école");
    assert_eq!(to_lower("abc"), "abc");
}

#[test]
pub fn texts_and_their_parts() {
    assert!(same_text("abc", "abc"));
    assert!(!same_text("abc", "abd"));
    assert!(!same_text("abc", "ab"));
    assert_eq!(string_of(&chars("héllo")), "héllo");
    assert_eq!(sub_vec(&chars("héllo"), 1, 3), chars("él"));
    assert_eq!(sub_vec(&chars("héllo"), 2, 2), chars(""));
}
