//! Character classes of the query grammar, and the character sequence of a
//! string slice.

use vstd::prelude::*;

verus! {

/// Whether `c` is a Unicode word character: alphabetic, a mark, a decimal
/// digit, connector punctuation or a join control.
pub uninterp spec fn word_char(c: char) -> bool;

/// The ASCII word characters: `[0-9A-Za-z_]`.
pub open spec fn ascii_word(c: char) -> bool {
    ||| '0' <= c <= '9'
    ||| 'A' <= c <= 'Z'
    ||| 'a' <= c <= 'z'
    ||| c == '_'
}

/// The Unicode white-space characters.
pub open spec fn is_space(c: char) -> bool {
    ||| '\u{9}' <= c <= '\u{d}'
    ||| c == ' '
    ||| c == '\u{85}'
    ||| c == '\u{a0}'
    ||| c == '\u{1680}'
    ||| '\u{2000}' <= c <= '\u{200a}'
    ||| c == '\u{2028}'
    ||| c == '\u{2029}'
    ||| c == '\u{202f}'
    ||| c == '\u{205f}'
    ||| c == '\u{3000}'
}

/// What may follow `^` or `~`: a decimal digit or a dot.
pub open spec fn is_numeral(c: char) -> bool {
    '0' <= c <= '9' || c == '.'
}

/// The classes of characters that the grammar scans runs of.
#[derive(Clone, Copy, Debug, PartialEq, Eq)]
pub enum CharClass {
    /// Word characters.
    Word,
    /// White space.
    Space,
    /// Digits and dots.
    Numeral,
    /// Decimal digits.
    Digit,
    /// Anything but the given character.
    Except(char),
}

/// Whether `c` belongs to `class`.
pub open spec fn in_class(c: char, class: CharClass) -> bool {
    match class {
        CharClass::Word => word_char(c),
        CharClass::Space => is_space(c),
        CharClass::Numeral => is_numeral(c),
        CharClass::Digit => '0' <= c <= '9',
        CharClass::Except(x) => c != x,
    }
}

/// The number of characters of `class` that stand in `s` from `i` on without
/// a gap.
pub open spec fn run(s: Seq<char>, i: int, class: CharClass) -> nat
    decreases s.len() - i,
{
    if 0 <= i < s.len() && in_class(s[i], class) {
        1 + run(s, i + 1, class)
    } else {
        0
    }
}

/// A run ends inside the sequence.
pub proof fn lemma_run_bound(s: Seq<char>, i: int, class: CharClass)
    requires
        0 <= i <= s.len(),
    ensures
        0 <= run(s, i, class),
        i + run(s, i, class) <= s.len(),
    decreases s.len() - i,
{
    if i < s.len() && in_class(s[i], class) {
        lemma_run_bound(s, i + 1, class);
    }
}

/// Every character of a run is of its class, and the run is maximal.
pub proof fn lemma_run_members(s: Seq<char>, i: int, class: CharClass)
    requires
        0 <= i <= s.len(),
    ensures
        forall|j: int| i <= j < i + run(s, i, class) ==> in_class(#[trigger] s[j], class),
        i + run(s, i, class) < s.len() ==> !in_class(s[i + run(s, i, class)], class),
    decreases s.len() - i,
{
    if i < s.len() && in_class(s[i], class) {
        lemma_run_members(s, i + 1, class);
    }
}

/// The characters of each of `v`'s strings.
pub open spec fn texts(v: Seq<String>) -> Seq<Seq<char>> {
    Seq::new(v.len(), |i: int| v[i]@)
}

/// The characters of a string that may be missing.
pub open spec fn opt_text(o: Option<String>) -> Option<Seq<char>> {
    match o {
        Some(s) => Some(s@),
        None => None,
    }
}

/// Calls `regex_syntax::is_word_character`, which looks `c` up in the Unicode
/// table of word characters. Below 128 that table holds the ASCII letters,
/// the digits and the underscore. With the `unicode-perl` feature, which is
/// on by default, the call does not panic.
#[verifier::external_body]
fn unicode_word(c: char) -> (r: bool)
    ensures
        r == word_char(c),
        c < '\u{80}' ==> r == ascii_word(c),
{
    regex_syntax::is_word_character(c)
}

/// Whether `c` is a word character.
pub fn is_word(c: char) -> (r: bool)
    ensures
        r == word_char(c),
        c < '\u{80}' ==> r == ascii_word(c),
{
    unicode_word(c)
}

/// Whether `c` is white space.
pub fn space(c: char) -> (r: bool)
    ensures
        r == is_space(c),
{
    ('\u{9}' <= c && c <= '\u{d}') || c == ' ' || c == '\u{85}' || c == '\u{a0}' || c
        == '\u{1680}' || ('\u{2000}' <= c && c <= '\u{200a}') || c == '\u{2028}' || c
        == '\u{2029}' || c == '\u{202f}' || c == '\u{205f}' || c == '\u{3000}'
}

/// Whether `c` belongs to `class`.
pub fn test_class(c: char, class: CharClass) -> (r: bool)
    ensures
        r == in_class(c, class),
{
    match class {
        CharClass::Word => is_word(c),
        CharClass::Space => space(c),
        CharClass::Numeral => ('0' <= c && c <= '9') || c == '.',
        CharClass::Digit => '0' <= c && c <= '9',
        CharClass::Except(x) => c != x,
    }
}

/// The length of the run of `class` that starts at `i`.
pub fn scan(chars: &Vec<char>, i: usize, class: CharClass) -> (n: usize)
    requires
        i <= chars.len(),
    ensures
        n == run(chars@, i as int, class),
        i + n <= chars.len(),
{
    let mut j: usize = i;
    while j < chars.len() && test_class(chars[j], class)
        invariant
            i <= j <= chars.len(),
            run(chars@, i as int, class) == (j - i) + run(chars@, j as int, class),
        decreases chars.len() - j,
    {
        j = j + 1;
    }
    j - i
}

/// The characters of `s`.
pub fn chars_of(s: &str) -> (v: Vec<char>)
    ensures
        v@ == s@,
{
    let mut v: Vec<char> = Vec::new();
    for c in it: s.chars()
        invariant
            v@ == it.seq().take(it.index() as int),
            it.seq() == s@,
    {
        v.push(c);
    }
    v
}

/// `String::push` appends the character to the end of the string.
pub assume_specification[ std::string::String::push ](s: &mut std::string::String, c: char)
    ensures
        final(s)@ == old(s)@.push(c),
;

/// `str::to_lowercase`: the lower case of a text, as Unicode defines it.
pub uninterp spec fn lowercase(s: Seq<char>) -> Seq<char>;

/// Calls `str::to_lowercase`, which returns the lower case of the slice as
/// a new string; the result depends on the characters of the slice alone.
#[verifier::external_body]
fn lowercase_of(s: &str) -> (r: String)
    ensures
        r@ == lowercase(s@),
{
    s.to_lowercase()
}

/// The lower case of `s`.
pub fn to_lower(s: &str) -> (r: String)
    ensures
        r@ == lowercase(s@),
{
    lowercase_of(s)
}

/// The characters of `v` from `from` up to `to`, as a vector of their own.
pub fn sub_vec(v: &Vec<char>, from: usize, to: usize) -> (r: Vec<char>)
    requires
        from <= to <= v.len(),
    ensures
        r@ == v@.subrange(from as int, to as int),
{
    let mut out: Vec<char> = Vec::new();
    let mut i: usize = from;
    while i < to
        invariant
            from <= i <= to,
            to <= v.len(),
            out@ == v@.subrange(from as int, i as int),
        decreases to - i,
    {
        out.push(v[i]);
        proof {
            assert(out@ =~= v@.subrange(from as int, i + 1));
        }
        i = i + 1;
    }
    out
}

/// The string of the characters `v`.
pub fn string_of(v: &Vec<char>) -> (r: String)
    ensures
        r@ == v@,
{
    let mut out = String::new();
    let mut i: usize = 0;
    while i < v.len()
        invariant
            i <= v.len(),
            out@ == v@.take(i as int),
        decreases v.len() - i,
    {
        out.push(v[i]);
        proof {
            assert(out@ =~= v@.take(i + 1));
        }
        i = i + 1;
    }
    proof {
        assert(v@.take(i as int) =~= v@);
    }
    out
}

/// Whether two string slices hold the same characters.
pub fn same_text(a: &str, b: &str) -> (r: bool)
    ensures
        r == (a@ == b@),
{
    let x = a.to_owned();
    let y = b.to_owned();
    x == y
}

} // verus!
