//! Lines, fields and numbers in the text of a lexicon.

use vstd::prelude::*;
use crate::chars::{
    is_space, lemma_run_bound, lemma_run_members, run, scan, space, sub_vec, CharClass,
};

verus! {

/// The lines of `s` that begin at `i` or later. A line ends before a line
/// feed or at the end of the text; what follows the last line feed is a line
/// only where it is not empty.
pub open spec fn lines_from(s: Seq<char>, i: int) -> Seq<Seq<char>>
    decreases s.len() + 1 - i,
{
    if 0 <= i < s.len() {
        let k = run(s, i, CharClass::Except('\n'));
        proof {
            lemma_run_bound(s, i, CharClass::Except('\n'));
        }
        seq![s.subrange(i, i + k)] + lines_from(s, i + k + 1)
    } else {
        Seq::empty()
    }
}

/// The lines of `s`.
pub open spec fn lines(s: Seq<char>) -> Seq<Seq<char>> {
    lines_from(s, 0)
}

/// The fields of `s` from `i` on, where `d` stands between two fields. There
/// is always one field, which may be empty.
pub open spec fn fields_from(s: Seq<char>, i: int, d: char) -> Seq<Seq<char>>
    decreases s.len() - i,
{
    if 0 <= i < s.len() {
        let k = run(s, i, CharClass::Except(d));
        if i + k < s.len() {
            proof {
                lemma_run_bound(s, i, CharClass::Except(d));
            }
            seq![s.subrange(i, i + k)] + fields_from(s, i + k + 1, d)
        } else {
            seq![s.subrange(i, s.len() as int)]
        }
    } else {
        seq![Seq::empty()]
    }
}

/// The fields of `s`, where `d` stands between two fields.
pub open spec fn fields(s: Seq<char>, d: char) -> Seq<Seq<char>> {
    fields_from(s, 0, d)
}

/// The number of white-space characters at the end of `s`.
pub open spec fn trailing(s: Seq<char>) -> nat
    decreases s.len(),
{
    if s.len() > 0 && is_space(s.last()) {
        1 + trailing(s.drop_last())
    } else {
        0
    }
}

/// `s` without the white space at its beginning and at its end.
pub open spec fn trimmed(s: Seq<char>) -> Seq<char> {
    let lead = run(s, 0, CharClass::Space);
    if lead >= s.len() {
        Seq::empty()
    } else {
        s.subrange(lead as int, s.len() - trailing(s))
    }
}

/// The trailing white space is no longer than the text.
pub proof fn lemma_trailing(s: Seq<char>)
    ensures
        trailing(s) <= s.len(),
        trailing(s) < s.len() ==> !is_space(s[s.len() - trailing(s) - 1]),
        forall|j: int| s.len() - trailing(s) <= j < s.len() ==> is_space(#[trigger] s[j]),
    decreases s.len(),
{
    if s.len() > 0 && is_space(s.last()) {
        let init = s.drop_last();
        lemma_trailing(init);
        assert forall|j: int| s.len() - trailing(s) <= j < s.len() implies is_space(
            #[trigger] s[j],
        ) by {
            if j < s.len() - 1 {
                assert(s[j] == init[j]);
            }
        }
        if trailing(s) < s.len() {
            assert(init[init.len() - trailing(init) - 1] == s[s.len() - trailing(s) - 1]);
        }
    }
}

/// A letter of ASCII in lower case; any other character as it is.
pub open spec fn ascii_lower(c: char) -> char {
    if 'A' <= c <= 'Z' {
        ((c as u8) + 32) as char
    } else {
        c
    }
}

/// Whether `s` is `word` but for the case of its ASCII letters.
pub open spec fn spells(s: Seq<char>, word: Seq<char>) -> bool {
    s.len() == word.len() && forall|i: int| 0 <= i < s.len() ==> ascii_lower(#[trigger] s[i]) == word[i]
}

/// Whether `s` names infinity or what is not a number.
pub open spec fn is_special(s: Seq<char>) -> bool {
    spells(s, seq!['i', 'n', 'f']) || spells(s, seq!['i', 'n', 'f', 'i', 'n', 'i', 't', 'y'])
        || spells(s, seq!['n', 'a', 'n'])
}

/// Whether `s` holds an exponent from `j` up to its end: `e` or `E`, a sign
/// or none, and at least one digit.
pub open spec fn is_exponent(s: Seq<char>, j: int) -> bool {
    let k = if j + 1 < s.len() && (s[j + 1] == '+' || s[j + 1] == '-') {
        j + 2
    } else {
        j + 1
    };
    0 <= j < s.len() && (s[j] == 'e' || s[j] == 'E') && run(s, k, CharClass::Digit) >= 1 && k
        + run(s, k, CharClass::Digit) == s.len()
}

/// Whether `s` is a decimal number from `i` up to its end: digits, with or
/// without a dot among them, before it or after it, and an exponent or none.
pub open spec fn is_decimal(s: Seq<char>, i: int) -> bool {
    let a = run(s, i, CharClass::Digit);
    let dot = i + a < s.len() && s[i + a] == '.';
    let b = if dot {
        run(s, i + a + 1, CharClass::Digit)
    } else {
        0
    };
    let end = if dot {
        i + a + 1 + b
    } else {
        i + a
    };
    a + b >= 1 && (end == s.len() || is_exponent(s, end))
}

/// Whether `s` is written as a number: a sign or none, and then a decimal
/// number, `inf`, `infinity` or `nan` in any case. White space is no part of
/// a number.
pub open spec fn is_numeric(s: Seq<char>) -> bool {
    let i: int = if s.len() > 0 && (s[0] == '+' || s[0] == '-') {
        1
    } else {
        0
    };
    is_special(s.subrange(i, s.len() as int)) || is_decimal(s, i)
}

/// The lines of the text `v`.
pub fn lines_of(v: &Vec<char>) -> (r: Vec<Vec<char>>)
    ensures
        r@.len() == lines(v@).len(),
        forall|k: int| 0 <= k < r@.len() ==> (#[trigger] r@[k])@ == lines(v@)[k],
{
    let mut out: Vec<Vec<char>> = Vec::new();
    let mut i: usize = 0;
    let ghost mut done: Seq<Seq<char>> = Seq::empty();
    proof {
        assert(done + lines_from(v@, 0) =~= lines(v@));
    }
    while i < v.len()
        invariant_except_break
            lines(v@) == done + lines_from(v@, i as int),
        invariant
            i <= v.len(),
            out@.len() == done.len(),
            forall|k: int| 0 <= k < out@.len() ==> (#[trigger] out@[k])@ == done[k],
        ensures
            lines(v@) == done,
        decreases v.len() - i,
    {
        let k = scan(v, i, CharClass::Except('\n'));
        let line = sub_vec(v, i, i + k);
        proof {
            let rest = lines_from(v@, i + k + 1);
            assert(done + (seq![line@] + rest) =~= done.push(line@) + rest);
            done = done.push(line@);
        }
        out.push(line);
        if i + k < v.len() {
            i = i + k + 1;
        } else {
            proof {
                assert(done + lines_from(v@, i + k + 1) =~= done);
            }
            break;
        }
    }
    proof {
        assert(done + lines_from(v@, v.len() as int) =~= done);
    }
    out
}

/// The fields of `v`, where `d` stands between two fields.
pub fn fields_of(v: &Vec<char>, d: char) -> (r: Vec<Vec<char>>)
    ensures
        r@.len() == fields(v@, d).len(),
        forall|k: int| 0 <= k < r@.len() ==> (#[trigger] r@[k])@ == fields(v@, d)[k],
{
    let mut out: Vec<Vec<char>> = Vec::new();
    let mut i: usize = 0;
    let ghost mut done: Seq<Seq<char>> = Seq::empty();
    proof {
        assert(done + fields_from(v@, 0, d) =~= fields(v@, d));
    }
    loop
        invariant_except_break
            fields(v@, d) == done + fields_from(v@, i as int, d),
        invariant
            i <= v.len(),
            out@.len() == done.len(),
            forall|k: int| 0 <= k < out@.len() ==> (#[trigger] out@[k])@ == done[k],
        ensures
            out@.len() == fields(v@, d).len(),
            forall|k: int| 0 <= k < out@.len() ==> (#[trigger] out@[k])@ == fields(v@, d)[k],
        decreases v.len() - i,
    {
        let k = scan(v, i, CharClass::Except(d));
        if i + k < v.len() {
            let field = sub_vec(v, i, i + k);
            proof {
                let rest = fields_from(v@, i + k + 1, d);
                assert(done + (seq![field@] + rest) =~= done.push(field@) + rest);
                done = done.push(field@);
            }
            out.push(field);
            i = i + k + 1;
        } else {
            let field = sub_vec(v, i, v.len());
            proof {
                assert(done + seq![field@] =~= done.push(field@));
                done = done.push(field@);
            }
            out.push(field);
            break;
        }
    }
    out
}

/// `v` without the white space at its beginning and at its end.
pub fn trim(v: &Vec<char>) -> (r: Vec<char>)
    ensures
        r@ == trimmed(v@),
{
    let lead = scan(v, 0, CharClass::Space);
    if lead >= v.len() {
        return Vec::new();
    }
    let mut end: usize = v.len();
    proof {
        assert(v@.take(end as int) =~= v@);
    }
    while end > 0 && space(v[end - 1])
        invariant
            end <= v.len(),
            trailing(v@) == (v.len() - end) + trailing(v@.take(end as int)),
        decreases end,
    {
        proof {
            assert(v@.take(end as int).drop_last() =~= v@.take(end - 1));
        }
        end = end - 1;
    }
    proof {
        lemma_trailing(v@);
        lemma_run_members(v@, 0, CharClass::Space);
        if end < lead {
            assert(is_space(v@[end as int]));
        }
    }
    sub_vec(v, lead, end)
}

/// Whether the characters of `v` from `from` on spell `word` but for the
/// case of their ASCII letters.
fn spells_word(v: &Vec<char>, from: usize, word: &Vec<char>) -> (r: bool)
    requires
        from <= v.len(),
    ensures
        r == spells(v@.subrange(from as int, v.len() as int), word@),
{
    let ghost s = v@.subrange(from as int, v.len() as int);
    if v.len() - from != word.len() {
        return false;
    }
    let mut i: usize = 0;
    while i < word.len()
        invariant
            i <= word.len(),
            from + word.len() == v.len(),
            s == v@.subrange(from as int, v.len() as int),
            forall|k: int| 0 <= k < i ==> ascii_lower(#[trigger] s[k]) == word@[k],
        decreases word.len() - i,
    {
        let c = v[from + i];
        let low = if 'A' <= c && c <= 'Z' {
            ((c as u8) + 32) as char
        } else {
            c
        };
        proof {
            assert(s[i as int] == c);
        }
        if low != word[i] {
            return false;
        }
        i = i + 1;
    }
    true
}

/// Whether the characters `v` are written as a number.
pub fn numeric(v: &Vec<char>) -> (r: bool)
    ensures
        r == is_numeric(v@),
{
    let i: usize = if v.len() > 0 && (v[0] == '+' || v[0] == '-') {
        1
    } else {
        0
    };
    let inf: Vec<char> = vec!['i', 'n', 'f'];
    let infinity: Vec<char> = vec!['i', 'n', 'f', 'i', 'n', 'i', 't', 'y'];
    let nan: Vec<char> = vec!['n', 'a', 'n'];
    proof {
        assert(inf@ =~= seq!['i', 'n', 'f']);
        assert(infinity@ =~= seq!['i', 'n', 'f', 'i', 'n', 'i', 't', 'y']);
        assert(nan@ =~= seq!['n', 'a', 'n']);
    }
    if spells_word(v, i, &inf) || spells_word(v, i, &infinity) || spells_word(v, i, &nan) {
        return true;
    }
    let a = scan(v, i, CharClass::Digit);
    let dot = i + a < v.len() && v[i + a] == '.';
    let b: usize = if dot {
        scan(v, i + a + 1, CharClass::Digit)
    } else {
        0
    };
    let end: usize = if dot {
        i + a + 1 + b
    } else {
        i + a
    };
    if a + b < 1 {
        return false;
    }
    if end == v.len() {
        return true;
    }
    if v[end] != 'e' && v[end] != 'E' {
        return false;
    }
    let k: usize = if end + 1 < v.len() && (v[end + 1] == '+' || v[end + 1] == '-') {
        end + 2
    } else {
        end + 1
    };
    let d = scan(v, k, CharClass::Digit);
    d >= 1 && k + d == v.len()
}

} // verus!
