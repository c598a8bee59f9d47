//! The query tokenizer.
//!
//! A query is cut into tokens from left to right. At each position the first
//! character decides which token is tried:
//!
//! * `"` opens a phrase, which runs to the next `"` and holds at least one
//!   character;
//! * `{` opens a block, which runs to the last `}` of the line;
//! * `^` and `~` take the digits and dots that follow, at least one;
//! * `&&` and `||`, and the single characters `!`, `(`, `)`, `+`, `-`;
//! * a run of white space;
//! * a run of word characters, which is a term unless it is one of the
//!   operators `AND`, `OR`, `NOT`.
//!
//! Phrases and words are the terms of the query. The other tokens are
//! separators: they are kept in the template as they stand. A character that
//! starts no token is dropped. A phrase that is never closed is dropped with
//! all that follows it, and a block that is not closed on its line is dropped
//! up to the end of that line.

use vstd::prelude::*;
use vstd::string::*;
use crate::chars::{
    chars_of, is_space, is_word, lemma_run_bound, run, scan, space, word_char, CharClass,
};

verus! {

/// What a token is.
#[derive(Clone, Copy, Debug, PartialEq, Eq)]
pub enum TokenKind {
    /// A bare word.
    Singular,
    /// A quoted phrase.
    Phrase,
    /// An operator, white space, a boost or fuzzy suffix, or a block.
    Separator,
    /// Text that belongs to no token.
    Dropped,
}

/// A token of a query: its kind and the characters of the query it covers.
pub struct Token {
    pub kind: TokenKind,
    pub span: Seq<char>,
}

/// The mathematical value of a [`Term`].
pub enum TermView {
    Singular(Seq<char>),
    Phrase(Seq<char>),
    Separator(Seq<char>),
}

/// A token of a query, with its text borrowed from the query.
#[derive(Debug, PartialEq)]
pub enum Term<'a> {
    /// A bare word.
    Singular(&'a str),
    /// The text between two double quotes.
    Phrase(&'a str),
    /// Anything else that the grammar knows. Never expanded.
    Separator(&'a str),
}

impl<'a> View for Term<'a> {
    type V = TermView;

    open spec fn view(&self) -> TermView {
        match *self {
            Term::Singular(s) => TermView::Singular(s@),
            Term::Phrase(s) => TermView::Phrase(s@),
            Term::Separator(s) => TermView::Separator(s@),
        }
    }
}

impl TermView {
    /// The text by which a term is looked up: empty for a separator.
    pub open spec fn text(self) -> Seq<char> {
        match self {
            TermView::Singular(s) => s,
            TermView::Phrase(s) => s,
            TermView::Separator(_) => Seq::empty(),
        }
    }
}

/// The values of a sequence of terms.
pub open spec fn term_views(terms: Seq<Term>) -> Seq<TermView> {
    Seq::new(terms.len(), |i: int| terms[i]@)
}

/// `{{`, which opens a term's slot in a template.
pub open spec fn slot_open() -> Seq<char> {
    seq!['{', '{']
}

/// `}}`, which closes a term's slot in a template.
pub open spec fn slot_close() -> Seq<char> {
    seq!['}', '}']
}

/// The operators that are spelled with word characters.
pub open spec fn is_operator_word(w: Seq<char>) -> bool {
    w == seq!['A', 'N', 'D'] || w == seq!['O', 'R'] || w == seq!['N', 'O', 'T']
}

/// The distance from `i` to the last `}` among the `n` characters after `i`,
/// or 0 where none of them is a `}`.
pub open spec fn last_close(s: Seq<char>, i: int, n: nat) -> nat
    decreases n,
{
    if n == 0 {
        0
    } else if s[i + n] == '}' {
        n
    } else {
        last_close(s, i, (n - 1) as nat)
    }
}

/// The number of characters after the one at `i` that the token at `i` takes.
pub open spec fn token_tail(s: Seq<char>, i: int) -> nat {
    let c = s[i];
    if c == '"' {
        let n = run(s, i + 1, CharClass::Except('"'));
        if n >= 1 && i + 1 + n < s.len() {
            n + 1
        } else {
            n
        }
    } else if c == '{' {
        let n = run(s, i + 1, CharClass::Except('\n'));
        let m = last_close(s, i, n);
        if m >= 1 {
            m
        } else {
            n
        }
    } else if c == '^' || c == '~' {
        run(s, i + 1, CharClass::Numeral)
    } else if c == '&' || c == '|' {
        if i + 1 < s.len() && s[i + 1] == c {
            1
        } else {
            0
        }
    } else if c == '!' || c == '(' || c == ')' || c == '+' || c == '-' {
        0
    } else if is_space(c) {
        run(s, i + 1, CharClass::Space)
    } else if word_char(c) {
        run(s, i + 1, CharClass::Word)
    } else {
        0
    }
}

/// The length of the token that starts at `i`.
pub open spec fn token_len(s: Seq<char>, i: int) -> nat {
    1 + token_tail(s, i)
}

/// The kind of the token that starts at `i`.
pub open spec fn token_kind(s: Seq<char>, i: int) -> TokenKind {
    let c = s[i];
    if c == '"' {
        let n = run(s, i + 1, CharClass::Except('"'));
        if n >= 1 && i + 1 + n < s.len() {
            TokenKind::Phrase
        } else {
            TokenKind::Dropped
        }
    } else if c == '{' {
        if last_close(s, i, run(s, i + 1, CharClass::Except('\n'))) >= 1 {
            TokenKind::Separator
        } else {
            TokenKind::Dropped
        }
    } else if c == '^' || c == '~' {
        if run(s, i + 1, CharClass::Numeral) >= 1 {
            TokenKind::Separator
        } else {
            TokenKind::Dropped
        }
    } else if c == '&' || c == '|' {
        if i + 1 < s.len() && s[i + 1] == c {
            TokenKind::Separator
        } else {
            TokenKind::Dropped
        }
    } else if c == '!' || c == '(' || c == ')' || c == '+' || c == '-' {
        TokenKind::Separator
    } else if is_space(c) {
        TokenKind::Separator
    } else if word_char(c) {
        if is_operator_word(s.subrange(i, i + token_len(s, i))) {
            TokenKind::Separator
        } else {
            TokenKind::Singular
        }
    } else {
        TokenKind::Dropped
    }
}

/// The token that starts at `i`.
pub open spec fn token_at(s: Seq<char>, i: int) -> Token {
    Token { kind: token_kind(s, i), span: s.subrange(i, i + token_len(s, i)) }
}

/// The tokens of `s` from `i` on.
pub open spec fn tokens_from(s: Seq<char>, i: int) -> Seq<Token>
    decreases s.len() - i,
{
    if 0 <= i < s.len() {
        proof {
            lemma_token_bound(s, i);
        }
        seq![token_at(s, i)] + tokens_from(s, i + token_len(s, i))
    } else {
        Seq::empty()
    }
}

/// The tokens of a query.
pub open spec fn tokens(s: Seq<char>) -> Seq<Token> {
    tokens_from(s, 0)
}

impl Token {
    /// Whether the token is a term of the query.
    pub open spec fn is_term(self) -> bool {
        self.kind == TokenKind::Singular || self.kind == TokenKind::Phrase
    }

    /// The text of the token: for a phrase, what stands between the quotes.
    pub open spec fn text(self) -> Seq<char> {
        if self.kind == TokenKind::Phrase {
            self.span.subrange(1, self.span.len() - 1)
        } else {
            self.span
        }
    }

    /// The term that the token gives, where it is one.
    pub open spec fn term(self) -> TermView {
        match self.kind {
            TokenKind::Singular => TermView::Singular(self.text()),
            TokenKind::Phrase => TermView::Phrase(self.text()),
            _ => TermView::Separator(self.text()),
        }
    }

    /// What the token adds to the template.
    pub open spec fn template_piece(self) -> Seq<char> {
        match self.kind {
            TokenKind::Singular | TokenKind::Phrase => slot_open() + self.text() + slot_close(),
            TokenKind::Separator => self.span,
            TokenKind::Dropped => Seq::empty(),
        }
    }

    /// What the token keeps of the query: nothing where it is dropped.
    pub open spec fn kept(self) -> Seq<char> {
        if self.kind == TokenKind::Dropped {
            Seq::empty()
        } else {
            self.span
        }
    }
}

/// The terms among `ts`, in order.
pub open spec fn terms_of(ts: Seq<Token>) -> Seq<TermView>
    decreases ts.len(),
{
    if ts.len() == 0 {
        Seq::empty()
    } else if ts.last().is_term() {
        terms_of(ts.drop_last()).push(ts.last().term())
    } else {
        terms_of(ts.drop_last())
    }
}

/// The template of `ts`: each term in a slot, each separator as it stands.
pub open spec fn template_of(ts: Seq<Token>) -> Seq<char>
    decreases ts.len(),
{
    if ts.len() == 0 {
        Seq::empty()
    } else {
        template_of(ts.drop_last()) + ts.last().template_piece()
    }
}

/// The spans of `ts`, one after the other.
pub open spec fn spans_of(ts: Seq<Token>) -> Seq<char>
    decreases ts.len(),
{
    if ts.len() == 0 {
        Seq::empty()
    } else {
        spans_of(ts.drop_last()) + ts.last().span
    }
}

/// The spans of the tokens of `ts` that are not dropped, one after the
/// other.
pub open spec fn kept_of(ts: Seq<Token>) -> Seq<char>
    decreases ts.len(),
{
    if ts.len() == 0 {
        Seq::empty()
    } else {
        kept_of(ts.drop_last()) + ts.last().kept()
    }
}

/// `last_close` stays within the `n` characters it looks at, and points at a
/// `}` where it is not 0.
pub proof fn lemma_last_close(s: Seq<char>, i: int, n: nat)
    ensures
        last_close(s, i, n) <= n,
        last_close(s, i, n) >= 1 ==> s[i + last_close(s, i, n)] == '}',
        forall|k: int| last_close(s, i, n) < k <= n ==> #[trigger] s[i + k] != '}',
    decreases n,
{
    if n > 0 && s[i + n] != '}' {
        lemma_last_close(s, i, (n - 1) as nat);
    }
}

/// A token ends inside the query.
pub proof fn lemma_token_bound(s: Seq<char>, i: int)
    requires
        0 <= i < s.len(),
    ensures
        i + token_len(s, i) <= s.len(),
{
    lemma_run_bound(s, i + 1, CharClass::Except('"'));
    lemma_run_bound(s, i + 1, CharClass::Except('\n'));
    lemma_run_bound(s, i + 1, CharClass::Numeral);
    lemma_run_bound(s, i + 1, CharClass::Space);
    lemma_run_bound(s, i + 1, CharClass::Word);
    lemma_last_close(s, i, run(s, i + 1, CharClass::Except('\n')));
}

/// The spans of two token sequences put together are their spans put
/// together.
pub proof fn lemma_spans_concat(a: Seq<Token>, b: Seq<Token>)
    ensures
        spans_of(a + b) == spans_of(a) + spans_of(b),
    decreases b.len(),
{
    if b.len() == 0 {
        assert(a + b =~= a);
        assert(spans_of(a) + spans_of(b) =~= spans_of(a));
    } else {
        lemma_spans_concat(a, b.drop_last());
        assert((a + b).drop_last() =~= a + b.drop_last());
        assert((a + b).last() == b.last());
        assert(spans_of(a + b) =~= spans_of(a) + spans_of(b));
    }
}

/// The spans of the tokens from `i` on make up the query from `i` on.
pub proof fn lemma_spans_from(s: Seq<char>, i: int)
    requires
        0 <= i <= s.len(),
    ensures
        spans_of(tokens_from(s, i)) == s.subrange(i, s.len() as int),
    decreases s.len() - i,
{
    if i < s.len() {
        let t = token_at(s, i);
        let j = i + token_len(s, i);
        lemma_token_bound(s, i);
        lemma_spans_from(s, j);
        lemma_spans_concat(seq![t], tokens_from(s, j));
        assert(seq![t].drop_last() =~= Seq::<Token>::empty());
        assert(spans_of(seq![t].drop_last()) =~= Seq::<char>::empty());
        assert(spans_of(seq![t]) =~= t.span);
        assert(t.span + s.subrange(j, s.len() as int) =~= s.subrange(i, s.len() as int));
    } else {
        assert(s.subrange(i, s.len() as int) =~= Seq::<char>::empty());
    }
}

/// The tokens cover the query: their spans, one after the other and with
/// those that are dropped, are the query itself.
pub proof fn lemma_tokens_cover(s: Seq<char>)
    ensures
        spans_of(tokens(s)) == s,
{
    lemma_spans_from(s, 0);
    assert(s.subrange(0, s.len() as int) =~= s);
}

/// Where no token of a sequence is dropped, what it keeps is what it spans.
pub proof fn lemma_kept_is_spans(ts: Seq<Token>)
    requires
        forall|k: int| 0 <= k < ts.len() ==> (#[trigger] ts[k]).kind != TokenKind::Dropped,
    ensures
        kept_of(ts) == spans_of(ts),
    decreases ts.len(),
{
    if ts.len() > 0 {
        lemma_kept_is_spans(ts.drop_last());
    }
}

/// The tokenizer loses nothing but what it drops: where no token of a query
/// is dropped, the spans of its tokens, one after the other, are the query.
pub proof fn lemma_round_trip(s: Seq<char>)
    requires
        forall|k: int| 0 <= k < tokens(s).len() ==> (#[trigger] tokens(s)[k]).kind
            != TokenKind::Dropped,
    ensures
        kept_of(tokens(s)) == s,
{
    lemma_kept_is_spans(tokens(s));
    lemma_tokens_cover(s);
}

/// The distance from `i` to the last `}` among the `n` characters after `i`.
fn find_last_close(chars: &Vec<char>, i: usize, n: usize) -> (m: usize)
    requires
        i + n < chars.len(),
    ensures
        m == last_close(chars@, i as int, n as nat),
        m <= n,
{
    let mut k: usize = n;
    while k > 0 && chars[i + k] != '}'
        invariant
            k <= n,
            i + n < chars.len(),
            last_close(chars@, i as int, n as nat) == last_close(chars@, i as int, k as nat),
        decreases k,
    {
        k = k - 1;
    }
    proof {
        lemma_last_close(chars@, i as int, k as nat);
    }
    k
}

/// An operator word, character by character.
pub proof fn lemma_operator_word(w: Seq<char>)
    ensures
        is_operator_word(w) <==> {
            ||| w.len() == 2 && w[0] == 'O' && w[1] == 'R'
            ||| w.len() == 3 && w[0] == 'A' && w[1] == 'N' && w[2] == 'D'
            ||| w.len() == 3 && w[0] == 'N' && w[1] == 'O' && w[2] == 'T'
        },
{
    let or = seq!['O', 'R'];
    let and = seq!['A', 'N', 'D'];
    let not = seq!['N', 'O', 'T'];
    assert(or.len() == 2 && or[0] == 'O' && or[1] == 'R');
    assert(and.len() == 3 && and[0] == 'A' && and[1] == 'N' && and[2] == 'D');
    assert(not.len() == 3 && not[0] == 'N' && not[1] == 'O' && not[2] == 'T');
    if w.len() == 2 && w[0] == 'O' && w[1] == 'R' {
        assert(w =~= or);
    }
    if w.len() == 3 && w[0] == 'A' && w[1] == 'N' && w[2] == 'D' {
        assert(w =~= and);
    }
    if w.len() == 3 && w[0] == 'N' && w[1] == 'O' && w[2] == 'T' {
        assert(w =~= not);
    }
}

/// Whether the `n` characters from `i` on spell `AND`, `OR` or `NOT`.
fn operator_word(chars: &Vec<char>, i: usize, n: usize) -> (r: bool)
    requires
        i + n <= chars.len(),
    ensures
        r == is_operator_word(chars@.subrange(i as int, i + n)),
{
    proof {
        lemma_operator_word(chars@.subrange(i as int, i + n));
    }
    if n == 2 {
        chars[i] == 'O' && chars[i + 1] == 'R'
    } else if n == 3 {
        (chars[i] == 'A' && chars[i + 1] == 'N' && chars[i + 2] == 'D') || (chars[i] == 'N'
            && chars[i + 1] == 'O' && chars[i + 2] == 'T')
    } else {
        false
    }
}

/// The kind and the length of the token that starts at `i`.
pub fn next_token(chars: &Vec<char>, i: usize) -> (r: (TokenKind, usize))
    requires
        i < chars.len(),
    ensures
        r.0 == token_kind(chars@, i as int),
        r.1 == token_len(chars@, i as int),
        i + r.1 <= chars.len(),
{
    proof {
        lemma_token_bound(chars@, i as int);
    }
    let c = chars[i];
    if c == '"' {
        let n = scan(chars, i + 1, CharClass::Except('"'));
        if n >= 1 && i + 1 + n < chars.len() {
            (TokenKind::Phrase, n + 2)
        } else {
            (TokenKind::Dropped, n + 1)
        }
    } else if c == '{' {
        let n = scan(chars, i + 1, CharClass::Except('\n'));
        let m = if n == 0 {
            0
        } else {
            find_last_close(chars, i, n)
        };
        if m >= 1 {
            (TokenKind::Separator, m + 1)
        } else {
            (TokenKind::Dropped, n + 1)
        }
    } else if c == '^' || c == '~' {
        let n = scan(chars, i + 1, CharClass::Numeral);
        if n >= 1 {
            (TokenKind::Separator, n + 1)
        } else {
            (TokenKind::Dropped, 1)
        }
    } else if c == '&' || c == '|' {
        if i + 1 < chars.len() && chars[i + 1] == c {
            (TokenKind::Separator, 2)
        } else {
            (TokenKind::Dropped, 1)
        }
    } else if c == '!' || c == '(' || c == ')' || c == '+' || c == '-' {
        (TokenKind::Separator, 1)
    } else if space(c) {
        let n = scan(chars, i + 1, CharClass::Space);
        (TokenKind::Separator, n + 1)
    } else if is_word(c) {
        let n = scan(chars, i + 1, CharClass::Word);
        if operator_word(chars, i, n + 1) {
            (TokenKind::Separator, n + 1)
        } else {
            (TokenKind::Singular, n + 1)
        }
    } else {
        (TokenKind::Dropped, 1)
    }
}

impl<'a> Term<'a> {
    /// Splits a query into its terms and its template. The terms are the
    /// words and phrases of the query, in order. The template is the query
    /// with each term set in `{{` and `}}`, each separator as it stands, and
    /// without what was dropped.
    pub fn extract_from_query(query: &'a str) -> (r: (Vec<Term<'a>>, String))
        ensures
            term_views(r.0@) == terms_of(tokens(query@)),
            r.1@ == template_of(tokens(query@)),
    {
        let chars = chars_of(query);
        let n = chars.len();
        let mut terms: Vec<Term<'a>> = Vec::new();
        let mut template = String::new();
        let mut i: usize = 0;
        let ghost mut done: Seq<Token> = Seq::empty();
        proof {
            reveal_strlit("{{");
            reveal_strlit("}}");
            assert("{{"@ =~= slot_open());
            assert("}}"@ =~= slot_close());
            assert(done + tokens_from(query@, 0) =~= tokens(query@));
            assert(term_views(terms@) =~= terms_of(done));
        }
        while i < n
            invariant
                chars@ == query@,
                n == chars.len(),
                i <= n,
                tokens(query@) == done + tokens_from(query@, i as int),
                term_views(terms@) == terms_of(done),
                template@ == template_of(done),
                "{{"@ == slot_open(),
                "}}"@ == slot_close(),
            decreases n - i,
        {
            let (kind, len) = next_token(&chars, i);
            let ghost tok = token_at(query@, i as int);
            let ghost before = terms@;
            match kind {
                TokenKind::Singular => {
                    let text = query.substring_char(i, i + len);
                    template.append("{{");
                    template.append(text);
                    template.append("}}");
                    terms.push(Term::Singular(text));
                    proof {
                        assert(term_views(terms@) =~= term_views(before).push(tok.term()));
                    }
                },
                TokenKind::Phrase => {
                    let text = query.substring_char(i + 1, i + len - 1);
                    template.append("{{");
                    template.append(text);
                    template.append("}}");
                    terms.push(Term::Phrase(text));
                    proof {
                        assert(tok.text() =~= text@);
                        assert(term_views(terms@) =~= term_views(before).push(tok.term()));
                    }
                },
                TokenKind::Separator => {
                    let text = query.substring_char(i, i + len);
                    template.append(text);
                },
                TokenKind::Dropped => {
                    proof {
                        assert(template@ + tok.template_piece() =~= template@);
                    }
                },
            }
            proof {
                let rest = tokens_from(query@, i + len);
                assert(done.push(tok).drop_last() =~= done);
                assert(done + (seq![tok] + rest) =~= done.push(tok) + rest);
                done = done.push(tok);
            }
            i = i + len;
        }
        proof {
            assert(done + tokens_from(query@, n as int) =~= done);
        }
        (terms, template)
    }

    /// The term as a string: its text, or nothing for a separator.
    pub fn as_str(&self) -> (r: &'a str)
        ensures
            r@ == self@.text(),
    {
        match self {
            Term::Singular(s) => s,
            Term::Phrase(s) => s,
            Term::Separator(_) => {
                proof {
                    reveal_strlit("");
                    assert(""@ =~= Seq::<char>::empty());
                }
                ""
            },
        }
    }
}

} // verus!
