//! Filling a query template with expansions.
//!
//! A template holds slots: a term between `{{` and `}}`. A slot is opened by
//! the last `{{` before its `}}`; a `}}` that follows no `{{` closes nothing.
//! Each slot is replaced by the expansions of its term, as a disjunction:
//! those of each module in round brackets, each in double quotes, with `OR`
//! between them and between the modules. An expansion that was written for
//! the slot already is not written again, and a module that adds nothing new
//! gets no brackets. A term without expansions leaves nothing.
//!
//! What stands between two slots is kept, and so is what follows the last
//! one. What stands before the first slot is not.

use vstd::prelude::*;
use vstd::string::*;
use vstd::hash_set::StringHashSet;
use crate::chars::chars_of;
use crate::expansion::{record_views, ExpansionMap, TermExpansion, TermExpansionView, TermExpansions};

verus! {

/// A slot of a template: its term stands from `begin` up to `end`, the `{{`
/// before `begin` and the `}}` at `end`.
pub struct Slot {
    pub begin: int,
    pub end: int,
}

/// The slots of `s` that are closed at `i` or later, where `open` is the
/// beginning of the term that a `{{` before `i` has opened, if any.
pub open spec fn slots_from(s: Seq<char>, i: int, open: Option<int>) -> Seq<Slot>
    decreases s.len() - i,
{
    if i < 0 || i >= s.len() {
        Seq::empty()
    } else if i >= 1 && s[i] == '{' && s[i - 1] == '{' {
        slots_from(s, i + 1, Some(i + 1))
    } else if i >= 1 && s[i] == '}' && s[i - 1] == '}' && open.is_some() {
        seq![Slot { begin: open.unwrap(), end: i - 1 }] + slots_from(s, i + 1, None)
    } else {
        slots_from(s, i + 1, open)
    }
}

/// The slots of a template, in order.
pub open spec fn slots(s: Seq<char>) -> Seq<Slot> {
    slots_from(s, 0, None)
}

/// `xs` without what is in `seen` and without what occurred in `xs` before.
pub open spec fn fresh(xs: Seq<Seq<char>>, seen: Set<Seq<char>>) -> Seq<Seq<char>>
    decreases xs.len(),
{
    if xs.len() == 0 {
        Seq::empty()
    } else if seen.contains(xs.last()) || xs.drop_last().contains(xs.last()) {
        fresh(xs.drop_last(), seen)
    } else {
        fresh(xs.drop_last(), seen).push(xs.last())
    }
}

/// The texts `xs` with `sep` between them.
pub open spec fn joined(xs: Seq<Seq<char>>, sep: Seq<char>) -> Seq<char>
    decreases xs.len(),
{
    if xs.len() == 0 {
        Seq::empty()
    } else if xs.len() == 1 {
        xs[0]
    } else {
        joined(xs.drop_last(), sep) + sep + xs.last()
    }
}

/// The expansions of the first `n` records, as a set.
pub open spec fn seen_in(records: Seq<TermExpansionView>, n: int) -> Set<Seq<char>> {
    Set::new(
        |x: Seq<char>|
            exists|r: int, e: int|
                0 <= r < n && r < records.len() && 0 <= e < records[r].expansions.len()
                    && #[trigger] records[r].expansions[e] == x,
    )
}

/// What record `r` adds to the expansions of the records before it.
pub open spec fn added(records: Seq<TermExpansionView>, r: int) -> Seq<Seq<char>> {
    fresh(records[r].expansions, seen_in(records, r))
}

/// The expansions that are written for the first `n` records, in order.
pub open spec fn emitted(records: Seq<TermExpansionView>, n: nat) -> Seq<Seq<char>>
    decreases n,
{
    if n == 0 {
        Seq::empty()
    } else {
        emitted(records, (n - 1) as nat) + added(records, n - 1)
    }
}

/// What stands between the expansions of one module.
pub open spec fn or_quoted() -> Seq<char> {
    "\" OR \""@
}

/// What stands between the expansions of two modules.
pub open spec fn or_plain() -> Seq<char> {
    " OR "@
}

/// What opens the expansions of a module.
pub open spec fn group_open() -> Seq<char> {
    "(\""@
}

/// What closes the expansions of a module.
pub open spec fn group_close() -> Seq<char> {
    "\")"@
}

/// The expansions `xs` of one module, as they are written.
pub open spec fn group(xs: Seq<Seq<char>>) -> Seq<char> {
    group_open() + joined(xs, or_quoted()) + group_close()
}

/// The groups of the first `n` records: one for each record that adds an
/// expansion.
pub open spec fn groups(records: Seq<TermExpansionView>, n: nat) -> Seq<Seq<char>>
    decreases n,
{
    if n == 0 {
        Seq::empty()
    } else if added(records, n - 1).len() == 0 {
        groups(records, (n - 1) as nat)
    } else {
        groups(records, (n - 1) as nat).push(group(added(records, n - 1)))
    }
}

/// The disjunction of the expansions in `records`.
pub open spec fn disjunction(records: Seq<TermExpansionView>) -> Seq<char> {
    joined(groups(records, records.len()), or_plain())
}

/// What a slot with the term `term` is replaced by.
pub open spec fn filled(m: ExpansionMap, term: Seq<char>) -> Seq<char> {
    if m.dom().contains(term) {
        disjunction(m[term])
    } else {
        Seq::empty()
    }
}

/// What stands between slot `k` and the slot before it; nothing for the
/// first slot.
pub open spec fn gap(s: Seq<char>, sl: Seq<Slot>, k: int) -> Seq<char> {
    if k >= 1 {
        s.subrange(sl[k - 1].end + 2, sl[k].begin - 2)
    } else {
        Seq::empty()
    }
}

/// What the first `n` slots of `sl` and the text between them become.
pub open spec fn body(s: Seq<char>, sl: Seq<Slot>, m: ExpansionMap, n: nat) -> Seq<char>
    decreases n,
{
    if n == 0 {
        Seq::empty()
    } else {
        body(s, sl, m, (n - 1) as nat) + gap(s, sl, n - 1) + filled(
            m,
            s.subrange(sl[n - 1].begin, sl[n - 1].end),
        )
    }
}

/// The template `s` with its slots filled from `m`.
pub open spec fn resolved(s: Seq<char>, m: ExpansionMap) -> Seq<char> {
    let sl = slots(s);
    if sl.len() == 0 {
        Seq::empty()
    } else {
        body(s, sl, m, sl.len()) + s.subrange(sl.last().end + 2, s.len() as int)
    }
}

/// The body of the first `n` slots depends on these slots alone.
pub proof fn lemma_body_prefix(
    s: Seq<char>,
    a: Seq<Slot>,
    b: Seq<Slot>,
    m: ExpansionMap,
    n: nat,
)
    requires
        n <= a.len(),
        n <= b.len(),
        forall|k: int| 0 <= k < n ==> a[k] == b[k],
    ensures
        body(s, a, m, n) == body(s, b, m, n),
    decreases n,
{
    if n > 0 {
        lemma_body_prefix(s, a, b, m, (n - 1) as nat);
    }
}

/// What `fresh` returns holds nothing twice and nothing of `seen`, and it
/// holds just what `xs` holds beyond `seen`.
pub proof fn lemma_fresh(xs: Seq<Seq<char>>, seen: Set<Seq<char>>)
    ensures
        fresh(xs, seen).no_duplicates(),
        forall|x: Seq<char>| #[trigger]
            fresh(xs, seen).contains(x) <==> (xs.contains(x) && !seen.contains(x)),
    decreases xs.len(),
{
    if xs.len() > 0 {
        let init = xs.drop_last();
        let last = xs.last();
        lemma_fresh(init, seen);
        let f = fresh(init, seen);
        assert forall|x: Seq<char>| xs.contains(x) <==> (init.contains(x) || x == last) by {
            if xs.contains(x) {
                let i = choose|i: int| 0 <= i < xs.len() && xs[i] == x;
                if i < xs.len() - 1 {
                    assert(init[i] == x);
                }
            }
            if init.contains(x) {
                let i = choose|i: int| 0 <= i < init.len() && init[i] == x;
                assert(xs[i] == x);
            }
            if x == last {
                assert(xs[xs.len() - 1] == x);
            }
        }
        if seen.contains(last) || init.contains(last) {
        } else {
            assert(!f.contains(last));
            let g = f.push(last);
            assert forall|i: int, j: int| 0 <= i < g.len() && 0 <= j < g.len() && i != j implies g[i]
                != g[j] by {
                if i < f.len() {
                    assert(f.contains(g[i]));
                }
                if j < f.len() {
                    assert(f.contains(g[j]));
                }
            }
            assert forall|x: Seq<char>| #[trigger]
                g.contains(x) <==> (xs.contains(x) && !seen.contains(x)) by {
                if g.contains(x) {
                    let i = choose|i: int| 0 <= i < g.len() && g[i] == x;
                    if i < f.len() {
                        assert(f.contains(x));
                    }
                }
                if xs.contains(x) && !seen.contains(x) {
                    if x == last {
                        assert(g[f.len() as int] == x);
                    } else {
                        assert(f.contains(x));
                        let i = choose|i: int| 0 <= i < f.len() && f[i] == x;
                        assert(g[i] == x);
                    }
                }
            }
        }
    }
}

/// The expansions of the first `n` records are those of the records before
/// the last of them and those of that one.
pub proof fn lemma_seen_step(records: Seq<TermExpansionView>, n: int)
    requires
        0 <= n < records.len(),
    ensures
        forall|x: Seq<char>| #[trigger]
            seen_in(records, n + 1).contains(x) <==> (seen_in(records, n).contains(x)
                || records[n].expansions.contains(x)),
{
    assert forall|x: Seq<char>| #[trigger]
        seen_in(records, n + 1).contains(x) <==> (seen_in(records, n).contains(x)
            || records[n].expansions.contains(x)) by {
        if seen_in(records, n + 1).contains(x) {
            let (r, e) = choose|r: int, e: int|
                0 <= r < n + 1 && r < records.len() && 0 <= e < records[r].expansions.len()
                    && #[trigger] records[r].expansions[e] == x;
            if r < n {
                assert(seen_in(records, n).contains(x));
            } else {
                assert(records[n].expansions[e] == x);
            }
        }
        if seen_in(records, n).contains(x) {
            let (r, e) = choose|r: int, e: int|
                0 <= r < n && r < records.len() && 0 <= e < records[r].expansions.len()
                    && #[trigger] records[r].expansions[e] == x;
            assert(records[r].expansions[e] == x);
        }
        if records[n].expansions.contains(x) {
            let e = choose|e: int|
                0 <= e < records[n].expansions.len() && records[n].expansions[e] == x;
            assert(records[n].expansions[e] == x);
        }
    }
}

/// Each expansion that a module returned for a term is written once for the
/// term's slot, however many modules returned it and however often: what is
/// written holds nothing twice, and it holds just the expansions of the
/// records.
pub proof fn lemma_emitted_once(records: Seq<TermExpansionView>, n: nat)
    requires
        n <= records.len(),
    ensures
        emitted(records, n).no_duplicates(),
        forall|x: Seq<char>| #[trigger]
            emitted(records, n).contains(x) <==> seen_in(records, n as int).contains(x),
    decreases n,
{
    if n > 0 {
        let before = emitted(records, (n - 1) as nat);
        let more = added(records, n - 1);
        let all = before + more;
        lemma_emitted_once(records, (n - 1) as nat);
        lemma_fresh(records[n - 1].expansions, seen_in(records, n - 1));
        lemma_seen_step(records, n - 1);
        assert forall|x: Seq<char>| all.contains(x) <==> (before.contains(x) || more.contains(
            x,
        )) by {
            if all.contains(x) {
                let i = choose|i: int| 0 <= i < all.len() && all[i] == x;
                if i < before.len() {
                    assert(before[i] == x);
                } else {
                    assert(more[i - before.len()] == x);
                }
            }
            if before.contains(x) {
                let i = choose|i: int| 0 <= i < before.len() && before[i] == x;
                assert(all[i] == x);
            }
            if more.contains(x) {
                let i = choose|i: int| 0 <= i < more.len() && more[i] == x;
                assert(all[before.len() + i] == x);
            }
        }
        assert forall|i: int, j: int| 0 <= i < all.len() && 0 <= j < all.len() && i
            != j implies all[i] != all[j] by {
            if i < before.len() {
                assert(before.contains(all[i]));
            } else {
                assert(more[i - before.len()] == all[i]);
                assert(more.contains(all[i]));
            }
            if j < before.len() {
                assert(before.contains(all[j]));
            } else {
                assert(more[j - before.len()] == all[j]);
                assert(more.contains(all[j]));
            }
        }
    } else {
        assert forall|x: Seq<char>| !seen_in(records, 0).contains(x) by {}
    }
}

/// Appends the disjunction of the expansions in `records` to `out`.
pub fn append_disjunction(out: &mut String, records: &Vec<TermExpansion>)
    ensures
        final(out)@ == old(out)@ + disjunction(record_views(records@)),
{
    let ghost base = out@;
    let ghost rv = record_views(records@);
    let mut seen = StringHashSet::new();
    let mut any = false;
    let mut r: usize = 0;
    proof {
        assert(seen@ =~= seen_in(rv, 0));
        assert(out@ =~= base + joined(groups(rv, 0), or_plain()));
    }
    while r < records.len()
        invariant
            r <= records.len(),
            rv == record_views(records@),
            seen@ == seen_in(rv, r as int),
            any == (groups(rv, r as nat).len() > 0),
            out@ == base + joined(groups(rv, r as nat), or_plain()),
        decreases records.len() - r,
    {
        let expansions = records[r].expansions();
        let ghost xs = rv[r as int].expansions;
        let ghost before = seen_in(rv, r as int);
        let ghost prefix = out@;
        let mut first = true;
        let mut e: usize = 0;
        proof {
            assert(xs.take(0) =~= Seq::<Seq<char>>::empty());
            assert(out@ =~= prefix + Seq::<char>::empty());
        }
        while e < expansions.len()
            invariant
                e <= expansions.len(),
                r < records.len(),
                rv == record_views(records@),
                xs == rv[r as int].expansions,
                xs.len() == expansions.len(),
                forall|k: int| 0 <= k < xs.len() ==> xs[k] == #[trigger] expansions@[k]@,
                before == seen_in(rv, r as int),
                forall|x: Seq<char>| #[trigger]
                    seen@.contains(x) <==> (before.contains(x) || xs.take(e as int).contains(x)),
                first == (fresh(xs.take(e as int), before).len() == 0),
                any == (groups(rv, r as nat).len() > 0),
                out@ == prefix + opened(fresh(xs.take(e as int), before), any),
            decreases expansions.len() - e,
        {
            let x = expansions[e].as_str();
            let ghost f = fresh(xs.take(e as int), before);
            let ghost was = seen@;
            proof {
                assert(xs.take(e + 1).drop_last() =~= xs.take(e as int));
                assert(xs.take(e + 1).last() == x@);
            }
            if !seen.contains(x) {
                if !first {
                    out.append("\" OR \"");
                } else {
                    if any {
                        out.append(" OR ");
                    }
                    out.append("(\"");
                }
                first = false;
                out.append(x);
                seen.insert(x.to_owned());
                proof {
                    let g = f.push(x@);
                    assert(fresh(xs.take(e + 1), before) == g);
                    assert(g.drop_last() =~= f);
                    assert(out@ =~= prefix + opened(g, any));
                }
            }
            proof {
                let t0 = xs.take(e as int);
                let t1 = xs.take(e + 1);
                assert forall|y: Seq<char>| #[trigger]
                    seen@.contains(y) <==> (before.contains(y) || t1.contains(y)) by {
                    if t1.contains(y) {
                        let i = choose|i: int| 0 <= i < t1.len() && t1[i] == y;
                        if i < e {
                            assert(t0[i] == y);
                        }
                    }
                    if t0.contains(y) {
                        let i = choose|i: int| 0 <= i < t0.len() && t0[i] == y;
                        assert(t1[i] == y);
                    }
                    if y == x@ {
                        assert(t1[e as int] == y);
                    }
                }
            }
            e = e + 1;
        }
        proof {
            assert(xs.take(e as int) =~= xs);
            lemma_seen_step(rv, r as int);
            assert(seen@ =~= seen_in(rv, r + 1));
        }
        if !first {
            out.append("\")");
            any = true;
            proof {
                let g = groups(rv, r as nat);
                let a = added(rv, r as int);
                assert(groups(rv, (r + 1) as nat) == g.push(group(a)));
                assert(g.push(group(a)).drop_last() =~= g);
                assert(out@ =~= base + joined(g.push(group(a)), or_plain()));
            }
        }
        r = r + 1;
    }
}

/// What has been written of a module's group after the expansions `f` of
/// it, where `any` says whether a group stands before it: nothing where `f`
/// is empty, else ` OR ` after an earlier group, the opening bracket and
/// quote, and the expansions.
pub open spec fn opened(f: Seq<Seq<char>>, any: bool) -> Seq<char> {
    if f.len() == 0 {
        Seq::empty()
    } else if any {
        or_plain() + group_open() + joined(f, or_quoted())
    } else {
        group_open() + joined(f, or_quoted())
    }
}

/// The template with each slot replaced by the disjunction of the
/// expansions that `terms_map` holds for its term.
pub fn resolve(template: &str, terms_map: &TermExpansions) -> (r: String)
    requires
        terms_map.wf(),
    ensures
        r@ == resolved(template@, terms_map@),
{
    let chars = chars_of(template);
    let n = chars.len();
    let ghost s = template@;
    let ghost m = terms_map@;
    let mut out = String::new();
    let mut open: Option<usize> = None;
    let mut last_end: Option<usize> = None;
    let ghost mut done: Seq<Slot> = Seq::empty();
    let ghost mut opened_at: Option<int> = None;
    let mut i: usize = 0;
    proof {
        assert(done + slots_from(s, 0, None) =~= slots(s));
    }
    while i < n
        invariant
            chars@ == s,
            s == template@,
            m == terms_map@,
            terms_map.wf(),
            n == chars.len(),
            i <= n,
            slots(s) == done + slots_from(s, i as int, opened_at),
            out@ == body(s, done, m, done.len()),
            match open {
                Some(b) => opened_at == Some(b as int) && 2 <= b <= i && s[b - 1] == '{',
                None => opened_at.is_none(),
            },
            match last_end {
                Some(t) => done.len() > 0 && done.last().end == t && t + 1 < i && s[t + 1] == '}',
                None => done.len() == 0,
            },
            (open.is_some() && last_end.is_some()) ==> last_end.unwrap() + 4 <= open.unwrap(),
        decreases n - i,
    {
        let c = chars[i];
        if i >= 1 && c == '{' && chars[i - 1] == '{' {
            open = Some(i + 1);
            proof {
                opened_at = Some(i + 1);
            }
        } else if i >= 1 && c == '}' && chars[i - 1] == '}' && open.is_some() {
            let b = open.unwrap();
            let ghost slot = Slot { begin: b as int, end: i - 1 };
            let ghost next = done.push(slot);
            proof {
                lemma_body_prefix(s, done, next, m, done.len());
                assert(done + (seq![slot] + slots_from(s, i + 1, None)) =~= next + slots_from(
                    s,
                    i + 1,
                    None,
                ));
            }
            match last_end {
                Some(t) => {
                    let between = template.substring_char(t + 2, b - 2);
                    out.append(between);
                },
                None => {
                    proof {
                        assert(out@ + Seq::<char>::empty() =~= out@);
                    }
                },
            }
            let term = template.substring_char(b, i - 1);
            match terms_map.get(term) {
                Some(records) => {
                    append_disjunction(&mut out, records);
                },
                None => {
                    proof {
                        assert(out@ + Seq::<char>::empty() =~= out@);
                    }
                },
            }
            last_end = Some(i - 1);
            open = None;
            proof {
                done = next;
                opened_at = None;
            }
        }
        i = i + 1;
    }
    proof {
        assert(done + slots_from(s, n as int, opened_at) =~= done);
    }
    match last_end {
        Some(t) => {
            let rest = template.substring_char(t + 2, n);
            out.append(rest);
        },
        None => {},
    }
    out
}

} // verus!
