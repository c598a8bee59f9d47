//! What modules return: for each term the expansions that each module found.

use vstd::prelude::*;
use vstd::string::*;
use crate::chars::{opt_text, same_text, texts};

verus! {

/// A score, held by the bits of an IEEE 754 number of single or of double
/// precision.
#[derive(Debug, Clone, Copy, PartialEq, Eq)]
pub enum Score {
    Single(u32),
    Double(u64),
}

/// The expansions that one module found for one term, best first. There are
/// as many scores as expansions, or none.
#[derive(Debug, Clone)]
pub struct TermExpansion {
    expansions: Vec<String>,
    scores: Vec<Score>,
    source_id: Option<String>,
    source_name: Option<String>,
    link: Option<String>,
}

/// The mathematical value of a [`TermExpansion`].
pub struct TermExpansionView {
    pub expansions: Seq<Seq<char>>,
    pub scores: Seq<Score>,
    pub source_id: Option<Seq<char>>,
    pub source_name: Option<Seq<char>>,
    pub link: Option<Seq<char>>,
}

impl View for TermExpansion {
    type V = TermExpansionView;

    closed spec fn view(&self) -> TermExpansionView {
        TermExpansionView {
            expansions: texts(self.expansions@),
            scores: self.scores@,
            source_id: opt_text(self.source_id),
            source_name: opt_text(self.source_name),
            link: opt_text(self.link),
        }
    }
}

impl TermExpansionView {
    /// Whether the record holds no scores, or one for each expansion.
    pub open spec fn aligned(self) -> bool {
        self.scores.len() == 0 || self.scores.len() == self.expansions.len()
    }

    /// No expansions, from no module.
    pub open spec fn empty() -> TermExpansionView {
        TermExpansionView {
            expansions: Seq::empty(),
            scores: Seq::empty(),
            source_id: None,
            source_name: None,
            link: None,
        }
    }
}

/// The characters of a text that may be missing.
pub open spec fn opt_slice_text(o: Option<&str>) -> Option<Seq<char>> {
    match o {
        Some(s) => Some(s@),
        None => None,
    }
}

/// The characters of each of `v`'s slices.
pub open spec fn slice_views(v: Seq<&str>) -> Seq<Seq<char>> {
    Seq::new(v.len(), |i: int| v[i]@)
}

fn opt_as_str(o: &Option<String>) -> (r: Option<&str>)
    ensures
        opt_slice_text(r) == opt_text(*o),
{
    match o {
        Some(s) => Some(s.as_str()),
        None => None,
    }
}

impl TermExpansion {
    /// No expansions, from no module.
    pub fn new() -> (r: Self)
        ensures
            r@ == TermExpansionView::empty(),
    {
        let r = TermExpansion {
            expansions: Vec::new(),
            scores: Vec::new(),
            source_id: None,
            source_name: None,
            link: None,
        };
        proof {
            assert(r@.expansions =~= Seq::<Seq<char>>::empty());
        }
        r
    }

    /// The same with the identifier and the name of the module it comes from.
    pub fn with_source(self, id: &str, name: &str) -> (r: Self)
        ensures
            r@ == (TermExpansionView {
                source_id: Some(id@),
                source_name: Some(name@),
                ..self@
            }),
    {
        let mut r = self;
        r.source_id = Some(id.to_owned());
        r.source_name = Some(name.to_owned());
        r
    }

    /// The same with a link to where the expansions come from.
    pub fn with_link(self, link: &str) -> (r: Self)
        ensures
            r@ == (TermExpansionView { link: Some(link@), ..self@ }),
    {
        let mut r = self;
        r.link = Some(link.to_owned());
        r
    }

    /// The same with `expansions` in place of its expansions.
    pub fn with_expansions(self, expansions: Vec<String>) -> (r: Self)
        ensures
            r@ == (TermExpansionView { expansions: texts(expansions@), ..self@ }),
    {
        let mut r = self;
        r.expansions = expansions;
        r
    }

    /// The same with `scores` in place of its scores.
    pub fn with_scores(self, scores: Vec<Score>) -> (r: Self)
        ensures
            r@ == (TermExpansionView { scores: scores@, ..self@ }),
    {
        let mut r = self;
        r.scores = scores;
        r
    }

    /// Appends an expansion and its score. A record that holds a score for
    /// each expansion still does so.
    pub fn add_variant_with_score(&mut self, expansion: &str, score: Score)
        ensures
            final(self)@ == (TermExpansionView {
                expansions: old(self)@.expansions.push(expansion@),
                scores: old(self)@.scores.push(score),
                ..old(self)@
            }),
            old(self)@.scores.len() == old(self)@.expansions.len() ==> final(self)@.aligned(),
    {
        self.expansions.push(expansion.to_owned());
        self.scores.push(score);
        proof {
            assert(final(self)@.expansions =~= old(self)@.expansions.push(expansion@));
        }
    }

    /// Appends an expansion without a score.
    pub fn add_variant(&mut self, expansion: &str)
        ensures
            final(self)@ == (TermExpansionView {
                expansions: old(self)@.expansions.push(expansion@),
                ..old(self)@
            }),
    {
        self.expansions.push(expansion.to_owned());
        proof {
            assert(final(self)@.expansions =~= old(self)@.expansions.push(expansion@));
        }
    }

    /// The expansions, best first.
    pub fn expansions(&self) -> (r: &Vec<String>)
        ensures
            texts(r@) == self@.expansions,
    {
        &self.expansions
    }

    /// The scores.
    pub fn scores(&self) -> (r: &Vec<Score>)
        ensures
            r@ == self@.scores,
    {
        &self.scores
    }

    pub fn source_id(&self) -> (r: Option<&str>)
        ensures
            opt_slice_text(r) == self@.source_id,
    {
        opt_as_str(&self.source_id)
    }

    pub fn source_name(&self) -> (r: Option<&str>)
        ensures
            opt_slice_text(r) == self@.source_name,
    {
        opt_as_str(&self.source_name)
    }

    pub fn link(&self) -> (r: Option<&str>)
        ensures
            opt_slice_text(r) == self@.link,
    {
        opt_as_str(&self.link)
    }

    /// The number of expansions.
    pub fn len(&self) -> (n: usize)
        ensures
            n == self@.expansions.len(),
    {
        self.expansions.len()
    }

    /// The expansions as string slices, best first.
    pub fn iter(&self) -> (r: Vec<&str>)
        ensures
            slice_views(r@) == self@.expansions,
    {
        let mut out: Vec<&str> = Vec::new();
        let mut i: usize = 0;
        while i < self.expansions.len()
            invariant
                i <= self.expansions.len(),
                out@.len() == i,
                forall|k: int| 0 <= k < i ==> (#[trigger] out@[k])@ == self.expansions@[k]@,
            decreases self.expansions.len() - i,
        {
            out.push(self.expansions[i].as_str());
            i = i + 1;
        }
        proof {
            assert(slice_views(out@) =~= self@.expansions);
        }
        out
    }

    /// The expansions, best first.
    pub fn as_vec(&self) -> (r: &Vec<String>)
        ensures
            texts(r@) == self@.expansions,
    {
        &self.expansions
    }
}

impl Default for TermExpansion {
    fn default() -> (r: Self)
        ensures
            r@ == TermExpansionView::empty(),
    {
        TermExpansion::new()
    }
}

/// The values of a sequence of records.
pub open spec fn record_views(records: Seq<TermExpansion>) -> Seq<TermExpansionView> {
    Seq::new(records.len(), |i: int| records[i]@)
}

/// A term and the records of the modules that expanded it.
#[derive(Debug, Clone)]
struct TermEntry {
    term: String,
    records: Vec<TermExpansion>,
}

/// For each term the records of the modules that expanded it, one record for
/// each module, in the order in which the modules were asked. No term occurs
/// twice.
#[derive(Debug, Clone)]
pub struct TermExpansions {
    entries: Vec<TermEntry>,
}

/// The mathematical value of a [`TermExpansions`].
pub type ExpansionMap = Map<Seq<char>, Seq<TermExpansionView>>;

impl View for TermExpansions {
    type V = ExpansionMap;

    closed spec fn view(&self) -> ExpansionMap {
        Map::new(
            |k: Seq<char>| self.keys().contains(k),
            |k: Seq<char>| record_views(self.entries@[self.keys().index_of(k)].records@),
        )
    }
}

impl TermExpansions {
    /// The terms, in the order in which they came in.
    pub closed spec fn keys(&self) -> Seq<Seq<char>> {
        Seq::new(self.entries@.len(), |i: int| self.entries@[i].term@)
    }

    /// No term occurs twice.
    pub closed spec fn wf(&self) -> bool {
        self.keys().no_duplicates()
    }

    /// What is held at a place is what the map holds for the term there.
    proof fn lemma_at(&self, i: int)
        requires
            self.wf(),
            0 <= i < self.entries@.len(),
        ensures
            self@.dom().contains(self.entries@[i].term@),
            self@[self.entries@[i].term@] == record_views(self.entries@[i].records@),
    {
        let k = self.entries@[i].term@;
        assert(self.keys()[i] == k);
        let j = self.keys().index_of(k);
        assert(0 <= j < self.keys().len() && self.keys()[j] == k);
        assert(i == j);
    }

    /// The terms of the map are the terms held, and as many.
    pub proof fn lemma_keys(&self)
        requires
            self.wf(),
        ensures
            self@.dom() == self.keys().to_set(),
            self@.dom().finite(),
            self@.len() == self.keys().len(),
    {
        assert(self@.dom() =~= self.keys().to_set());
        self.keys().unique_seq_to_set();
        vstd::seq_lib::seq_to_set_is_finite(self.keys());
    }

    /// No terms.
    pub fn new() -> (r: Self)
        ensures
            r.wf(),
            r@ == ExpansionMap::empty(),
    {
        let r = TermExpansions { entries: Vec::new() };
        proof {
            assert(r@ =~= ExpansionMap::empty());
        }
        r
    }

    /// The number of terms.
    pub fn len(&self) -> (n: usize)
        requires
            self.wf(),
        ensures
            n == self@.len(),
            n == self.keys().len(),
    {
        proof {
            self.lemma_keys();
        }
        self.entries.len()
    }

    /// Where `term` is held.
    fn position(&self, term: &str) -> (r: Option<usize>)
        ensures
            match r {
                Some(i) => i < self.entries@.len() && self.entries@[i as int].term@ == term@,
                None => !self.keys().contains(term@),
            },
    {
        let mut i: usize = 0;
        while i < self.entries.len()
            invariant
                i <= self.entries.len(),
                forall|k: int| 0 <= k < i ==> self.entries@[k].term@ != term@,
            decreases self.entries.len() - i,
        {
            if same_text(self.entries[i].term.as_str(), term) {
                return Some(i);
            }
            i = i + 1;
        }
        proof {
            assert forall|k: int| 0 <= k < self.keys().len() implies self.keys()[k] != term@ by {
                assert(self.keys()[k] == self.entries@[k].term@);
            }
        }
        None
    }

    /// Whether `term` has an entry.
    pub fn contains_key(&self, term: &str) -> (r: bool)
        ensures
            r == self@.dom().contains(term@),
    {
        let p = self.position(term);
        proof {
            if let Some(i) = p {
                assert(self.keys()[i as int] == term@);
            }
        }
        p.is_some()
    }

    /// The records of `term`, or `None` where it has no entry.
    pub fn get(&self, term: &str) -> (r: Option<&Vec<TermExpansion>>)
        requires
            self.wf(),
        ensures
            match r {
                Some(records) => self@.dom().contains(term@) && record_views(records@)
                    == self@[term@],
                None => !self@.dom().contains(term@),
            },
    {
        match self.position(term) {
            Some(i) => {
                proof {
                    self.lemma_at(i as int);
                }
                Some(&self.entries[i].records)
            },
            None => None,
        }
    }

    /// The term at place `i` and its records, or `None` where `i` is not
    /// below `len()`. Each term of the map stands at one place.
    pub fn entry(&self, i: usize) -> (r: Option<(&str, &Vec<TermExpansion>)>)
        requires
            self.wf(),
        ensures
            match r {
                Some((term, records)) => {
                    &&& i < self.keys().len()
                    &&& term@ == self.keys()[i as int]
                    &&& self@.dom().contains(term@)
                    &&& record_views(records@) == self@[term@]
                },
                None => i >= self.keys().len(),
            },
    {
        if i < self.entries.len() {
            proof {
                self.lemma_at(i as int);
            }
            Some((self.entries[i].term.as_str(), &self.entries[i].records))
        } else {
            None
        }
    }

    /// Sets the records of `term`, in place of those it had.
    pub fn insert(&mut self, term: String, records: Vec<TermExpansion>)
        requires
            old(self).wf(),
        ensures
            final(self).wf(),
            final(self)@ == old(self)@.insert(term@, record_views(records@)),
    {
        let ghost k = term@;
        let ghost v = record_views(records@);
        match self.position(term.as_str()) {
            Some(i) => {
                let ghost before = *self;
                self.entries.set(i, TermEntry { term, records });
                proof {
                    assert(self.keys() =~= before.keys());
                    assert(self.wf());
                    assert forall|q: Seq<char>| self@.dom().contains(q) implies #[trigger] self@[q]
                        == before@.insert(k, v)[q] by {
                        let j = self.keys().index_of(q);
                        assert(self.keys().contains(q));
                        assert(0 <= j < self.keys().len() && self.keys()[j] == q);
                        assert(self.entries@[j].term@ == q);
                        self.lemma_at(j);
                        if j == i {
                            assert(q == k);
                        } else {
                            assert(before.keys()[j] == q);
                            assert(before.keys()[i as int] == k);
                            assert(before.entries@[j].term@ == q);
                            before.lemma_at(j);
                        }
                    }
                    assert(self@.dom() =~= before@.insert(k, v).dom()) by {
                        assert(before.keys()[i as int] == k);
                    }
                    assert(self@ =~= before@.insert(k, v));
                }
            },
            None => {
                let ghost before = *self;
                self.entries.push(TermEntry { term, records });
                proof {
                    assert(self.keys() =~= before.keys().push(k));
                    assert forall|q: Seq<char>| self@.dom().contains(q) implies #[trigger] self@[q]
                        == before@.insert(k, v)[q] by {
                        let j = self.keys().index_of(q);
                        assert(self.keys()[j] == q);
                        self.lemma_at(j);
                        if j < before.keys().len() {
                            assert(before.keys()[j] == q);
                            before.lemma_at(j);
                        }
                    }
                    assert forall|q: Seq<char>| before@.insert(k, v).dom().contains(
                        q,
                    ) implies #[trigger] self@.dom().contains(q) by {
                        if q != k {
                            let j = before.keys().index_of(q);
                            assert(self.keys()[j] == q);
                        } else {
                            assert(self.keys()[before.keys().len() as int] == k);
                        }
                    }
                    assert(self@ =~= before@.insert(k, v));
                }
            },
        }
    }

    /// Takes the entry of `term` out and returns its records, or `None`
    /// where it has no entry.
    pub fn remove(&mut self, term: &str) -> (r: Option<Vec<TermExpansion>>)
        requires
            old(self).wf(),
        ensures
            final(self).wf(),
            final(self)@ == old(self)@.remove(term@),
            match r {
                Some(records) => old(self)@.dom().contains(term@) && record_views(records@)
                    == old(self)@[term@],
                None => !old(self)@.dom().contains(term@),
            },
    {
        let ghost k = term@;
        match self.position(term) {
            Some(i) => {
                let ghost before = *self;
                let entry = self.entries.remove(i);
                proof {
                    before.lemma_at(i as int);
                    assert(self.keys() =~= before.keys().remove(i as int));
                    assert forall|a: int, b: int|
                        0 <= a < self.keys().len() && 0 <= b < self.keys().len() && a
                            != b implies self.keys()[a] != self.keys()[b] by {
                        let a0 = if a < i { a } else { a + 1 };
                        let b0 = if b < i { b } else { b + 1 };
                        assert(self.keys()[a] == before.keys()[a0]);
                        assert(self.keys()[b] == before.keys()[b0]);
                    }
                    assert(self.wf());
                    assert(before.keys()[i as int] == k);
                    assert forall|q: Seq<char>| self@.dom().contains(q) implies q != k
                        && before@.dom().contains(q) && #[trigger] self@[q] == before@[q] by {
                        let j = self.keys().index_of(q);
                        assert(self.keys().contains(q));
                        assert(0 <= j < self.keys().len() && self.keys()[j] == q);
                        let j0 = if j < i { j } else { j + 1 };
                        assert(before.keys()[j0] == q);
                        assert(before.keys().contains(q));
                        assert(self.entries@[j] == before.entries@[j0]);
                        self.lemma_at(j);
                        before.lemma_at(j0);
                    }
                    assert forall|q: Seq<char>| before@.remove(k).dom().contains(
                        q,
                    ) implies #[trigger] self@.dom().contains(q) by {
                        let j0 = before.keys().index_of(q);
                        assert(before.keys()[j0] == q);
                        let j = if j0 < i { j0 } else { j0 - 1 };
                        assert(self.keys()[j] == q);
                    }
                    assert(self@ =~= before@.remove(k));
                }
                Some(entry.records)
            },
            None => {
                proof {
                    assert(self@ =~= self@.remove(k));
                }
                None
            },
        }
    }

    /// Appends `more` to the records of `term`, which gets an entry where it
    /// had none.
    pub fn extend(&mut self, term: &str, more: Vec<TermExpansion>)
        requires
            old(self).wf(),
        ensures
            final(self).wf(),
            final(self)@ == old(self)@.insert(
                term@,
                records_of(old(self)@, term@) + record_views(more@),
            ),
    {
        let mut more = more;
        let ghost added = record_views(more@);
        match self.remove(term) {
            Some(records) => {
                let mut records = records;
                let ghost had = record_views(records@);
                records.append(&mut more);
                proof {
                    assert(record_views(records@) =~= had + added);
                    assert(old(self)@.remove(term@).insert(term@, had + added) =~= old(
                        self,
                    )@.insert(term@, had + added));
                }
                self.insert(term.to_owned(), records);
            },
            None => {
                proof {
                    assert(Seq::<TermExpansionView>::empty() + added =~= added);
                    assert(old(self)@.remove(term@) =~= old(self)@);
                }
                self.insert(term.to_owned(), more);
            },
        }
    }
}

/// The records that `m` holds for `term`: none where it has no entry.
pub open spec fn records_of(m: ExpansionMap, term: Seq<char>) -> Seq<TermExpansionView> {
    if m.dom().contains(term) {
        m[term]
    } else {
        Seq::empty()
    }
}

} // verus!
