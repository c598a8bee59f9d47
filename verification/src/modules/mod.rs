//! Expansion modules: what each of them offers to the expander.

pub mod analiticcl;
pub mod finalfusion;
pub mod fst;
pub mod lookup;
pub mod settings;

use vstd::prelude::*;
use crate::error::{Error, ErrorView};
use crate::expansion::{ExpansionMap, TermExpansions};
use crate::lexer::{term_views, Term, TermView};
use vstd::string::*;
use crate::params::{param_ref_views, scoped, QueryParam, QueryParamView, QueryParams};
use crate::modules::fst::{fst_loads, FstModule};
use crate::modules::lookup::{lookup_loads, LookupModule};

verus! {

/// What a module answers to a query: for each term that it knows its
/// record, or a failure.
pub type Outcome = Result<ExpansionMap, ErrorView>;

/// The mathematical value of what `expand_query` returns.
pub open spec fn outcome_of(r: Result<TermExpansions, Error>) -> Outcome {
    match r {
        Ok(m) => Ok(m@),
        Err(e) => Err(e@),
    }
}

/// The failure of a parameter with a key that a module of the type `kind`
/// does not know.
pub open spec fn unknown_key(kind: Seq<char>, key: Seq<char>) -> ErrorView {
    ErrorView::QueryExpandError("Got unexpected parameter for "@ + kind + ": "@ + key)
}

/// What a module of the type `kind` reads from the parameters `own` of its
/// scope, where it knows the key `key` alone and takes an unsigned integer
/// under it: the first such value, or `acc` where that holds one, or nothing.
/// The first parameter, in order, that has another key or another kind of
/// value is a failure: `unknown_key` for the key, `invalid` for the value.
pub open spec fn number_from(
    own: Seq<QueryParamView>,
    kind: Seq<char>,
    key: Seq<char>,
    invalid: ErrorView,
    acc: Option<u64>,
) -> Result<Option<u64>, ErrorView>
    decreases own.len(),
{
    if own.len() == 0 {
        Ok(acc)
    } else if own[0].key == key {
        match own[0].value.as_u64() {
            Some(n) => number_from(
                own.drop_first(),
                kind,
                key,
                invalid,
                if acc.is_some() {
                    acc
                } else {
                    Some(n)
                },
            ),
            None => Err(invalid),
        }
    } else {
        Err(unknown_key(kind, own[0].key))
    }
}

/// What the module `id` of the type `kind` reads from `params`: see
/// `number_from`, over the parameters of the module's scope.
pub open spec fn scope_number(
    params: Seq<QueryParamView>,
    id: Seq<char>,
    kind: Seq<char>,
    key: Seq<char>,
    invalid: ErrorView,
) -> Result<Option<u64>, ErrorView> {
    number_from(scoped(params, id), kind, key, invalid, None)
}

/// The failure of a parameter with the key `key`, which a module of the
/// type `kind` does not know.
pub fn unknown_key_error(kind: &str, key: &str) -> (e: Error)
    ensures
        e@ == unknown_key(kind@, key@),
{
    let mut text = String::new();
    text.append("Got unexpected parameter for ");
    text.append(kind);
    text.append(": ");
    text.append(key);
    proof {
        assert(text@ =~= "Got unexpected parameter for "@ + kind@ + ": "@ + key@);
    }
    Error::QueryExpandError(text)
}

/// The unsigned integer that the module `id` of the type `kind` finds under
/// `key` in its scope, first of all; `None` where its scope is empty. A
/// parameter of the scope with another key, or with a value under `key` that
/// is no unsigned integer, is a failure: the first such parameter decides.
pub fn read_number(params: &QueryParams, id: &str, kind: &str, key: &str, invalid: &str) -> (r:
    Result<Option<u64>, Error>)
    ensures
        match r {
            Ok(n) => scope_number(
                params@,
                id@,
                kind@,
                key@,
                ErrorView::QueryExpandError(invalid@),
            ) == Ok::<Option<u64>, ErrorView>(n),
            Err(e) => scope_number(
                params@,
                id@,
                kind@,
                key@,
                ErrorView::QueryExpandError(invalid@),
            ) == Err::<Option<u64>, ErrorView>(e@),
        },
{
    let own = params.iter_for_module(id);
    let ghost ps = param_ref_views(own@);
    let ghost bad = ErrorView::QueryExpandError(invalid@);
    let mut acc: Option<u64> = None;
    let mut i: usize = 0;
    proof {
        assert(ps.skip(0) =~= ps);
    }
    while i < own.len()
        invariant
            i <= own.len(),
            ps == param_ref_views(own@),
            ps == scoped(params@, id@),
            bad == ErrorView::QueryExpandError(invalid@),
            number_from(ps, kind@, key@, bad, None) == number_from(
                ps.skip(i as int),
                kind@,
                key@,
                bad,
                acc,
            ),
        decreases own.len() - i,
    {
        let p: &QueryParam = own[i];
        proof {
            assert(ps.skip(i as int)[0] == p@);
            assert(ps.skip(i as int).drop_first() =~= ps.skip(i + 1));
        }
        if crate::chars::same_text(p.key(), key) {
            match p.value().as_u64() {
                Some(n) => {
                    if acc.is_none() {
                        acc = Some(n);
                    }
                },
                None => {
                    return Err(Error::query_expand(invalid));
                },
            }
        } else {
            return Err(unknown_key_error(kind, p.key()));
        }
        i = i + 1;
    }
    Ok(acc)
}

/// Whether each entry of `m` holds one record.
pub open spec fn one_record_each(m: ExpansionMap) -> bool {
    forall|k: Seq<char>| m.dom().contains(k) ==> (#[trigger] m[k]).len() == 1
}

/// A source of expansions.
pub trait Module {
    /// The module's identifier.
    spec fn ident(&self) -> Seq<char>;

    /// Whether the module has been loaded.
    spec fn loaded(&self) -> bool;

    /// The module's name.
    spec fn label(&self) -> Seq<char>;

    /// The type of the module.
    spec fn family(&self) -> Seq<char>;

    /// Whether `answer` is what the module may return for `terms` under
    /// `params`.
    spec fn answers(
        &self,
        terms: Seq<TermView>,
        params: Seq<QueryParamView>,
        answer: Outcome,
    ) -> bool;

    /// The type of the module.
    fn kind(&self) -> (r: &'static str)
        ensures
            r@ == self.family(),
    ;

    /// The module's identifier, a short string.
    fn id(&self) -> (r: &str)
        ensures
            r@ == self.ident(),
    ;

    /// The module's name, for people to read.
    fn name(&self) -> (r: &str)
        ensures
            r@ == self.label(),
    ;

    /// Loads the module. To be called once, before `expand_query`.
    fn load(&mut self) -> (r: Result<(), Error>)
        requires
            !old(self).loaded(),
        ensures
            final(self).ident() == old(self).ident(),
            final(self).label() == old(self).label(),
            final(self).family() == old(self).family(),
            r is Ok ==> final(self).loaded(),
    ;

    /// Expands the terms of a query. A term for which the module finds
    /// nothing has no entry in the result; an entry holds one record.
    fn expand_query(&self, terms: &Vec<Term>, params: &QueryParams) -> (r: Result<
        TermExpansions,
        Error,
    >)
        requires
            self.loaded(),
        ensures
            self.answers(term_views(terms@), params@, outcome_of(r)),
            r matches Ok(m) ==> m.wf() && one_record_each(m@),
    ;
}

/// One of the modules that the library holds whole.
pub enum Provider {
    Lookup(LookupModule),
    Fst(FstModule),
}

/// What `load` makes of a provider: what the `load` of its module makes of
/// that module.
pub open spec fn provider_loads(before: Provider, after: Provider, r: Result<(), Error>) -> bool {
    match before {
        Provider::Lookup(b) => after matches Provider::Lookup(a) && lookup_loads(b, a, r),
        Provider::Fst(b) => after matches Provider::Fst(a) && fst_loads(b, a, r),
    }
}

impl Module for Provider {
    open spec fn ident(&self) -> Seq<char> {
        match self {
            Provider::Lookup(m) => m.ident(),
            Provider::Fst(m) => m.ident(),
        }
    }

    open spec fn loaded(&self) -> bool {
        match self {
            Provider::Lookup(m) => m.loaded(),
            Provider::Fst(m) => m.loaded(),
        }
    }

    open spec fn label(&self) -> Seq<char> {
        match self {
            Provider::Lookup(m) => m.label(),
            Provider::Fst(m) => m.label(),
        }
    }

    open spec fn family(&self) -> Seq<char> {
        match self {
            Provider::Lookup(m) => m.family(),
            Provider::Fst(m) => m.family(),
        }
    }

    open spec fn answers(
        &self,
        terms: Seq<TermView>,
        params: Seq<QueryParamView>,
        answer: Outcome,
    ) -> bool {
        match self {
            Provider::Lookup(m) => m.answers(terms, params, answer),
            Provider::Fst(m) => m.answers(terms, params, answer),
        }
    }

    fn kind(&self) -> (r: &'static str) {
        match self {
            Provider::Lookup(m) => m.kind(),
            Provider::Fst(m) => m.kind(),
        }
    }

    fn id(&self) -> (r: &str) {
        match self {
            Provider::Lookup(m) => m.id(),
            Provider::Fst(m) => m.id(),
        }
    }

    fn name(&self) -> (r: &str) {
        match self {
            Provider::Lookup(m) => m.name(),
            Provider::Fst(m) => m.name(),
        }
    }

    /// Loads the module that the provider holds, as that module's own
    /// `load` does: a lookup module reads its table, and fails only where no
    /// lexicon was supplied; an fst module builds its set.
    fn load(&mut self) -> (r: Result<(), Error>)
        ensures
            provider_loads(*old(self), *final(self), r),
    {
        match self {
            Provider::Lookup(m) => m.load(),
            Provider::Fst(m) => m.load(),
        }
    }

    fn expand_query(&self, terms: &Vec<Term>, params: &QueryParams) -> (r: Result<
        TermExpansions,
        Error,
    >)
    {
        match self {
            Provider::Lookup(m) => m.expand_query(terms, params),
            Provider::Fst(m) => m.expand_query(terms, params),
        }
    }
}

} // verus!
