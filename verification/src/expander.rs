//! The expander: it asks each module that takes part for its expansions and
//! puts what they answer together, term by term.
//!
//! The expander asks the modules it holds whole itself. The modules over
//! variant models and over word embeddings are asked through the searches
//! that their caller made for the query: after the expander's own modules
//! come the searches of variant models, then those of word embeddings.

use vstd::prelude::*;
use vstd::string::*;
use crate::api::{info_views, ModuleInfo, ModuleInfoView};
use crate::chars::same_text;
use crate::error::{Error, ErrorView};
use crate::expansion::{
    record_views, records_of, ExpansionMap, TermExpansionView, TermExpansions,
};
use crate::lexer::{term_views, Term, TermView};
use crate::config::{
    analiticcl_views, finalfusion_views, source_of, Config, ConfigView, Sources,
};
use crate::modules::analiticcl::{AnaliticclConfigView, AnaliticclModule, VariantSearch};
use crate::modules::finalfusion::{FinalFusionConfigView, FinalFusionModule, NeighbourSearch};
use crate::modules::fst::{fst_load_failure, lexicon_words, FstConfigView, FstModule};
use crate::modules::lookup::{lexicon, LookupConfigView, LookupModule};
use crate::modules::{outcome_of, Module, Outcome, Provider};
use crate::template::{resolve, resolved};
use crate::params::{lookup, slice_texts, QueryParamView, QueryParams};

verus! {

/// The texts of `terms`, as a set.
pub open spec fn term_keys(terms: Seq<TermView>) -> Set<Seq<char>> {
    Set::new(|k: Seq<char>| exists|i: int| 0 <= i < terms.len() && #[trigger] terms[i].text() == k)
}

/// What `acc` becomes when a module's `answer` for `terms` is put into it:
/// each term of `terms` has an entry, which holds what `acc` held for it and
/// then what the module answered for it. The other entries of `acc` stay.
pub open spec fn merged(acc: ExpansionMap, terms: Seq<TermView>, answer: ExpansionMap)
    -> ExpansionMap {
    Map::new(
        |k: Seq<char>| acc.dom().contains(k) || term_keys(terms).contains(k),
        |k: Seq<char>|
            if term_keys(terms).contains(k) {
                records_of(acc, k) + records_of(answer, k)
            } else {
                acc[k]
            },
    )
}

/// Whether the module `id` takes part: it does where the list of excluded
/// modules is empty or does not name it, and also where the list of included
/// modules is empty or names it.
pub open spec fn participates(excluded: Seq<Seq<char>>, included: Seq<Seq<char>>, id: Seq<char>)
    -> bool {
    (excluded.len() == 0 || !excluded.contains(id)) || (included.len() == 0 || included.contains(id))
}

/// The list of module identifiers that the global parameter `key` holds:
/// empty where there is no such parameter.
pub open spec fn module_list(params: Seq<QueryParamView>, key: Seq<char>) -> Seq<Seq<char>> {
    match lookup(params, Seq::empty(), key) {
        Some(v) => v.items(),
        None => Seq::empty(),
    }
}

/// With no module excluded, every module takes part, whatever the list of
/// included modules holds.
pub proof fn lemma_nothing_excluded(included: Seq<Seq<char>>, id: Seq<char>)
    ensures
        participates(Seq::empty(), included, id),
{
}

/// Whether `id` is in `list`.
pub fn names(list: &Vec<&str>, id: &str) -> (r: bool)
    ensures
        r == slice_texts(list@).contains(id@),
{
    let mut i: usize = 0;
    while i < list.len()
        invariant
            i <= list.len(),
            forall|k: int| 0 <= k < i ==> slice_texts(list@)[k] != id@,
        decreases list.len() - i,
    {
        if same_text(list[i], id) {
            proof {
                assert(slice_texts(list@)[i as int] == id@);
            }
            return true;
        }
        i = i + 1;
    }
    false
}

/// Whether the module `id` takes part, given the two lists.
pub fn takes_part(excluded: &Vec<&str>, included: &Vec<&str>, id: &str) -> (r: bool)
    ensures
        r == participates(slice_texts(excluded@), slice_texts(included@), id@),
{
    (excluded.len() == 0 || !names(excluded, id)) || (included.len() == 0 || names(included, id))
}

/// Puts a module's `answer` for `terms` into `acc`.
pub fn merge_into(acc: &mut TermExpansions, terms: &Vec<Term>, answer: TermExpansions)
    requires
        old(acc).wf(),
        answer.wf(),
    ensures
        final(acc).wf(),
        final(acc)@ == merged(old(acc)@, term_views(terms@), answer@),
{
    let mut answer = answer;
    let ghost acc0 = acc@;
    let ghost answer0 = answer@;
    let ghost tv = term_views(terms@);
    let mut i: usize = 0;
    proof {
        assert(term_keys(tv.take(0)) =~= Set::<Seq<char>>::empty());
        assert(acc@ =~= merged(acc0, tv.take(0), answer0));
        assert(answer@ =~= answer0.remove_keys(term_keys(tv.take(0))));
    }
    while i < terms.len()
        invariant
            i <= terms.len(),
            tv == term_views(terms@),
            acc.wf(),
            answer.wf(),
            acc@ == merged(acc0, tv.take(i as int), answer0),
            answer@ == answer0.remove_keys(term_keys(tv.take(i as int))),
        decreases terms.len() - i,
    {
        let key = terms[i].as_str();
        let ghost k = key@;
        let ghost seen = term_keys(tv.take(i as int));
        let ghost acc1 = acc@;
        proof {
            assert(tv[i as int].text() == k);
            assert(tv.take(i + 1)[i as int].text() == k);
            assert forall|q: Seq<char>| term_keys(tv.take(i + 1)).contains(q) <==> (seen.contains(q)
                || q == k) by {
                if term_keys(tv.take(i + 1)).contains(q) {
                    let j = choose|j: int|
                        0 <= j < tv.take(i + 1).len() && #[trigger] tv.take(i + 1)[j].text() == q;
                    if j < i {
                        assert(tv.take(i as int)[j].text() == q);
                    }
                }
                if seen.contains(q) {
                    let j = choose|j: int|
                        0 <= j < tv.take(i as int).len() && #[trigger] tv.take(i as int)[j].text()
                            == q;
                    assert(tv.take(i + 1)[j].text() == q);
                }
            }
        }
        let more = match answer.remove(key) {
            Some(records) => records,
            None => Vec::new(),
        };
        proof {
            assert(record_views(more@) =~= if seen.contains(k) {
                Seq::<TermExpansionView>::empty()
            } else {
                records_of(answer0, k)
            });
        }
        acc.extend(key, more);
        proof {
            assert(acc@ =~= merged(acc0, tv.take(i + 1), answer0)) by {
                assert forall|q: Seq<char>| #[trigger]
                    merged(acc0, tv.take(i + 1), answer0).dom().contains(q) implies acc@[q]
                    == merged(acc0, tv.take(i + 1), answer0)[q] by {
                    if q == k {
                        if seen.contains(k) {
                            assert(records_of(acc1, k) + Seq::<TermExpansionView>::empty()
                                =~= records_of(acc1, k));
                        }
                    }
                }
            }
            assert(answer@ =~= answer0.remove_keys(term_keys(tv.take(i + 1))));
        }
        i = i + 1;
    }
    proof {
        assert(tv.take(i as int) =~= tv);
    }
}

/// Where the expander stands after it has asked some of its modules: what it
/// has put together, and the failure that stopped it, if one did.
pub struct Progress {
    pub map: ExpansionMap,
    pub failure: Option<ErrorView>,
}

/// Where the expander stands after the first `n` of its modules, which have
/// the identifiers `ids` and gave the answers `answers`. A module that does
/// not take part changes nothing. After a failure nothing changes any more.
pub open spec fn progress(
    ids: Seq<Seq<char>>,
    excluded: Seq<Seq<char>>,
    included: Seq<Seq<char>>,
    terms: Seq<TermView>,
    answers: Seq<Outcome>,
    start: ExpansionMap,
    n: nat,
) -> Progress
    decreases n,
{
    if n == 0 {
        Progress { map: start, failure: None }
    } else {
        let before = progress(ids, excluded, included, terms, answers, start, (n - 1) as nat);
        if before.failure.is_some() || !participates(excluded, included, ids[n - 1]) {
            before
        } else {
            match answers[n - 1] {
                Ok(answer) => Progress { map: merged(before.map, terms, answer), failure: None },
                Err(e) => Progress { map: before.map, failure: Some(e) },
            }
        }
    }
}

/// Whether module `i` is asked: it takes part, and no module before it
/// failed.
pub open spec fn asked(
    ids: Seq<Seq<char>>,
    excluded: Seq<Seq<char>>,
    included: Seq<Seq<char>>,
    terms: Seq<TermView>,
    answers: Seq<Outcome>,
    start: ExpansionMap,
    i: int,
) -> bool {
    participates(excluded, included, ids[i]) && progress(
        ids,
        excluded,
        included,
        terms,
        answers,
        start,
        i as nat,
    ).failure.is_none()
}

/// The identifiers of `modules`.
pub open spec fn module_ids<M: Module>(modules: Seq<M>) -> Seq<Seq<char>> {
    Seq::new(modules.len(), |i: int| modules[i].ident())
}

/// Whether `answers` are answers that `modules` may have given to `terms`
/// under `params`, one for each module; that of a module which was not asked
/// is of no account.
pub open spec fn answered<M: Module>(
    modules: Seq<M>,
    terms: Seq<TermView>,
    params: Seq<QueryParamView>,
    answers: Seq<Outcome>,
    start: ExpansionMap,
) -> bool {
    &&& answers.len() == modules.len()
    &&& forall|i: int|
        0 <= i < modules.len() && asked(
            module_ids(modules),
            module_list(params, excluded_key()),
            module_list(params, included_key()),
            terms,
            answers,
            start,
            i,
        ) ==> #[trigger] modules[i].answers(terms, params, answers[i])
}

/// The global parameter that lists the modules to leave out.
pub open spec fn excluded_key() -> Seq<char> {
    "excludemods"@
}

/// The global parameter that lists the modules to take in.
pub open spec fn included_key() -> Seq<char> {
    "includemods"@
}

/// Where the expander stands after all of `modules` gave `answers`.
pub open spec fn expansion<M: Module>(
    modules: Seq<M>,
    terms: Seq<TermView>,
    params: Seq<QueryParamView>,
    answers: Seq<Outcome>,
    start: ExpansionMap,
) -> Progress {
    progress(
        module_ids(modules),
        module_list(params, excluded_key()),
        module_list(params, included_key()),
        terms,
        answers,
        start,
        modules.len(),
    )
}

/// Whether the module `id` takes part in a query with the parameters
/// `params`: the global parameters `excludemods` and `includemods` decide.
pub fn asks(params: &QueryParams, id: &str) -> (r: bool)
    ensures
        r == participates(
            module_list(params@, excluded_key()),
            module_list(params@, included_key()),
            id@,
        ),
{
    proof {
        reveal_strlit("");
        assert(""@ =~= Seq::<char>::empty());
    }
    let excluded: Vec<&str> = match params.get("", "excludemods") {
        Some(mods) => mods.as_str_array(),
        None => Vec::new(),
    };
    let included: Vec<&str> = match params.get("", "includemods") {
        Some(mods) => mods.as_str_array(),
        None => Vec::new(),
    };
    proof {
        assert(slice_texts(excluded@) =~= module_list(params@, excluded_key()));
        assert(slice_texts(included@) =~= module_list(params@, included_key()));
    }
    takes_part(&excluded, &included, id)
}

/// Whether `gathered` holds for each of the first modules what it gave: the
/// answer that `answers` hold for it where it took part, and nothing where
/// it took none.
pub open spec fn gathered_from(
    gathered: Seq<Option<TermExpansions>>,
    ids: Seq<Seq<char>>,
    excluded: Seq<Seq<char>>,
    included: Seq<Seq<char>>,
    answers: Seq<Outcome>,
) -> bool {
    &&& gathered.len() <= answers.len()
    &&& gathered.len() <= ids.len()
    &&& forall|j: int|
        0 <= j < gathered.len() ==> match #[trigger] gathered[j] {
            Some(found) => participates(excluded, included, ids[j]) && found.wf() && answers[j]
                == Ok::<ExpansionMap, ErrorView>(found@),
            None => !participates(excluded, included, ids[j]),
        }
}

/// Asks each of `modules` that takes part and, where none of them fails,
/// puts the answers into `terms_map`, in the order of the modules. The
/// first failure of a module ends the work and is returned; `terms_map` is
/// then left as it was, and what the modules before it answered is
/// dropped.
pub fn ask_all<M: Module>(
    modules: &Vec<M>,
    terms_map: &mut TermExpansions,
    terms: &Vec<Term>,
    params: &QueryParams,
) -> (r: Result<(), Error>)
    requires
        forall|i: int| 0 <= i < modules@.len() ==> (#[trigger] modules@[i]).loaded(),
        old(terms_map).wf(),
    ensures
        final(terms_map).wf(),
        r is Err ==> final(terms_map)@ == old(terms_map)@,
        exists|answers: Seq<Outcome>|
            {
                &&& answered(
                    modules@,
                    term_views(terms@),
                    params@,
                    answers,
                    old(terms_map)@,
                )
                &&& ran(
                    #[trigger] expansion(
                        modules@,
                        term_views(terms@),
                        params@,
                        answers,
                        old(terms_map)@,
                    ),
                    old(terms_map)@,
                    final(terms_map)@,
                    r,
                )
            },
{
    proof {
        reveal_strlit("");
        assert(""@ =~= Seq::<char>::empty());
    }
    let excluded: Vec<&str> = match params.get("", "excludemods") {
        Some(mods) => mods.as_str_array(),
        None => Vec::new(),
    };
    let included: Vec<&str> = match params.get("", "includemods") {
        Some(mods) => mods.as_str_array(),
        None => Vec::new(),
    };
    let ghost ids = module_ids(modules@);
    let ghost ex = module_list(params@, excluded_key());
    let ghost inc = module_list(params@, included_key());
    let ghost tv = term_views(terms@);
    let ghost start = terms_map@;
    let ghost mut answers: Seq<Outcome> = Seq::empty();
    proof {
        assert(slice_texts(excluded@) =~= ex);
        assert(slice_texts(included@) =~= inc);
    }
    let mut gathered: Vec<Option<TermExpansions>> = Vec::new();
    let mut i: usize = 0;
    while i < modules.len()
        invariant
            i <= modules.len(),
            forall|j: int| 0 <= j < modules@.len() ==> (#[trigger] modules@[j]).loaded(),
            ids == module_ids(modules@),
            tv == term_views(terms@),
            ex == module_list(params@, excluded_key()),
            inc == module_list(params@, included_key()),
            slice_texts(excluded@) == ex,
            slice_texts(included@) == inc,
            terms_map.wf(),
            terms_map@ == start,
            answers.len() == i,
            gathered@.len() == i,
            gathered_from(gathered@, ids, ex, inc, answers),
            forall|j: int|
                0 <= j < i && asked(ids, ex, inc, tv, answers, start, j)
                    ==> #[trigger] modules@[j].answers(tv, params@, answers[j]),
            progress(ids, ex, inc, tv, answers, start, i as nat).failure.is_none(),
        decreases modules.len() - i,
    {
        let module = &modules[i];
        let ghost before = answers;
        let ghost had = gathered@;
        if takes_part(&excluded, &included, module.id()) {
            let answer = module.expand_query(terms, params);
            proof {
                answers = answers.push(outcome_of(answer));
                lemma_progress_prefix(ids, ex, inc, tv, before, answers, start, i as nat);
                assert forall|j: int|
                    0 <= j < i + 1 && asked(
                        ids,
                        ex,
                        inc,
                        tv,
                        answers,
                        start,
                        j,
                    ) implies #[trigger] modules@[j].answers(tv, params@, answers[j]) by {
                    lemma_progress_prefix(ids, ex, inc, tv, before, answers, start, j as nat);
                }
            }
            match answer {
                Ok(found) => {
                    gathered.push(Some(found));
                    proof {
                        assert forall|j: int| 0 <= j < gathered@.len() implies match #[trigger] gathered@[j] {
                            Some(f) => participates(ex, inc, ids[j]) && f.wf() && answers[j] == Ok::<
                                ExpansionMap,
                                ErrorView,
                            >(f@),
                            None => !participates(ex, inc, ids[j]),
                        } by {
                            if j < i {
                                assert(gathered@[j] == had[j]);
                                assert(answers[j] == before[j]);
                            }
                        }
                    }
                },
                Err(e) => {
                    proof {
                        let full = answers + Seq::new(
                            (modules@.len() - (i + 1)) as nat,
                            |j: int| Err(e@),
                        );
                        lemma_progress_prefix(ids, ex, inc, tv, answers, full, start, (i + 1) as nat);
                        lemma_progress_failed(
                            ids,
                            ex,
                            inc,
                            tv,
                            full,
                            start,
                            (i + 1) as nat,
                            modules@.len(),
                        );
                        assert forall|j: int|
                            0 <= j < modules@.len() && asked(
                                ids,
                                ex,
                                inc,
                                tv,
                                full,
                                start,
                                j,
                            ) implies #[trigger] modules@[j].answers(
                            tv,
                            params@,
                            full[j],
                        ) by {
                            if j <= i {
                                lemma_progress_prefix(
                                    ids,
                                    ex,
                                    inc,
                                    tv,
                                    answers,
                                    full,
                                    start,
                                    j as nat,
                                );
                                assert(full[j] == answers[j]);
                            } else {
                                lemma_progress_failed(
                                    ids,
                                    ex,
                                    inc,
                                    tv,
                                    full,
                                    start,
                                    (i + 1) as nat,
                                    j as nat,
                                );
                            }
                        }
                        assert(answered(modules@, tv, params@, full, start));
                        assert(ran(
                            expansion(modules@, tv, params@, full, start),
                            start,
                            terms_map@,
                            Err(e),
                        ));
                    }
                    return Err(e);
                },
            }
        } else {
            gathered.push(None);
            proof {
                answers = answers.push(Ok(ExpansionMap::empty()));
                lemma_progress_prefix(ids, ex, inc, tv, before, answers, start, i as nat);
                assert forall|j: int|
                    0 <= j < i + 1 && asked(
                        ids,
                        ex,
                        inc,
                        tv,
                        answers,
                        start,
                        j,
                    ) implies #[trigger] modules@[j].answers(tv, params@, answers[j]) by {
                    lemma_progress_prefix(ids, ex, inc, tv, before, answers, start, j as nat);
                }
                assert forall|j: int| 0 <= j < gathered@.len() implies match #[trigger] gathered@[j] {
                    Some(f) => participates(ex, inc, ids[j]) && f.wf() && answers[j] == Ok::<
                        ExpansionMap,
                        ErrorView,
                    >(f@),
                    None => !participates(ex, inc, ids[j]),
                } by {
                    if j < i {
                        assert(gathered@[j] == had[j]);
                        assert(answers[j] == before[j]);
                    }
                }
            }
        }
        i = i + 1;
    }
    let ghost all = gathered@;
    let mut k: usize = 0;
    proof {
        assert(all.skip(0) =~= all);
    }
    while k < modules.len()
        invariant
            k <= modules.len(),
            ids == module_ids(modules@),
            tv == term_views(terms@),
            answers.len() == modules@.len(),
            all.len() == modules@.len(),
            gathered_from(all, ids, ex, inc, answers),
            gathered@ == all.skip(k as int),
            terms_map.wf(),
            progress(ids, ex, inc, tv, answers, start, k as nat) == (Progress {
                map: terms_map@,
                failure: None,
            }),
        decreases modules.len() - k,
    {
        proof {
            assert(gathered@[0] == all[k as int]);
            assert(all.skip(k as int).remove(0) =~= all.skip(k + 1));
        }
        match gathered.remove(0) {
            Some(found) => {
                merge_into(terms_map, terms, found);
            },
            None => {},
        }
        k = k + 1;
    }
    proof {
        assert(answered(modules@, tv, params@, answers, start));
        assert(ran(
            expansion(modules@, tv, params@, answers, start),
            start,
            terms_map@,
            Ok(()),
        ));
    }
    Ok(())
}

/// The expander: a list of modules, asked in order.
pub struct QueryExpander<M: Module> {
    config: Config,
    modules: Vec<M>,
    analiticcl: Vec<AnaliticclModule>,
    finalfusion: Vec<FinalFusionModule>,
    initialised: bool,
}

/// The configurations of a sequence of modules over variant models.
pub open spec fn analiticcl_settings(v: Seq<AnaliticclModule>) -> Seq<AnaliticclConfigView> {
    Seq::new(v.len(), |i: int| v[i].settings())
}

/// The configurations of a sequence of modules over word embeddings.
pub open spec fn finalfusion_settings(v: Seq<FinalFusionModule>) -> Seq<FinalFusionConfigView> {
    Seq::new(v.len(), |i: int| v[i].settings())
}

/// The modules `modules` as they are listed.
pub open spec fn listed<M: Module>(modules: Seq<M>) -> Seq<ModuleInfoView> {
    Seq::new(
        modules.len(),
        |i: int|
            ModuleInfoView {
                id: modules[i].ident(),
                name: modules[i].label(),
                kind: modules[i].family(),
            },
    )
}

/// Modules over variant models as they are listed.
pub open spec fn listed_variant_models(v: Seq<AnaliticclConfigView>) -> Seq<ModuleInfoView> {
    Seq::new(
        v.len(),
        |i: int| ModuleInfoView { id: v[i].id, name: v[i].name, kind: "analiticcl"@ },
    )
}

/// Modules over word embeddings as they are listed.
pub open spec fn listed_embeddings(v: Seq<FinalFusionConfigView>) -> Seq<ModuleInfoView> {
    Seq::new(
        v.len(),
        |i: int| ModuleInfoView { id: v[i].id, name: v[i].name, kind: "finalfusion"@ },
    )
}

/// Whether `p` is the lookup module of `cfg`, loaded from the text that
/// `sources` hold for its file.
pub open spec fn is_lookup_of(
    p: Provider,
    cfg: LookupConfigView,
    sources: Seq<(Seq<char>, Seq<char>)>,
) -> bool {
    &&& p matches Provider::Lookup(m)
    &&& m.settings() == cfg
    &&& m.is_ready()
    &&& source_of(sources, cfg.file) matches Some(text)
    &&& m.table() == lexicon(text, cfg)
}

/// Whether `p` is the fst module of `cfg`, loaded from the text that
/// `sources` hold for its file.
pub open spec fn is_fst_of(
    p: Provider,
    cfg: FstConfigView,
    sources: Seq<(Seq<char>, Seq<char>)>,
) -> bool {
    &&& p matches Provider::Fst(m)
    &&& m.settings() == cfg
    &&& m.is_ready()
    &&& source_of(sources, cfg.file) matches Some(text)
    &&& m.words() == lexicon_words(text, cfg.skipfirstline).to_set()
}

/// The failure of a file of which no text was supplied.
pub open spec fn missing(path: Seq<char>) -> ErrorView {
    ErrorView::LoadError(path + ": no text was supplied"@)
}

/// The failure of a module for which no model was supplied.
pub open spec fn no_model(id: Seq<char>) -> ErrorView {
    ErrorView::LoadError(id + ": no model was supplied"@)
}

/// The failure of the load of the lookup module `cfg`, or `None` where it
/// loads: it fails where no text was supplied for its file.
pub open spec fn lookup_failure(cfg: LookupConfigView, sources: Seq<(Seq<char>, Seq<char>)>)
    -> Option<ErrorView> {
    if source_of(sources, cfg.file).is_none() {
        Some(missing(cfg.file))
    } else {
        None
    }
}

/// The failure of the load of the fst module `cfg`, or `None` where it
/// loads: it fails where no text was supplied for its file, and where its
/// words are said to be in order and are not.
pub open spec fn fst_failure(cfg: FstConfigView, sources: Seq<(Seq<char>, Seq<char>)>) -> Option<
    ErrorView,
> {
    match source_of(sources, cfg.file) {
        None => Some(missing(cfg.file)),
        Some(text) => fst_load_failure(cfg, Some(text)),
    }
}

/// The failure of the module `id`, which is the one at `i` among those of
/// its type, where `supplied` models were supplied for them: it fails where
/// none is left for it.
pub open spec fn model_failure(id: Seq<char>, i: int, supplied: nat) -> Option<ErrorView> {
    if i < supplied {
        None
    } else {
        Some(no_model(id))
    }
}

/// For each module of `cfg` the failure of its load, or `None` where it
/// loads, in the order in which the modules are loaded: the lookup modules,
/// the fst modules, the modules over variant models, of which `models` were
/// supplied, and the modules over word embeddings, of which `embeddings`
/// were supplied.
pub open spec fn load_failures(
    cfg: ConfigView,
    sources: Seq<(Seq<char>, Seq<char>)>,
    models: nat,
    embeddings: nat,
) -> Seq<Option<ErrorView>> {
    Seq::new(cfg.lookup.len(), |i: int| lookup_failure(cfg.lookup[i], sources)) + Seq::new(
        cfg.fst.len(),
        |i: int| fst_failure(cfg.fst[i], sources),
    ) + Seq::new(cfg.analiticcl.len(), |i: int| model_failure(cfg.analiticcl[i].id, i, models))
        + Seq::new(
        cfg.finalfusion.len(),
        |i: int| model_failure(cfg.finalfusion[i].id, i, embeddings),
    )
}

/// The first failure among the first `n` of `failures`.
pub open spec fn first_failure(failures: Seq<Option<ErrorView>>, n: nat) -> Option<ErrorView>
    decreases n,
{
    if n == 0 {
        None
    } else {
        match first_failure(failures, (n - 1) as nat) {
            Some(e) => Some(e),
            None => failures[n - 1],
        }
    }
}

/// The failure of the load of an expander with the configuration `cfg`:
/// that of the first of its modules that fails, or `None` where all of them
/// load.
pub open spec fn load_failure(
    cfg: ConfigView,
    sources: Seq<(Seq<char>, Seq<char>)>,
    models: nat,
    embeddings: nat,
) -> Option<ErrorView> {
    first_failure(
        load_failures(cfg, sources, models, embeddings),
        load_failures(cfg, sources, models, embeddings).len(),
    )
}

/// After the first failure no later one counts.
pub proof fn lemma_first_failure_stays(failures: Seq<Option<ErrorView>>, n: nat, m: nat)
    requires
        n <= m,
        first_failure(failures, n).is_some(),
    ensures
        first_failure(failures, m) == first_failure(failures, n),
    decreases m,
{
    if m > n {
        lemma_first_failure_stays(failures, n, (m - 1) as nat);
    }
}

impl<M: Module> QueryExpander<M> {
    /// The modules, in the order in which they are asked.
    pub closed spec fn providers(&self) -> Seq<M> {
        self.modules@
    }

    /// Whether `load` has been called.
    pub closed spec fn is_loaded(&self) -> bool {
        self.initialised
    }

    /// Every module is loaded, and each module over a variant model or over
    /// word embeddings holds its model.
    pub closed spec fn wf(&self) -> bool {
        &&& forall|i: int| 0 <= i < self.modules@.len() ==> (#[trigger] self.modules@[i]).loaded()
        &&& forall|i: int|
            0 <= i < self.analiticcl@.len() ==> (#[trigger] self.analiticcl@[i]).is_ready()
        &&& forall|i: int|
            0 <= i < self.finalfusion@.len() ==> (#[trigger] self.finalfusion@[i]).is_ready()
    }

    /// The configuration.
    pub closed spec fn settings(&self) -> ConfigView {
        self.config@
    }

    /// The modules over variant models.
    pub closed spec fn variant_modules(&self) -> Seq<AnaliticclModule> {
        self.analiticcl@
    }

    /// The modules over word embeddings.
    pub closed spec fn embedding_modules(&self) -> Seq<FinalFusionModule> {
        self.finalfusion@
    }

    /// The configurations of the modules over variant models.
    pub open spec fn variant_models(&self) -> Seq<AnaliticclConfigView> {
        analiticcl_settings(self.variant_modules())
    }

    /// The configurations of the modules over word embeddings.
    pub open spec fn embeddings(&self) -> Seq<FinalFusionConfigView> {
        finalfusion_settings(self.embedding_modules())
    }

    /// An expander without modules and with an empty configuration, not
    /// loaded yet.
    pub fn new() -> (r: Self)
        ensures
            r.wf(),
            !r.is_loaded(),
            r.providers().len() == 0,
            r.settings() == ConfigView::empty(),
            r.variant_models().len() == 0,
            r.embeddings().len() == 0,
    {
        QueryExpander {
            config: Config::new(),
            modules: Vec::new(),
            analiticcl: Vec::new(),
            finalfusion: Vec::new(),
            initialised: false,
        }
    }

    /// The same with `config` as its configuration.
    pub fn with_config(self, config: Config) -> (r: Self)
        ensures
            r.wf() == self.wf(),
            r.is_loaded() == self.is_loaded(),
            r.providers() == self.providers(),
            r.variant_models() == self.variant_models(),
            r.embeddings() == self.embeddings(),
            r.settings() == config@,
    {
        let mut r = self;
        r.config = config;
        proof {
            assert(r.modules@ == self.modules@);
            assert(r.analiticcl@ == self.analiticcl@);
            assert(r.finalfusion@ == self.finalfusion@);
        }
        r
    }

    /// The modules over variant models, in the order of the configuration.
    /// Empty before `load`.
    pub fn analiticcl_modules(&self) -> (r: &Vec<AnaliticclModule>)
        ensures
            r@ == self.variant_modules(),
            self.wf() ==> forall|i: int| 0 <= i < r@.len() ==> (#[trigger] r@[i]).is_ready(),
    {
        &self.analiticcl
    }

    /// The modules over word embeddings, in the order of the configuration.
    /// Empty before `load`.
    pub fn finalfusion_modules(&self) -> (r: &Vec<FinalFusionModule>)
        ensures
            r@ == self.embedding_modules(),
            self.wf() ==> forall|i: int| 0 <= i < r@.len() ==> (#[trigger] r@[i]).is_ready(),
    {
        &self.finalfusion
    }

    /// The identifier, the name and the type of each module: first of those
    /// that the expander asks itself, then of those over variant models,
    /// then of those over word embeddings.
    pub fn list_modules(&self) -> (r: Vec<ModuleInfo>)
        ensures
            info_views(r@) == listed(self.providers()) + listed_variant_models(
                self.variant_models(),
            ) + listed_embeddings(self.embeddings()),
    {
        let mut out: Vec<ModuleInfo> = Vec::new();
        let ghost first = listed(self.modules@);
        let ghost second = listed_variant_models(analiticcl_settings(self.analiticcl@));
        let ghost third = listed_embeddings(finalfusion_settings(self.finalfusion@));
        let mut i: usize = 0;
        proof {
            assert(info_views(out@) =~= first.take(0));
        }
        while i < self.modules.len()
            invariant
                i <= self.modules.len(),
                first == listed(self.modules@),
                out@.len() == i,
                info_views(out@) == first.take(i as int),
            decreases self.modules.len() - i,
        {
            let m = &self.modules[i];
            let ghost before = info_views(out@);
            out.push(ModuleInfo::new(m.id(), m.name(), m.kind()));
            proof {
                assert(info_views(out@) =~= before.push(first[i as int]));
                assert(first.take(i + 1) =~= first.take(i as int).push(first[i as int]));
            }
            i = i + 1;
        }
        proof {
            assert(first.take(i as int) =~= first);
            assert(info_views(out@) =~= first + second.take(0));
        }
        let mut j: usize = 0;
        while j < self.analiticcl.len()
            invariant
                j <= self.analiticcl.len(),
                second == listed_variant_models(analiticcl_settings(self.analiticcl@)),
                out@.len() == first.len() + j,
                info_views(out@) == first + second.take(j as int),
            decreases self.analiticcl.len() - j,
        {
            let m = &self.analiticcl[j];
            let ghost before = info_views(out@);
            out.push(ModuleInfo::new(m.id(), m.name(), m.kind()));
            proof {
                assert(info_views(out@) =~= before.push(second[j as int]));
                assert(second.take(j + 1) =~= second.take(j as int).push(second[j as int]));
                assert((first + second.take(j as int)).push(second[j as int]) =~= first
                    + second.take(j + 1));
            }
            j = j + 1;
        }
        proof {
            assert(second.take(j as int) =~= second);
            assert(info_views(out@) =~= first + second + third.take(0));
        }
        let mut k: usize = 0;
        while k < self.finalfusion.len()
            invariant
                k <= self.finalfusion.len(),
                third == listed_embeddings(finalfusion_settings(self.finalfusion@)),
                out@.len() == first.len() + second.len() + k,
                info_views(out@) == first + second + third.take(k as int),
            decreases self.finalfusion.len() - k,
        {
            let m = &self.finalfusion[k];
            let ghost before = info_views(out@);
            out.push(ModuleInfo::new(m.id(), m.name(), m.kind()));
            proof {
                assert(info_views(out@) =~= before.push(third[k as int]));
                assert(third.take(k + 1) =~= third.take(k as int).push(third[k as int]));
                assert((first + second + third.take(k as int)).push(third[k as int]) =~= first
                    + second + third.take(k + 1));
            }
            k = k + 1;
        }
        proof {
            assert(third.take(k as int) =~= third);
        }
        out
    }

    /// The template with each slot replaced by the disjunction of the
    /// expansions that `terms_map` holds for its term. Never fails.
    pub fn resolve_query_template(&self, query_template: &str, terms_map: &TermExpansions) -> (r:
        Result<String, Error>)
        requires
            terms_map.wf(),
        ensures
            r matches Ok(query) && query@ == resolved(query_template@, terms_map@),
    {
        Ok(resolve(query_template, terms_map))
    }

    /// Whether `load` has been called.
    pub fn loaded(&self) -> (r: bool)
        ensures
            r == self.is_loaded(),
    {
        self.initialised
    }

    /// Adds a module that has been loaded. Only before `load`.
    pub fn add_module(&mut self, module: M)
        requires
            old(self).wf(),
            !old(self).is_loaded(),
            module.loaded(),
        ensures
            final(self).wf(),
            !final(self).is_loaded(),
            final(self).providers() == old(self).providers().push(module),
            final(self).settings() == old(self).settings(),
            final(self).variant_models() == old(self).variant_models(),
            final(self).embeddings() == old(self).embeddings(),
    {
        self.modules.push(module);
    }

    /// The same with one more module. Only before `load`.
    pub fn with_module(self, module: M) -> (r: Self)
        requires
            self.wf(),
            !self.is_loaded(),
            module.loaded(),
        ensures
            r.wf(),
            !r.is_loaded(),
            r.providers() == self.providers().push(module),
            r.settings() == self.settings(),
            r.variant_models() == self.variant_models(),
            r.embeddings() == self.embeddings(),
    {
        let mut r = self;
        r.add_module(module);
        r
    }

    /// The modules, in the order in which they are asked.
    pub fn modules(&self) -> (r: &Vec<M>)
        ensures
            r@ == self.providers(),
    {
        &self.modules
    }

    /// Asks each module that takes part and, where none of them fails, puts
    /// the answers into `terms_map`, in the order of the modules. The first
    /// failure of a module ends the work and is returned; `terms_map` is
    /// then left as it was, and what the modules before it answered is
    /// dropped.
    pub fn expand_query_into(
        &self,
        terms_map: &mut TermExpansions,
        terms: &Vec<Term>,
        params: &QueryParams,
    ) -> (r: Result<(), Error>)
        requires
            self.wf(),
            self.is_loaded(),
            old(terms_map).wf(),
        ensures
            final(terms_map).wf(),
            r is Err ==> final(terms_map)@ == old(terms_map)@,
            exists|answers: Seq<Outcome>|
                {
                    &&& answered(
                        self.providers(),
                        term_views(terms@),
                        params@,
                        answers,
                        old(terms_map)@,
                    )
                    &&& ran(
                        #[trigger] expansion(
                            self.providers(),
                            term_views(terms@),
                            params@,
                            answers,
                            old(terms_map)@,
                        ),
                        old(terms_map)@,
                        final(terms_map)@,
                        r,
                    )
                },
    {
        let r = ask_all(&self.modules, terms_map, terms, params);
        proof {
            let tv = term_views(terms@);
            let start = old(terms_map)@;
            let answers = choose|answers: Seq<Outcome>|
                answered(self.modules@, tv, params@, answers, start) && ran(
                    #[trigger] expansion(self.modules@, tv, params@, answers, start),
                    start,
                    terms_map@,
                    r,
                );
            assert(answered(self.providers(), tv, params@, answers, start));
            assert(ran(
                expansion(self.providers(), tv, params@, answers, start),
                start,
                terms_map@,
                r,
            ));
        }
        r
    }

    /// Asks each module that takes part and returns what their answers make
    /// together, or the first failure of a module.
    pub fn expand_query(&self, terms: &Vec<Term>, params: &QueryParams) -> (r: Result<
        TermExpansions,
        Error,
    >)
        requires
            self.wf(),
            self.is_loaded(),
        ensures
            r matches Ok(m) ==> m.wf(),
            exists|answers: Seq<Outcome>|
                {
                    &&& answered(
                        self.providers(),
                        term_views(terms@),
                        params@,
                        answers,
                        ExpansionMap::empty(),
                    )
                    &&& returned(
                        #[trigger] expansion(
                            self.providers(),
                            term_views(terms@),
                            params@,
                            answers,
                            ExpansionMap::empty(),
                        ),
                        outcome_of(r),
                    )
                },
    {
        let mut terms_map = TermExpansions::new();
        match self.expand_query_into(&mut terms_map, terms, params) {
            Ok(()) => Ok(terms_map),
            Err(e) => Err(e),
        }
    }

    /// Asks the expander's own modules, then the searches of variant models,
    /// then the searches of word embeddings, each group in its order and
    /// each module only where it takes part, and returns what their answers
    /// make together. The first failure ends the work and is returned.
    pub fn expand_all(
        &self,
        terms: &Vec<Term>,
        params: &QueryParams,
        searches: &Vec<VariantSearch>,
        neighbours: &Vec<NeighbourSearch>,
    ) -> (r: Result<TermExpansions, Error>)
        requires
            self.wf(),
            self.is_loaded(),
            forall|i: int| 0 <= i < searches@.len() ==> (#[trigger] searches@[i]).loaded(),
            forall|i: int| 0 <= i < neighbours@.len() ==> (#[trigger] neighbours@[i]).loaded(),
        ensures
            r matches Ok(m) ==> m.wf(),
            exists|a: Seq<Outcome>, b: Seq<Outcome>, c: Seq<Outcome>|
                {
                    &&& all_answered(
                        self.providers(),
                        searches@,
                        neighbours@,
                        term_views(terms@),
                        params@,
                        a,
                        b,
                        c,
                    )
                    &&& returned(
                        #[trigger] expansion_of_all(
                            self.providers(),
                            searches@,
                            neighbours@,
                            term_views(terms@),
                            params@,
                            a,
                            b,
                            c,
                        ),
                        outcome_of(r),
                    )
                },
    {
        let ghost tv = term_views(terms@);
        let ghost none: Seq<Outcome> = Seq::empty();
        let mut terms_map = TermExpansions::new();
        let first = self.expand_query_into(&mut terms_map, terms, params);
        let ghost a = choose|a: Seq<Outcome>|
            answered(self.providers(), tv, params@, a, ExpansionMap::empty()) && ran(
                #[trigger] expansion(self.providers(), tv, params@, a, ExpansionMap::empty()),
                ExpansionMap::empty(),
                terms_map@,
                first,
            );
        let ghost one = terms_map@;
        match first {
            Ok(()) => {},
            Err(e) => {
                proof {
                    let r = Err::<TermExpansions, Error>(e);
                    assert(all_answered(
                        self.providers(),
                        searches@,
                        neighbours@,
                        tv,
                        params@,
                        a,
                        none,
                        none,
                    ));
                    assert(returned(
                        expansion_of_all(
                            self.providers(),
                            searches@,
                            neighbours@,
                            tv,
                            params@,
                            a,
                            none,
                            none,
                        ),
                        outcome_of(r),
                    ));
                }
                return Err(e);
            },
        }
        let second = ask_all(searches, &mut terms_map, terms, params);
        let ghost b = choose|b: Seq<Outcome>|
            answered(searches@, tv, params@, b, one) && ran(
                #[trigger] expansion(searches@, tv, params@, b, one),
                one,
                terms_map@,
                second,
            );
        let ghost two = terms_map@;
        match second {
            Ok(()) => {},
            Err(e) => {
                proof {
                    let r = Err::<TermExpansions, Error>(e);
                    assert(all_answered(
                        self.providers(),
                        searches@,
                        neighbours@,
                        tv,
                        params@,
                        a,
                        b,
                        none,
                    ));
                    assert(returned(
                        expansion_of_all(
                            self.providers(),
                            searches@,
                            neighbours@,
                            tv,
                            params@,
                            a,
                            b,
                            none,
                        ),
                        outcome_of(r),
                    ));
                }
                return Err(e);
            },
        }
        let third = ask_all(neighbours, &mut terms_map, terms, params);
        let ghost c = choose|c: Seq<Outcome>|
            answered(neighbours@, tv, params@, c, two) && ran(
                #[trigger] expansion(neighbours@, tv, params@, c, two),
                two,
                terms_map@,
                third,
            );
        proof {
            assert(all_answered(
                self.providers(),
                searches@,
                neighbours@,
                tv,
                params@,
                a,
                b,
                c,
            ));
        }
        match third {
            Ok(()) => {
                proof {
                    assert(returned(
                        expansion_of_all(
                            self.providers(),
                            searches@,
                            neighbours@,
                            tv,
                            params@,
                            a,
                            b,
                            c,
                        ),
                        outcome_of(Ok::<TermExpansions, Error>(terms_map)),
                    ));
                }
                Ok(terms_map)
            },
            Err(e) => {
                proof {
                    assert(returned(
                        expansion_of_all(
                            self.providers(),
                            searches@,
                            neighbours@,
                            tv,
                            params@,
                            a,
                            b,
                            c,
                        ),
                        outcome_of(Err::<TermExpansions, Error>(e)),
                    ));
                }
                Err(e)
            },
        }
    }
}

/// Where the expander stands after it went on from `before` and `modules`
/// gave `answers`: after a failure it stays where it was.
pub open spec fn continued<M: Module>(
    before: Progress,
    modules: Seq<M>,
    terms: Seq<TermView>,
    params: Seq<QueryParamView>,
    answers: Seq<Outcome>,
) -> Progress {
    if before.failure.is_some() {
        before
    } else {
        expansion(modules, terms, params, answers, before.map)
    }
}

/// Where the expander stands after three groups of modules, asked one
/// group after the other, gave the answers `a`, `b` and `c`.
pub open spec fn expansion_of_all<A: Module, B: Module, C: Module>(
    first: Seq<A>,
    second: Seq<B>,
    third: Seq<C>,
    terms: Seq<TermView>,
    params: Seq<QueryParamView>,
    a: Seq<Outcome>,
    b: Seq<Outcome>,
    c: Seq<Outcome>,
) -> Progress {
    continued(
        continued(
            expansion(first, terms, params, a, ExpansionMap::empty()),
            second,
            terms,
            params,
            b,
        ),
        third,
        terms,
        params,
        c,
    )
}

/// Whether `a`, `b` and `c` are answers that three groups of modules, asked
/// one group after the other, may have given; those of a group that was not
/// reached are of no account.
pub open spec fn all_answered<A: Module, B: Module, C: Module>(
    first: Seq<A>,
    second: Seq<B>,
    third: Seq<C>,
    terms: Seq<TermView>,
    params: Seq<QueryParamView>,
    a: Seq<Outcome>,
    b: Seq<Outcome>,
    c: Seq<Outcome>,
) -> bool {
    let one = expansion(first, terms, params, a, ExpansionMap::empty());
    let two = continued(one, second, terms, params, b);
    &&& answered(first, terms, params, a, ExpansionMap::empty())
    &&& one.failure.is_none() ==> answered(second, terms, params, b, one.map)
    &&& two.failure.is_none() ==> answered(third, terms, params, c, two.map)
}

/// Whether `map` and `r` are what `expand_query_into` leaves and returns
/// when the expander began with the map `start` and ends at `end`: without
/// a failure the map is what was put together; after a failure it is left
/// as it was, and what was put together is dropped.
pub open spec fn ran(end: Progress, start: ExpansionMap, map: ExpansionMap, r: Result<(), Error>)
    -> bool {
    match r {
        Ok(()) => end.failure.is_none() && map == end.map,
        Err(e) => end.failure == Some(e@) && map == start,
    }
}

/// Whether `r` is what `expand_query` returns when the expander ends at
/// `end`.
pub open spec fn returned(end: Progress, r: Outcome) -> bool {
    match r {
        Ok(m) => end.failure.is_none() && m == end.map,
        Err(e) => end.failure == Some(e),
    }
}

/// Where the expander stands after `n` modules depends on the answers of
/// these `n` alone.
pub proof fn lemma_progress_prefix(
    ids: Seq<Seq<char>>,
    excluded: Seq<Seq<char>>,
    included: Seq<Seq<char>>,
    terms: Seq<TermView>,
    a: Seq<Outcome>,
    b: Seq<Outcome>,
    start: ExpansionMap,
    n: nat,
)
    requires
        n <= a.len(),
        n <= b.len(),
        forall|i: int| 0 <= i < n ==> a[i] == b[i],
    ensures
        progress(ids, excluded, included, terms, a, start, n) == progress(
            ids,
            excluded,
            included,
            terms,
            b,
            start,
            n,
        ),
    decreases n,
{
    if n > 0 {
        lemma_progress_prefix(ids, excluded, included, terms, a, b, start, (n - 1) as nat);
    }
}

/// After a failure the expander stays where it is.
pub proof fn lemma_progress_failed(
    ids: Seq<Seq<char>>,
    excluded: Seq<Seq<char>>,
    included: Seq<Seq<char>>,
    terms: Seq<TermView>,
    answers: Seq<Outcome>,
    start: ExpansionMap,
    n: nat,
    m: nat,
)
    requires
        n <= m,
        progress(ids, excluded, included, terms, answers, start, n).failure.is_some(),
    ensures
        progress(ids, excluded, included, terms, answers, start, m) == progress(
            ids,
            excluded,
            included,
            terms,
            answers,
            start,
            n,
        ),
    decreases m,
{
    if m > n {
        lemma_progress_failed(ids, excluded, included, terms, answers, start, n, (m - 1) as nat);
    }
}

impl<M: Module> Default for QueryExpander<M> {
    fn default() -> (r: Self)
        ensures
            r.wf(),
            !r.is_loaded(),
            r.providers().len() == 0,
            r.settings() == ConfigView::empty(),
    {
        QueryExpander::new()
    }
}

impl QueryExpander<Provider> {
    /// Makes the modules of the configuration and loads them, in the order
    /// of the configuration: the lookup modules and then the fst modules,
    /// each from the text that `sources` hold for its file; they come after
    /// the modules that were added. The modules over variant models and
    /// over word embeddings get the models and embeddings of `sources`, in
    /// their order. The configuration is used up. To be called once.
    ///
    /// Fails with the failure of the first module that does not load: no
    /// text was supplied for its file, the words of an fst module are said
    /// to be in order and are not, or no model is left for it. The expander
    /// is then not loaded. It succeeds where every module loads.
    pub fn load(&mut self, sources: Sources) -> (r: Result<(), Error>)
        requires
            old(self).wf(),
            !old(self).is_loaded(),
        ensures
            final(self).wf(),
            final(self).settings() == ConfigView::empty(),
            final(self).providers().len() >= old(self).providers().len(),
            forall|i: int|
                0 <= i < old(self).providers().len() ==> final(self).providers()[i] == old(
                    self,
                ).providers()[i],
            match r {
                Ok(()) => {
                    let before = old(self).providers().len();
                    let cfg = old(self).settings();
                    let held = old(self).variant_modules().len();
                    let kept = old(self).embedding_modules().len();
                    let searchers = final(self).variant_modules();
                    let neighbours = final(self).embedding_modules();
                    &&& final(self).is_loaded()
                    &&& final(self).providers().len() == before + cfg.lookup.len() + cfg.fst.len()
                    &&& forall|i: int|
                        0 <= i < cfg.lookup.len() ==> is_lookup_of(
                            #[trigger] final(self).providers()[before + i],
                            cfg.lookup[i],
                            sources@,
                        )
                    &&& forall|i: int|
                        0 <= i < cfg.fst.len() ==> is_fst_of(
                            #[trigger] final(self).providers()[before + cfg.lookup.len() + i],
                            cfg.fst[i],
                            sources@,
                        )
                    &&& final(self).variant_models() == old(self).variant_models()
                        + cfg.analiticcl
                    &&& final(self).embeddings() == old(self).embeddings() + cfg.finalfusion
                    &&& forall|i: int|
                        0 <= i < cfg.analiticcl.len() ==> (#[trigger] searchers[held + i]).variant_model()
                            == Some(sources.variant_models()[i])
                    &&& forall|i: int|
                        0 <= i < cfg.finalfusion.len() ==> (#[trigger] neighbours[kept + i]).embeddings()
                            == Some(sources.embeddings()[i])
                    &&& load_failure(
                        cfg,
                        sources@,
                        sources.variant_models().len(),
                        sources.embeddings().len(),
                    ).is_none()
                },
                Err(e) => !final(self).is_loaded() && load_failure(
                    old(self).settings(),
                    sources@,
                    sources.variant_models().len(),
                    sources.embeddings().len(),
                ) == Some(e@),
            },
    {
        let mut left = sources;
        let ghost fails = load_failures(
            self.config@,
            sources@,
            sources.variant_models().len(),
            sources.embeddings().len(),
        );
        let ghost before = self.modules@.len();
        let ghost start = self.modules@;
        let ghost cfg = self.config@;
        let mut config = Config::new();
        std::mem::swap(&mut config, &mut self.config);
        let (lookups, fsts, analiticcls, finalfusions) = config.into_parts();
        let mut i: usize = 0;
        while i < lookups.len()
            invariant
                i <= lookups.len(),
                self.wf(),
                !self.is_loaded(),
                self.settings() == ConfigView::empty(),
                left@ == sources@,
                left.variant_models() == sources.variant_models(),
                left.embeddings() == sources.embeddings(),
                crate::config::lookup_views(lookups@) == cfg.lookup,
                self.modules@.len() == before + i,
                start.len() == before,
                start == old(self).providers(),
                cfg == old(self).settings(),
                forall|j: int| 0 <= j < before ==> self.modules@[j] == start[j],
                forall|j: int|
                    0 <= j < i ==> is_lookup_of(
                        #[trigger] self.modules@[before + j],
                        cfg.lookup[j],
                        sources@,
                    ),
                fails == load_failures(
                    cfg,
                    sources@,
                    sources.variant_models().len(),
                    sources.embeddings().len(),
                ),
                first_failure(fails, i as nat).is_none(),
                self.variant_models() == old(self).variant_models(),
                self.embeddings() == old(self).embeddings(),
            decreases lookups.len() - i,
        {
            let one = lookups[i].duplicate();
            proof {
                assert(cfg.lookup[i as int] == lookups@[i as int]@);
            }
            proof {
                assert(fails[i as int] == lookup_failure(cfg.lookup[i as int], sources@));
            }
            let content = match left.get(one.file()) {
                Some(text) => text.to_owned(),
                None => {
                    let e = missing_source(one.file());
                    proof {
                        assert(first_failure(fails, (i + 1) as nat) == Some(e@));
                        lemma_first_failure_stays(fails, (i + 1) as nat, fails.len());
                    }
                    return Err(e);
                },
            };
            let mut module = LookupModule::new(one).with_source(content);
            match module.load() {
                Ok(()) => {},
                Err(e) => {
                    return Err(e);
                },
            }
            self.modules.push(Provider::Lookup(module));
            i = i + 1;
        }
        let ghost mid = self.modules@;
        proof {
            assert forall|j: int| 0 <= j < cfg.lookup.len() implies is_lookup_of(
                #[trigger] mid[before + j],
                cfg.lookup[j],
                sources@,
            ) by {}
            assert(lookups@.len() == cfg.lookup.len());
        }
        let mut k: usize = 0;
        while k < fsts.len()
            invariant
                k <= fsts.len(),
                self.wf(),
                !self.is_loaded(),
                self.settings() == ConfigView::empty(),
                left@ == sources@,
                left.variant_models() == sources.variant_models(),
                left.embeddings() == sources.embeddings(),
                crate::config::fst_views(fsts@) == cfg.fst,
                cfg.lookup.len() == lookups@.len(),
                mid.len() == before + cfg.lookup.len(),
                self.modules@.len() == before + cfg.lookup.len() + k,
                start.len() == before,
                start == old(self).providers(),
                cfg == old(self).settings(),
                forall|j: int| 0 <= j < before ==> mid[j] == start[j],
                forall|j: int| 0 <= j < mid.len() ==> self.modules@[j] == mid[j],
                forall|j: int|
                    0 <= j < k ==> is_fst_of(
                        #[trigger] self.modules@[before + cfg.lookup.len() + j],
                        cfg.fst[j],
                        sources@,
                    ),
                fails == load_failures(
                    cfg,
                    sources@,
                    sources.variant_models().len(),
                    sources.embeddings().len(),
                ),
                first_failure(fails, (cfg.lookup.len() + k) as nat).is_none(),
                self.variant_models() == old(self).variant_models(),
                self.embeddings() == old(self).embeddings(),
            decreases fsts.len() - k,
        {
            let one = fsts[k].duplicate();
            proof {
                assert(cfg.fst[k as int] == fsts@[k as int]@);
            }
            let ghost at = (cfg.lookup.len() + k) as nat;
            proof {
                assert(fails[at as int] == fst_failure(cfg.fst[k as int], sources@));
            }
            let content = match left.get(one.file()) {
                Some(text) => text.to_owned(),
                None => {
                    let e = missing_source(one.file());
                    proof {
                        assert(first_failure(fails, at + 1) == Some(e@));
                        lemma_first_failure_stays(fails, at + 1, fails.len());
                    }
                    return Err(e);
                },
            };
            let mut module = FstModule::new(one).with_source(content);
            match module.load() {
                Ok(()) => {},
                Err(e) => {
                    proof {
                        assert(first_failure(fails, at + 1) == Some(e@));
                        lemma_first_failure_stays(fails, at + 1, fails.len());
                    }
                    return Err(e);
                },
            }
            self.modules.push(Provider::Fst(module));
            k = k + 1;
        }
        let mut analiticcls = analiticcls;
        let ghost fin = self.modules@;
        let ghost variants = self.variant_models();
        let ghost held = self.analiticcl@.len();
        let ghost taken: Seq<AnaliticclConfigView> = Seq::empty();
        proof {
            assert(sources.variant_models().skip(0) =~= sources.variant_models());
            assert(variants + taken =~= variants);
            assert(taken + analiticcl_views(analiticcls@) =~= cfg.analiticcl);
        }
        let ghost mut taken = taken;
        while analiticcls.len() > 0
            invariant
                self.wf(),
                !self.is_loaded(),
                self.settings() == ConfigView::empty(),
                self.modules@ == fin,
                fin.len() >= before,
                start.len() == before,
                start == old(self).providers(),
                cfg == old(self).settings(),
                forall|j: int| 0 <= j < before ==> fin[j] == start[j],
                self.variant_models() == variants + taken,
                taken + analiticcl_views(analiticcls@) == cfg.analiticcl,
                self.embeddings() == old(self).embeddings(),
                taken.len() <= sources.variant_models().len(),
                left.variant_models() == sources.variant_models().skip(taken.len() as int),
                left.embeddings() == sources.embeddings(),
                self.analiticcl@.len() == held + taken.len(),
                forall|j: int|
                    0 <= j < taken.len() ==> (#[trigger] self.analiticcl@[held + j]).variant_model()
                        == Some(sources.variant_models()[j]),
                fails == load_failures(
                    cfg,
                    sources@,
                    sources.variant_models().len(),
                    sources.embeddings().len(),
                ),
                first_failure(fails, (cfg.lookup.len() + cfg.fst.len() + taken.len()) as nat).is_none(),
            decreases analiticcls.len(),
        {
            let ghost rest = analiticcl_views(analiticcls@);
            let one = analiticcls.remove(0);
            let ghost had = self.variant_models();
            let ghost at = (cfg.lookup.len() + cfg.fst.len() + taken.len()) as nat;
            proof {
                assert(rest[0] == one@);
                assert(cfg.analiticcl[taken.len() as int] == (taken + rest)[taken.len() as int]);
                assert(fails[at as int] == model_failure(
                    one@.id,
                    taken.len() as int,
                    sources.variant_models().len(),
                ));
            }
            let model = match left.take_variant_model() {
                Some(model) => model,
                None => {
                    let e = missing_model(one.id());
                    proof {
                        assert(first_failure(fails, at + 1) == Some(e@));
                        lemma_first_failure_stays(fails, at + 1, fails.len());
                    }
                    return Err(e);
                },
            };
            let mut module = AnaliticclModule::new(one).with_model(model);
            match module.load() {
                Ok(()) => {},
                Err(e) => {
                    return Err(e);
                },
            }
            self.analiticcl.push(module);
            proof {
                assert(sources.variant_models().skip(taken.len() as int).drop_first()
                    =~= sources.variant_models().skip(taken.len() as int + 1));
                assert(analiticcl_views(analiticcls@) =~= rest.drop_first());
                assert(self.variant_models() =~= had.push(one@));
                assert(taken.push(one@) + rest.drop_first() =~= taken + rest);
                assert(variants + taken.push(one@) =~= (variants + taken).push(one@));
                taken = taken.push(one@);
            }
        }
        proof {
            assert(taken + analiticcl_views(analiticcls@) =~= taken);
        }
        let mut finalfusions = finalfusions;
        let ghost models = self.embeddings();
        let ghost kept = self.finalfusion@.len();
        let ghost searchers = self.analiticcl@;
        let ghost mut got: Seq<FinalFusionConfigView> = Seq::empty();
        proof {
            assert(sources.embeddings().skip(0) =~= sources.embeddings());
            assert(models + got =~= models);
            assert(got + finalfusion_views(finalfusions@) =~= cfg.finalfusion);
        }
        while finalfusions.len() > 0
            invariant
                self.wf(),
                !self.is_loaded(),
                self.settings() == ConfigView::empty(),
                self.modules@ == fin,
                fin.len() >= before,
                start.len() == before,
                start == old(self).providers(),
                cfg == old(self).settings(),
                forall|j: int| 0 <= j < before ==> fin[j] == start[j],
                self.variant_models() == variants + cfg.analiticcl,
                self.embeddings() == models + got,
                got + finalfusion_views(finalfusions@) == cfg.finalfusion,
                got.len() <= sources.embeddings().len(),
                left.embeddings() == sources.embeddings().skip(got.len() as int),
                self.analiticcl@ == searchers,
                self.finalfusion@.len() == kept + got.len(),
                forall|j: int|
                    0 <= j < got.len() ==> (#[trigger] self.finalfusion@[kept + j]).embeddings()
                        == Some(sources.embeddings()[j]),
                fails == load_failures(
                    cfg,
                    sources@,
                    sources.variant_models().len(),
                    sources.embeddings().len(),
                ),
                first_failure(
                    fails,
                    (cfg.lookup.len() + cfg.fst.len() + cfg.analiticcl.len() + got.len()) as nat,
                ).is_none(),
            decreases finalfusions.len(),
        {
            let ghost rest = finalfusion_views(finalfusions@);
            let one = finalfusions.remove(0);
            let ghost had = self.embeddings();
            let ghost at = (cfg.lookup.len() + cfg.fst.len() + cfg.analiticcl.len()
                + got.len()) as nat;
            proof {
                assert(rest[0] == one@);
                assert(cfg.finalfusion[got.len() as int] == (got + rest)[got.len() as int]);
                assert(fails[at as int] == model_failure(
                    one@.id,
                    got.len() as int,
                    sources.embeddings().len(),
                ));
            }
            let model = match left.take_embeddings() {
                Some(model) => model,
                None => {
                    let e = missing_model(one.id());
                    proof {
                        assert(first_failure(fails, at + 1) == Some(e@));
                        lemma_first_failure_stays(fails, at + 1, fails.len());
                    }
                    return Err(e);
                },
            };
            let mut module = FinalFusionModule::new(one).with_model(model);
            match module.load() {
                Ok(()) => {},
                Err(e) => {
                    return Err(e);
                },
            }
            self.finalfusion.push(module);
            proof {
                assert(sources.embeddings().skip(got.len() as int).drop_first()
                    =~= sources.embeddings().skip(got.len() as int + 1));
                assert(finalfusion_views(finalfusions@) =~= rest.drop_first());
                assert(self.embeddings() =~= had.push(one@));
                assert(got.push(one@) + rest.drop_first() =~= got + rest);
                assert(models + got.push(one@) =~= (models + got).push(one@));
                got = got.push(one@);
            }
        }
        proof {
            assert(got + finalfusion_views(finalfusions@) =~= got);
        }
        self.initialised = true;
        proof {
            assert(fsts@.len() == cfg.fst.len());
            assert(self.modules@ == fin);
            assert forall|j: int| 0 <= j < cfg.lookup.len() implies is_lookup_of(
                #[trigger] self.modules@[before + j],
                cfg.lookup[j],
                sources@,
            ) by {
                assert(fin[before + j] == mid[before + j]);
            }
        }
        Ok(())
    }
}

/// The failure of a module for which no model was supplied.
fn missing_model(id: &str) -> (e: Error)
    ensures
        e@ == no_model(id@),
{
    let mut text = id.to_owned();
    text.append(": no model was supplied");
    Error::LoadError(text)
}

/// The failure of a file of which no text was supplied.
fn missing_source(path: &str) -> (e: Error)
    ensures
        e@ == missing(path@),
{
    let mut text = path.to_owned();
    text.append(": no text was supplied");
    Error::LoadError(text)
}

/// If each module has one answer only to a query, the expander has one
/// result only: asked twice with the same terms and parameters, it ends in
/// the same way, with the same entries and the same records in the same
/// order.
pub proof fn lemma_expansion_deterministic<M: Module>(
    modules: Seq<M>,
    terms: Seq<TermView>,
    params: Seq<QueryParamView>,
    first: Seq<Outcome>,
    second: Seq<Outcome>,
    start: ExpansionMap,
)
    requires
        answered(modules, terms, params, first, start),
        answered(modules, terms, params, second, start),
        forall|i: int, a: Outcome, b: Outcome|
            0 <= i < modules.len() && #[trigger] modules[i].answers(terms, params, a)
                && #[trigger] modules[i].answers(terms, params, b) ==> a == b,
    ensures
        expansion(modules, terms, params, first, start) == expansion(
            modules,
            terms,
            params,
            second,
            start,
        ),
{
    lemma_same_progress(modules, terms, params, first, second, start, modules.len());
}

/// A module of the library has one answer only to a query.
pub proof fn lemma_provider_deterministic(
    module: Provider,
    terms: Seq<TermView>,
    params: Seq<QueryParamView>,
    a: Outcome,
    b: Outcome,
)
    requires
        module.answers(terms, params, a),
        module.answers(terms, params, b),
    ensures
        a == b,
{
}

/// The two runs of `lemma_expansion_deterministic` stand at the same place
/// after each module.
proof fn lemma_same_progress<M: Module>(
    modules: Seq<M>,
    terms: Seq<TermView>,
    params: Seq<QueryParamView>,
    first: Seq<Outcome>,
    second: Seq<Outcome>,
    start: ExpansionMap,
    n: nat,
)
    requires
        n <= modules.len(),
        answered(modules, terms, params, first, start),
        answered(modules, terms, params, second, start),
        forall|i: int, a: Outcome, b: Outcome|
            0 <= i < modules.len() && #[trigger] modules[i].answers(terms, params, a)
                && #[trigger] modules[i].answers(terms, params, b) ==> a == b,
    ensures
        progress(
            module_ids(modules),
            module_list(params, excluded_key()),
            module_list(params, included_key()),
            terms,
            first,
            start,
            n,
        ) == progress(
            module_ids(modules),
            module_list(params, excluded_key()),
            module_list(params, included_key()),
            terms,
            second,
            start,
            n,
        ),
    decreases n,
{
    if n > 0 {
        lemma_same_progress(modules, terms, params, first, second, start, (n - 1) as nat);
        let ids = module_ids(modules);
        let ex = module_list(params, excluded_key());
        let inc = module_list(params, included_key());
        if asked(ids, ex, inc, terms, first, start, n - 1) {
            assert(asked(ids, ex, inc, terms, second, start, n - 1));
            assert(modules[n - 1].answers(terms, params, first[n - 1]));
            assert(modules[n - 1].answers(terms, params, second[n - 1]));
        }
    }
}

} // verus!
