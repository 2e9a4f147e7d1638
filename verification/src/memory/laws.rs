//! What holds of agent-scoped memories as a whole.

use vstd::prelude::*;

use crate::memory::agent_scoped::AgentScopedMemory;
use crate::memory::call::{BackendCall, ForgetStep, GetScan, GetStep, MemoryError};
use crate::memory::entry::{ExportFilter, MemoryEntry};
use crate::memory::reads::{admitted, first_of, get_goes_on, in_namespace, of_namespace};
use crate::memory::scope::{granted, lowered, named, targets, Scope};
use crate::memory::writes::{forget_ends, forget_goes_on};
use crate::text::{ascii_lowercase, opt_text, texts};

verus! {

/// An agent sees all of its own rows, whatever their category.
pub proof fn law_own_rows_are_visible(scope: Scope, e: MemoryEntry)
    requires
        e.owner() == Some(scope.agent),
    ensures
        scope.sees(e),
{
}

/// Whatever is not granted is hidden: a row without an agent, a row of an agent
/// that is not granted, and a row in a category that the grant leaves out.
pub proof fn law_fails_closed(scope: Scope, e: MemoryEntry)
    ensures
        e.owner() is None ==> !scope.sees(e),
        e.owner() matches Some(id) ==> id != scope.agent && !scope.grants.contains_key(id)
            ==> !scope.sees(e),
        e.owner() matches Some(id) ==> id != scope.agent && scope.grants.contains_key(id) && (
        scope.grants[id] matches Some(categories) && !categories.contains(
            ascii_lowercase(e.category.text()),
        )) ==> !scope.sees(e),
{
}

/// A grant without a set of categories covers every row of the agent.
pub proof fn law_unlimited_grant_covers_all(scope: Scope, e: MemoryEntry)
    requires
        e.owner() is Some,
        scope.grants.contains_key(e.owner()->0),
        scope.grants[e.owner()->0] is None,
    ensures
        scope.sees(e),
{
}

/// The ASCII case of a category makes no difference.
pub proof fn law_category_case_is_ignored(scope: Scope, a: MemoryEntry, b: MemoryEntry)
    requires
        a.owner() == b.owner(),
        ascii_lowercase(a.category.text()) == ascii_lowercase(b.category.text()),
    ensures
        scope.sees(a) == scope.sees(b),
{
}

/// Reading goes one way: that `reader` may read `other` lets `other` see no row
/// of `reader`.
pub proof fn law_grants_go_one_way(reader: Scope, other: Scope, e: MemoryEntry)
    requires
        reader.grants.contains_key(other.agent),
        reader.agent != other.agent,
        !other.grants.contains_key(reader.agent),
        e.owner() == Some(reader.agent),
    ensures
        !other.sees(e),
{
}

/// Reading is not passed on: where `a` may read `b`, and `b` may read a third
/// agent, the third agent's rows stay hidden from `a` unless `a` is granted
/// them itself.
pub proof fn law_grants_are_not_passed_on(a: Scope, b: Scope, third: Seq<char>, e: MemoryEntry)
    requires
        a.grants.contains_key(b.agent),
        b.grants.contains_key(third),
        third != a.agent,
        !a.grants.contains_key(third),
        e.owner() == Some(third),
    ensures
        !a.sees(e),
{
}

/// Scopes without a list of categories grant every category of the agents that
/// they name, and nothing else.
pub proof fn law_unlimited_scopes(scopes: Seq<(String, Option<Vec<String>>)>)
    requires
        forall|i: int| 0 <= i < scopes.len() ==> (#[trigger] scopes[i]).1 is None,
    ensures
        forall|id: Seq<char>|
            granted(scopes).contains_key(id) <==> #[trigger] named(scopes).contains(id),
        forall|id: Seq<char>| #[trigger]
            granted(scopes).contains_key(id) ==> granted(scopes)[id] is None,
    decreases scopes.len(),
{
    if scopes.len() > 0 {
        let rest = scopes.drop_last();
        law_unlimited_scopes(rest);
        assert(named(scopes) =~= named(rest).push(scopes.last().0@));
        assert forall|id: Seq<char>|
            granted(scopes).contains_key(id) <==> #[trigger] named(scopes).contains(id) by {
            assert(named(scopes)[scopes.len() - 1] == scopes.last().0@);
            if named(rest).contains(id) {
                let k = named(rest).index_of(id);
                assert(named(scopes)[k] == id);
            }
            if named(scopes).contains(id) && id != scopes.last().0@ {
                let k = named(scopes).index_of(id);
                assert(named(rest)[k] == id);
            }
        }
    }
}

/// Of several scopes for one agent the last one counts.
pub proof fn law_last_scope_counts(scopes: Seq<(String, Option<Vec<String>>)>, n: int)
    requires
        0 <= n < scopes.len(),
        forall|m: int| n < m < scopes.len() ==> (#[trigger] scopes[m]).0@ != scopes[n].0@,
    ensures
        granted(scopes).contains_key(scopes[n].0@),
        granted(scopes)[scopes[n].0@] == lowered(scopes[n].1),
    decreases scopes.len(),
{
    if n < scopes.len() - 1 {
        let rest = scopes.drop_last();
        assert(rest[n] == scopes[n]);
        assert(scopes[scopes.len() - 1].0@ != scopes[n].0@);
        law_last_scope_counts(rest, n);
    }
}

/// An agent that no scope names is not granted.
pub proof fn law_unnamed_agents_are_not_granted(
    scopes: Seq<(String, Option<Vec<String>>)>,
    id: Seq<char>,
)
    requires
        !named(scopes).contains(id),
    ensures
        !granted(scopes).contains_key(id),
    decreases scopes.len(),
{
    if scopes.len() > 0 {
        let rest = scopes.drop_last();
        assert(named(scopes)[scopes.len() - 1] == scopes.last().0@);
        assert(!named(rest).contains(id)) by {
            if named(rest).contains(id) {
                let k = named(rest).index_of(id);
                assert(named(scopes)[k] == id);
            }
        }
        law_unnamed_agents_are_not_granted(rest, id);
    }
}

/// A scope with a list of categories opens those rows of the sibling whose
/// category is in the list, up to ASCII case, and no others.
pub proof fn law_limited_scope_opens_its_categories(
    agent: Seq<char>,
    scopes: Seq<(String, Option<Vec<String>>)>,
    n: int,
    e: MemoryEntry,
)
    requires
        0 <= n < scopes.len(),
        forall|m: int| n < m < scopes.len() ==> (#[trigger] scopes[m]).0@ != scopes[n].0@,
        scopes[n].0@ != agent,
        scopes[n].1 is Some,
        e.owner() == Some(scopes[n].0@),
    ensures
        (Scope { agent, grants: granted(scopes).insert(agent, None) }).sees(e) <==> exists|k: int|
            0 <= k < scopes[n].1->0@.len() && ascii_lowercase(
                #[trigger] scopes[n].1->0@[k]@,
            ) == ascii_lowercase(e.category.text()),
{
    law_last_scope_counts(scopes, n);
    let list = scopes[n].1->0@;
    let low = texts(list).map_values(|c: Seq<char>| ascii_lowercase(c));
    let wanted = ascii_lowercase(e.category.text());
    assert forall|k: int| 0 <= k < list.len() implies low[k] == ascii_lowercase(
        #[trigger] list[k]@,
    ) by {
        assert(texts(list)[k] == list[k]@);
    }
    if low.contains(wanted) {
        let k = low.index_of(wanted);
        assert(ascii_lowercase(list[k]@) == wanted);
    }
    if exists|k: int| 0 <= k < list.len() && ascii_lowercase(#[trigger] list[k]@) == wanted {
        let k = choose|k: int|
            0 <= k < list.len() && ascii_lowercase(#[trigger] list[k]@) == wanted;
        assert(low[k] == wanted);
    }
}

/// A read hands out readable rows only, all that the backend found, and
/// filtering once is enough.
pub proof fn law_reads_hand_out_the_visible_rows(scope: Scope, rows: Seq<MemoryEntry>)
    ensures
        forall|i: int|
            0 <= i < scope.visible(rows).len() ==> scope.sees(#[trigger] scope.visible(rows)[i])
                && rows.contains(scope.visible(rows)[i]),
        forall|i: int|
            0 <= i < rows.len() && scope.sees(#[trigger] rows[i]) ==> scope.visible(rows).contains(
                rows[i],
            ),
        scope.visible(scope.visible(rows)) == scope.visible(rows),
{
    let pred = |e: MemoryEntry| scope.sees(e);
    let kept = scope.visible(rows);
    assert(kept == rows.filter(pred));
    assert forall|i: int| 0 <= i < kept.len() implies scope.sees(#[trigger] kept[i])
        && rows.contains(kept[i]) by {
        rows.lemma_filter_pred(pred, i);
        assert(kept.contains(kept[i]));
        rows.lemma_filter_contains_rev(pred, kept[i]);
    }
    assert forall|i: int| 0 <= i < rows.len() && scope.sees(#[trigger] rows[i]) implies kept.contains(
        rows[i],
    ) by {
        rows.lemma_filter_contains(pred, i);
    }
    lemma_filter_all(kept, pred);
}

/// The rows of an export, and those of a recall in one namespace, are readable
/// rows that the backend found, and meet what was asked for.
pub proof fn law_narrowed_reads_stay_visible(
    scope: Scope,
    rows: Seq<MemoryEntry>,
    filter: ExportFilter,
    namespace: Seq<char>,
    limit: nat,
)
    ensures
        forall|i: int|
            0 <= i < admitted(scope.visible(rows), filter).len() ==> {
                let e = #[trigger] admitted(scope.visible(rows), filter)[i];
                scope.sees(e) && filter.admits(e) && rows.contains(e)
            },
        first_of(in_namespace(scope.visible(rows), namespace), limit).len() <= limit,
        forall|i: int|
            0 <= i < first_of(in_namespace(scope.visible(rows), namespace), limit).len() ==> {
                let e = #[trigger] first_of(
                    in_namespace(scope.visible(rows), namespace),
                    limit,
                )[i];
                scope.sees(e) && e.namespace@ == namespace && rows.contains(e)
            },
{
    law_reads_hand_out_the_visible_rows(scope, rows);
    let seen = scope.visible(rows);
    let by_filter = |e: MemoryEntry| filter.admits(e);
    let out = admitted(seen, filter);
    assert(out == seen.filter(by_filter));
    assert forall|i: int| 0 <= i < out.len() implies {
        let e = #[trigger] out[i];
        scope.sees(e) && filter.admits(e) && rows.contains(e)
    } by {
        seen.lemma_filter_pred(by_filter, i);
        assert(out.contains(out[i]));
        seen.lemma_filter_contains_rev(by_filter, out[i]);
        let k = seen.index_of(out[i]);
        assert(seen[k] == out[i]);
    }
    let by_namespace = of_namespace(namespace);
    let all = in_namespace(seen, namespace);
    assert(all == seen.filter(by_namespace));
    let few = first_of(all, limit);
    assert forall|i: int| 0 <= i < few.len() implies {
        let e = #[trigger] few[i];
        scope.sees(e) && e.namespace@ == namespace && rows.contains(e)
    } by {
        assert(few[i] == all[i]);
        seen.lemma_filter_pred(by_namespace, i);
        assert(all.contains(all[i]));
        seen.lemma_filter_contains_rev(by_namespace, all[i]);
        let k = seen.index_of(all[i]);
        assert(seen[k] == all[i]);
    }
}

proof fn lemma_filter_all<A>(s: Seq<A>, pred: spec_fn(A) -> bool)
    requires
        forall|i: int| 0 <= i < s.len() ==> pred(#[trigger] s[i]),
    ensures
        s.filter(pred) == s,
    decreases s.len(),
{
    reveal(Seq::filter);
    if s.len() > 0 {
        let rest = s.drop_last();
        assert forall|i: int| 0 <= i < rest.len() implies pred(#[trigger] rest[i]) by {
            assert(rest[i] == s[i]);
        }
        lemma_filter_all(rest, pred);
        assert(pred(s[s.len() - 1]));
        assert(s =~= rest.push(s.last()));
    }
}

/// A count agrees with a listing of everything: both ask the backend the same,
/// and from the same answer the count is the number of rows listed, or both
/// fail alike.
pub proof fn law_count_agrees_with_list<M, E>(
    memory: &AgentScopedMemory<M>,
    asked_to_count: BackendCall,
    asked_to_list: BackendCall,
    reply: Result<Vec<MemoryEntry>, E>,
    counted: Result<usize, E>,
    shown: Result<Vec<MemoryEntry>, E>,
)
    requires
        call_ensures(AgentScopedMemory::<M>::count, (memory,), asked_to_count),
        call_ensures(AgentScopedMemory::<M>::list, (memory, None, None), asked_to_list),
        call_ensures(AgentScopedMemory::<M>::count_reply::<E>, (memory, reply), counted),
        call_ensures(AgentScopedMemory::<M>::list_reply::<E>, (memory, reply), shown),
    ensures
        asked_to_count == asked_to_list,
        match shown {
            Ok(rows) => counted matches Ok(n) && n == rows@.len(),
            Err(e) => counted == Err::<usize, E>(e),
        },
{
}

/// A caller's list of agents narrows a recall and never widens it: who is asked
/// is on the list, and is granted.
pub proof fn law_caller_list_only_narrows(scope: Scope, caller: Seq<Seq<char>>)
    ensures
        ({
            let asked = caller.filter(|id: Seq<char>| scope.grants.contains_key(id));
            forall|i: int|
                0 <= i < asked.len() ==> scope.grants.contains_key(#[trigger] asked[i])
                    && caller.contains(asked[i])
        }),
{
    let pred = |id: Seq<char>| scope.grants.contains_key(id);
    let asked = caller.filter(pred);
    assert forall|i: int| 0 <= i < asked.len() implies scope.grants.contains_key(
        #[trigger] asked[i],
    ) && caller.contains(asked[i]) by {
        caller.lemma_filter_pred(pred, i);
        assert(asked.contains(asked[i]));
        caller.lemma_filter_contains_rev(pred, asked[i]);
    }
}

/// What an agent stores it can read back: a row that carries the agent of a
/// confined store is visible to the agent, and to no agent that is not granted
/// it.
pub proof fn law_stored_rows_are_readable(
    scope: Scope,
    other: Scope,
    call: BackendCall,
    e: MemoryEntry,
)
    requires
        scope.confines(call),
        match call {
            BackendCall::StoreWithAgent { agent_id, .. } => e.owner() == opt_text(agent_id),
            BackendCall::StoreWithOptionsAndAgent { agent_id, .. } => e.owner() == opt_text(
                agent_id,
            ),
            BackendCall::StoreProcedural { agent_id, .. } => e.owner() == opt_text(agent_id),
            _ => false,
        },
    ensures
        scope.sees(e),
        other.agent != scope.agent && !other.grants.contains_key(scope.agent) ==> !other.sees(e),
{
}

/// Grants are for reading: a confined call writes and deletes rows of the agent
/// alone, whoever else it may read.
pub proof fn law_confined_calls_target_own_rows(scope: Scope, call: BackendCall, e: MemoryEntry)
    requires
        scope.confines(call),
        targets(call, e),
    ensures
        e.owner() == Some(scope.agent),
{
}

/// The answer for one agent does not end a lookup: there is no row, or it is
/// hidden.
pub open spec fn passed_over<E>(scope: Scope, reply: Result<Option<MemoryEntry>, E>) -> bool {
    reply matches Ok(found) && !(found is Some && scope.sees(found->0))
}

/// The answer for the first sibling, counted from the end of the list, that is
/// not passed over.
pub open spec fn first_readable<E>(
    scope: Scope,
    pending: Seq<Seq<char>>,
    rows: spec_fn(Seq<char>) -> Result<Option<MemoryEntry>, E>,
) -> Result<Option<MemoryEntry>, E>
    decreases pending.len(),
{
    if pending.len() == 0 {
        Ok(None)
    } else if passed_over(scope, rows(pending.last())) {
        first_readable(scope, pending.drop_last(), rows)
    } else {
        rows(pending.last())
    }
}

/// What a lookup comes to that has just asked for the row of `asked`, on a
/// backend that answers with `rows`.
pub open spec fn get_comes_to<E>(
    scope: Scope,
    asked: Seq<char>,
    scan: GetScan,
    rows: spec_fn(Seq<char>) -> Result<Option<MemoryEntry>, E>,
) -> Result<Option<MemoryEntry>, E> {
    if passed_over(scope, rows(asked)) {
        first_readable(scope, texts(scan.rest@), rows)
    } else {
        rows(asked)
    }
}

/// Every step of a lookup keeps what it comes to: it ends with that result, or
/// asks on with fewer siblings left.
pub proof fn law_get_keeps_its_course<E>(
    scope: Scope,
    asked: Seq<char>,
    scan: GetScan,
    rows: spec_fn(Seq<char>) -> Result<Option<MemoryEntry>, E>,
    step: GetStep<E>,
)
    requires
        get_goes_on(scope, scan, rows(asked), step),
    ensures
        match step {
            GetStep::Done(result) => result == get_comes_to(scope, asked, scan, rows),
            GetStep::Ask(call, next) => {
                &&& call matches BackendCall::GetForAgent { key, agent_id }
                &&& key == scan.key
                &&& get_comes_to(scope, agent_id@, next, rows) == get_comes_to(
                    scope,
                    asked,
                    scan,
                    rows,
                )
                &&& next.rest@.len() < scan.rest@.len()
            },
        },
{
    assert(texts(scan.rest@).len() == scan.rest@.len());
    if scan.rest@.len() > 0 {
        assert(texts(scan.rest@).last() == scan.rest@.last()@);
        assert(texts(scan.rest@).drop_last() =~= texts(scan.rest@.drop_last()));
    }
}

/// A lookup hands out readable rows only. The bound agent's own row comes before
/// any sibling's, where the backend's answer for it is readable. Otherwise a row
/// is found exactly where some sibling has a readable one, and siblings whose
/// row is missing or hidden are passed over. A failure of the backend ends the
/// lookup.
pub proof fn law_get_finds_what_is_readable<E>(
    scope: Scope,
    siblings: Seq<Seq<char>>,
    scan: GetScan,
    rows: spec_fn(Seq<char>) -> Result<Option<MemoryEntry>, E>,
)
    requires
        texts(scan.rest@) == siblings.reverse(),
    ensures
        get_comes_to(scope, scope.agent, scan, rows) matches Ok(Some(e)) ==> scope.sees(e),
        ({
            let own = rows(scope.agent);
            let result = get_comes_to(scope, scope.agent, scan, rows);
            if !passed_over(scope, own) {
                result == own
            } else if result == Ok::<Option<MemoryEntry>, E>(None) {
                forall|i: int|
                    0 <= i < siblings.len() ==> passed_over(scope, rows(#[trigger] siblings[i]))
            } else {
                exists|i: int|
                    {
                        &&& 0 <= i < siblings.len()
                        &&& rows(#[trigger] siblings[i]) == result
                        &&& forall|j: int|
                            0 <= j < i ==> passed_over(scope, rows(#[trigger] siblings[j]))
                    }
            }
        }),
{
    let back = siblings.reverse();
    let len = siblings.len();
    let result = first_readable(scope, back, rows);
    lemma_first_readable(scope, back, rows);
    assert forall|i: int| 0 <= i < len implies #[trigger] siblings[i] == back[len - 1 - i] by {}
    if result == Ok::<Option<MemoryEntry>, E>(None) {
        assert forall|i: int| 0 <= i < len implies passed_over(
            scope,
            rows(#[trigger] siblings[i]),
        ) by {
            assert(siblings[i] == back[len - 1 - i]);
        }
    } else {
        let k = choose|k: int|
            {
                &&& 0 <= k < back.len()
                &&& rows(#[trigger] back[k]) == result
                &&& forall|j: int|
                    k < j < back.len() ==> passed_over(scope, rows(#[trigger] back[j]))
            };
        let i = len - 1 - k;
        assert(siblings[i] == back[k]);
        assert forall|j: int| 0 <= j < i implies passed_over(
            scope,
            rows(#[trigger] siblings[j]),
        ) by {
            assert(siblings[j] == back[len - 1 - j]);
        }
    }
}

proof fn lemma_first_readable<E>(
    scope: Scope,
    pending: Seq<Seq<char>>,
    rows: spec_fn(Seq<char>) -> Result<Option<MemoryEntry>, E>,
)
    ensures
        ({
            let result = first_readable(scope, pending, rows);
            if result == Ok::<Option<MemoryEntry>, E>(None) {
                forall|k: int|
                    0 <= k < pending.len() ==> passed_over(scope, rows(#[trigger] pending[k]))
            } else {
                &&& result matches Ok(found) ==> scope.sees(found->0)
                &&& exists|k: int|
                    {
                        &&& 0 <= k < pending.len()
                        &&& rows(#[trigger] pending[k]) == result
                        &&& forall|j: int|
                            k < j < pending.len() ==> passed_over(
                                scope,
                                rows(#[trigger] pending[j]),
                            )
                    }
            }
        }),
    decreases pending.len(),
{
    if pending.len() > 0 {
        let n = pending.len() - 1;
        let rest = pending.drop_last();
        let result = first_readable(scope, pending, rows);
        if passed_over(scope, rows(pending[n])) {
            lemma_first_readable(scope, rest, rows);
            assert forall|k: int| 0 <= k < n implies #[trigger] pending[k] == rest[k] by {}
            if result != Ok::<Option<MemoryEntry>, E>(None) {
                let k = choose|k: int|
                    {
                        &&& 0 <= k < rest.len()
                        &&& rows(#[trigger] rest[k]) == result
                        &&& forall|j: int|
                            k < j < rest.len() ==> passed_over(scope, rows(#[trigger] rest[j]))
                    };
                assert(rows(pending[k]) == result);
                assert forall|j: int| k < j < pending.len() implies passed_over(
                    scope,
                    rows(#[trigger] pending[j]),
                ) by {
                    if j < n {
                        assert(pending[j] == rest[j]);
                    }
                }
            }
        } else {
            assert(rows(pending[n]) == result);
        }
    }
}

/// A deletion succeeds only where the backend deleted the bound agent's own
/// row. Without one it reports that nothing was there, or refuses because the
/// row that is there is someone else's or no one's.
pub proof fn law_forget_deletes_own_rows_only<E>(
    key: String,
    deleted: bool,
    row: Option<MemoryEntry>,
)
    ensures
        forget_goes_on(key, Ok::<bool, E>(deleted)) == ForgetStep::<E>::Done(Ok(true))
            <==> deleted,
        !deleted ==> forget_goes_on(key, Ok::<bool, E>(deleted)) == ForgetStep::<E>::Look(
            BackendCall::Get { key },
        ),
        forget_ends(Ok::<Option<MemoryEntry>, E>(row)) == Ok::<bool, MemoryError<E>>(false)
            <==> row is None,
        row is Some <==> (forget_ends(Ok::<Option<MemoryEntry>, E>(row)) matches Err(
            MemoryError::Refused(_),
        )),
{
}

} // verus!
