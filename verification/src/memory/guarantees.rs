//! What a caller of an agent-scoped memory can rely on, from what is handed in
//! to what comes out.

use vstd::prelude::*;

use crate::memory::agent_scoped::AgentScopedMemory;
use crate::memory::call::{BackendCall, ForgetStep, GetScan, GetStep, MemoryError, Plan, Refusal};
use crate::memory::entry::{
    ExportFilter, MemoryCategory, MemoryEntry, ProceduralMessage, StoreOptions, Weight,
};
use crate::memory::laws::{
    law_last_scope_counts, law_limited_scope_opens_its_categories,
    law_unnamed_agents_are_not_granted,
};
use crate::memory::scope::{granted, named, Scope};
use crate::seqs::{lemma_filter_agree, lemma_filter_twice};
use crate::text::{ascii_lower, ascii_lowercase, texts};

verus! {

/// The two characters are the same, or one ASCII letter in both cases.
pub open spec fn same_letter(c: char, d: char) -> bool {
    ||| c == d
    ||| 'A' <= c <= 'Z' && d as int == c as int + 32
    ||| 'A' <= d <= 'Z' && c as int == d as int + 32
}

/// The two texts differ at most in the case of ASCII letters.
pub open spec fn same_but_case(a: Seq<char>, b: Seq<char>) -> bool {
    &&& a.len() == b.len()
    &&& forall|i: int| 0 <= i < a.len() ==> same_letter(#[trigger] a[i], b[i])
}

/// The category bears the name, up to ASCII case.
pub open spec fn bears(category: MemoryCategory, name: Seq<char>) -> bool {
    match category {
        MemoryCategory::Core => same_but_case(name, "core"@),
        MemoryCategory::Daily => same_but_case(name, "daily"@),
        MemoryCategory::Conversation => same_but_case(name, "conversation"@),
        MemoryCategory::Custom(own) => same_but_case(name, own@),
    }
}

/// The pair at `n` is the last one that names the agent.
pub open spec fn last_for(
    scopes: Seq<(String, Option<Vec<String>>)>,
    n: int,
    id: Seq<char>,
) -> bool {
    &&& 0 <= n < scopes.len()
    &&& scopes[n].0@ == id
    &&& forall|m: int| n < m < scopes.len() ==> (#[trigger] scopes[m]).0@ != id
}

/// An agent that is set up with the pairs may read the row: it wrote the row
/// itself, or the last pair for the writer has no list of categories or one that
/// names the row's.
pub open spec fn may_read(
    agent: Seq<char>,
    scopes: Seq<(String, Option<Vec<String>>)>,
    e: MemoryEntry,
) -> bool {
    &&& e.agent_id matches Some(writer)
    &&& writer@ == agent || exists|n: int|
        {
            &&& #[trigger] last_for(scopes, n, writer@)
            &&& scopes[n].1 matches Some(list) ==> exists|k: int|
                0 <= k < list@.len() && bears(e.category, #[trigger] list@[k]@)
        }
}

proof fn lemma_same_but_case(a: Seq<char>, b: Seq<char>)
    ensures
        ascii_lowercase(a) == ascii_lowercase(b) <==> same_but_case(a, b),
{
    let x = ascii_lowercase(a);
    let y = ascii_lowercase(b);
    assert(x.len() == a.len() && y.len() == b.len());
    if x == y {
        assert forall|i: int| 0 <= i < a.len() implies same_letter(#[trigger] a[i], b[i]) by {
            assert(x[i] == ascii_lower(a[i]) && y[i] == ascii_lower(b[i]));
        }
    }
    if same_but_case(a, b) {
        assert forall|i: int| 0 <= i < x.len() implies x[i] == y[i] by {
            assert(same_letter(a[i], b[i]));
            assert(x[i] == ascii_lower(a[i]) && y[i] == ascii_lower(b[i]));
        }
        assert(x =~= y);
    }
}

proof fn lemma_bears(category: MemoryCategory, name: Seq<char>)
    ensures
        bears(category, name) <==> ascii_lowercase(name) == ascii_lowercase(category.text()),
{
    lemma_same_but_case(name, category.text());
}

proof fn lemma_last_for(scopes: Seq<(String, Option<Vec<String>>)>, id: Seq<char>)
    ensures
        named(scopes).contains(id) <==> exists|n: int| #[trigger] last_for(scopes, n, id),
        named(scopes).contains(id) <==> exists|n: int|
            0 <= n < scopes.len() && (#[trigger] scopes[n]).0@ == id,
    decreases scopes.len(),
{
    let ids = named(scopes);
    assert(ids.len() == scopes.len());
    assert forall|n: int| 0 <= n < scopes.len() implies ids[n] == (#[trigger] scopes[n]).0@ by {}
    if ids.contains(id) {
        let n = ids.index_of(id);
        assert(scopes[n].0@ == id);
        let rest = scopes.drop_last();
        if scopes.last().0@ == id {
            assert(last_for(scopes, scopes.len() - 1, id));
        } else {
            lemma_last_for(rest, id);
            assert(named(rest)[n] == id);
            let k = choose|k: int| #[trigger] last_for(rest, k, id);
            assert(rest[k] == scopes[k]);
            assert forall|m: int| k < m < scopes.len() implies (#[trigger] scopes[m]).0@ != id by {
                if m < rest.len() {
                    assert(rest[m] == scopes[m]);
                }
            }
            assert(last_for(scopes, k, id));
        }
    }
    if exists|n: int| #[trigger] last_for(scopes, n, id) {
        let n = choose|n: int| #[trigger] last_for(scopes, n, id);
        assert(ids[n] == id);
    }
    if exists|n: int| 0 <= n < scopes.len() && (#[trigger] scopes[n]).0@ == id {
        let n = choose|n: int| 0 <= n < scopes.len() && (#[trigger] scopes[n]).0@ == id;
        assert(ids[n] == id);
    }
}

proof fn lemma_granted(scopes: Seq<(String, Option<Vec<String>>)>, id: Seq<char>)
    ensures
        granted(scopes).contains_key(id) <==> exists|n: int|
            0 <= n < scopes.len() && (#[trigger] scopes[n]).0@ == id,
{
    lemma_last_for(scopes, id);
    if named(scopes).contains(id) {
        let n = choose|n: int| #[trigger] last_for(scopes, n, id);
        law_last_scope_counts(scopes, n);
    } else {
        law_unnamed_agents_are_not_granted(scopes, id);
    }
}

/// A memory that is set up with pairs lets exactly those rows be read that the
/// agent wrote, or that the last pair for the writer opens. A row without a
/// writer is never readable.
pub proof fn law_pairs_decide_what_is_readable<M>(
    inner: M,
    agent_id: String,
    scopes: Vec<(String, Option<Vec<String>>)>,
    memory: AgentScopedMemory<M>,
    e: &MemoryEntry,
    readable: bool,
)
    requires
        call_ensures(
            AgentScopedMemory::<M>::with_category_scopes,
            (inner, agent_id, scopes),
            memory,
        ),
        call_ensures(AgentScopedMemory::<M>::entry_visible, (&memory, e), readable),
    ensures
        readable == may_read(agent_id@, scopes@, *e),
        readable == memory@.sees(*e),
        memory@.agent == agent_id@,
{
    let all = scopes@;
    if let Some(writer) = e.agent_id {
        let id = writer@;
        lemma_last_for(all, id);
        if id != agent_id@ {
            if named(all).contains(id) {
                let n = choose|n: int| #[trigger] last_for(all, n, id);
                law_last_scope_counts(all, n);
                assert forall|m: int| #[trigger] last_for(all, m, id) implies m == n by {
                    if m < n {
                        assert(all[n].0@ != id);
                    } else if n < m {
                        assert(all[m].0@ != id);
                    }
                }
                if let Some(list) = all[n].1 {
                    law_limited_scope_opens_its_categories(agent_id@, all, n, *e);
                    assert(memory@ == (Scope {
                        agent: agent_id@,
                        grants: granted(all).insert(agent_id@, None),
                    }));
                    assert forall|k: int| 0 <= k < list@.len() implies bears(
                        e.category,
                        #[trigger] list@[k]@,
                    ) == (ascii_lowercase(list@[k]@) == ascii_lowercase(e.category.text())) by {
                        lemma_bears(e.category, list@[k]@);
                    }
                }
                assert(last_for(all, n, id));
            } else {
                law_unnamed_agents_are_not_granted(all, id);
            }
        }
    }
}

/// A memory that is set up with siblings lets exactly the rows of the agent and
/// of the siblings be read.
pub proof fn law_siblings_are_readable<M>(
    inner: M,
    agent_id: String,
    siblings: Vec<String>,
    memory: AgentScopedMemory<M>,
    e: &MemoryEntry,
    readable: bool,
)
    requires
        call_ensures(AgentScopedMemory::<M>::new, (inner, agent_id, siblings), memory),
        call_ensures(AgentScopedMemory::<M>::entry_visible, (&memory, e), readable),
    ensures
        readable <==> (e.agent_id matches Some(writer) && (writer@ == agent_id@ || exists|k: int|
            0 <= k < siblings@.len() && #[trigger] siblings@[k]@ == writer@)),
        readable == memory@.sees(*e),
        memory@.agent == agent_id@,
{
    if let Some(writer) = e.agent_id {
        lemma_texts_contains(siblings@, writer@);
    }
}

proof fn lemma_texts_contains(list: Seq<String>, text: Seq<char>)
    ensures
        texts(list).contains(text) <==> exists|k: int|
            0 <= k < list.len() && #[trigger] list[k]@ == text,
{
    if texts(list).contains(text) {
        let k = texts(list).index_of(text);
        assert(list[k]@ == text);
    }
    if exists|k: int| 0 <= k < list.len() && #[trigger] list[k]@ == text {
        let k = choose|k: int| 0 <= k < list.len() && #[trigger] list[k]@ == text;
        assert(texts(list)[k] == text);
    }
}

/// The list holds the text.
pub open spec fn lists(list: Seq<String>, text: Seq<char>) -> bool {
    exists|k: int| 0 <= k < list.len() && #[trigger] list[k]@ == text
}

/// The list holds no text twice.
pub open spec fn lists_once(list: Seq<String>) -> bool {
    forall|i: int, j: int|
        0 <= i < list.len() && 0 <= j < list.len() && i != j ==> #[trigger] list[i]@
            != #[trigger] list[j]@
}

proof fn lemma_lists_once(list: Seq<String>)
    requires
        texts(list).no_duplicates(),
    ensures
        lists_once(list),
{
    assert forall|i: int, j: int|
        0 <= i < list.len() && 0 <= j < list.len() && i != j implies #[trigger] list[i]@
        != #[trigger] list[j]@ by {
        assert(texts(list)[i] == list[i]@ && texts(list)[j] == list[j]@);
    }
}

/// The agents whose rows may be read are the bound one and those that a pair
/// names, each once.
pub proof fn law_pairs_name_the_readable_agents<M>(
    inner: M,
    agent_id: String,
    scopes: Vec<(String, Option<Vec<String>>)>,
    memory: AgentScopedMemory<M>,
    allowed: Vec<String>,
    backend: &M,
    alias: &String,
)
    requires
        call_ensures(
            AgentScopedMemory::<M>::with_category_scopes,
            (inner, agent_id, scopes),
            memory,
        ),
        call_ensures(AgentScopedMemory::<M>::allowed_slice, (&memory,), allowed),
        call_ensures(AgentScopedMemory::<M>::inner, (&memory,), backend),
        call_ensures(AgentScopedMemory::<M>::alias, (&memory,), alias),
    ensures
        *backend == inner,
        alias@ == agent_id@,
        lists_once(allowed@),
        forall|id: Seq<char>|
            #![trigger lists(allowed@, id)]
            #![trigger memory@.grants.contains_key(id)]
            {
                &&& lists(allowed@, id) <==> id == agent_id@ || exists|n: int|
                    0 <= n < scopes@.len() && (#[trigger] scopes@[n]).0@ == id
                &&& lists(allowed@, id) <==> memory@.grants.contains_key(id)
            },
{
    lemma_lists_once(allowed@);
    assert forall|id: Seq<char>|
        #![trigger lists(allowed@, id)]
        #![trigger memory@.grants.contains_key(id)]
        {
            &&& lists(allowed@, id) <==> id == agent_id@ || exists|n: int|
                0 <= n < scopes@.len() && (#[trigger] scopes@[n]).0@ == id
            &&& lists(allowed@, id) <==> memory@.grants.contains_key(id)
        } by {
        lemma_texts_contains(allowed@, id);
        lemma_granted(scopes@, id);
        assert(memory.readers().contains(id) == texts(allowed@).contains(id));
    }
}

/// Whether rows of an agent may be read at all is told by the grants: the bound
/// agent and the siblings.
pub proof fn law_siblings_are_the_readable_agents<M>(
    inner: M,
    agent_id: String,
    siblings: Vec<String>,
    memory: AgentScopedMemory<M>,
    allowed: Vec<String>,
    id: &String,
    granted: bool,
)
    requires
        call_ensures(AgentScopedMemory::<M>::new, (inner, agent_id, siblings), memory),
        call_ensures(AgentScopedMemory::<M>::allowed_slice, (&memory,), allowed),
        call_ensures(AgentScopedMemory::<M>::grants_reading, (&memory, id), granted),
    ensures
        granted == (id@ == agent_id@ || lists(siblings@, id@)),
        granted == lists(allowed@, id@),
        granted == memory@.grants.contains_key(id@),
        lists_once(allowed@),
{
    lemma_lists_once(allowed@);
    lemma_texts_contains(siblings@, id@);
    lemma_texts_contains(allowed@, id@);
    assert(memory.readers().contains(id@) == texts(allowed@).contains(id@));
}

/// Holds of the rows that the agent sees.
pub open spec fn seen(scope: Scope) -> spec_fn(MemoryEntry) -> bool {
    |e: MemoryEntry| scope.sees(e)
}

/// Holds of the rows of a namespace that the agent sees.
pub open spec fn seen_in(scope: Scope, namespace: Seq<char>) -> spec_fn(MemoryEntry) -> bool {
    |e: MemoryEntry| scope.sees(e) && e.namespace@ == namespace
}

/// `a` comes before `b` as text: `b` goes on where `a` ends, or has the greater
/// character where the two first differ.
pub open spec fn sorts_before(a: Seq<char>, b: Seq<char>) -> bool {
    exists|n: int|
        {
            &&& 0 <= n <= a.len()
            &&& n < b.len()
            &&& #[trigger] same_up_to(a, b, n)
            &&& n == a.len() || a[n] < b[n]
        }
}

/// The texts agree on their first `n` characters.
pub open spec fn same_up_to(a: Seq<char>, b: Seq<char>, n: int) -> bool {
    forall|i: int| 0 <= i < n ==> a[i] == b[i]
}

/// Holds of the rows that the agent sees and that meet each condition that the
/// filter names: the namespace, not before the earliest time, and not after the
/// latest.
pub open spec fn seen_and_asked_for(
    scope: Scope,
    filter: ExportFilter,
) -> spec_fn(MemoryEntry) -> bool {
    |e: MemoryEntry|
        {
            &&& scope.sees(e)
            &&& filter.namespace is Some ==> e.namespace@ == filter.namespace->0@
            &&& filter.since is Some ==> !sorts_before(e.timestamp@, filter.since->0@)
            &&& filter.until is Some ==> !sorts_before(filter.until->0@, e.timestamp@)
        }
}

/// The result hands on the failure, or gives the rows of the answer that meet a
/// condition, all of them and in their order.
pub open spec fn gives<E>(
    reply: Result<Vec<MemoryEntry>, E>,
    pred: spec_fn(MemoryEntry) -> bool,
    result: Result<Vec<MemoryEntry>, E>,
) -> bool {
    match reply {
        Err(e) => result == Err::<Vec<MemoryEntry>, E>(e),
        Ok(rows) => result matches Ok(kept) && kept@ == rows@.filter(pred),
    }
}

/// Recalls and listings give every row of the backend's answer that the agent
/// sees, and no other, in the order of the answer.
pub proof fn law_reads_are_complete<M, E>(
    memory: &AgentScopedMemory<M>,
    reply: Result<Vec<MemoryEntry>, E>,
    recalled: Result<Vec<MemoryEntry>, E>,
    recalled_for: Result<Vec<MemoryEntry>, E>,
    shown: Result<Vec<MemoryEntry>, E>,
    counted: Result<usize, E>,
)
    requires
        call_ensures(AgentScopedMemory::<M>::recall_reply::<E>, (memory, reply), recalled),
        call_ensures(
            AgentScopedMemory::<M>::recall_for_agents_reply::<E>,
            (memory, reply),
            recalled_for,
        ),
        call_ensures(AgentScopedMemory::<M>::list_reply::<E>, (memory, reply), shown),
        call_ensures(AgentScopedMemory::<M>::count_reply::<E>, (memory, reply), counted),
    ensures
        gives(reply, seen(memory@), recalled),
        gives(reply, seen(memory@), recalled_for),
        gives(reply, seen(memory@), shown),
        match reply {
            Err(e) => counted == Err::<usize, E>(e),
            Ok(rows) => counted matches Ok(n) && n == rows@.filter(seen(memory@)).len(),
        },
{
    if let Ok(rows) = reply {
        lemma_filter_agree(rows@, |e: MemoryEntry| memory@.sees(e), seen(memory@));
        assert(memory@.visible(rows@) == rows@.filter(seen(memory@)));
    }
}

/// A recall in one namespace gives the rows of the backend's answer that the
/// agent sees and that are in the namespace, in the order of the answer: all of
/// them, or the first `limit` where there are more.
pub proof fn law_namespaced_recall_is_complete<M, E>(
    memory: &AgentScopedMemory<M>,
    namespace: &String,
    limit: usize,
    reply: Result<Vec<MemoryEntry>, E>,
    result: Result<Vec<MemoryEntry>, E>,
)
    requires
        call_ensures(
            AgentScopedMemory::<M>::recall_namespaced_reply::<E>,
            (memory, namespace, limit, reply),
            result,
        ),
    ensures
        match reply {
            Err(e) => result == Err::<Vec<MemoryEntry>, E>(e),
            Ok(rows) => {
                let fit = rows@.filter(seen_in(memory@, namespace@));
                &&& result matches Ok(kept)
                &&& kept@.len() == if fit.len() <= limit {
                    fit.len()
                } else {
                    limit as nat
                }
                &&& forall|i: int| 0 <= i < kept@.len() ==> #[trigger] kept@[i] == fit[i]
            },
        },
        reply matches Ok(rows) ==> result matches Ok(kept) && forall|i: int|
            0 <= i < rows@.len() && memory@.sees(#[trigger] rows@[i]) && rows@[i].namespace@
                == namespace@ && kept@.len() < limit ==> kept@.contains(rows@[i]),
{
    if let Ok(rows) = reply {
        let both = seen_in(memory@, namespace@);
        let all = memory@.visible(rows@);
        lemma_filter_agree(rows@, |e: MemoryEntry| memory@.sees(e), seen(memory@));
        assert(all == rows@.filter(seen(memory@)));
        let meets = crate::memory::reads::of_namespace(namespace@);
        lemma_filter_twice(rows@, seen(memory@), meets, both);
        let fit = rows@.filter(both);
        let kept = result->Ok_0@;
        if kept.len() < limit {
            assert(kept =~= fit);
            assert forall|i: int|
                0 <= i < rows@.len() && memory@.sees(#[trigger] rows@[i]) && rows@[i].namespace@
                    == namespace@ implies kept.contains(rows@[i]) by {
                rows@.lemma_filter_contains(both, i);
            }
        }
    }
}

/// Texts are ordered by the first character in which they differ, and a text
/// comes before any that goes on from it. This is the order of the timestamps in
/// an export.
pub proof fn law_text_order(a: &str, b: &str, before: bool)
    requires
        call_ensures(crate::text::text_precedes, (a, b), before),
    ensures
        before == sorts_before(a@, b@),
{
    lemma_sorts_before(a@, b@);
}

proof fn lemma_sorts_before(a: Seq<char>, b: Seq<char>)
    ensures
        sorts_before(a, b) == crate::text::precedes(a, b),
{
    if crate::text::precedes(a, b) {
        let n = choose|n: int| #[trigger] crate::text::splits_before(a, b, n);
        assert forall|i: int| 0 <= i < n implies a[i] == b[i] by {
            assert(a.take(n)[i] == b.take(n)[i]);
        }
        assert(same_up_to(a, b, n));
    }
    if sorts_before(a, b) {
        let n = choose|n: int|
            {
                &&& 0 <= n <= a.len()
                &&& n < b.len()
                &&& #[trigger] same_up_to(a, b, n)
                &&& n == a.len() || a[n] < b[n]
            };
        assert(a.take(n) =~= b.take(n));
        assert(crate::text::splits_before(a, b, n));
    }
}

/// An export lists the rows of the filter's category and session, and gives
/// those that the agent sees and that meet each of the filter's other
/// conditions, all of them and in their order. Each condition binds by itself.
pub proof fn law_export_is_complete<M, E>(
    memory: &AgentScopedMemory<M>,
    filter: &ExportFilter,
    call: BackendCall,
    reply: Result<Vec<MemoryEntry>, E>,
    result: Result<Vec<MemoryEntry>, E>,
)
    requires
        call_ensures(AgentScopedMemory::<M>::export, (memory, filter), call),
        call_ensures(
            AgentScopedMemory::<M>::export_reply::<E>,
            (memory, filter, reply),
            result,
        ),
    ensures
        call == (BackendCall::List { category: filter.category, session_id: filter.session_id }),
        gives(reply, seen_and_asked_for(memory@, *filter), result),
        result matches Ok(kept) ==> forall|i: int|
            0 <= i < kept@.len() ==> {
                let e = #[trigger] kept@[i];
                &&& memory@.sees(e)
                &&& filter.namespace matches Some(ns) ==> e.namespace@ == ns@
                &&& filter.since matches Some(t) ==> !sorts_before(e.timestamp@, t@)
                &&& filter.until matches Some(t) ==> !sorts_before(t@, e.timestamp@)
            },
{
    if let Ok(rows) = reply {
        let both = seen_and_asked_for(memory@, *filter);
        let all = memory@.visible(rows@);
        lemma_filter_agree(rows@, |e: MemoryEntry| memory@.sees(e), seen(memory@));
        assert(all == rows@.filter(seen(memory@)));
        let meets = |e: MemoryEntry| filter.admits(e);
        assert forall|i: int| 0 <= i < rows@.len() implies both(#[trigger] rows@[i]) == (seen(
            memory@,
        )(rows@[i]) && meets(rows@[i])) by {
            let e = rows@[i];
            if let Some(since) = filter.since {
                lemma_sorts_before(e.timestamp@, since@);
            }
            if let Some(until) = filter.until {
                lemma_sorts_before(until@, e.timestamp@);
            }
        }
        lemma_filter_twice(rows@, seen(memory@), meets, both);
        let kept = result->Ok_0@;
        assert(kept == rows@.filter(both));
        assert forall|i: int| 0 <= i < kept.len() implies both(#[trigger] kept[i]) by {
            rows@.lemma_filter_pred(both, i);
        }
    }
}

/// The call recalls for the query with the limit, the session and the time
/// window.
pub open spec fn recalls(
    call: BackendCall,
    query: String,
    limit: int,
    session_id: Option<String>,
    since: Option<String>,
    until: Option<String>,
) -> bool {
    call matches BackendCall::RecallForAgents {
        query: q,
        limit: l,
        session_id: s,
        since: from,
        until: to,
        ..
    } && q == query && l == limit && s == session_id && from == since && to == until
}

/// A recall asks for all that the caller asked for, among all agents whose rows
/// may be read, each once. In one namespace twice the rows are asked for.
pub proof fn law_recalls_ask_the_readable_agents<M>(
    memory: &AgentScopedMemory<M>,
    query: String,
    limit: usize,
    session_id: Option<String>,
    since: Option<String>,
    until: Option<String>,
    call: BackendCall,
    in_namespace: BackendCall,
)
    requires
        call_ensures(
            AgentScopedMemory::<M>::recall,
            (memory, query, limit, session_id, since, until),
            call,
        ),
        call_ensures(
            AgentScopedMemory::<M>::recall_namespaced,
            (memory, query, limit, session_id, since, until),
            in_namespace,
        ),
    ensures
        recalls(call, query, limit as int, session_id, since, until),
        recalls(in_namespace, query, limit * 2, session_id, since, until),
        lists_once(call->RecallForAgents_allowed@),
        lists_once(in_namespace->RecallForAgents_allowed@),
        forall|id: Seq<char>| #[trigger]
            memory@.grants.contains_key(id) <==> lists(call->RecallForAgents_allowed@, id),
        forall|id: Seq<char>| #[trigger]
            memory@.grants.contains_key(id) <==> lists(in_namespace->RecallForAgents_allowed@, id),
{
    let a = call->RecallForAgents_allowed@;
    let b = in_namespace->RecallForAgents_allowed@;
    lemma_lists_once(a);
    lemma_lists_once(b);
    assert forall|id: Seq<char>| #[trigger]
        memory@.grants.contains_key(id) <==> lists(a, id) by {
        lemma_texts_contains(a, id);
    }
    assert forall|id: Seq<char>| #[trigger]
        memory@.grants.contains_key(id) <==> lists(b, id) by {
        lemma_texts_contains(b, id);
    }
}

/// Holds of the agents whose rows may be read.
pub open spec fn granted_by(scope: Scope) -> spec_fn(String) -> bool {
    |id: String| scope.grants.contains_key(id@)
}

/// A recall among named agents asks those of them whose rows may be read, in the
/// caller's order, and all such agents where none is named. Where none is left,
/// nothing is asked and nothing found.
pub proof fn law_named_recall_asks_who_is_named_and_granted<M>(
    memory: &AgentScopedMemory<M>,
    caller: Vec<String>,
    query: String,
    limit: usize,
    session_id: Option<String>,
    since: Option<String>,
    until: Option<String>,
    plan: Plan<Vec<MemoryEntry>>,
)
    requires
        call_ensures(
            AgentScopedMemory::<M>::recall_for_agents,
            (memory, caller, query, limit, session_id, since, until),
            plan,
        ),
    ensures
        match plan {
            Plan::Answer(rows) => {
                &&& rows@.len() == 0
                &&& caller@.len() > 0
                &&& forall|k: int|
                    0 <= k < caller@.len() ==> !memory@.grants.contains_key(#[trigger] caller@[k]@)
            },
            Plan::Ask(call) => {
                let asked = call->RecallForAgents_allowed@;
                &&& recalls(call, query, limit as int, session_id, since, until)
                &&& caller@.len() == 0 ==> {
                    &&& lists_once(asked)
                    &&& forall|id: Seq<char>| #[trigger]
                        memory@.grants.contains_key(id) <==> lists(asked, id)
                }
                &&& caller@.len() > 0 ==> {
                    let kept = caller@.filter(granted_by(memory@));
                    &&& asked.len() == kept.len()
                    &&& asked.len() > 0
                    &&& forall|k: int| 0 <= k < asked.len() ==> #[trigger] asked[k]@ == kept[k]@
                }
            },
        },
{
    let by_text = |id: Seq<char>| memory@.grants.contains_key(id);
    lemma_texts_filter(caller@, granted_by(memory@), by_text);
    let kept = caller@.filter(granted_by(memory@));
    assert(texts(kept).len() == kept.len());
    match plan {
        Plan::Answer(rows) => {
            assert forall|k: int| 0 <= k < caller@.len() implies !memory@.grants.contains_key(
                #[trigger] caller@[k]@,
            ) by {
                if granted_by(memory@)(caller@[k]) {
                    caller@.lemma_filter_contains(granted_by(memory@), k);
                }
            }
        },
        Plan::Ask(call) => {
            let asked = call->RecallForAgents_allowed@;
            assert(texts(asked).len() == asked.len());
            if caller@.len() == 0 {
                lemma_lists_once(asked);
                assert forall|id: Seq<char>| #[trigger]
                    memory@.grants.contains_key(id) <==> lists(asked, id) by {
                    lemma_texts_contains(asked, id);
                }
            } else {
                assert forall|k: int| 0 <= k < asked.len() implies #[trigger] asked[k]@
                    == kept[k]@ by {
                    assert(texts(asked)[k] == asked[k]@ && texts(kept)[k] == kept[k]@);
                }
            }
        },
    }
}

proof fn lemma_texts_filter(
    list: Seq<String>,
    p: spec_fn(String) -> bool,
    q: spec_fn(Seq<char>) -> bool,
)
    requires
        forall|k: int| 0 <= k < list.len() ==> p(#[trigger] list[k]) == q(list[k]@),
    ensures
        texts(list.filter(p)) == texts(list).filter(q),
    decreases list.len(),
{
    reveal(Seq::filter);
    if list.len() > 0 {
        let rest = list.drop_last();
        assert forall|k: int| 0 <= k < rest.len() implies p(#[trigger] rest[k]) == q(rest[k]@) by {
            assert(rest[k] == list[k]);
        }
        lemma_texts_filter(rest, p, q);
        assert(texts(list).drop_last() =~= texts(rest));
        assert(texts(list).last() == list.last()@);
        assert(p(list[list.len() - 1]) == q(list[list.len() - 1]@));
        assert(texts(rest.filter(p).push(list.last())) =~= texts(rest.filter(p)).push(
            list.last()@,
        ));
    } else {
        assert(texts(list.filter(p)) =~= texts(list).filter(q));
    }
}

/// The calls are those of a lookup of `key` that ended with `result`, on a
/// backend that answers `rows(id)` for the row of agent `id`.
pub open spec fn looked_up<M, E>(
    memory: &AgentScopedMemory<M>,
    key: String,
    rows: spec_fn(Seq<char>) -> Result<Option<MemoryEntry>, E>,
    calls: Seq<BackendCall>,
    scans: Seq<GetScan>,
    result: Result<Option<MemoryEntry>, E>,
) -> bool {
    &&& calls.len() > 0
    &&& scans.len() == calls.len()
    &&& call_ensures(AgentScopedMemory::<M>::get, (memory, key), (calls[0], scans[0]))
    &&& forall|i: int|
        0 <= i < calls.len() - 1 ==> call_ensures(
            AgentScopedMemory::<M>::get_reply::<E>,
            (memory, scans[i], rows(asked_of(#[trigger] calls[i]))),
            GetStep::Ask(calls[i + 1], scans[i + 1]),
        )
    &&& call_ensures(
        AgentScopedMemory::<M>::get_reply::<E>,
        (memory, scans.last(), rows(asked_of(calls.last()))),
        GetStep::Done(result),
    )
}

/// The agent whose row the call asks for.
pub open spec fn asked_of(call: BackendCall) -> Seq<char> {
    call->GetForAgent_agent_id@
}

/// The backend has a row for the agent, and it is readable.
pub open spec fn has_readable<E>(scope: Scope, reply: Result<Option<MemoryEntry>, E>) -> bool {
    reply matches Ok(found) && found is Some && scope.sees(found->0)
}

/// A lookup asks for the key, the bound agent first, and only agents whose rows
/// may be read. A row that it ends with is readable, and is the answer of the
/// agent asked last. It ends without a row only where no agent that may be read
/// has a readable one, and fails only where an agent's answer was a failure. The
/// bound agent's readable row is taken before any other.
pub proof fn law_lookup_goes_through_all_readable_agents<M, E>(
    memory: &AgentScopedMemory<M>,
    key: String,
    rows: spec_fn(Seq<char>) -> Result<Option<MemoryEntry>, E>,
    calls: Seq<BackendCall>,
    scans: Seq<GetScan>,
    result: Result<Option<MemoryEntry>, E>,
)
    requires
        looked_up(memory, key, rows, calls, scans, result),
    ensures
        asked_of(calls[0]) == memory@.agent,
        forall|i: int|
            0 <= i < calls.len() ==> {
                &&& #[trigger] calls[i] matches BackendCall::GetForAgent { key: k, .. }
                &&& k == key
                &&& memory@.grants.contains_key(asked_of(calls[i]))
            },
        result matches Ok(Some(e)) ==> memory@.sees(e) && rows(asked_of(calls.last())) == result,
        result matches Err(e) ==> rows(asked_of(calls.last())) == result,
        result == Ok::<Option<MemoryEntry>, E>(None) ==> forall|id: Seq<char>| #[trigger]
            memory@.grants.contains_key(id) ==> rows(id) is Ok && !has_readable(memory@, rows(id)),
        has_readable(memory@, rows(memory@.agent)) ==> result == rows(memory@.agent),
{
    let last = calls.len() - 1;
    lemma_lookup(memory, key, rows, calls, scans, result, last);
    assert(calls[last] == calls.last() && scans[last] == scans.last());
    assert forall|i: int| 0 <= i < calls.len() implies {
        &&& #[trigger] calls[i] matches BackendCall::GetForAgent { key: k, .. }
        &&& k == key
        &&& memory@.grants.contains_key(asked_of(calls[i]))
    } by {
        lemma_lookup(memory, key, rows, calls, scans, result, i);
    }
    if result == Ok::<Option<MemoryEntry>, E>(None) {
        assert forall|id: Seq<char>| #[trigger] memory@.grants.contains_key(id) implies rows(id)
            is Ok && !has_readable(memory@, rows(id)) by {
            assert(!texts(scans[last].rest@).contains(id)) by {
                assert(texts(scans[last].rest@).len() == 0);
            }
            let i = choose|i: int| 0 <= i <= last && asked_of(#[trigger] calls[i]) == id;
            if i < last {
                assert(rows(id) is Ok && !has_readable(memory@, rows(id)));
            }
        }
    }
    if has_readable(memory@, rows(memory@.agent)) {
        lemma_lookup(memory, key, rows, calls, scans, result, 0);
        assert(last == 0) by {
            if last > 0 {
                assert(asked_of(calls[0]) == memory@.agent);
            }
        }
    }
}

proof fn lemma_lookup<M, E>(
    memory: &AgentScopedMemory<M>,
    key: String,
    rows: spec_fn(Seq<char>) -> Result<Option<MemoryEntry>, E>,
    calls: Seq<BackendCall>,
    scans: Seq<GetScan>,
    result: Result<Option<MemoryEntry>, E>,
    n: int,
)
    requires
        looked_up(memory, key, rows, calls, scans, result),
        0 <= n < calls.len(),
    ensures
        asked_of(calls[0]) == memory@.agent,
        calls[n] matches BackendCall::GetForAgent { key: k, .. } && k == key,
        scans[n].key == key,
        memory@.grants.contains_key(asked_of(calls[n])),
        forall|j: int|
            0 <= j < scans[n].rest@.len() ==> memory@.grants.contains_key(
                #[trigger] scans[n].rest@[j]@,
            ),
        forall|i: int|
            0 <= i < n ==> rows(asked_of(#[trigger] calls[i])) is Ok && !has_readable(
                memory@,
                rows(asked_of(calls[i])),
            ),
        forall|id: Seq<char>| #[trigger]
            memory@.grants.contains_key(id) ==> texts(scans[n].rest@).contains(id) || exists|
                i: int,
            |
                0 <= i <= n && asked_of(#[trigger] calls[i]) == id,
    decreases n,
{
    if n == 0 {
        assert forall|id: Seq<char>| #[trigger] memory@.grants.contains_key(id) implies texts(
            scans[n].rest@,
        ).contains(id) || exists|i: int| 0 <= i <= n && asked_of(#[trigger] calls[i]) == id by {
            if id == memory@.agent {
                assert(asked_of(calls[0]) == id);
            } else {
                assert(texts(scans[0].rest@).contains(id));
            }
        }
    } else {
        lemma_lookup(memory, key, rows, calls, scans, result, n - 1);
        let before = scans[n - 1].rest@;
        let now = scans[n].rest@;
        assert(call_ensures(
            AgentScopedMemory::<M>::get_reply::<E>,
            (memory, scans[n - 1], rows(asked_of(calls[n - 1]))),
            GetStep::Ask(calls[n - 1 + 1], scans[n - 1 + 1]),
        ));
        assert(now == before.drop_last());
        assert(asked_of(calls[n]) == before.last()@);
        assert(before[before.len() - 1]@ == asked_of(calls[n]));
        assert forall|j: int| 0 <= j < now.len() implies memory@.grants.contains_key(
            #[trigger] now[j]@,
        ) by {
            assert(now[j] == before[j]);
        }
        assert forall|id: Seq<char>| #[trigger] memory@.grants.contains_key(id) implies texts(
            now,
        ).contains(id) || exists|i: int| 0 <= i <= n && asked_of(#[trigger] calls[i]) == id by {
            if texts(before).contains(id) {
                let k = texts(before).index_of(id);
                assert(texts(before).len() == before.len());
                if k < before.len() - 1 {
                    assert(texts(now)[k] == id);
                } else {
                    assert(asked_of(calls[n]) == id);
                }
            } else {
                let i = choose|i: int| 0 <= i <= n - 1 && asked_of(#[trigger] calls[i]) == id;
                assert(asked_of(calls[i]) == id);
            }
        }
    }
}

/// A lookup among the rows of one agent asks the backend exactly where rows of
/// that agent may be read, and gives the row that was found exactly where it is
/// readable.
pub proof fn law_lookup_for_agent<M, E>(
    memory: &AgentScopedMemory<M>,
    key: String,
    agent_id: String,
    plan: Plan<Option<MemoryEntry>>,
    reply: Result<Option<MemoryEntry>, E>,
    result: Result<Option<MemoryEntry>, E>,
)
    requires
        call_ensures(AgentScopedMemory::<M>::get_for_agent, (memory, key, agent_id), plan),
        call_ensures(AgentScopedMemory::<M>::get_for_agent_reply::<E>, (memory, reply), result),
    ensures
        memory@.grants.contains_key(agent_id@) ==> plan == Plan::<Option<MemoryEntry>>::Ask(
            BackendCall::GetForAgent { key, agent_id },
        ),
        !memory@.grants.contains_key(agent_id@) ==> plan == Plan::<Option<MemoryEntry>>::Answer(
            None,
        ),
        reply is Err ==> result == reply,
        has_readable(memory@, reply) ==> result == reply,
        reply is Ok && !has_readable(memory@, reply) ==> result == Ok::<Option<MemoryEntry>, E>(
            None,
        ),
{
}

/// The call stores the row as the agent's, with all that is given.
pub open spec fn stores_row(
    call: BackendCall,
    key: String,
    content: String,
    category: MemoryCategory,
    session_id: Option<String>,
    namespace: Option<String>,
    importance: Option<Weight>,
    agent: Seq<char>,
) -> bool {
    &&& call is StoreWithAgent
    &&& call->StoreWithAgent_key == key
    &&& call->StoreWithAgent_content == content
    &&& call->StoreWithAgent_category == category
    &&& call->StoreWithAgent_session_id == session_id
    &&& call->StoreWithAgent_namespace == namespace
    &&& call->StoreWithAgent_importance == importance
    &&& call->StoreWithAgent_agent_id is Some
    &&& call->StoreWithAgent_agent_id->0@ == agent
}

/// The call stores the row with options as the agent's, with all that is given.
pub open spec fn stores_row_with_options(
    call: BackendCall,
    key: String,
    content: String,
    category: MemoryCategory,
    session_id: Option<String>,
    options: StoreOptions,
    agent: Seq<char>,
) -> bool {
    &&& call is StoreWithOptionsAndAgent
    &&& call->StoreWithOptionsAndAgent_key == key
    &&& call->StoreWithOptionsAndAgent_content == content
    &&& call->StoreWithOptionsAndAgent_category == category
    &&& call->StoreWithOptionsAndAgent_session_id == session_id
    &&& call->StoreWithOptionsAndAgent_options == options
    &&& call->StoreWithOptionsAndAgent_agent_id is Some
    &&& call->StoreWithOptionsAndAgent_agent_id->0@ == agent
}

/// Every store hands on all that the caller gave, under the bound agent. A store
/// for a named agent goes through exactly where that is the bound one, and is
/// otherwise refused.
pub proof fn law_stores_hand_everything_on<M>(
    memory: &AgentScopedMemory<M>,
    key: String,
    content: String,
    category: MemoryCategory,
    session_id: Option<String>,
    namespace: Option<String>,
    importance: Option<Weight>,
    agent_id: Option<String>,
    plain: BackendCall,
    with_metadata: BackendCall,
    with_agent: Result<BackendCall, Refusal>,
)
    requires
        call_ensures(
            AgentScopedMemory::<M>::store,
            (memory, key, content, category, session_id),
            plain,
        ),
        call_ensures(
            AgentScopedMemory::<M>::store_with_metadata,
            (memory, key, content, category, session_id, namespace, importance),
            with_metadata,
        ),
        call_ensures(
            AgentScopedMemory::<M>::store_with_agent,
            (memory, key, content, category, session_id, namespace, importance, agent_id),
            with_agent,
        ),
    ensures
        stores_row(plain, key, content, category, session_id, None, None, memory@.agent),
        stores_row(
            with_metadata,
            key,
            content,
            category,
            session_id,
            namespace,
            importance,
            memory@.agent,
        ),
        agent_id is Some && agent_id->0@ != memory@.agent ==> with_agent == Err::<
            BackendCall,
            Refusal,
        >(Refusal::ForeignStore),
        agent_id is None || agent_id->0@ == memory@.agent ==> with_agent is Ok && stores_row(
            with_agent->Ok_0,
            key,
            content,
            category,
            session_id,
            namespace,
            importance,
            memory@.agent,
        ),
{
}

/// Every store with options hands on all that the caller gave, under the bound
/// agent. One for a named agent goes through exactly where that is the bound
/// one, and is otherwise refused.
pub proof fn law_stores_with_options_hand_everything_on<M>(
    memory: &AgentScopedMemory<M>,
    key: String,
    content: String,
    category: MemoryCategory,
    session_id: Option<String>,
    options: StoreOptions,
    agent_id: Option<String>,
    with_options: BackendCall,
    with_agent: Result<BackendCall, Refusal>,
)
    requires
        call_ensures(
            AgentScopedMemory::<M>::store_with_options,
            (memory, key, content, category, session_id, options),
            with_options,
        ),
        call_ensures(
            AgentScopedMemory::<M>::store_with_options_and_agent,
            (memory, key, content, category, session_id, options, agent_id),
            with_agent,
        ),
    ensures
        stores_row_with_options(
            with_options,
            key,
            content,
            category,
            session_id,
            options,
            memory@.agent,
        ),
        agent_id is Some && agent_id->0@ != memory@.agent ==> with_agent == Err::<
            BackendCall,
            Refusal,
        >(Refusal::ForeignStoreWithOptions),
        agent_id is None || agent_id->0@ == memory@.agent ==> with_agent is Ok
            && stores_row_with_options(
            with_agent->Ok_0,
            key,
            content,
            category,
            session_id,
            options,
            memory@.agent,
        ),
{
}

/// A procedural trace is handed on whole, under the bound agent.
pub proof fn law_traces_are_handed_on<M>(
    memory: &AgentScopedMemory<M>,
    messages: Vec<ProceduralMessage>,
    session_id: Option<String>,
    call: BackendCall,
)
    requires
        call_ensures(
            AgentScopedMemory::<M>::store_procedural,
            (memory, messages, session_id),
            call,
        ),
    ensures
        call is StoreProcedural,
        call->StoreProcedural_messages == messages,
        call->StoreProcedural_session_id == session_id,
        call->StoreProcedural_agent_id is Some,
        call->StoreProcedural_agent_id->0@ == memory@.agent,
{
}

/// Purging a session reaches what was stored in it: the purge and each store in
/// the session name the same session and the same agent.
pub proof fn law_purge_reaches_what_was_stored<M>(
    memory: &AgentScopedMemory<M>,
    session_id: String,
    key: String,
    content: String,
    category: MemoryCategory,
    options: StoreOptions,
    stored: BackendCall,
    stored_with_options: BackendCall,
    purge: BackendCall,
)
    requires
        call_ensures(
            AgentScopedMemory::<M>::store,
            (memory, key, content, category, Some(session_id)),
            stored,
        ),
        call_ensures(
            AgentScopedMemory::<M>::store_with_options,
            (memory, key, content, category, Some(session_id), options),
            stored_with_options,
        ),
        call_ensures(AgentScopedMemory::<M>::purge_session, (memory, session_id), purge),
    ensures
        purge is PurgeSessionForAgent,
        purge->PurgeSessionForAgent_session_id == session_id,
        purge->PurgeSessionForAgent_agent_id@ == memory@.agent,
        stored->StoreWithAgent_session_id == Some(purge->PurgeSessionForAgent_session_id),
        stored->StoreWithAgent_agent_id->0@ == purge->PurgeSessionForAgent_agent_id@,
        stored_with_options->StoreWithOptionsAndAgent_session_id == Some(
            purge->PurgeSessionForAgent_session_id,
        ),
        stored_with_options->StoreWithOptionsAndAgent_agent_id->0@
            == purge->PurgeSessionForAgent_agent_id@,
{
}

/// A deletion by key asks for the bound agent's row to go. Where it went, that is
/// reported. Where there was none, the key is looked up: nothing there is
/// reported as such, and a row that is there is refused, as another agent's
/// where it has a writer and as no one's where it has none. A failure of the
/// backend is handed on at once.
pub proof fn law_forget_ends_as_it_should<M, E>(
    memory: &AgentScopedMemory<M>,
    key: String,
    first: BackendCall,
    reply: Result<bool, E>,
    step: ForgetStep<E>,
    found: Result<Option<MemoryEntry>, E>,
    end: Result<bool, MemoryError<E>>,
)
    requires
        call_ensures(AgentScopedMemory::<M>::forget, (memory, key), first),
        call_ensures(AgentScopedMemory::<M>::forget_reply::<E>, (memory, key, reply), step),
        call_ensures(AgentScopedMemory::<M>::forget_look_reply::<E>, (memory, found), end),
    ensures
        first is ForgetForAgent,
        first->ForgetForAgent_key == key,
        first->ForgetForAgent_agent_id@ == memory@.agent,
        reply matches Err(e) ==> step == ForgetStep::<E>::Done(Err(MemoryError::Backend(e))),
        reply matches Ok(gone) ==> gone ==> step == ForgetStep::<E>::Done(Ok(true)),
        reply matches Ok(gone) ==> !gone ==> step == ForgetStep::<E>::Look(
            BackendCall::Get { key },
        ),
        found matches Err(e) ==> end == Err::<bool, MemoryError<E>>(MemoryError::Backend(e)),
        found matches Ok(None) ==> end == Ok::<bool, MemoryError<E>>(false),
        found matches Ok(Some(row)) ==> row.agent_id is Some ==> end == Err::<
            bool,
            MemoryError<E>,
        >(MemoryError::Refused(Refusal::ForgetOfForeignRow)),
        found matches Ok(Some(row)) ==> row.agent_id is None ==> end == Err::<
            bool,
            MemoryError<E>,
        >(MemoryError::Refused(Refusal::ForgetOfUnattributedRow)),
{
}

/// A deletion for a named agent goes through exactly where that is the bound
/// one, and a namespace is never purged.
pub proof fn law_other_deletions_are_refused<M>(
    memory: &AgentScopedMemory<M>,
    key: String,
    agent_id: String,
    namespace: &String,
    deletion: Result<BackendCall, Refusal>,
    purge: Result<BackendCall, Refusal>,
)
    requires
        call_ensures(AgentScopedMemory::<M>::forget_for_agent, (memory, key, agent_id), deletion),
        call_ensures(AgentScopedMemory::<M>::purge_namespace, (memory, namespace), purge),
    ensures
        agent_id@ == memory@.agent ==> deletion == Ok::<BackendCall, Refusal>(
            BackendCall::ForgetForAgent { key, agent_id },
        ),
        agent_id@ != memory@.agent ==> deletion == Err::<BackendCall, Refusal>(
            Refusal::ForgetForForeignAgent,
        ),
        purge == Err::<BackendCall, Refusal>(Refusal::NamespacePurge),
{
}

/// The remaining calls are handed on as they were asked for.
pub proof fn law_other_calls_are_handed_on<M>(
    memory: &AgentScopedMemory<M>,
    category: Option<MemoryCategory>,
    session_id: Option<String>,
    alias: String,
    model_provider: String,
    api_key: Option<String>,
    model: String,
    dimensions: usize,
    listing: BackendCall,
    counting: BackendCall,
    health: BackendCall,
    reindexing: BackendCall,
    naming: BackendCall,
    refresh: BackendCall,
)
    requires
        call_ensures(AgentScopedMemory::<M>::list, (memory, category, session_id), listing),
        call_ensures(AgentScopedMemory::<M>::count, (memory,), counting),
        call_ensures(AgentScopedMemory::<M>::health_check, (memory,), health),
        call_ensures(AgentScopedMemory::<M>::reindex, (memory,), reindexing),
        call_ensures(AgentScopedMemory::<M>::ensure_agent_uuid, (memory, alias), naming),
        call_ensures(
            AgentScopedMemory::<M>::refresh_embedder,
            (memory, model_provider, api_key, model, dimensions),
            refresh,
        ),
    ensures
        listing == (BackendCall::List { category, session_id }),
        counting == (BackendCall::List { category: None, session_id: None }),
        health == BackendCall::HealthCheck,
        reindexing == BackendCall::Reindex,
        naming == (BackendCall::EnsureAgentUuid { alias }),
        refresh == (BackendCall::RefreshEmbedder { model_provider, api_key, model, dimensions }),
{
}

/// A category is named by its kind, and one that the operator named by that.
pub proof fn law_category_names(category: &MemoryCategory, name: String)
    requires
        call_ensures(MemoryCategory::to_text, (category,), name),
    ensures
        *category == MemoryCategory::Core ==> name@ == "core"@,
        *category == MemoryCategory::Daily ==> name@ == "daily"@,
        *category == MemoryCategory::Conversation ==> name@ == "conversation"@,
        *category matches MemoryCategory::Custom(own) ==> name@ == own@,
{
}

/// Each refusal is put in words of its own.
pub proof fn law_refusals_in_words(why: &Refusal, words: String)
    requires
        call_ensures(Refusal::message, (why,), words),
    ensures
        *why == Refusal::ForeignStore ==> words@
            == "AgentScopedMemory refuses store_with_agent for foreign agent_id; use a wrapper bound to the target agent"@,
        *why == Refusal::ForeignStoreWithOptions ==> words@
            == "AgentScopedMemory refuses store_with_options_and_agent for foreign agent_id; use a wrapper bound to the target agent"@,
        *why == Refusal::ForgetOfForeignRow ==> words@
            == "AgentScopedMemory refuses to forget cross-agent row: key attributed to agent other than the bound agent"@,
        *why == Refusal::ForgetOfUnattributedRow ==> words@
            == "AgentScopedMemory refuses to forget unattributed row: legacy or backend without per-agent tracking; resolve via an admin Memory handle"@,
        *why == Refusal::ForgetForForeignAgent ==> words@
            == "AgentScopedMemory refuses cross-agent forget_for_agent: bound agent and target agent differ"@,
        *why == Refusal::NamespacePurge ==> words@
            == "AgentScopedMemory refuses purge_namespace: cross-agent bulk delete must run through an admin Memory handle"@,
{
}

} // verus!
