//! How an agent-scoped memory reads: the calls that go to the backend, and
//! what of its answers reaches the caller.

use vstd::prelude::*;

use crate::memory::agent_scoped::AgentScopedMemory;
use crate::memory::call::{BackendCall, GetScan, GetStep, Plan};
use crate::memory::entry::{ExportFilter, MemoryCategory, MemoryEntry};
use crate::memory::scope::Scope;
use crate::seqs::{lemma_filter_first, lemma_filter_next, lemma_filter_no_duplicates};
use crate::text::{text_precedes, texts};

verus! {

/// Whether the row meets the filter's conditions on namespace and time.
fn admits(filter: &ExportFilter, e: &MemoryEntry) -> (r: bool)
    ensures
        r == filter.admits(*e),
{
    if let Some(ns) = &filter.namespace {
        if e.namespace != *ns {
            return false;
        }
    }
    if let Some(since) = &filter.since {
        if text_precedes(e.timestamp.as_str(), since.as_str()) {
            return false;
        }
    }
    if let Some(until) = &filter.until {
        if text_precedes(until.as_str(), e.timestamp.as_str()) {
            return false;
        }
    }
    true
}

/// Holds of the rows of one namespace.
pub open spec fn of_namespace(namespace: Seq<char>) -> spec_fn(MemoryEntry) -> bool {
    |e: MemoryEntry| e.namespace@ == namespace
}

/// The rows of one namespace.
pub open spec fn in_namespace(rows: Seq<MemoryEntry>, namespace: Seq<char>) -> Seq<MemoryEntry> {
    rows.filter(of_namespace(namespace))
}

/// The rows that a filter admits.
pub open spec fn admitted(rows: Seq<MemoryEntry>, filter: ExportFilter) -> Seq<MemoryEntry> {
    rows.filter(|e: MemoryEntry| filter.admits(e))
}

/// The first `limit` rows, or all where there are fewer.
pub open spec fn first_of(rows: Seq<MemoryEntry>, limit: nat) -> Seq<MemoryEntry> {
    if rows.len() <= limit {
        rows
    } else {
        rows.take(limit as int)
    }
}

/// How a lookup goes on: the row that was found is the result if it is
/// readable, and otherwise the next sibling is asked.
pub open spec fn get_goes_on<E>(
    scope: Scope,
    scan: GetScan,
    reply: Result<Option<MemoryEntry>, E>,
    step: GetStep<E>,
) -> bool {
    match reply {
        Err(e) => step == GetStep::Done(Err::<Option<MemoryEntry>, E>(e)),
        Ok(found) => if found is Some && scope.sees(found->0) {
            step == GetStep::Done(Ok::<Option<MemoryEntry>, E>(found))
        } else if scan.rest@.len() == 0 {
            step == GetStep::Done(Ok::<Option<MemoryEntry>, E>(None))
        } else {
            &&& step matches GetStep::Ask(call, next)
            &&& call == (BackendCall::GetForAgent { key: scan.key, agent_id: scan.rest@.last() })
            &&& next.key == scan.key
            &&& next.rest@ == scan.rest@.drop_last()
        },
    }
}

/// The agents that a lookup is still to ask are granted.
pub open spec fn within(scope: Scope, scan: GetScan) -> bool {
    forall|i: int|
        0 <= i < scan.rest@.len() ==> scope.grants.contains_key(#[trigger] scan.rest@[i]@)
}

impl<M> AgentScopedMemory<M> {
    /// The rows that the bound agent may read.
    fn visible_entries(&self, entries: Vec<MemoryEntry>) -> (r: Vec<MemoryEntry>)
        ensures
            r@ == self@.visible(entries@),
    {
        let ghost all = entries@;
        let ghost pred = |e: MemoryEntry| self@.sees(e);
        let mut kept: Vec<MemoryEntry> = Vec::new();
        proof {
            assert(all.take(0).filter(pred) =~= Seq::empty()) by {
                reveal(Seq::filter);
            }
        }
        for e in it: entries
            invariant
                it.seq() == all,
                pred == (|e: MemoryEntry| self@.sees(e)),
                kept@ == all.take(it.index()).filter(pred),
        {
            proof {
                lemma_filter_next(all, it.index(), pred);
                assert(all[it.index()] == e);
            }
            if self.entry_visible(&e) {
                kept.push(e);
            }
        }
        proof {
            assert(all.take(all.len() as int) =~= all);
        }
        kept
    }

    /// Plans a recall among all readable agents.
    pub fn recall(
        &self,
        query: String,
        limit: usize,
        session_id: Option<String>,
        since: Option<String>,
        until: Option<String>,
    ) -> (r: BackendCall)
        ensures
            self@.confines(r),
            r matches BackendCall::RecallForAgents {
                allowed,
                query: q,
                limit: l,
                session_id: sid,
                since: from,
                until: to,
            } && texts(allowed@) == self.readers() && texts(allowed@).no_duplicates() && (forall|
                id: Seq<char>,
            |
                self@.grants.contains_key(id) <==> #[trigger] texts(allowed@).contains(id)) && q
                == query && l == limit && sid == session_id && from == since && to == until,
    {
        let allowed = self.allowed_slice();
        proof {
            lemma_all_granted(self@, allowed@, self.readers());
        }
        BackendCall::RecallForAgents { allowed, query, limit, session_id, since, until }
    }

    /// Answers a recall: the readable rows of what the backend found.
    pub fn recall_reply<E>(&self, reply: Result<Vec<MemoryEntry>, E>) -> (r: Result<
        Vec<MemoryEntry>,
        E,
    >)
        ensures
            match reply {
                Err(e) => r == Err::<Vec<MemoryEntry>, E>(e),
                Ok(rows) => r matches Ok(kept) && kept@ == self@.visible(rows@),
            },
    {
        match reply {
            Err(e) => Err(e),
            Ok(rows) => Ok(self.visible_entries(rows)),
        }
    }

    /// Plans a recall among the agents that the caller names. Without names all
    /// readable agents are asked; names outside the grants are dropped, and
    /// where none is left nothing is found.
    pub fn recall_for_agents(
        &self,
        caller_allowed: Vec<String>,
        query: String,
        limit: usize,
        session_id: Option<String>,
        since: Option<String>,
        until: Option<String>,
    ) -> (r: Plan<Vec<MemoryEntry>>)
        ensures
            r matches Plan::Ask(call) ==> self@.confines(call),
            caller_allowed@.len() == 0 ==> r is Ask,
            ({
                let asked = if caller_allowed@.len() == 0 {
                    self.readers()
                } else {
                    texts(caller_allowed@).filter(|id: Seq<char>| self@.grants.contains_key(id))
                };
                match r {
                    Plan::Answer(rows) => asked.len() == 0 && rows@.len() == 0,
                    Plan::Ask(call) => {
                        &&& asked.len() > 0
                        &&& call matches BackendCall::RecallForAgents {
                            allowed,
                            query: q,
                            limit: l,
                            session_id: sid,
                            since: from,
                            until: to,
                        }
                        &&& texts(allowed@) == asked
                        &&& caller_allowed@.len() == 0 ==> {
                            &&& texts(allowed@).no_duplicates()
                            &&& forall|id: Seq<char>|
                                self@.grants.contains_key(id) <==> #[trigger] texts(
                                    allowed@,
                                ).contains(id)
                        }
                        &&& q == query
                        &&& l == limit
                        &&& sid == session_id
                        &&& from == since
                        &&& to == until
                    },
                }
            }),
    {
        if caller_allowed.len() == 0 {
            let bound = self.allowed_slice();
            proof {
                lemma_all_granted(self@, bound@, self.readers());
            }
            return Plan::Ask(
                BackendCall::RecallForAgents {
                    allowed: bound,
                    query,
                    limit,
                    session_id,
                    since,
                    until,
                },
            );
        }
        let ghost all = texts(caller_allowed@);
        let ghost pred = |id: Seq<char>| self@.grants.contains_key(id);
        let mut allowed: Vec<String> = Vec::new();
        proof {
            assert(texts(allowed@) =~= all.take(0).filter(pred)) by {
                reveal(Seq::filter);
            }
        }
        let mut i: usize = 0;
        while i < caller_allowed.len()
            invariant
                i <= caller_allowed@.len(),
                all == texts(caller_allowed@),
                pred == (|id: Seq<char>| self@.grants.contains_key(id)),
                texts(allowed@) == all.take(i as int).filter(pred),
            decreases caller_allowed@.len() - i,
        {
            proof {
                lemma_filter_next(all, i as int, pred);
                assert(all[i as int] == caller_allowed@[i as int]@);
            }
            let ghost before = allowed@;
            if self.grants_reading(&caller_allowed[i]) {
                allowed.push(caller_allowed[i].clone());
                assert(texts(allowed@) =~= texts(before).push(all[i as int]));
            }
            i = i + 1;
        }
        proof {
            assert(all.take(all.len() as int) =~= all);
            assert(texts(allowed@).len() == allowed@.len());
        }
        if allowed.len() == 0 {
            return Plan::Answer(Vec::new());
        }
        proof {
            assert forall|id: Seq<char>| #[trigger]
                texts(allowed@).contains(id) implies self@.grants.contains_key(id) by {
                let k = texts(allowed@).index_of(id);
                all.lemma_filter_pred(pred, k);
            }
            lemma_all_granted(self@, allowed@, texts(allowed@));
        }
        Plan::Ask(
            BackendCall::RecallForAgents { allowed, query, limit, session_id, since, until },
        )
    }

    /// Answers a recall among named agents: the readable rows of what the
    /// backend found.
    pub fn recall_for_agents_reply<E>(&self, reply: Result<Vec<MemoryEntry>, E>) -> (r: Result<
        Vec<MemoryEntry>,
        E,
    >)
        ensures
            match reply {
                Err(e) => r == Err::<Vec<MemoryEntry>, E>(e),
                Ok(rows) => r matches Ok(kept) && kept@ == self@.visible(rows@),
            },
    {
        self.recall_reply(reply)
    }

    /// Plans a recall in one namespace: twice the rows are asked for, since the
    /// namespace is only looked at in the answer.
    pub fn recall_namespaced(
        &self,
        query: String,
        limit: usize,
        session_id: Option<String>,
        since: Option<String>,
        until: Option<String>,
    ) -> (r: BackendCall)
        requires
            limit * 2 <= usize::MAX,
        ensures
            self@.confines(r),
            r matches BackendCall::RecallForAgents {
                allowed,
                query: q,
                limit: l,
                session_id: sid,
                since: from,
                until: to,
            } && texts(allowed@) == self.readers() && texts(allowed@).no_duplicates() && (forall|
                id: Seq<char>,
            |
                self@.grants.contains_key(id) <==> #[trigger] texts(allowed@).contains(id)) && q
                == query && l == limit * 2 && sid == session_id && from == since && to == until,
    {
        self.recall(query, limit * 2, session_id, since, until)
    }

    /// Answers a recall in one namespace: of the readable rows those in the
    /// namespace, and of these the first `limit`.
    pub fn recall_namespaced_reply<E>(
        &self,
        namespace: &String,
        limit: usize,
        reply: Result<Vec<MemoryEntry>, E>,
    ) -> (r: Result<Vec<MemoryEntry>, E>)
        ensures
            match reply {
                Err(e) => r == Err::<Vec<MemoryEntry>, E>(e),
                Ok(rows) => r matches Ok(kept) && kept@ == first_of(
                    in_namespace(self@.visible(rows@), namespace@),
                    limit as nat,
                ),
            },
    {
        let entries = match self.recall_reply(reply) {
            Err(e) => return Err(e),
            Ok(rows) => rows,
        };
        let ghost all = entries@;
        let ghost pred = of_namespace(namespace@);
        let mut kept: Vec<MemoryEntry> = Vec::new();
        proof {
            assert(all.take(0).filter(pred) =~= Seq::empty()) by {
                reveal(Seq::filter);
            }
        }
        for e in it: entries
            invariant
                it.seq() == all,
                pred == of_namespace(namespace@),
                kept@ == first_of(all.take(it.index()).filter(pred), limit as nat),
        {
            proof {
                lemma_filter_next(all, it.index(), pred);
                assert(all[it.index()] == e);
            }
            if e.namespace == *namespace && kept.len() < limit {
                kept.push(e);
            }
        }
        proof {
            assert(all.take(all.len() as int) =~= all);
        }
        Ok(kept)
    }

    /// Starts a lookup by key: the bound agent's own row is asked for first,
    /// the siblings' rows after it.
    pub fn get(&self, key: String) -> (r: (BackendCall, GetScan))
        ensures
            self@.confines(r.0),
            r.0 matches BackendCall::GetForAgent { key: k, agent_id } && k == key && agent_id@
                == self@.agent,
            r.1.key == key,
            texts(r.1.rest@) == self.siblings().reverse(),
            within(self@, r.1),
            self@.grants.contains_key(self@.agent),
            texts(r.1.rest@).no_duplicates(),
            forall|id: Seq<char>| #[trigger]
                texts(r.1.rest@).contains(id) <==> self@.grants.contains_key(id) && id
                    != self@.agent,
    {
        let allowed = self.allowed_slice();
        let own = self.alias();
        let ghost all = self.readers();
        let ghost pred = |id: Seq<char>| id != self@.agent;
        let mut rest: Vec<String> = Vec::new();
        let mut i: usize = allowed.len();
        proof {
            assert(all.skip(all.len() as int).filter(pred) =~= Seq::empty()) by {
                reveal(Seq::filter);
            }
            assert(texts(rest@) =~= all.skip(all.len() as int).filter(pred).reverse());
            assert(all.len() == allowed@.len());
        }
        while i > 0
            invariant
                i <= allowed@.len(),
                all == texts(allowed@),
                own@ == self@.agent,
                pred == (|id: Seq<char>| id != self@.agent),
                texts(rest@) == all.skip(i as int).filter(pred).reverse(),
            decreases i,
        {
            i = i - 1;
            proof {
                lemma_filter_first(all, i as int, pred);
                assert(all[i as int] == allowed@[i as int]@);
            }
            let ghost before = rest@;
            if allowed[i] != *own {
                rest.push(allowed[i].clone());
                assert(texts(rest@) =~= texts(before).push(all[i as int]));
                assert(texts(rest@) =~= all.skip(i as int).filter(pred).reverse());
            }
        }
        proof {
            assert(all.skip(0) =~= all);
            assert forall|j: int| 0 <= j < rest@.len() implies self@.grants.contains_key(
                #[trigger] rest@[j]@,
            ) by {
                assert(texts(rest@)[j] == rest@[j]@);
                let f = all.filter(pred);
                assert(texts(rest@) == f.reverse() && texts(rest@).len() == rest@.len());
                assert(f.reverse()[j] == f[f.len() - 1 - j]);
                assert(f.contains(rest@[j]@));
                all.lemma_filter_contains_rev(pred, rest@[j]@);
            }
            lemma_filter_no_duplicates(all, pred);
            let f = all.filter(pred);
            assert(texts(rest@) == f.reverse());
            assert forall|id: Seq<char>| #[trigger]
                texts(rest@).contains(id) <==> self@.grants.contains_key(id) && id
                    != self@.agent by {
                if f.reverse().contains(id) {
                    let k = f.reverse().index_of(id);
                    assert(f[f.len() - 1 - k] == id);
                    all.lemma_filter_pred(pred, f.len() - 1 - k);
                    all.lemma_filter_contains_rev(pred, id);
                    assert(self.readers().contains(id));
                }
                if self@.grants.contains_key(id) && id != self@.agent {
                    assert(self.readers().contains(id));
                    let k = all.index_of(id);
                    all.lemma_filter_contains(pred, k);
                    let n = f.index_of(id);
                    assert(f.reverse()[f.len() - 1 - n] == id);
                }
            }
        }
        (
            BackendCall::GetForAgent { key: key.clone(), agent_id: own.clone() },
            GetScan { key, rest },
        )
    }

    /// Goes on with a lookup once the backend has answered. A row is the result
    /// where it is readable; otherwise the next sibling is asked. A failure ends
    /// the lookup.
    pub fn get_reply<E>(&self, scan: GetScan, reply: Result<Option<MemoryEntry>, E>) -> (r: GetStep<
        E,
    >)
        ensures
            within(self@, scan) ==> (r matches GetStep::Ask(call, next) ==> self@.confines(call)
                && within(self@, next)),
            get_goes_on(self@, scan, reply, r),
            r matches GetStep::Done(Ok(Some(e))) ==> self@.sees(e),
    {
        let found = match reply {
            Err(e) => return GetStep::Done(Err(e)),
            Ok(found) => found,
        };
        if let Some(hit) = found {
            if self.entry_visible(&hit) {
                return GetStep::Done(Ok(Some(hit)));
            }
        }
        let key = scan.key;
        let mut rest = scan.rest;
        match rest.pop() {
            None => GetStep::Done(Ok(None)),
            Some(sibling) => GetStep::Ask(
                BackendCall::GetForAgent { key: key.clone(), agent_id: sibling },
                GetScan { key, rest },
            ),
        }
    }

    /// Plans a lookup among the rows of one agent. Rows of an agent that is not
    /// granted are not there.
    pub fn get_for_agent(&self, key: String, agent_id: String) -> (r: Plan<Option<MemoryEntry>>)
        ensures
            r == if self@.grants.contains_key(agent_id@) {
                Plan::<Option<MemoryEntry>>::Ask(BackendCall::GetForAgent { key, agent_id })
            } else {
                Plan::Answer(None)
            },
            r matches Plan::Ask(call) ==> self@.confines(call),
            agent_id@ == self@.agent ==> r is Ask,
    {
        if agent_id != *self.alias() && !self.grants_reading(&agent_id) {
            return Plan::Answer(None);
        }
        Plan::Ask(BackendCall::GetForAgent { key, agent_id })
    }

    /// Answers a lookup among the rows of one agent: the row that was found, if
    /// it is readable.
    pub fn get_for_agent_reply<E>(&self, reply: Result<Option<MemoryEntry>, E>) -> (r: Result<
        Option<MemoryEntry>,
        E,
    >)
        ensures
            r == match reply {
                Err(e) => Err(e),
                Ok(found) => Ok(
                    if found is Some && self@.sees(found->0) {
                        found
                    } else {
                        None
                    },
                ),
            },
    {
        match reply {
            Err(e) => Err(e),
            Ok(None) => Ok(None),
            Ok(Some(hit)) => {
                if self.entry_visible(&hit) {
                    Ok(Some(hit))
                } else {
                    Ok(None)
                }
            },
        }
    }

    /// Plans a listing.
    pub fn list(&self, category: Option<MemoryCategory>, session_id: Option<String>) -> (r:
        BackendCall)
        ensures
            r == (BackendCall::List { category, session_id }),
            self@.confines(r),
    {
        BackendCall::List { category, session_id }
    }

    /// Answers a listing: the readable rows of what the backend listed.
    pub fn list_reply<E>(&self, reply: Result<Vec<MemoryEntry>, E>) -> (r: Result<
        Vec<MemoryEntry>,
        E,
    >)
        ensures
            match reply {
                Err(e) => r == Err::<Vec<MemoryEntry>, E>(e),
                Ok(rows) => r matches Ok(kept) && kept@ == self@.visible(rows@),
            },
    {
        match reply {
            Err(e) => Err(e),
            Ok(rows) => Ok(self.visible_entries(rows)),
        }
    }

    /// Plans a count: all rows are listed, and the readable ones counted.
    pub fn count(&self) -> (r: BackendCall)
        ensures
            r == (BackendCall::List { category: None, session_id: None }),
            self@.confines(r),
    {
        BackendCall::List { category: None, session_id: None }
    }

    /// Answers a count: the number of readable rows among those listed.
    pub fn count_reply<E>(&self, reply: Result<Vec<MemoryEntry>, E>) -> (r: Result<usize, E>)
        ensures
            match reply {
                Err(e) => r == Err::<usize, E>(e),
                Ok(rows) => r matches Ok(n) && n == self@.visible(rows@).len(),
            },
    {
        match reply {
            Err(e) => Err(e),
            Ok(rows) => Ok(self.visible_entries(rows).len()),
        }
    }

    /// Plans an export: the rows of the filter's category and session are
    /// listed.
    pub fn export(&self, filter: &ExportFilter) -> (r: BackendCall)
        ensures
            r == (BackendCall::List { category: filter.category, session_id: filter.session_id }),
            self@.confines(r),
    {
        let category = match &filter.category {
            None => None,
            Some(c) => Some(c.clone()),
        };
        let session_id = match &filter.session_id {
            None => None,
            Some(s) => Some(s.clone()),
        };
        self.list(category, session_id)
    }

    /// Answers an export: of the readable rows those that the filter admits.
    pub fn export_reply<E>(
        &self,
        filter: &ExportFilter,
        reply: Result<Vec<MemoryEntry>, E>,
    ) -> (r: Result<Vec<MemoryEntry>, E>)
        ensures
            match reply {
                Err(e) => r == Err::<Vec<MemoryEntry>, E>(e),
                Ok(rows) => r matches Ok(kept) && kept@ == admitted(
                    self@.visible(rows@),
                    *filter,
                ),
            },
    {
        let entries = match self.list_reply(reply) {
            Err(e) => return Err(e),
            Ok(rows) => rows,
        };
        let ghost all = entries@;
        let ghost pred = |e: MemoryEntry| filter.admits(e);
        let mut kept: Vec<MemoryEntry> = Vec::new();
        proof {
            assert(all.take(0).filter(pred) =~= Seq::empty()) by {
                reveal(Seq::filter);
            }
        }
        for e in it: entries
            invariant
                it.seq() == all,
                pred == (|e: MemoryEntry| filter.admits(e)),
                kept@ == all.take(it.index()).filter(pred),
        {
            proof {
                lemma_filter_next(all, it.index(), pred);
                assert(all[it.index()] == e);
            }
            if admits(filter, &e) {
                kept.push(e);
            }
        }
        proof {
            assert(all.take(all.len() as int) =~= all);
        }
        Ok(kept)
    }
}

proof fn lemma_all_granted(scope: Scope, list: Seq<String>, ids: Seq<Seq<char>>)
    requires
        texts(list) == ids,
        forall|id: Seq<char>| #[trigger] ids.contains(id) ==> scope.grants.contains_key(id),
    ensures
        forall|i: int| 0 <= i < list.len() ==> scope.grants.contains_key(#[trigger] list[i]@),
{
    assert forall|i: int| 0 <= i < list.len() implies scope.grants.contains_key(
        #[trigger] list[i]@,
    ) by {
        assert(ids[i] == list[i]@);
        assert(ids.contains(list[i]@));
    }
}

} // verus!
