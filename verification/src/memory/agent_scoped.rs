//! Runtime memory bound to one agent.
//!
//! Each agent holds its own handle of the backend. The wrapper sits directly
//! on top of that handle and plans the calls that go to it:
//!
//! - Every store is stamped with the bound agent.
//! - Every recall is restricted to the bound agent and the siblings whose rows
//!   it may read, and a caller's own list can only narrow that.
//! - Every row that comes back passes [`AgentScopedMemory::entry_visible`].
//! - Deletions reach the bound agent's own rows only.

use vstd::prelude::*;

use crate::memory::entry::MemoryEntry;
use crate::memory::grants::{lower_all, GrantTable};
use crate::memory::laws::law_unlimited_scopes;
use crate::memory::scope::{first_seen, granted, named, Scope};
use crate::text::texts;

verus! {

/// A memory bound to one agent, on top of the backend handle `inner`.
pub struct AgentScopedMemory<M> {
    inner: M,
    /// Stamped on every write.
    agent_id: String,
    /// Whose rows may be read. The bound agent is among them, with every
    /// category.
    allowed: GrantTable,
}

impl<M> View for AgentScopedMemory<M> {
    type V = Scope;

    closed spec fn view(&self) -> Scope {
        Scope { agent: self.agent_id@, grants: self.allowed@ }
    }
}

impl<M> AgentScopedMemory<M> {
    #[verifier::type_invariant]
    spec fn type_inv(self) -> bool {
        &&& self.allowed.wf()
        &&& self@.valid()
    }

    /// The backend handle.
    pub closed spec fn backend(self) -> M {
        self.inner
    }

    /// The agents whose rows may be read, each once, in the order in which they
    /// were granted.
    pub closed spec fn readers(self) -> Seq<Seq<char>> {
        self.allowed.ids()
    }

    /// The agents other than the bound one whose rows may be read.
    pub open spec fn siblings(self) -> Seq<Seq<char>> {
        self.readers().filter(|id: Seq<char>| id != self@.agent)
    }

    /// Builds the memory of `agent_id` over `inner`. The siblings grant every
    /// category of their rows; the bound agent is added by itself.
    pub fn new(inner: M, agent_id: String, allowed_sibling_agent_ids: Vec<String>) -> (r: Self)
        ensures
            r.backend() == inner,
            r@.valid(),
            r@.agent == agent_id@,
            forall|id: Seq<char>| #[trigger]
                r@.grants.contains_key(id) <==> id == agent_id@ || texts(
                    allowed_sibling_agent_ids@,
                ).contains(id),
            forall|id: Seq<char>| #[trigger]
                r@.grants.contains_key(id) ==> r@.grants[id] is None,
            r.readers() == first_seen(texts(allowed_sibling_agent_ids@).push(agent_id@)),
    {
        let mut scopes: Vec<(String, Option<Vec<String>>)> = Vec::new();
        let mut i: usize = 0;
        while i < allowed_sibling_agent_ids.len()
            invariant
                i <= allowed_sibling_agent_ids@.len(),
                scopes@.len() == i,
                forall|j: int|
                    0 <= j < i ==> #[trigger] scopes@[j] == (
                        allowed_sibling_agent_ids@[j],
                        None::<Vec<String>>,
                    ),
            decreases allowed_sibling_agent_ids@.len() - i,
        {
            scopes.push((allowed_sibling_agent_ids[i].clone(), None));
            i = i + 1;
        }
        proof {
            assert(named(scopes@) =~= texts(allowed_sibling_agent_ids@));
            law_unlimited_scopes(scopes@);
        }
        Self::with_category_scopes(inner, agent_id, scopes)
    }

    /// Builds the memory of `agent_id` over `inner` with limited grants. Each
    /// pair lets the named sibling be read: every category without a list, and
    /// with one the categories in it, whatever their ASCII case. Where an agent
    /// is named twice, the later pair counts; the bound agent is always granted
    /// in full.
    pub fn with_category_scopes(
        inner: M,
        agent_id: String,
        scopes: Vec<(String, Option<Vec<String>>)>,
    ) -> (r: Self)
        ensures
            r.backend() == inner,
            r@.valid(),
            r@.agent == agent_id@,
            r@.grants == granted(scopes@).insert(agent_id@, None),
            r.readers() == first_seen(named(scopes@).push(agent_id@)),
    {
        let ghost all = scopes@;
        let mut allowed = GrantTable::new();
        proof {
            assert(all.take(0) =~= Seq::empty());
            assert(allowed@ =~= granted(all.take(0)));
            assert(allowed.ids() =~= first_seen(named(all.take(0))));
        }
        for scope in it: scopes
            invariant
                it.seq() == all,
                allowed.wf(),
                allowed@ == granted(all.take(it.index())),
                allowed.ids() == first_seen(named(all.take(it.index()))),
        {
            let ghost n = it.index();
            let (id, categories) = scope;
            let limited = match categories {
                None => None,
                Some(list) => Some(lower_all(list)),
            };
            allowed.put(id, limited);
            proof {
                assert(all[n] == scope);
                assert(all.take(n + 1).drop_last() =~= all.take(n));
                assert(named(all.take(n + 1)).drop_last() =~= named(all.take(n)));
            }
        }
        proof {
            assert(all.take(all.len() as int) =~= all);
            assert(named(all).push(agent_id@).drop_last() =~= named(all));
        }
        allowed.put(agent_id.clone(), None);
        AgentScopedMemory { inner, agent_id, allowed }
    }

    /// The backend handle.
    pub fn inner(&self) -> (r: &M)
        ensures
            *r == self.backend(),
    {
        &self.inner
    }

    /// The bound agent, by which the memory is attributed.
    pub fn alias(&self) -> (r: &String)
        ensures
            r@ == self@.agent,
            self@.valid(),
    {
        proof {
            use_type_invariant(&*self);
        }
        &self.agent_id
    }

    /// What the memory is attributed as.
    pub fn role(&self) -> (r: Role)
        ensures
            r == Role::Memory(MemoryRole::AgentScoped),
    {
        Role::Memory(MemoryRole::AgentScoped)
    }

    /// The agents whose rows may be read.
    pub fn allowed_slice(&self) -> (r: Vec<String>)
        ensures
            texts(r@) == self.readers(),
            self.readers().no_duplicates(),
            forall|id: Seq<char>|
                self@.grants.contains_key(id) <==> #[trigger] self.readers().contains(id),
            r@.len() > 0,
    {
        proof {
            use_type_invariant(&*self);
        }
        let agents = self.allowed.agents();
        proof {
            assert(self.readers().contains(self@.agent));
            assert(texts(agents@).len() == agents@.len());
        }
        agents
    }

    /// Whether rows of the agent may be read at all.
    pub fn grants_reading(&self, agent_id: &String) -> (r: bool)
        ensures
            r == self@.grants.contains_key(agent_id@),
    {
        self.allowed.contains(agent_id)
    }

    /// Whether the bound agent may read the row: its own rows always, a
    /// sibling's row where the sibling is granted and the category is in the
    /// grant. A row without an agent is never readable.
    pub fn entry_visible(&self, e: &MemoryEntry) -> (r: bool)
        ensures
            r == self@.sees(*e),
    {
        proof {
            use_type_invariant(&*self);
        }
        match &e.agent_id {
            None => false,
            Some(id) => {
                if *id == self.agent_id {
                    return true;
                }
                self.allowed.covers(id, &e.category.to_text().as_str().to_ascii_lowercase())
            },
        }
    }
}

/// What a part of the runtime is, for attribution.
#[derive(Clone, Copy, Debug, PartialEq, Eq, Structural)]
pub enum Role {
    Memory(MemoryRole),
}

/// The memories that are told apart in attribution.
#[derive(Clone, Copy, Debug, PartialEq, Eq, Structural)]
pub enum MemoryRole {
    AgentScoped,
}

} // verus!
