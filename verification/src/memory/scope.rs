//! What one agent may see and do: the rule that the agent-scoped memory keeps.

use vstd::prelude::*;

use crate::memory::call::BackendCall;
use crate::memory::entry::MemoryEntry;
use crate::text::{ascii_lowercase, opt_text, texts};

verus! {

/// The reach of one agent: who it is, and whose rows it may read. A grant
/// without a set covers every category; a set holds lower-case names.
#[verifier::ext_equal]
pub struct Scope {
    pub agent: Seq<char>,
    pub grants: Map<Seq<char>, Option<Set<Seq<char>>>>,
}

impl Scope {
    /// The agent may read all categories of its own rows.
    pub open spec fn valid(self) -> bool {
        &&& self.grants.contains_key(self.agent)
        &&& self.grants[self.agent] is None
    }

    /// The agent may read a row of `owner` in `category`.
    pub open spec fn covers(self, owner: Option<Seq<char>>, category: Seq<char>) -> bool {
        match owner {
            None => false,
            Some(id) => id == self.agent || (self.grants.contains_key(id) && match self.grants[id] {
                None => true,
                Some(categories) => categories.contains(ascii_lowercase(category)),
            }),
        }
    }

    /// The agent may read the row.
    pub open spec fn sees(self, e: MemoryEntry) -> bool {
        self.covers(e.owner(), e.category.text())
    }

    /// The rows that the agent may read, in their order.
    pub open spec fn visible(self, rows: Seq<MemoryEntry>) -> Seq<MemoryEntry> {
        rows.filter(|e: MemoryEntry| self.sees(e))
    }

    /// The call stays within the reach of the agent: what it writes or deletes
    /// is the agent's own, and the agents that it names as readable are
    /// granted. Calls that name no agent are not bound by this; what they bring
    /// back is filtered.
    pub open spec fn confines(self, call: BackendCall) -> bool {
        match call {
            BackendCall::StoreWithAgent { agent_id, .. } => opt_text(agent_id) == Some(self.agent),
            BackendCall::StoreWithOptionsAndAgent { agent_id, .. } => opt_text(agent_id) == Some(
                self.agent,
            ),
            BackendCall::StoreProcedural { agent_id, .. } => opt_text(agent_id) == Some(self.agent),
            BackendCall::RecallForAgents { allowed, .. } => {
                &&& allowed@.len() > 0
                &&& forall|i: int|
                    0 <= i < allowed@.len() ==> self.grants.contains_key(#[trigger] allowed@[i]@)
            },
            BackendCall::GetForAgent { agent_id, .. } => self.grants.contains_key(agent_id@),
            BackendCall::ForgetForAgent { agent_id, .. } => agent_id@ == self.agent,
            BackendCall::PurgeSessionForAgent { agent_id, .. } => agent_id@ == self.agent,
            _ => true,
        }
    }
}

/// The row is one that the call writes or deletes: the row of the key and agent
/// that it names, or a row of the session and agent that it names. The other
/// calls write and delete no row.
pub open spec fn targets(call: BackendCall, e: MemoryEntry) -> bool {
    match call {
        BackendCall::StoreWithAgent { key, agent_id, .. } => e.key@ == key@ && e.owner()
            == opt_text(agent_id),
        BackendCall::StoreWithOptionsAndAgent { key, agent_id, .. } => e.key@ == key@ && e.owner()
            == opt_text(agent_id),
        BackendCall::StoreProcedural { session_id, agent_id, .. } => opt_text(e.session_id)
            == opt_text(session_id) && e.owner() == opt_text(agent_id),
        BackendCall::ForgetForAgent { key, agent_id } => e.key@ == key@ && e.owner() == Some(
            agent_id@,
        ),
        BackendCall::PurgeSessionForAgent { session_id, agent_id } => opt_text(e.session_id)
            == Some(session_id@) && e.owner() == Some(agent_id@),
        _ => false,
    }
}

/// The categories of a grant in lower case.
pub open spec fn lowered(categories: Option<Vec<String>>) -> Option<Set<Seq<char>>> {
    match categories {
        None => None,
        Some(list) => Some(texts(list@).map_values(|c: Seq<char>| ascii_lowercase(c)).to_set()),
    }
}

/// The grants that a list of scopes makes. Where an agent is named twice, the
/// later scope counts.
pub open spec fn granted(scopes: Seq<(String, Option<Vec<String>>)>) -> Map<
    Seq<char>,
    Option<Set<Seq<char>>>,
>
    decreases scopes.len(),
{
    if scopes.len() == 0 {
        Map::empty()
    } else {
        granted(scopes.drop_last()).insert(scopes.last().0@, lowered(scopes.last().1))
    }
}

/// The agents that a list of scopes names.
pub open spec fn named(scopes: Seq<(String, Option<Vec<String>>)>) -> Seq<Seq<char>> {
    scopes.map_values(|s: (String, Option<Vec<String>>)| s.0@)
}

/// `id` is noted at the end, unless it was noted before.
pub open spec fn noted(ids: Seq<Seq<char>>, id: Seq<char>) -> Seq<Seq<char>> {
    if ids.contains(id) {
        ids
    } else {
        ids.push(id)
    }
}

/// The distinct entries of a list, in the order in which they first occur.
pub open spec fn first_seen(ids: Seq<Seq<char>>) -> Seq<Seq<char>>
    decreases ids.len(),
{
    if ids.len() == 0 {
        ids
    } else {
        noted(first_seen(ids.drop_last()), ids.last())
    }
}

} // verus!
