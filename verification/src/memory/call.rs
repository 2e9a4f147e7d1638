//! What an agent-scoped memory asks of its backend, and how it refuses.

use vstd::prelude::*;

use crate::memory::entry::{
    MemoryCategory, MemoryEntry, ProceduralMessage, StoreOptions, Weight,
};

verus! {

/// One call of the shared backend. There is no call that deletes by namespace:
/// an agent-scoped memory never issues one.
#[allow(inconsistent_fields)]
#[derive(Debug, PartialEq, Eq)]
pub enum BackendCall {
    HealthCheck,
    RefreshEmbedder {
        model_provider: String,
        api_key: Option<String>,
        model: String,
        dimensions: usize,
    },
    StoreWithAgent {
        key: String,
        content: String,
        category: MemoryCategory,
        session_id: Option<String>,
        namespace: Option<String>,
        importance: Option<Weight>,
        agent_id: Option<String>,
    },
    StoreWithOptionsAndAgent {
        key: String,
        content: String,
        category: MemoryCategory,
        session_id: Option<String>,
        options: StoreOptions,
        agent_id: Option<String>,
    },
    RecallForAgents {
        allowed: Vec<String>,
        query: String,
        limit: usize,
        session_id: Option<String>,
        since: Option<String>,
        until: Option<String>,
    },
    Get { key: String },
    GetForAgent { key: String, agent_id: String },
    List { category: Option<MemoryCategory>, session_id: Option<String> },
    ForgetForAgent { key: String, agent_id: String },
    PurgeSessionForAgent { session_id: String, agent_id: String },
    Reindex,
    StoreProcedural {
        messages: Vec<ProceduralMessage>,
        session_id: Option<String>,
        agent_id: Option<String>,
    },
    EnsureAgentUuid { alias: String },
}

/// What to do for a request: ask the backend, or answer at once.
#[derive(Debug, PartialEq, Eq)]
pub enum Plan<A> {
    Ask(BackendCall),
    Answer(A),
}

/// Why an agent-scoped memory turns a request down without touching a row.
#[derive(Clone, Copy, Debug, PartialEq, Eq, Structural)]
pub enum Refusal {
    /// A store named another agent as the writer.
    ForeignStore,
    /// A store with options named another agent as the writer.
    ForeignStoreWithOptions,
    /// The row to forget belongs to another agent.
    ForgetOfForeignRow,
    /// The row to forget belongs to no agent.
    ForgetOfUnattributedRow,
    /// A deletion was asked for on behalf of another agent.
    ForgetForForeignAgent,
    /// A namespace was to be purged.
    NamespacePurge,
}

impl Refusal {
    /// The refusal in words.
    pub open spec fn text(self) -> Seq<char> {
        match self {
            Refusal::ForeignStore => "AgentScopedMemory refuses store_with_agent for foreign agent_id; use a wrapper bound to the target agent"@,
            Refusal::ForeignStoreWithOptions => "AgentScopedMemory refuses store_with_options_and_agent for foreign agent_id; use a wrapper bound to the target agent"@,
            Refusal::ForgetOfForeignRow => "AgentScopedMemory refuses to forget cross-agent row: key attributed to agent other than the bound agent"@,
            Refusal::ForgetOfUnattributedRow => "AgentScopedMemory refuses to forget unattributed row: legacy or backend without per-agent tracking; resolve via an admin Memory handle"@,
            Refusal::ForgetForForeignAgent => "AgentScopedMemory refuses cross-agent forget_for_agent: bound agent and target agent differ"@,
            Refusal::NamespacePurge => "AgentScopedMemory refuses purge_namespace: cross-agent bulk delete must run through an admin Memory handle"@,
        }
    }

    /// The refusal in words.
    pub fn message(&self) -> (r: String)
        ensures
            r@ == self.text(),
    {
        match self {
            Refusal::ForeignStore => "AgentScopedMemory refuses store_with_agent for foreign agent_id; use a wrapper bound to the target agent".to_owned(),
            Refusal::ForeignStoreWithOptions => "AgentScopedMemory refuses store_with_options_and_agent for foreign agent_id; use a wrapper bound to the target agent".to_owned(),
            Refusal::ForgetOfForeignRow => "AgentScopedMemory refuses to forget cross-agent row: key attributed to agent other than the bound agent".to_owned(),
            Refusal::ForgetOfUnattributedRow => "AgentScopedMemory refuses to forget unattributed row: legacy or backend without per-agent tracking; resolve via an admin Memory handle".to_owned(),
            Refusal::ForgetForForeignAgent => "AgentScopedMemory refuses cross-agent forget_for_agent: bound agent and target agent differ".to_owned(),
            Refusal::NamespacePurge => "AgentScopedMemory refuses purge_namespace: cross-agent bulk delete must run through an admin Memory handle".to_owned(),
        }
    }
}

/// Why a memory operation failed: it was refused, or the backend failed.
#[derive(Debug, PartialEq, Eq)]
pub enum MemoryError<E> {
    Refused(Refusal),
    Backend(E),
}

/// A deletion that has issued its first call.
#[derive(Debug, PartialEq, Eq)]
pub enum ForgetStep<E> {
    /// Ask the backend for the row that the key names, whoever wrote it.
    Look(BackendCall),
    Done(Result<bool, MemoryError<E>>),
}

/// A lookup in progress. It has asked for the row of one agent and holds the
/// agents that are still to be asked.
#[derive(Debug, PartialEq, Eq)]
pub struct GetScan {
    pub key: String,
    /// The siblings to ask next, the first one last.
    pub rest: Vec<String>,
}

/// How a lookup goes on.
#[derive(Debug, PartialEq, Eq)]
pub enum GetStep<E> {
    Ask(BackendCall, GetScan),
    Done(Result<Option<MemoryEntry>, E>),
}

} // verus!
