//! The rows of a memory backend and the values that describe them.

use vstd::prelude::*;

use crate::text::opt_text;

verus! {

/// What a memory row is about.
#[derive(Debug, PartialEq, Eq)]
pub enum MemoryCategory {
    /// Long-term facts.
    Core,
    /// Notes of one day.
    Daily,
    /// Turns of a conversation.
    Conversation,
    /// A category that the operator named.
    Custom(String),
}

impl MemoryCategory {
    /// The category's name.
    pub open spec fn text(self) -> Seq<char> {
        match self {
            MemoryCategory::Core => "core"@,
            MemoryCategory::Daily => "daily"@,
            MemoryCategory::Conversation => "conversation"@,
            MemoryCategory::Custom(name) => name@,
        }
    }

    /// The category's name.
    pub fn to_text(&self) -> (r: String)
        ensures
            r@ == self.text(),
    {
        match self {
            MemoryCategory::Core => "core".to_owned(),
            MemoryCategory::Daily => "daily".to_owned(),
            MemoryCategory::Conversation => "conversation".to_owned(),
            MemoryCategory::Custom(name) => name.clone(),
        }
    }
}

impl Clone for MemoryCategory {
    fn clone(&self) -> (r: Self)
        ensures
            r == *self,
    {
        match self {
            MemoryCategory::Core => MemoryCategory::Core,
            MemoryCategory::Daily => MemoryCategory::Daily,
            MemoryCategory::Conversation => MemoryCategory::Conversation,
            MemoryCategory::Custom(name) => MemoryCategory::Custom(name.clone()),
        }
    }
}

/// What a semantic memory states. Subtypes that are only carried through keep
/// their name.
#[derive(Clone, Debug, PartialEq, Eq)]
pub enum SemanticSubtype {
    Decision,
    Other(String),
}

/// How a memory came about. Kinds that are only carried through keep their
/// name.
#[derive(Clone, Debug, PartialEq, Eq)]
pub enum MemoryKind {
    Semantic(SemanticSubtype),
    Other(String),
}

/// A floating-point weight by its IEEE 754 bit pattern. It is carried between
/// caller and backend and never computed with.
#[derive(Clone, Copy, Debug, PartialEq, Eq, Structural)]
pub struct Weight {
    pub bits: u64,
}

/// One row of a memory backend.
#[derive(Clone, Debug, PartialEq, Eq)]
pub struct MemoryEntry {
    pub id: String,
    pub key: String,
    pub content: String,
    pub category: MemoryCategory,
    pub timestamp: String,
    pub session_id: Option<String>,
    pub score: Option<Weight>,
    pub namespace: String,
    pub importance: Option<Weight>,
    pub kind: Option<MemoryKind>,
    pub pinned: bool,
    pub tenant_id: Option<String>,
    /// The agent that wrote the row, where the backend knows it.
    pub agent_id: Option<String>,
}

impl MemoryEntry {
    /// The agent that the row is attributed to.
    pub open spec fn owner(self) -> Option<Seq<char>> {
        opt_text(self.agent_id)
    }
}

/// What a store may say of a row besides its text.
#[derive(Clone, Debug, PartialEq, Eq)]
pub struct StoreOptions {
    pub namespace: Option<String>,
    pub importance: Option<Weight>,
    pub kind: Option<MemoryKind>,
    pub pinned: bool,
    pub tenant_id: Option<String>,
}

/// Which rows an export holds. A field that is `None` excludes nothing.
#[derive(Clone, Debug, PartialEq, Eq)]
pub struct ExportFilter {
    pub namespace: Option<String>,
    pub session_id: Option<String>,
    pub category: Option<MemoryCategory>,
    /// The earliest timestamp, inclusive.
    pub since: Option<String>,
    /// The latest timestamp, inclusive.
    pub until: Option<String>,
}

impl ExportFilter {
    /// The row meets the conditions on namespace and time. Timestamps are
    /// ordered as text.
    pub open spec fn admits(self, e: MemoryEntry) -> bool {
        &&& self.namespace matches Some(ns) ==> e.namespace@ == ns@
        &&& self.since matches Some(since) ==> !crate::text::precedes(e.timestamp@, since@)
        &&& self.until matches Some(until) ==> !crate::text::precedes(until@, e.timestamp@)
    }
}

/// One message of a trace that a procedural memory is made from.
#[derive(Clone, Debug, PartialEq, Eq)]
pub struct ProceduralMessage {
    pub role: String,
    pub content: String,
    pub name: Option<String>,
}

} // verus!
