//! How an agent-scoped memory writes and deletes, and what it passes on to the
//! backend as it is.

use vstd::prelude::*;

use crate::memory::agent_scoped::AgentScopedMemory;
use crate::memory::call::{BackendCall, ForgetStep, MemoryError, Refusal};
use crate::memory::entry::{MemoryCategory, MemoryEntry, ProceduralMessage, StoreOptions, Weight};
use crate::text::opt_text;

verus! {

/// A caller named an agent, and it is another one.
pub open spec fn foreign(agent: Seq<char>, named: Option<String>) -> bool {
    named is Some && named->0@ != agent
}

/// The call stores the given row as `agent`'s.
pub open spec fn stored(
    agent: Seq<char>,
    call: BackendCall,
    key: String,
    content: String,
    category: MemoryCategory,
    session_id: Option<String>,
    namespace: Option<String>,
    importance: Option<Weight>,
) -> bool {
    &&& call matches BackendCall::StoreWithAgent {
        key: k,
        content: c,
        category: cat,
        session_id: sid,
        namespace: ns,
        importance: weight,
        agent_id,
    }
    &&& k == key
    &&& c == content
    &&& cat == category
    &&& sid == session_id
    &&& ns == namespace
    &&& weight == importance
    &&& opt_text(agent_id) == Some(agent)
}

/// The call stores the given row with options as `agent`'s.
pub open spec fn stored_with_options(
    agent: Seq<char>,
    call: BackendCall,
    key: String,
    content: String,
    category: MemoryCategory,
    session_id: Option<String>,
    options: StoreOptions,
) -> bool {
    &&& call matches BackendCall::StoreWithOptionsAndAgent {
        key: k,
        content: c,
        category: cat,
        session_id: sid,
        options: o,
        agent_id,
    }
    &&& k == key
    &&& c == content
    &&& cat == category
    &&& sid == session_id
    &&& o == options
    &&& opt_text(agent_id) == Some(agent)
}

/// How a deletion goes on once the backend has tried to delete the bound
/// agent's row.
pub open spec fn forget_goes_on<E>(key: String, reply: Result<bool, E>) -> ForgetStep<E> {
    match reply {
        Err(e) => ForgetStep::Done(Err(MemoryError::Backend(e))),
        Ok(true) => ForgetStep::Done(Ok(true)),
        Ok(false) => ForgetStep::Look(BackendCall::Get { key }),
    }
}

/// How a deletion ends that found no row of the bound agent.
pub open spec fn forget_ends<E>(reply: Result<Option<MemoryEntry>, E>) -> Result<
    bool,
    MemoryError<E>,
> {
    match reply {
        Err(e) => Err(MemoryError::Backend(e)),
        Ok(None) => Ok(false),
        Ok(Some(row)) => Err(
            MemoryError::Refused(
                if row.owner() is Some {
                    Refusal::ForgetOfForeignRow
                } else {
                    Refusal::ForgetOfUnattributedRow
                },
            ),
        ),
    }
}

impl<M> AgentScopedMemory<M> {
    /// Plans a health check of the backend.
    pub fn health_check(&self) -> (r: BackendCall)
        ensures
            r == BackendCall::HealthCheck,
    {
        BackendCall::HealthCheck
    }

    /// Plans a change of the backend's embedder, as it was asked for.
    pub fn refresh_embedder(
        &self,
        model_provider: String,
        api_key: Option<String>,
        model: String,
        dimensions: usize,
    ) -> (r: BackendCall)
        ensures
            r == (BackendCall::RefreshEmbedder { model_provider, api_key, model, dimensions }),
    {
        BackendCall::RefreshEmbedder { model_provider, api_key, model, dimensions }
    }

    /// Plans a store, stamped with the bound agent.
    pub fn store(
        &self,
        key: String,
        content: String,
        category: MemoryCategory,
        session_id: Option<String>,
    ) -> (r: BackendCall)
        ensures
            stored(self@.agent, r, key, content, category, session_id, None, None),
            self@.confines(r),
    {
        BackendCall::StoreWithAgent {
            key,
            content,
            category,
            session_id,
            namespace: None,
            importance: None,
            agent_id: Some(self.alias().clone()),
        }
    }

    /// Plans a store with namespace and importance, stamped with the bound
    /// agent.
    pub fn store_with_metadata(
        &self,
        key: String,
        content: String,
        category: MemoryCategory,
        session_id: Option<String>,
        namespace: Option<String>,
        importance: Option<Weight>,
    ) -> (r: BackendCall)
        ensures
            stored(
                self@.agent,
                r,
                key,
                content,
                category,
                session_id,
                namespace,
                importance,
            ),
            self@.confines(r),
    {
        BackendCall::StoreWithAgent {
            key,
            content,
            category,
            session_id,
            namespace,
            importance,
            agent_id: Some(self.alias().clone()),
        }
    }

    /// Plans a store with options, stamped with the bound agent.
    pub fn store_with_options(
        &self,
        key: String,
        content: String,
        category: MemoryCategory,
        session_id: Option<String>,
        options: StoreOptions,
    ) -> (r: BackendCall)
        ensures
            stored_with_options(self@.agent, r, key, content, category, session_id, options),
            self@.confines(r),
    {
        BackendCall::StoreWithOptionsAndAgent {
            key,
            content,
            category,
            session_id,
            options,
            agent_id: Some(self.alias().clone()),
        }
    }

    /// Plans a store with options for the agent that the caller names. Only the
    /// bound agent may be named.
    pub fn store_with_options_and_agent(
        &self,
        key: String,
        content: String,
        category: MemoryCategory,
        session_id: Option<String>,
        options: StoreOptions,
        agent_id: Option<String>,
    ) -> (r: Result<BackendCall, Refusal>)
        ensures
            match r {
                Err(why) => foreign(self@.agent, agent_id) && why
                    == Refusal::ForeignStoreWithOptions,
                Ok(call) => {
                    &&& !foreign(self@.agent, agent_id)
                    &&& stored_with_options(
                        self@.agent,
                        call,
                        key,
                        content,
                        category,
                        session_id,
                        options,
                    )
                    &&& self@.confines(call)
                },
            },
    {
        if let Some(requested) = agent_id {
            if requested != *self.alias() {
                return Err(Refusal::ForeignStoreWithOptions);
            }
        }
        Ok(self.store_with_options(key, content, category, session_id, options))
    }

    /// Plans a store for the agent that the caller names. Only the bound agent
    /// may be named.
    pub fn store_with_agent(
        &self,
        key: String,
        content: String,
        category: MemoryCategory,
        session_id: Option<String>,
        namespace: Option<String>,
        importance: Option<Weight>,
        agent_id: Option<String>,
    ) -> (r: Result<BackendCall, Refusal>)
        ensures
            match r {
                Err(why) => foreign(self@.agent, agent_id) && why == Refusal::ForeignStore,
                Ok(call) => {
                    &&& !foreign(self@.agent, agent_id)
                    &&& stored(
                        self@.agent,
                        call,
                        key,
                        content,
                        category,
                        session_id,
                        namespace,
                        importance,
                    )
                    &&& self@.confines(call)
                },
            },
    {
        if let Some(requested) = agent_id {
            if requested != *self.alias() {
                return Err(Refusal::ForeignStore);
            }
        }
        Ok(
            self.store_with_metadata(
                key,
                content,
                category,
                session_id,
                namespace,
                importance,
            ),
        )
    }

    /// Starts a deletion by key: the bound agent's own row is to be deleted.
    pub fn forget(&self, key: String) -> (r: BackendCall)
        ensures
            r matches BackendCall::ForgetForAgent { key: k, agent_id } && k == key && agent_id@
                == self@.agent,
            self@.confines(r),
    {
        BackendCall::ForgetForAgent { key, agent_id: self.alias().clone() }
    }

    /// Goes on with a deletion once the backend has tried to delete the bound
    /// agent's row. Where there was none, the key is looked up to tell whether
    /// someone else's row is there.
    pub fn forget_reply<E>(&self, key: String, reply: Result<bool, E>) -> (r: ForgetStep<E>)
        ensures
            r == forget_goes_on(key, reply),
            r matches ForgetStep::Look(call) ==> self@.confines(call),
    {
        match reply {
            Err(e) => ForgetStep::Done(Err(MemoryError::Backend(e))),
            Ok(true) => ForgetStep::Done(Ok(true)),
            Ok(false) => ForgetStep::Look(BackendCall::Get { key }),
        }
    }

    /// Ends a deletion that found no row of the bound agent: there is nothing
    /// to delete, or the row that is there is not the bound agent's to delete.
    pub fn forget_look_reply<E>(&self, reply: Result<Option<MemoryEntry>, E>) -> (r: Result<
        bool,
        MemoryError<E>,
    >)
        ensures
            r == forget_ends(reply),
    {
        match reply {
            Err(e) => Err(MemoryError::Backend(e)),
            Ok(None) => Ok(false),
            Ok(Some(row)) => match row.agent_id {
                Some(_) => Err(MemoryError::Refused(Refusal::ForgetOfForeignRow)),
                None => Err(MemoryError::Refused(Refusal::ForgetOfUnattributedRow)),
            },
        }
    }

    /// Plans a deletion for the agent that the caller names. Only the bound
    /// agent may be named: a grant lets rows be read, never deleted.
    pub fn forget_for_agent(&self, key: String, agent_id: String) -> (r: Result<
        BackendCall,
        Refusal,
    >)
        ensures
            r == if agent_id@ == self@.agent {
                Ok::<BackendCall, Refusal>(BackendCall::ForgetForAgent { key, agent_id })
            } else {
                Err(Refusal::ForgetForForeignAgent)
            },
            r matches Ok(call) ==> self@.confines(call),
    {
        if agent_id != *self.alias() {
            return Err(Refusal::ForgetForForeignAgent);
        }
        Ok(BackendCall::ForgetForAgent { key, agent_id })
    }

    /// Deleting by namespace reaches across agents and is always refused.
    pub fn purge_namespace(&self, namespace: &String) -> (r: Result<BackendCall, Refusal>)
        ensures
            r == Err::<BackendCall, Refusal>(Refusal::NamespacePurge),
    {
        Err(Refusal::NamespacePurge)
    }

    /// Plans the deletion of the bound agent's rows of a session. Session and
    /// agent go to the backend together: a listing by session and a deletion by
    /// key could hit the agent's row of another session.
    pub fn purge_session(&self, session_id: String) -> (r: BackendCall)
        ensures
            r matches BackendCall::PurgeSessionForAgent { session_id: s, agent_id } && s
                == session_id && agent_id@ == self@.agent,
            self@.confines(r),
    {
        BackendCall::PurgeSessionForAgent { session_id, agent_id: self.alias().clone() }
    }

    /// Plans a rebuild of the backend's search index.
    pub fn reindex(&self) -> (r: BackendCall)
        ensures
            r == BackendCall::Reindex,
    {
        BackendCall::Reindex
    }

    /// Plans the store of a procedural trace, stamped with the bound agent.
    pub fn store_procedural(
        &self,
        messages: Vec<ProceduralMessage>,
        session_id: Option<String>,
    ) -> (r: BackendCall)
        ensures
            r matches BackendCall::StoreProcedural { messages: m, session_id: sid, agent_id } && m
                == messages && sid == session_id && opt_text(agent_id) == Some(self@.agent),
            self@.confines(r),
    {
        BackendCall::StoreProcedural {
            messages,
            session_id,
            agent_id: Some(self.alias().clone()),
        }
    }

    /// Plans the lookup of an agent's UUID by alias, as it was asked for.
    pub fn ensure_agent_uuid(&self, alias: String) -> (r: BackendCall)
        ensures
            r == (BackendCall::EnsureAgentUuid { alias }),
    {
        BackendCall::EnsureAgentUuid { alias }
    }
}

} // verus!
