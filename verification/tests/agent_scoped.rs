use std::cell::RefCell;
use std::rc::Rc;

use zeroclaw::memory::agent_scoped::{AgentScopedMemory, MemoryRole, Role};
use zeroclaw::memory::call::{
    BackendCall, ForgetStep, GetStep, MemoryError, Plan, Refusal,
};
use zeroclaw::memory::entry::{
    ExportFilter, MemoryCategory, MemoryEntry, MemoryKind, ProceduralMessage, SemanticSubtype,
    StoreOptions, Weight,
};

/// A backend that keeps its rows in memory.
#[derive(Default)]
struct Backend {
    rows: Vec<MemoryEntry>,
    agents: Vec<String>,
    dimensions: usize,
    calls: usize,
    down: bool,
}

type Handle = Rc<RefCell<Backend>>;
type Scoped = AgentScopedMemory<Handle>;

fn s(text: &str) -> String {
    text.to_string()
}

fn opt(text: Option<&str>) -> Option<String> {
    text.map(str::to_string)
}

fn weight(x: f64) -> Weight {
    Weight { bits: x.to_bits() }
}

impl Backend {
    fn enter(&mut self) -> Result<(), String> {
        self.calls += 1;
        if self.down {
            Err(s("backend down"))
        } else {
            Ok(())
        }
    }

    fn put(&mut self, row: MemoryEntry) {
        self.rows
            .retain(|r| !(r.key == row.key && r.agent_id == row.agent_id));
        self.rows.push(row);
    }

    /// Performs a call that brings back nothing but success.
    fn write(&mut self, call: BackendCall) -> Result<(), String> {
        self.enter()?;
        let id = format!("row-{}", self.calls);
        let timestamp = format!("2026-01-01T00:00:{:02}", self.calls % 60);
        match call {
            BackendCall::StoreWithAgent {
                key,
                content,
                category,
                session_id,
                namespace,
                importance,
                agent_id,
            } => self.put(MemoryEntry {
                id,
                key,
                content,
                category,
                timestamp,
                session_id,
                score: None,
                namespace: namespace.unwrap_or_else(|| s("default")),
                importance,
                kind: None,
                pinned: false,
                tenant_id: None,
                agent_id,
            }),
            BackendCall::StoreWithOptionsAndAgent {
                key,
                content,
                category,
                session_id,
                options,
                agent_id,
            } => self.put(MemoryEntry {
                id,
                key,
                content,
                category,
                timestamp,
                session_id,
                score: None,
                namespace: options.namespace.unwrap_or_else(|| s("default")),
                importance: options.importance,
                kind: options.kind,
                pinned: options.pinned,
                tenant_id: options.tenant_id,
                agent_id,
            }),
            BackendCall::RefreshEmbedder { dimensions, .. } => self.dimensions = dimensions,
            other => panic!("not a write: {:?}", other),
        }
        Ok(())
    }

    fn rows_of(&mut self, call: BackendCall) -> Result<Vec<MemoryEntry>, String> {
        self.enter()?;
        match call {
            BackendCall::RecallForAgents {
                allowed,
                query,
                limit,
                session_id,
                ..
            } => Ok(self
                .rows
                .iter()
                .filter(|r| r.key.contains(&query) || r.content.contains(&query))
                .filter(|r| r.agent_id.as_ref().is_some_and(|a| allowed.contains(a)))
                .filter(|r| session_id.is_none() || r.session_id == session_id)
                .take(limit)
                .cloned()
                .collect()),
            BackendCall::List {
                category,
                session_id,
            } => Ok(self
                .rows
                .iter()
                .filter(|r| category.is_none() || category.as_ref() == Some(&r.category))
                .filter(|r| session_id.is_none() || r.session_id == session_id)
                .cloned()
                .collect()),
            other => panic!("not a read of many rows: {:?}", other),
        }
    }

    fn row_of(&mut self, call: BackendCall) -> Result<Option<MemoryEntry>, String> {
        self.enter()?;
        match call {
            BackendCall::Get { key } => Ok(self.rows.iter().find(|r| r.key == key).cloned()),
            BackendCall::GetForAgent { key, agent_id } => Ok(self
                .rows
                .iter()
                .find(|r| r.key == key && r.agent_id.as_deref() == Some(agent_id.as_str()))
                .cloned()),
            other => panic!("not a read of one row: {:?}", other),
        }
    }

    fn delete(&mut self, call: BackendCall) -> Result<usize, String> {
        self.enter()?;
        let before = self.rows.len();
        match call {
            BackendCall::ForgetForAgent { key, agent_id } => self
                .rows
                .retain(|r| !(r.key == key && r.agent_id.as_deref() == Some(agent_id.as_str()))),
            BackendCall::PurgeSessionForAgent {
                session_id,
                agent_id,
            } => self.rows.retain(|r| {
                !(r.session_id.as_deref() == Some(session_id.as_str())
                    && r.agent_id.as_deref() == Some(agent_id.as_str()))
            }),
            other => panic!("not a deletion: {:?}", other),
        }
        Ok(before - self.rows.len())
    }

    fn ensure_agent_uuid(&mut self, alias: &str) -> String {
        let known = self.agents.iter().position(|a| a == alias);
        let n = known.unwrap_or_else(|| {
            self.agents.push(s(alias));
            self.agents.len() - 1
        });
        format!("uuid-{}", n)
    }
}

fn fresh() -> Handle {
    Rc::new(RefCell::new(Backend::default()))
}

fn provision_agents(inner: &Handle, aliases: &[&str]) -> Vec<String> {
    aliases
        .iter()
        .map(|a| inner.borrow_mut().ensure_agent_uuid(a))
        .collect()
}

fn refused(e: MemoryError<String>) -> String {
    match e {
        MemoryError::Refused(why) => why.message(),
        MemoryError::Backend(e) => panic!("backend failed: {}", e),
    }
}

fn store(m: &Scoped, key: &str, content: &str, category: MemoryCategory) {
    let call = m.store(s(key), s(content), category, None);
    m.inner().borrow_mut().write(call).unwrap();
}

/// Stores a row through the wrapper of its owner.
fn seed(
    inner: &Handle,
    key: &str,
    content: &str,
    category: MemoryCategory,
    session: Option<&str>,
    owner: &str,
) {
    let m = AgentScopedMemory::new(inner.clone(), s(owner), Vec::new());
    let call = m
        .store_with_agent(s(key), s(content), category, opt(session), None, None, Some(s(owner)))
        .unwrap();
    inner.borrow_mut().write(call).unwrap();
}

fn recall(m: &Scoped, query: &str, limit: usize) -> Result<Vec<MemoryEntry>, String> {
    let call = m.recall(s(query), limit, None, None, None);
    m.recall_reply(m.inner().borrow_mut().rows_of(call))
}

fn recall_for_agents(m: &Scoped, caller: &[&str], query: &str) -> Result<Vec<MemoryEntry>, String> {
    let caller: Vec<String> = caller.iter().map(|id| s(id)).collect();
    match m.recall_for_agents(caller, s(query), 10, None, None, None) {
        Plan::Answer(rows) => Ok(rows),
        Plan::Ask(call) => m.recall_for_agents_reply(m.inner().borrow_mut().rows_of(call)),
    }
}

fn recall_namespaced(m: &Scoped, ns: &str, query: &str, limit: usize) -> Vec<MemoryEntry> {
    let call = m.recall_namespaced(s(query), limit, None, None, None);
    let reply = m.inner().borrow_mut().rows_of(call);
    m.recall_namespaced_reply(&s(ns), limit, reply).unwrap()
}

fn get(m: &Scoped, key: &str) -> Result<Option<MemoryEntry>, String> {
    let (mut call, mut scan) = m.get(s(key));
    loop {
        let reply = m.inner().borrow_mut().row_of(call);
        match m.get_reply(scan, reply) {
            GetStep::Ask(c, n) => {
                call = c;
                scan = n;
            }
            GetStep::Done(r) => return r,
        }
    }
}

fn get_for_agent(m: &Scoped, key: &str, agent: &str) -> Result<Option<MemoryEntry>, String> {
    match m.get_for_agent(s(key), s(agent)) {
        Plan::Answer(row) => Ok(row),
        Plan::Ask(call) => m.get_for_agent_reply(m.inner().borrow_mut().row_of(call)),
    }
}

fn list(m: &Scoped) -> Vec<MemoryEntry> {
    let call = m.list(None, None);
    m.list_reply(m.inner().borrow_mut().rows_of(call)).unwrap()
}

fn count(m: &Scoped) -> usize {
    let call = m.count();
    m.count_reply(m.inner().borrow_mut().rows_of(call)).unwrap()
}

fn export(m: &Scoped, filter: &ExportFilter) -> Vec<MemoryEntry> {
    let call = m.export(filter);
    let reply = m.inner().borrow_mut().rows_of(call);
    m.export_reply(filter, reply).unwrap()
}

fn forget(m: &Scoped, key: &str) -> Result<bool, MemoryError<String>> {
    let call = m.forget(s(key));
    let reply = m.inner().borrow_mut().delete(call).map(|n| n > 0);
    match m.forget_reply(s(key), reply) {
        ForgetStep::Done(r) => r,
        ForgetStep::Look(call) => m.forget_look_reply(m.inner().borrow_mut().row_of(call)),
    }
}

fn everything() -> ExportFilter {
    ExportFilter {
        namespace: None,
        session_id: None,
        category: None,
        since: None,
        until: None,
    }
}

fn row(key: &str, owner: Option<&str>, category: MemoryCategory) -> MemoryEntry {
    MemoryEntry {
        id: s("row"),
        key: s(key),
        content: s("v"),
        category,
        timestamp: s("2026-01-01"),
        session_id: None,
        score: None,
        namespace: s("default"),
        importance: None,
        kind: None,
        pinned: false,
        tenant_id: None,
        agent_id: opt(owner),
    }
}

fn custom(name: &str) -> MemoryCategory {
    MemoryCategory::Custom(s(name))
}

fn family_only() -> Option<Vec<String>> {
    Some(vec![s("family")])
}

fn seed_sibling_rows(inner: &Handle, uuid: &str) {
    let m = AgentScopedMemory::new(inner.clone(), s(uuid), Vec::new());
    store(&m, "fam-event", "family visits grandma on saturday", custom("family"));
    store(&m, "private-note", "salary negotiation strategy", custom("private"));
}

#[test]
fn refresh_embedder_forwards_to_inner_backend() {
    let inner = fresh();
    let wrapper = AgentScopedMemory::new(inner.clone(), s("agent-1"), Vec::new());
    assert_eq!(inner.borrow().dimensions, 0);

    let call = wrapper.refresh_embedder(
        s("openai"),
        Some(s("sk-test")),
        s("text-embedding-3-small"),
        1536,
    );
    inner.borrow_mut().write(call).unwrap();

    assert_eq!(
        inner.borrow().dimensions,
        1536,
        "AgentScopedMemory must forward refresh_embedder to the wrapped backend"
    );
}

#[test]
fn store_routes_through_store_with_agent_and_persists_attribution() {
    let inner = fresh();
    let alpha = inner.borrow_mut().ensure_agent_uuid("alpha");
    let wrapper = AgentScopedMemory::new(inner.clone(), alpha.clone(), Vec::new());

    store(&wrapper, "k1", "v1", MemoryCategory::Core);

    let hits = recall(&wrapper, "k1", 10).unwrap();
    assert!(
        hits.iter().any(|e| e.key == "k1"),
        "wrapper recall must find rows it just stored"
    );
    assert_eq!(hits[0].agent_id, Some(alpha));
}

#[test]
fn store_with_options_preserves_full_metadata_and_attribution() {
    let inner = fresh();
    let alpha = inner.borrow_mut().ensure_agent_uuid("alpha");
    let wrapper = AgentScopedMemory::new(inner.clone(), alpha.clone(), Vec::new());

    let call = wrapper.store_with_options(
        s("decision"),
        s("Use staged rollout"),
        MemoryCategory::Core,
        Some(s("session-1")),
        StoreOptions {
            namespace: Some(s("operations")),
            importance: Some(weight(0.9)),
            kind: Some(MemoryKind::Semantic(SemanticSubtype::Decision)),
            pinned: true,
            tenant_id: Some(s("tenant-a")),
        },
    );
    inner.borrow_mut().write(call).unwrap();

    let entry = inner
        .borrow_mut()
        .row_of(BackendCall::GetForAgent {
            key: s("decision"),
            agent_id: alpha.clone(),
        })
        .unwrap()
        .expect("bound agent row should persist");
    assert_eq!(entry.agent_id.as_deref(), Some(alpha.as_str()));
    assert_eq!(entry.namespace, "operations");
    assert_eq!(entry.importance.map(|w| f64::from_bits(w.bits)), Some(0.9));
    assert_eq!(
        entry.kind,
        Some(MemoryKind::Semantic(SemanticSubtype::Decision))
    );
    assert!(entry.pinned);
    assert_eq!(entry.tenant_id.as_deref(), Some("tenant-a"));
}

#[test]
fn recall_excludes_other_agent_rows_when_allowlist_omits_them() {
    let inner = fresh();
    let uuids = provision_agents(&inner, &["alpha", "other"]);
    seed(&inner, "other-key", "other-val", MemoryCategory::Core, None, &uuids[1]);

    let wrapper = AgentScopedMemory::new(inner, uuids[0].clone(), Vec::new());

    let hits = recall(&wrapper, "other-key", 10).unwrap();
    assert!(
        !hits.iter().any(|e| e.key == "other-key"),
        "rows attributed to a non-allowlisted agent must not surface"
    );
}

#[test]
fn recall_includes_allowlisted_sibling_rows() {
    let inner = fresh();
    let uuids = provision_agents(&inner, &["alpha", "beta"]);
    seed(&inner, "sibling-key", "sibling-val", MemoryCategory::Core, None, &uuids[1]);

    let wrapper = AgentScopedMemory::new(inner, uuids[0].clone(), vec![uuids[1].clone()]);

    let hits = recall(&wrapper, "sibling-key", 10).unwrap();
    assert!(
        hits.iter().any(|e| e.key == "sibling-key"),
        "rows attributed to an allowlisted sibling must surface"
    );
}

#[test]
fn get_filters_cross_agent_rows_by_attribution() {
    let inner = fresh();
    let uuids = provision_agents(&inner, &["alpha", "beta"]);
    seed(&inner, "beta-only", "secret", MemoryCategory::Core, None, &uuids[1]);

    let wrapper = AgentScopedMemory::new(inner, uuids[0].clone(), Vec::new());

    let hit = get(&wrapper, "beta-only").unwrap();
    assert!(
        hit.is_none(),
        "get must filter out rows attributed to non-allowlisted agents"
    );
}

#[test]
fn forget_refuses_to_delete_sibling_rows() {
    let inner = fresh();
    let uuids = provision_agents(&inner, &["alpha", "beta"]);
    seed(&inner, "beta-row", "v", MemoryCategory::Core, None, &uuids[1]);

    let wrapper = AgentScopedMemory::new(inner, uuids[0].clone(), vec![uuids[1].clone()]);

    let err = refused(
        forget(&wrapper, "beta-row")
            .expect_err("forget must refuse cross-agent delete even with read allowlist"),
    );
    assert!(
        err.contains("attributed to agent"),
        "expected sibling-attribution refusal, got: {err}"
    );
}

#[test]
fn list_filters_to_bound_and_allowlisted_agents() {
    let inner = fresh();
    let uuids = provision_agents(&inner, &["alpha", "beta", "rogue"]);
    for (key, owner) in [("alpha-row", &uuids[0]), ("rogue-row", &uuids[2])] {
        seed(&inner, key, "v", MemoryCategory::Core, None, owner);
    }

    let wrapper = AgentScopedMemory::new(inner, uuids[0].clone(), vec![uuids[1].clone()]);

    let entries = list(&wrapper);
    assert!(entries.iter().any(|e| e.key == "alpha-row"));
    assert!(
        !entries.iter().any(|e| e.key == "rogue-row"),
        "list must drop rows attributed to non-allowlisted agents"
    );
}

#[test]
fn store_with_agent_refuses_foreign_agent_id() {
    let inner = fresh();
    let uuids = provision_agents(&inner, &["alpha", "rogue"]);
    let wrapper = AgentScopedMemory::new(inner, uuids[0].clone(), Vec::new());

    let err = wrapper
        .store_with_agent(
            s("k"),
            s("v"),
            MemoryCategory::Core,
            None,
            None,
            None,
            Some(uuids[1].clone()),
        )
        .expect_err("store_with_agent must refuse a foreign agent_id rather than silently override");
    assert_eq!(err, Refusal::ForeignStore);
    assert!(
        err.message().contains("foreign agent_id"),
        "expected foreign-agent refusal, got: {}",
        err.message()
    );
}

#[test]
fn purge_namespace_is_refused() {
    let inner = fresh();
    let alpha = inner.borrow_mut().ensure_agent_uuid("alpha");
    let wrapper = AgentScopedMemory::new(inner, alpha, Vec::new());

    let err = wrapper
        .purge_namespace(&s("default"))
        .expect_err("purge_namespace must be refused on a wrapper");
    assert!(
        err.message().contains("admin Memory handle"),
        "expected admin-only refusal, got: {}",
        err.message()
    );
}

#[test]
fn purge_session_deletes_only_bound_agent_rows_in_that_session() {
    let inner = fresh();
    let uuids = provision_agents(&inner, &["alpha", "beta"]);
    let core = MemoryCategory::Core;
    seed(&inner, "shared-key", "alpha other session", core.clone(), Some("other-session"), &uuids[0]);
    seed(&inner, "shared-key", "beta target session", core.clone(), Some("target-session"), &uuids[1]);
    seed(&inner, "alpha-target", "alpha target session", core, Some("target-session"), &uuids[0]);

    let wrapper =
        AgentScopedMemory::new(inner.clone(), uuids[0].clone(), vec![uuids[1].clone()]);

    let call = wrapper.purge_session(s("target-session"));
    let purged = inner.borrow_mut().delete(call).unwrap();
    assert_eq!(purged, 1, "only alpha's row in target-session is deleted");
    let held = |key: &str, agent: &String| {
        inner
            .borrow_mut()
            .row_of(BackendCall::GetForAgent {
                key: s(key),
                agent_id: agent.clone(),
            })
            .unwrap()
            .is_some()
    };
    assert!(
        held("shared-key", &uuids[0]),
        "same-key alpha row in another session must survive"
    );
    assert!(
        held("shared-key", &uuids[1]),
        "sibling row in target-session must survive"
    );
    assert!(
        !held("alpha-target", &uuids[0]),
        "bound agent row in target-session must be deleted"
    );
}

#[test]
fn recall_for_agents_intersects_caller_allowlist_with_bound_allowlist() {
    let inner = fresh();
    let uuids = provision_agents(&inner, &["alpha", "beta", "rogue"]);
    seed(&inner, "rogue-key", "rogue-val", MemoryCategory::Core, None, &uuids[2]);

    let wrapper =
        AgentScopedMemory::new(inner.clone(), uuids[0].clone(), vec![uuids[1].clone()]);

    let calls = inner.borrow().calls;
    let hits = recall_for_agents(&wrapper, &[&uuids[2]], "rogue-key").unwrap();
    assert!(
        !hits.iter().any(|e| e.key == "rogue-key"),
        "caller allowlist must be intersected, not unioned"
    );
    assert_eq!(inner.borrow().calls, calls);
}

#[test]
fn category_scope_filters_recall() {
    let inner = fresh();
    let uuids = provision_agents(&inner, &["alpha", "beta"]);
    seed_sibling_rows(&inner, &uuids[1]);

    let alpha = AgentScopedMemory::with_category_scopes(
        inner,
        uuids[0].clone(),
        vec![(uuids[1].clone(), family_only())],
    );
    let hits = recall(&alpha, "grandma", 10).unwrap();
    assert!(
        hits.iter().any(|e| e.key == "fam-event"),
        "family row visible"
    );
    let hits = recall(&alpha, "salary", 10).unwrap();
    assert!(
        hits.iter().all(|e| e.key != "private-note"),
        "private row must not recall through a family-only scope"
    );
}

#[test]
fn category_scope_filters_get_and_get_for_agent() {
    let inner = fresh();
    let uuids = provision_agents(&inner, &["alpha", "beta"]);
    seed_sibling_rows(&inner, &uuids[1]);

    let alpha = AgentScopedMemory::with_category_scopes(
        inner,
        uuids[0].clone(),
        vec![(uuids[1].clone(), family_only())],
    );
    assert!(get(&alpha, "fam-event").unwrap().is_some());
    assert!(
        get(&alpha, "private-note").unwrap().is_none(),
        "get() must not fall back into a category-blocked sibling row"
    );
    assert!(
        get_for_agent(&alpha, "private-note", &uuids[1]).unwrap().is_none(),
        "get_for_agent() must apply the category constraint"
    );
    assert!(get_for_agent(&alpha, "fam-event", &uuids[1]).unwrap().is_some());
}

#[test]
fn category_scope_get_fallback_continues_past_blocked_sibling() {
    let inner = fresh();
    let uuids = provision_agents(&inner, &["alpha", "beta", "gamma"]);
    let beta = AgentScopedMemory::new(inner.clone(), uuids[1].clone(), Vec::new());
    store(&beta, "shared-key", "beta private", custom("private"));
    let gamma = AgentScopedMemory::new(inner.clone(), uuids[2].clone(), Vec::new());
    store(&gamma, "shared-key", "gamma family", custom("family"));

    let alpha = AgentScopedMemory::with_category_scopes(
        inner,
        uuids[0].clone(),
        vec![
            (uuids[1].clone(), family_only()),
            (uuids[2].clone(), family_only()),
        ],
    );
    let hit = get(&alpha, "shared-key")
        .unwrap()
        .expect("must continue to gamma's allowed row, not stop at beta's blocked row");
    assert_eq!(hit.content, "gamma family");
}

#[test]
fn category_scope_filters_list_and_export() {
    let inner = fresh();
    let uuids = provision_agents(&inner, &["alpha", "beta"]);
    seed_sibling_rows(&inner, &uuids[1]);

    let alpha = AgentScopedMemory::with_category_scopes(
        inner,
        uuids[0].clone(),
        vec![(uuids[1].clone(), family_only())],
    );
    let listed = list(&alpha);
    assert!(listed.iter().any(|e| e.key == "fam-event"));
    assert!(listed.iter().all(|e| e.key != "private-note"));

    let exported = export(&alpha, &everything());
    assert!(exported.iter().any(|e| e.key == "fam-event"));
    assert!(
        exported.iter().all(|e| e.key != "private-note"),
        "export (GDPR path) must honor the category constraint"
    );
}

#[test]
fn category_scope_survives_caller_allowlist_intersection() {
    let inner = fresh();
    let uuids = provision_agents(&inner, &["alpha", "beta"]);
    seed_sibling_rows(&inner, &uuids[1]);

    let alpha = AgentScopedMemory::with_category_scopes(
        inner,
        uuids[0].clone(),
        vec![(uuids[1].clone(), family_only())],
    );
    let hits = recall_for_agents(&alpha, &[&uuids[1]], "salary").unwrap();
    assert!(
        hits.iter().all(|e| e.key != "private-note"),
        "caller-supplied allowlist must not bypass category constraints"
    );
}

#[test]
fn category_scope_own_rows_and_bare_siblings_unaffected() {
    let inner = fresh();
    let uuids = provision_agents(&inner, &["alpha", "beta"]);
    seed_sibling_rows(&inner, &uuids[1]);

    let alpha_seed = AgentScopedMemory::new(inner.clone(), uuids[0].clone(), Vec::new());
    store(&alpha_seed, "own-secret", "alpha own private", custom("private"));

    let alpha = AgentScopedMemory::with_category_scopes(
        inner.clone(),
        uuids[0].clone(),
        vec![(uuids[1].clone(), family_only())],
    );
    assert!(get(&alpha, "own-secret").unwrap().is_some());

    let alpha_bare = AgentScopedMemory::with_category_scopes(
        inner,
        uuids[0].clone(),
        vec![(uuids[1].clone(), None)],
    );
    assert!(get(&alpha_bare, "private-note").unwrap().is_some());
}

#[test]
fn category_match_is_case_insensitive() {
    let inner = fresh();
    let uuids = provision_agents(&inner, &["alpha", "beta"]);
    let beta = AgentScopedMemory::new(inner.clone(), uuids[1].clone(), Vec::new());
    store(&beta, "fam-mixed", "row stored with mixed-case category", custom("Family"));

    let alpha = AgentScopedMemory::with_category_scopes(
        inner.clone(),
        uuids[0].clone(),
        vec![(uuids[1].clone(), family_only())],
    );
    assert!(
        get(&alpha, "fam-mixed").unwrap().is_some(),
        "entry category 'Family' must match constraint 'family'"
    );
    let shouting = AgentScopedMemory::with_category_scopes(
        inner,
        uuids[0].clone(),
        vec![(uuids[1].clone(), Some(vec![s("FAMILY")]))],
    );
    assert!(get(&shouting, "fam-mixed").unwrap().is_some());
}

#[test]
fn count_gates_on_entry_visible_like_list() {
    let inner = fresh();
    let uuids = provision_agents(&inner, &["alpha", "beta"]);
    seed_sibling_rows(&inner, &uuids[1]);

    let alpha = AgentScopedMemory::with_category_scopes(
        inner,
        uuids[0].clone(),
        vec![(uuids[1].clone(), family_only())],
    );
    store(&alpha, "own-note", "alpha's own row", MemoryCategory::Core);

    let listed = list(&alpha);
    let counted = count(&alpha);
    assert_eq!(
        counted,
        listed.len(),
        "count() must agree with list(None, None): both gate on entry_visible"
    );
    assert_eq!(
        counted, 2,
        "expected alpha's own row + the visible 'family' sibling row only \
         (the 'private' sibling row must not be counted)"
    );
}

#[test]
fn visibility_fails_closed() {
    let m = AgentScopedMemory::with_category_scopes(
        (),
        s("a"),
        vec![(s("b"), Some(Vec::new())), (s("c"), Some(vec![s("Core"), s("Ä")]))],
    );
    assert!(m.entry_visible(&row("k", Some("a"), custom("anything"))));
    assert!(!m.entry_visible(&row("k", None, MemoryCategory::Core)));
    assert!(!m.entry_visible(&row("k", Some("z"), MemoryCategory::Core)));
    assert!(!m.entry_visible(&row("k", Some("A"), MemoryCategory::Core)));
    assert!(!m.entry_visible(&row("k", Some("b"), MemoryCategory::Core)));
    assert!(m.entry_visible(&row("k", Some("c"), MemoryCategory::Core)));
    assert!(m.entry_visible(&row("k", Some("c"), custom("CORE"))));
    assert!(!m.entry_visible(&row("k", Some("c"), MemoryCategory::Daily)));
    assert!(m.entry_visible(&row("k", Some("c"), custom("Ä"))));
    assert!(!m.entry_visible(&row("k", Some("c"), custom("ä"))));
}

#[test]
fn categories_have_their_names() {
    assert_eq!(MemoryCategory::Core.to_text(), "core");
    assert_eq!(MemoryCategory::Daily.to_text(), "daily");
    assert_eq!(MemoryCategory::Conversation.to_text(), "conversation");
    assert_eq!(custom("Family").to_text(), "Family");
}

#[test]
fn grants_go_one_way_and_are_not_passed_on() {
    let a = AgentScopedMemory::new((), s("a"), vec![s("b")]);
    let b = AgentScopedMemory::new((), s("b"), vec![s("c")]);
    assert!(a.entry_visible(&row("k", Some("b"), MemoryCategory::Core)));
    assert!(!b.entry_visible(&row("k", Some("a"), MemoryCategory::Core)));
    assert!(b.entry_visible(&row("k", Some("c"), MemoryCategory::Core)));
    assert!(!a.entry_visible(&row("k", Some("c"), MemoryCategory::Core)));
}

#[test]
fn the_last_scope_for_an_agent_counts() {
    let m = AgentScopedMemory::with_category_scopes(
        (),
        s("a"),
        vec![
            (s("b"), None),
            (s("a"), Some(Vec::new())),
            (s("c"), Some(vec![s("daily")])),
            (s("b"), Some(vec![s("core")])),
            (s("c"), None),
        ],
    );
    assert_eq!(m.allowed_slice(), vec![s("b"), s("a"), s("c")]);
    assert!(!m.entry_visible(&row("k", Some("b"), MemoryCategory::Daily)));
    assert!(m.entry_visible(&row("k", Some("b"), MemoryCategory::Core)));
    assert!(m.entry_visible(&row("k", Some("c"), MemoryCategory::Core)));
    assert!(m.entry_visible(&row("k", Some("a"), MemoryCategory::Core)));
}

#[test]
fn allowlist_holds_each_agent_once() {
    let m = AgentScopedMemory::new((), s("a"), vec![s("b"), s("c"), s("b")]);
    assert_eq!(m.allowed_slice(), vec![s("b"), s("c"), s("a")]);
    assert!(m.grants_reading(&s("a")) && m.grants_reading(&s("c")));
    assert!(!m.grants_reading(&s("d")));
    assert_eq!(m.alias(), "a");
    assert_eq!(m.role(), Role::Memory(MemoryRole::AgentScoped));
}

#[test]
fn recall_plans_name_the_readable_agents() {
    let m = AgentScopedMemory::new((), s("a"), vec![s("b")]);
    let plan = |allowed: Vec<String>, limit: usize| BackendCall::RecallForAgents {
        allowed,
        query: s("q"),
        limit,
        session_id: Some(s("s")),
        since: Some(s("1")),
        until: Some(s("2")),
    };
    let args = (Some(s("s")), Some(s("1")), Some(s("2")));
    let (sid, since, until) = args.clone();
    assert_eq!(m.recall(s("q"), 3, sid, since, until), plan(vec![s("b"), s("a")], 3));
    let (sid, since, until) = args.clone();
    assert_eq!(
        m.recall_namespaced(s("q"), 3, sid, since, until),
        plan(vec![s("b"), s("a")], 6)
    );
    let (sid, since, until) = args.clone();
    assert_eq!(
        m.recall_for_agents(Vec::new(), s("q"), 3, sid, since, until),
        Plan::Ask(plan(vec![s("b"), s("a")], 3))
    );
    let (sid, since, until) = args.clone();
    assert_eq!(
        m.recall_for_agents(
            vec![s("a"), s("z"), s("b"), s("a")],
            s("q"),
            3,
            sid,
            since,
            until
        ),
        Plan::Ask(plan(vec![s("a"), s("b"), s("a")], 3))
    );
    let (sid, since, until) = args;
    assert_eq!(
        m.recall_for_agents(vec![s("z")], s("q"), 3, sid, since, until),
        Plan::Answer(Vec::new())
    );
}

#[test]
fn recall_namespaced_keeps_the_first_rows_of_the_namespace() {
    let inner = fresh();
    let m = AgentScopedMemory::new(inner.clone(), s("a"), Vec::new());
    for (key, ns) in [("k1", "x"), ("k2", "y"), ("k3", "x"), ("k4", "x")] {
        let call = m.store_with_metadata(
            s(key),
            s("v"),
            MemoryCategory::Core,
            None,
            Some(s(ns)),
            Some(weight(0.5)),
        );
        inner.borrow_mut().write(call).unwrap();
    }
    let keys = |rows: Vec<MemoryEntry>| rows.into_iter().map(|e| e.key).collect::<Vec<_>>();
    assert_eq!(keys(recall_namespaced(&m, "x", "k", 10)), vec!["k1", "k3", "k4"]);
    assert_eq!(keys(recall_namespaced(&m, "x", "k", 2)), vec!["k1", "k3"]);
    assert_eq!(keys(recall_namespaced(&m, "x", "k", 1)), vec!["k1"]);
    assert_eq!(keys(recall_namespaced(&m, "x", "k", 0)), Vec::<String>::new());
    assert_eq!(keys(recall_namespaced(&m, "z", "k", 5)), Vec::<String>::new());
}

#[test]
fn get_prefers_the_own_row_and_asks_siblings_in_order() {
    let inner = fresh();
    let m = AgentScopedMemory::new(inner.clone(), s("a"), vec![s("b"), s("c")]);
    seed(&inner, "k", "of c", MemoryCategory::Core, None, "c");
    assert_eq!(get(&m, "k").unwrap().unwrap().content, "of c");
    seed(&inner, "k", "of b", MemoryCategory::Core, None, "b");
    assert_eq!(get(&m, "k").unwrap().unwrap().content, "of b");
    seed(&inner, "k", "of a", MemoryCategory::Core, None, "a");
    assert_eq!(get(&m, "k").unwrap().unwrap().content, "of a");
    assert_eq!(get(&m, "none").unwrap(), None);
}

#[test]
fn get_checks_every_answer() {
    let m = AgentScopedMemory::new((), s("a"), vec![s("b")]);
    let own = row("k", Some("a"), custom("anything"));
    let (_, scan) = m.get(s("k"));
    assert_eq!(
        m.get_reply::<String>(scan, Ok(Some(own.clone()))),
        GetStep::Done(Ok(Some(own)))
    );
    let odd = row("k", None, MemoryCategory::Core);
    let (_, scan) = m.get(s("k"));
    let step = m.get_reply::<String>(scan, Ok(Some(odd.clone())));
    let scan = match step {
        GetStep::Ask(call, scan) => {
            assert_eq!(
                call,
                BackendCall::GetForAgent {
                    key: s("k"),
                    agent_id: s("b")
                }
            );
            scan
        }
        other => panic!("{:?}", other),
    };
    assert_eq!(
        m.get_reply::<String>(scan, Ok(Some(odd))),
        GetStep::Done(Ok(None))
    );
}

#[test]
fn get_ends_when_a_sibling_cannot_be_asked() {
    let m = AgentScopedMemory::new((), s("a"), vec![s("b"), s("c")]);
    let (_, scan) = m.get(s("k"));
    let scan = match m.get_reply::<String>(scan, Ok(None)) {
        GetStep::Ask(_, scan) => scan,
        other => panic!("{:?}", other),
    };
    assert_eq!(
        m.get_reply(scan, Err(s("backend down"))),
        GetStep::Done(Err(s("backend down")))
    );
}

#[test]
fn get_for_agent_does_not_ask_about_strangers() {
    let m = AgentScopedMemory::new((), s("a"), vec![s("b")]);
    assert_eq!(m.get_for_agent(s("k"), s("z")), Plan::Answer(None));
    for id in ["a", "b"] {
        assert_eq!(
            m.get_for_agent(s("k"), s(id)),
            Plan::Ask(BackendCall::GetForAgent {
                key: s("k"),
                agent_id: s(id)
            })
        );
    }
    assert_eq!(
        m.get_for_agent_reply::<String>(Ok(Some(row("k", Some("z"), MemoryCategory::Core)))),
        Ok(None)
    );
}

#[test]
fn export_applies_namespace_and_time() {
    let m = AgentScopedMemory::new((), s("a"), Vec::new());
    let at = |key: &str, timestamp: &str, ns: &str| MemoryEntry {
        timestamp: s(timestamp),
        namespace: s(ns),
        ..row(key, Some("a"), MemoryCategory::Core)
    };
    let rows = || {
        vec![
            at("k1", "2026-01-01", "x"),
            at("k2", "2026-01-02", "x"),
            at("k3", "2026-01-02T10", "y"),
            at("k4", "2026-01-03", "x"),
            row("hidden", Some("z"), MemoryCategory::Core),
        ]
    };
    let keys = |filter: ExportFilter| {
        m.export_reply::<String>(&filter, Ok(rows()))
            .unwrap()
            .into_iter()
            .map(|e| e.key)
            .collect::<Vec<_>>()
    };
    assert_eq!(keys(everything()), vec!["k1", "k2", "k3", "k4"]);
    assert_eq!(
        keys(ExportFilter {
            namespace: Some(s("x")),
            ..everything()
        }),
        vec!["k1", "k2", "k4"]
    );
    assert_eq!(
        keys(ExportFilter {
            since: Some(s("2026-01-02")),
            ..everything()
        }),
        vec!["k2", "k3", "k4"]
    );
    assert_eq!(
        keys(ExportFilter {
            until: Some(s("2026-01-02")),
            ..everything()
        }),
        vec!["k1", "k2"]
    );
    assert_eq!(
        keys(ExportFilter {
            since: Some(s("2026-01-02T")),
            until: Some(s("2026-01-02U")),
            namespace: Some(s("y")),
            ..everything()
        }),
        vec!["k3"]
    );
    let filter = ExportFilter {
        category: Some(custom("c")),
        session_id: Some(s("s")),
        ..everything()
    };
    assert_eq!(
        m.export(&filter),
        BackendCall::List {
            category: Some(custom("c")),
            session_id: Some(s("s"))
        }
    );
}

#[test]
fn stores_are_stamped_with_the_bound_agent() {
    let m = AgentScopedMemory::new((), s("a"), vec![s("b")]);
    let stamped = BackendCall::StoreWithAgent {
        key: s("k"),
        content: s("v"),
        category: MemoryCategory::Daily,
        session_id: Some(s("s")),
        namespace: None,
        importance: None,
        agent_id: Some(s("a")),
    };
    assert_eq!(
        m.store(s("k"), s("v"), MemoryCategory::Daily, Some(s("s"))),
        stamped
    );
    for named in [None, Some(s("a"))] {
        assert_eq!(
            m.store_with_agent(
                s("k"),
                s("v"),
                MemoryCategory::Daily,
                Some(s("s")),
                None,
                None,
                named
            ),
            Ok(BackendCall::StoreWithAgent {
                key: s("k"),
                content: s("v"),
                category: MemoryCategory::Daily,
                session_id: Some(s("s")),
                namespace: None,
                importance: None,
                agent_id: Some(s("a")),
            })
        );
    }
}

#[test]
fn store_with_options_and_agent_refuses_foreign_agent_id() {
    let m = AgentScopedMemory::new((), s("a"), vec![s("b")]);
    let options = || StoreOptions {
        namespace: None,
        importance: None,
        kind: Some(MemoryKind::Other(s("episodic"))),
        pinned: false,
        tenant_id: None,
    };
    let core = MemoryCategory::Core;
    let err = m
        .store_with_options_and_agent(s("k"), s("v"), core.clone(), None, options(), Some(s("b")))
        .unwrap_err();
    assert_eq!(err, Refusal::ForeignStoreWithOptions);
    assert_eq!(
        err.message(),
        "AgentScopedMemory refuses store_with_options_and_agent for foreign agent_id; use a wrapper bound to the target agent"
    );
    for named in [None, Some(s("a"))] {
        assert_eq!(
            m.store_with_options_and_agent(s("k"), s("v"), core.clone(), None, options(), named),
            Ok(m.store_with_options(s("k"), s("v"), core.clone(), None, options()))
        );
    }
}

#[test]
fn forget_tells_what_became_of_the_row() {
    let inner = fresh();
    let m = AgentScopedMemory::new(inner.clone(), s("a"), vec![s("b")]);
    store(&m, "k", "v", MemoryCategory::Core);
    assert_eq!(forget(&m, "k"), Ok(true));
    assert_eq!(forget(&m, "k"), Ok(false));
    inner.borrow_mut().rows.push(row("legacy", None, MemoryCategory::Core));
    let err = forget(&m, "legacy").unwrap_err();
    assert_eq!(err, MemoryError::Refused(Refusal::ForgetOfUnattributedRow));
    assert!(refused(err).contains("refuses to forget unattributed row"));
    seed(&inner, "theirs", "v", MemoryCategory::Core, None, "b");
    assert_eq!(
        forget(&m, "theirs"),
        Err(MemoryError::Refused(Refusal::ForgetOfForeignRow))
    );
    assert_eq!(inner.borrow().rows.len(), 2);
}

#[test]
fn forget_for_agent_serves_the_bound_agent_only() {
    let m = AgentScopedMemory::new((), s("a"), vec![s("b")]);
    assert_eq!(
        m.forget_for_agent(s("k"), s("a")),
        Ok(BackendCall::ForgetForAgent {
            key: s("k"),
            agent_id: s("a")
        })
    );
    let err = m.forget_for_agent(s("k"), s("b")).unwrap_err();
    assert_eq!(err, Refusal::ForgetForForeignAgent);
    assert!(err.message().contains("bound agent and target agent differ"));
}

#[test]
fn backend_failures_are_passed_on() {
    let inner = fresh();
    let m = AgentScopedMemory::new(inner.clone(), s("a"), vec![s("b")]);
    inner.borrow_mut().down = true;
    let down = || s("backend down");
    assert_eq!(recall(&m, "q", 1), Err(down()));
    assert_eq!(recall_for_agents(&m, &["b"], "q"), Err(down()));
    assert_eq!(get(&m, "k"), Err(down()));
    assert_eq!(inner.borrow().calls, 3);
    assert_eq!(get_for_agent(&m, "k", "b"), Err(down()));
    assert_eq!(forget(&m, "k"), Err(MemoryError::Backend(down())));
    assert_eq!(
        m.forget_look_reply(Err(down())),
        Err(MemoryError::Backend(down()))
    );
    assert_eq!(m.count_reply(Err(down())), Err(down()));
    assert_eq!(m.list_reply(Err(down())), Err(down()));
    assert_eq!(m.export_reply(&everything(), Err(down())), Err(down()));
    assert_eq!(m.recall_namespaced_reply(&s("x"), 1, Err(down())), Err(down()));
}

#[test]
fn other_calls_go_through_as_they_are() {
    let m = AgentScopedMemory::new((), s("a"), vec![s("b")]);
    assert_eq!(m.health_check(), BackendCall::HealthCheck);
    assert_eq!(m.reindex(), BackendCall::Reindex);
    assert_eq!(
        m.ensure_agent_uuid(s("x")),
        BackendCall::EnsureAgentUuid { alias: s("x") }
    );
}

#[test]
fn procedural_traces_are_stamped_with_the_bound_agent() {
    let m = AgentScopedMemory::new((), s("a"), vec![s("b")]);
    let message = || ProceduralMessage {
        role: s("user"),
        content: s("hi"),
        name: None,
    };
    assert_eq!(
        m.store_procedural(vec![message()], Some(s("s"))),
        BackendCall::StoreProcedural {
            messages: vec![message()],
            session_id: Some(s("s")),
            agent_id: Some(s("a"))
        }
    );
}
