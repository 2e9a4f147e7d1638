//! The grants of one agent: whose rows it may read, and in which categories.

use vstd::prelude::*;

use crate::memory::scope::noted;
use crate::text::{ascii_lowercase, texts};

verus! {

/// Read access to the rows of one agent. Without a list every category is
/// readable; a list holds lower-case names.
struct Grant {
    agent_id: String,
    categories: Option<Vec<String>>,
}

/// A table of grants, at most one for each agent.
pub struct GrantTable {
    grants: Vec<Grant>,
}

spec fn ids_of(grants: Seq<Grant>) -> Seq<Seq<char>> {
    grants.map_values(|g: Grant| g.agent_id@)
}

/// The categories of a grant.
pub open spec fn category_set(categories: Option<Vec<String>>) -> Option<Set<Seq<char>>> {
    match categories {
        None => None,
        Some(list) => Some(texts(list@).to_set()),
    }
}

spec fn grants_of(grants: Seq<Grant>) -> Map<Seq<char>, Option<Set<Seq<char>>>> {
    Map::new(
        |id: Seq<char>| ids_of(grants).contains(id),
        |id: Seq<char>| category_set(grants[ids_of(grants).index_of(id)].categories),
    )
}

proof fn lemma_grant_at(grants: Seq<Grant>, i: int)
    requires
        ids_of(grants).no_duplicates(),
        0 <= i < grants.len(),
    ensures
        ids_of(grants)[i] == grants[i].agent_id@,
        ids_of(grants).index_of(grants[i].agent_id@) == i,
        grants_of(grants).contains_key(grants[i].agent_id@),
        grants_of(grants)[grants[i].agent_id@] == category_set(grants[i].categories),
{
    let ids = ids_of(grants);
    assert(ids[i] == grants[i].agent_id@);
    assert(ids.contains(grants[i].agent_id@));
    let k = ids.index_of(grants[i].agent_id@);
    assert(0 <= k < ids.len() && ids[k] == ids[i]);
}

/// The list in lower case.
pub fn lower_all(list: Vec<String>) -> (r: Vec<String>)
    ensures
        texts(r@) == texts(list@).map_values(|c: Seq<char>| ascii_lowercase(c)),
{
    let mut out: Vec<String> = Vec::new();
    let mut i: usize = 0;
    while i < list.len()
        invariant
            i <= list@.len(),
            out@.len() == i,
            forall|j: int| 0 <= j < i ==> #[trigger] out@[j]@ == ascii_lowercase(list@[j]@),
        decreases list@.len() - i,
    {
        out.push(list[i].as_str().to_ascii_lowercase());
        i = i + 1;
    }
    assert(texts(out@) =~= texts(list@).map_values(|c: Seq<char>| ascii_lowercase(c)));
    out
}

/// Whether the list holds the text.
pub fn holds(list: &Vec<String>, text: &String) -> (r: bool)
    ensures
        r == texts(list@).contains(text@),
{
    let mut i: usize = 0;
    while i < list.len()
        invariant
            i <= list@.len(),
            forall|j: int| 0 <= j < i ==> #[trigger] list@[j]@ != text@,
        decreases list@.len() - i,
    {
        if list[i] == *text {
            assert(texts(list@)[i as int] == text@);
            return true;
        }
        i = i + 1;
    }
    assert forall|j: int| 0 <= j < texts(list@).len() implies texts(list@)[j] != text@ by {
        assert(texts(list@)[j] == list@[j]@);
    }
    false
}

impl View for GrantTable {
    type V = Map<Seq<char>, Option<Set<Seq<char>>>>;

    closed spec fn view(&self) -> Map<Seq<char>, Option<Set<Seq<char>>>> {
        grants_of(self.grants@)
    }
}

impl GrantTable {
    /// No agent is granted twice.
    pub closed spec fn wf(self) -> bool {
        ids_of(self.grants@).no_duplicates()
    }

    /// The agents that are granted, in the order in which they were entered.
    pub closed spec fn ids(self) -> Seq<Seq<char>> {
        ids_of(self.grants@)
    }

    /// A table without grants.
    pub fn new() -> (r: Self)
        ensures
            r.wf(),
            r@ == Map::<Seq<char>, Option<Set<Seq<char>>>>::empty(),
            r.ids() == Seq::<Seq<char>>::empty(),
    {
        let r = GrantTable { grants: Vec::new() };
        assert(r.ids() =~= Seq::<Seq<char>>::empty());
        assert(r@ =~= Map::<Seq<char>, Option<Set<Seq<char>>>>::empty());
        r
    }

    /// Where the agent stands in the table.
    fn find(&self, agent_id: &String) -> (r: Option<usize>)
        ensures
            match r {
                Some(i) => i < self.grants@.len() && self.grants@[i as int].agent_id@ == agent_id@,
                None => !ids_of(self.grants@).contains(agent_id@),
            },
    {
        let mut i: usize = 0;
        while i < self.grants.len()
            invariant
                i <= self.grants@.len(),
                forall|j: int| 0 <= j < i ==> #[trigger] self.grants@[j].agent_id@ != agent_id@,
            decreases self.grants@.len() - i,
        {
            if self.grants[i].agent_id == *agent_id {
                return Some(i);
            }
            i = i + 1;
        }
        assert forall|j: int| 0 <= j < ids_of(self.grants@).len() implies ids_of(self.grants@)[j]
            != agent_id@ by {
            assert(ids_of(self.grants@)[j] == self.grants@[j].agent_id@);
        }
        None
    }

    /// Grants the agent, in place of an earlier grant for it.
    pub fn put(&mut self, agent_id: String, categories: Option<Vec<String>>)
        requires
            old(self).wf(),
        ensures
            final(self).wf(),
            final(self).ids() == noted(old(self).ids(), agent_id@),
            final(self)@ == old(self)@.insert(agent_id@, category_set(categories)),
    {
        let ghost before = self.grants@;
        match self.find(&agent_id) {
            Some(i) => {
                let ghost entry = Grant { agent_id, categories };
                self.grants.set(i, Grant { agent_id, categories });
                proof {
                    let after = self.grants@;
                    assert(after == before.update(i as int, entry));
                    assert(ids_of(after) =~= ids_of(before));
                    assert(ids_of(before)[i as int] == agent_id@);
                    assert forall|id: Seq<char>| ids_of(before).contains(id) implies grants_of(
                        after,
                    )[id] == grants_of(before).insert(agent_id@, category_set(categories))[id] by {
                        let k = ids_of(before).index_of(id);
                        assert(0 <= k < before.len() && ids_of(before)[k] == id);
                        assert(before[k].agent_id@ == id && after[k].agent_id@ == id);
                        lemma_grant_at(after, k);
                        lemma_grant_at(before, k);
                    }
                    assert(grants_of(after) =~= grants_of(before).insert(
                        agent_id@,
                        category_set(categories),
                    ));
                }
            },
            None => {
                let ghost entry = Grant { agent_id, categories };
                self.grants.push(Grant { agent_id, categories });
                proof {
                    let after = self.grants@;
                    assert(after == before.push(entry));
                    assert(ids_of(after) =~= ids_of(before).push(agent_id@));
                    assert(ids_of(after).no_duplicates()) by {
                        assert forall|i: int, j: int|
                            0 <= i < ids_of(after).len() && 0 <= j < ids_of(after).len() && i
                                != j implies ids_of(after)[i] != ids_of(after)[j] by {
                            if i < before.len() {
                                assert(ids_of(before).contains(ids_of(before)[i]));
                            }
                            if j < before.len() {
                                assert(ids_of(before).contains(ids_of(before)[j]));
                            }
                        }
                    }
                    lemma_grant_at(after, before.len() as int);
                    assert forall|id: Seq<char>| ids_of(before).contains(id) implies grants_of(
                        after,
                    )[id] == grants_of(before)[id] && ids_of(after).contains(id) by {
                        let k = ids_of(before).index_of(id);
                        assert(0 <= k < before.len() && ids_of(before)[k] == id);
                        assert(after[k] == before[k] && ids_of(after)[k] == id);
                        lemma_grant_at(after, k);
                        lemma_grant_at(before, k);
                    }
                    assert forall|id: Seq<char>| ids_of(after).contains(id) implies id == agent_id@
                        || ids_of(before).contains(id) by {
                        let k = ids_of(after).index_of(id);
                        assert(0 <= k < after.len() && ids_of(after)[k] == id);
                        if k < before.len() {
                            assert(ids_of(before)[k] == id);
                        }
                    }
                    assert(grants_of(after) =~= grants_of(before).insert(
                        agent_id@,
                        category_set(categories),
                    ));
                }
            },
        }
    }

    /// Whether the agent is granted.
    pub fn contains(&self, agent_id: &String) -> (r: bool)
        ensures
            r == self@.contains_key(agent_id@),
    {
        match self.find(agent_id) {
            None => false,
            Some(i) => {
                assert(ids_of(self.grants@)[i as int] == agent_id@);
                true
            },
        }
    }

    /// Whether the agent is granted in the category, given in lower case.
    pub fn covers(&self, agent_id: &String, category: &String) -> (r: bool)
        requires
            self.wf(),
        ensures
            r == (self@.contains_key(agent_id@) && match self@[agent_id@] {
                None => true,
                Some(categories) => categories.contains(category@),
            }),
    {
        match self.find(agent_id) {
            None => false,
            Some(i) => {
                proof {
                    lemma_grant_at(self.grants@, i as int);
                }
                match &self.grants[i].categories {
                    None => true,
                    Some(list) => holds(list, category),
                }
            },
        }
    }

    /// The agents that are granted.
    pub fn agents(&self) -> (r: Vec<String>)
        ensures
            texts(r@) == self.ids(),
            forall|id: Seq<char>| self@.contains_key(id) <==> #[trigger] self.ids().contains(id),
            self.wf() ==> self.ids().no_duplicates(),
    {
        let mut out: Vec<String> = Vec::new();
        let mut i: usize = 0;
        while i < self.grants.len()
            invariant
                i <= self.grants@.len(),
                out@.len() == i,
                forall|j: int| 0 <= j < i ==> #[trigger] out@[j]@ == self.grants@[j].agent_id@,
            decreases self.grants@.len() - i,
        {
            out.push(self.grants[i].agent_id.clone());
            i = i + 1;
        }
        assert(texts(out@) =~= self.ids());
        out
    }
}

} // verus!
