use vstd::prelude::*;

use crate::index::IndexHandle;
use crate::resource_node::ResourceNode;

verus! {

/// The name a resource was published under, compared by exact text.
pub struct ResourceBoardKey(pub String);

impl ResourceBoardKey {
    pub fn from_name(s: &str) -> (r: Self)
        ensures
            r.0@ == s@,
    {
        ResourceBoardKey(s.to_owned())
    }
}

impl<'a> From<&'a str> for ResourceBoardKey {
    fn from(s: &'a str) -> (r: Self) {
        ResourceBoardKey(s.to_owned())
    }
}

impl<'a> vstd::std_specs::convert::FromSpecImpl<&'a str> for ResourceBoardKey {
    open spec fn obeys_from_spec() -> bool {
        false
    }

    open spec fn from_spec(s: &'a str) -> Self {
        arbitrary()
    }
}

/// The per-recording map from published names to resource node indexes.
pub struct ResourceBoard {
    entries: Vec<(ResourceBoardKey, IndexHandle<ResourceNode>)>,
}

impl ResourceBoard {
    /// Internal shape: one entry per name.
    pub closed spec fn wf(&self) -> bool {
        forall|i: int, j: int|
            0 <= i < j < self.entries@.len() ==> self.entries@[i].0.0@ != self.entries@[j].0.0@
    }

    pub closed spec fn spec_contains(&self, name: Seq<char>) -> bool {
        exists|j: int| 0 <= j < self.entries@.len() && #[trigger] self.entries@[j].0.0@ == name
    }

    pub closed spec fn entry_of(&self, name: Seq<char>) -> int {
        choose|j: int| 0 <= j < self.entries@.len() && #[trigger] self.entries@[j].0.0@ == name
    }

    /// The node index published under a name.
    pub closed spec fn spec_get(&self, name: Seq<char>) -> IndexHandle<ResourceNode> {
        self.entries@[self.entry_of(name)].1
    }

    /// Every published index satisfies the given bound.
    pub open spec fn indexes_below(&self, bound: int) -> bool {
        forall|name: Seq<char>|
            self.spec_contains(name) ==> (#[trigger] self.spec_get(name)).index < bound
    }

    pub fn new() -> (r: Self)
        ensures
            r.wf(),
            forall|name: Seq<char>| !r.spec_contains(name),
    {
        ResourceBoard { entries: Vec::new() }
    }

    proof fn lemma_entry_unique(&self, name: Seq<char>, j: int)
        requires
            self.wf(),
            0 <= j < self.entries@.len(),
            self.entries@[j].0.0@ == name,
        ensures
            self.spec_contains(name),
            self.entry_of(name) == j,
            self.spec_get(name) == self.entries@[j].1,
    {
        let k = self.entry_of(name);
        if k != j {
            assert(false);
        }
    }

    /// Publishes a node index under a name, replacing what the name held.
    pub fn insert(&mut self, key: ResourceBoardKey, handle: IndexHandle<ResourceNode>)
        requires
            old(self).wf(),
        ensures
            final(self).wf(),
            final(self).spec_contains(key.0@),
            final(self).spec_get(key.0@) == handle,
            forall|name: Seq<char>|
                name != key.0@ ==> #[trigger] final(self).spec_contains(name) == old(self).spec_contains(name),
            forall|name: Seq<char>|
                name != key.0@ && old(self).spec_contains(name) ==> #[trigger] final(self).spec_get(name) == old(self).spec_get(name),
    {
        let ghost pre = *self;
        let n = self.entries.len();
        let mut j: usize = 0;
        while j < n
            invariant
                *self == pre,
                pre == *old(self),
                pre.wf(),
                n == self.entries@.len(),
                0 <= j <= n,
                forall|t: int| 0 <= t < j ==> #[trigger] self.entries@[t].0.0@ != key.0@,
            decreases n - j,
        {
            if self.entries[j].0.0 == key.0 {
                proof {
                    self.lemma_entry_unique(key.0@, j as int);
                }
                let _old = self.entries.remove(j);
                self.entries.insert(j, (key, handle));
                proof {
                    let jj = j as int;
                    assert(forall|t: int|
                        0 <= t < self.entries@.len() && t != jj ==> #[trigger] self.entries@[t]
                            == pre.entries@[t]);
                    assert(self.entries@[jj].0.0@ == pre.entries@[jj].0.0@);
                    assert(self.wf());
                    self.lemma_entry_unique(self.entries@[jj].0.0@, jj);
                    assert forall|name: Seq<char>|
                        name != self.entries@[jj].0.0@ implies #[trigger] self.spec_contains(name)
                        == pre.spec_contains(name) by {
                        if pre.spec_contains(name) {
                            let t = pre.entry_of(name);
                            pre.lemma_entry_unique(name, t);
                            assert(self.entries@[t].0.0@ == name);
                        }
                        if self.spec_contains(name) {
                            let t = self.entry_of(name);
                            assert(self.entries@[t].0.0@ == name);
                            assert(pre.entries@[t].0.0@ == name);
                        }
                    }
                    assert forall|name: Seq<char>|
                        name != self.entries@[jj].0.0@ && pre.spec_contains(
                            name,
                        ) implies #[trigger] self.spec_get(name) == pre.spec_get(name) by {
                        let t = pre.entry_of(name);
                        pre.lemma_entry_unique(name, t);
                        assert(self.entries@[t].0.0@ == name);
                        self.lemma_entry_unique(name, t);
                    }
                }
                return ;
            }
            j += 1;
        }
        let ghost m = self.entries@.len() as int;
        self.entries.push((key, handle));
        proof {
            assert(!pre.spec_contains(self.entries@[m].0.0@));
            assert(forall|t: int|
                0 <= t < m ==> #[trigger] self.entries@[t] == pre.entries@[t]);
            assert(self.wf()) by {
                assert forall|x: int, y: int|
                    0 <= x < y < self.entries@.len() implies self.entries@[x].0.0@
                    != self.entries@[y].0.0@ by {
                    if y == m {
                        if self.entries@[x].0.0@ == self.entries@[m].0.0@ {
                            assert(pre.spec_contains(self.entries@[m].0.0@));
                        }
                    }
                }
            }
            self.lemma_entry_unique(self.entries@[m].0.0@, m);
            assert forall|name: Seq<char>|
                name != self.entries@[m].0.0@ implies #[trigger] self.spec_contains(name)
                == pre.spec_contains(name) by {
                if pre.spec_contains(name) {
                    let t = pre.entry_of(name);
                    pre.lemma_entry_unique(name, t);
                    assert(self.entries@[t].0.0@ == name);
                }
                if self.spec_contains(name) {
                    let t = self.entry_of(name);
                    assert(self.entries@[t].0.0@ == name);
                    if t < m {
                        assert(pre.entries@[t].0.0@ == name);
                    }
                }
            }
            assert forall|name: Seq<char>|
                name != self.entries@[m].0.0@ && pre.spec_contains(name) implies #[trigger] self.spec_get(
                name,
            ) == pre.spec_get(name) by {
                let t = pre.entry_of(name);
                pre.lemma_entry_unique(name, t);
                assert(self.entries@[t].0.0@ == name);
                self.lemma_entry_unique(name, t);
            }
        }
    }

    /// Looks a name up.
    pub fn get(&self, key: &ResourceBoardKey) -> (r: Option<&IndexHandle<ResourceNode>>)
        requires
            self.wf(),
        ensures
            match r {
                Some(h) => self.spec_contains(key.0@) && *h == self.spec_get(key.0@),
                None => !self.spec_contains(key.0@),
            },
    {
        let n = self.entries.len();
        let mut j: usize = 0;
        while j < n
            invariant
                self.wf(),
                n == self.entries@.len(),
                0 <= j <= n,
                forall|t: int| 0 <= t < j ==> #[trigger] self.entries@[t].0.0@ != key.0@,
            decreases n - j,
        {
            if self.entries[j].0.0 == key.0 {
                proof {
                    self.lemma_entry_unique(key.0@, j as int);
                }
                return Some(&self.entries[j].1);
            }
            j += 1;
        }
        None
    }
}

} // verus!
