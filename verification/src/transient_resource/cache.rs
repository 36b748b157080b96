use vstd::prelude::*;

use crate::transient_resource::{
    any_desc_matches, lemma_any_desc_matches_equivalence, AnyTransientResource,
    AnyTransientResourceDescriptor,
};

verus! {

/// The cross-frame pool of free, engine-owned GPU resources. Each descriptor
/// owns a last-in-first-out stack of resources created from it; two resources
/// are interchangeable exactly when their descriptors match.
pub struct TransientResourceCache {
    entries: Vec<(AnyTransientResourceDescriptor, Vec<AnyTransientResource>)>,
}

proof fn sym(a: AnyTransientResourceDescriptor, b: AnyTransientResourceDescriptor)
    requires
        any_desc_matches(a, b),
    ensures
        any_desc_matches(b, a),
{
    lemma_any_desc_matches_equivalence(a, b, a);
}

proof fn tra(
    a: AnyTransientResourceDescriptor,
    b: AnyTransientResourceDescriptor,
    c: AnyTransientResourceDescriptor,
)
    requires
        any_desc_matches(a, b),
        any_desc_matches(b, c),
    ensures
        any_desc_matches(a, c),
{
    lemma_any_desc_matches_equivalence(a, b, c);
}

impl TransientResourceCache {
    /// Internal shape: no two entries share a matching descriptor, every
    /// pooled resource carries the descriptor it is pooled under, and only
    /// engine-owned resources are ever pooled.
    pub closed spec fn wf(&self) -> bool {
        &&& forall|i: int, j: int|
            0 <= i < j < self.entries@.len() ==> !any_desc_matches(
                self.entries@[i].0,
                self.entries@[j].0,
            )
        &&& forall|i: int, k: int|
            0 <= i < self.entries@.len() && 0 <= k < self.entries@[i].1@.len()
                ==> any_desc_matches(
                #[trigger] self.entries@[i].1@[k].spec_desc(),
                self.entries@[i].0,
            ) && self.entries@[i].1@[k].is_owned()
    }

    /// Whether some entry is pooled under a descriptor matching this one.
    pub closed spec fn has_entry(&self, desc: AnyTransientResourceDescriptor) -> bool {
        exists|i: int|
            0 <= i < self.entries@.len() && any_desc_matches(#[trigger] self.entries@[i].0, desc)
    }

    pub closed spec fn entry_index(&self, desc: AnyTransientResourceDescriptor) -> int {
        choose|i: int|
            0 <= i < self.entries@.len() && any_desc_matches(#[trigger] self.entries@[i].0, desc)
    }

    /// The stack of free resources pooled under this descriptor, oldest first.
    pub closed spec fn spec_stack(&self, desc: AnyTransientResourceDescriptor) -> Seq<
        AnyTransientResource,
    > {
        if self.has_entry(desc) {
            self.entries@[self.entry_index(desc)].1@
        } else {
            Seq::empty()
        }
    }

    /// Every resource pooled under a descriptor has a matching descriptor of
    /// its own.
    pub proof fn lemma_stack_descs(&self, desc: AnyTransientResourceDescriptor, k: int)
        requires
            self.wf(),
            0 <= k < self.spec_stack(desc).len(),
        ensures
            any_desc_matches(self.spec_stack(desc)[k].spec_desc(), desc),
            any_desc_matches(desc, self.spec_stack(desc)[k].spec_desc()),
            self.spec_stack(desc)[k].is_owned(),
    {
        let i = self.entry_index(desc);
        tra(self.entries@[i].1@[k].spec_desc(), self.entries@[i].0, desc);
        sym(self.entries@[i].1@[k].spec_desc(), desc);
    }

    pub fn new() -> (r: Self)
        ensures
            r.wf(),
            forall|d: AnyTransientResourceDescriptor| #[trigger] r.spec_stack(d).len() == 0,
    {
        TransientResourceCache { entries: Vec::new() }
    }

    /// Matching descriptors pool to the same stack.
    pub proof fn lemma_stack_respects_matches(
        &self,
        a: AnyTransientResourceDescriptor,
        b: AnyTransientResourceDescriptor,
    )
        requires
            self.wf(),
            any_desc_matches(a, b),
        ensures
            self.spec_stack(a) == self.spec_stack(b),
            self.has_entry(a) == self.has_entry(b),
    {
        if self.has_entry(a) {
            let i = self.entry_index(a);
            tra(self.entries@[i].0, a, b);
            self.lemma_entry_index_unique(b, i);
        }
        if self.has_entry(b) {
            let i = self.entry_index(b);
            sym(a, b);
            tra(self.entries@[i].0, b, a);
            self.lemma_entry_index_unique(a, i);
        }
    }

    /// If entry `i` matches `desc`, then `i` is the entry the spec lookup
    /// picks, and it is the only matching entry.
    proof fn lemma_entry_index_unique(&self, desc: AnyTransientResourceDescriptor, i: int)
        requires
            self.wf(),
            0 <= i < self.entries@.len(),
            any_desc_matches(self.entries@[i].0, desc),
        ensures
            self.has_entry(desc),
            self.entry_index(desc) == i,
            self.spec_stack(desc) == self.entries@[i].1@,
    {
        assert(self.has_entry(desc));
        let j = self.entry_index(desc);
        if j != i {
            sym(self.entries@[j].0, desc);
            tra(self.entries@[i].0, desc, self.entries@[j].0);
            if i < j {
                assert(false);
            } else {
                sym(self.entries@[i].0, self.entries@[j].0);
                assert(false);
            }
        }
    }

    /// Pops the most recently pooled resource matching the descriptor, if any.
    pub fn get_resource(&mut self, desc: &AnyTransientResourceDescriptor) -> (r: Option<
        AnyTransientResource,
    >)
        requires
            old(self).wf(),
        ensures
            final(self).wf(),
            old(self).spec_stack(*desc).len() == 0 ==> r is None,
            old(self).spec_stack(*desc).len() > 0 ==> r == Some(
                old(self).spec_stack(*desc).last(),
            ),
            forall|d: AnyTransientResourceDescriptor|
                any_desc_matches(d, *desc) ==> #[trigger] final(self).spec_stack(d) == (
                if old(self).spec_stack(*desc).len() > 0 {
                    old(self).spec_stack(*desc).drop_last()
                } else {
                    old(self).spec_stack(d)
                }),
            forall|d: AnyTransientResourceDescriptor|
                !any_desc_matches(d, *desc) ==> #[trigger] final(self).spec_stack(d) == old(self).spec_stack(d),
    {
        let ghost pre = *self;
        let n = self.entries.len();
        let mut i: usize = 0;
        while i < n
            invariant
                *self == pre,
                pre == *old(self),
                pre.wf(),
                n == self.entries@.len(),
                0 <= i <= n,
                forall|j: int|
                    0 <= j < i ==> !any_desc_matches(#[trigger] self.entries@[j].0, *desc),
            decreases n - i,
        {
            if self.entries[i].0.same_desc(desc) {
                proof {
                    self.lemma_entry_index_unique(*desc, i as int);
                }
                let mut entry = self.entries.remove(i);
                let r = entry.1.pop();
                self.entries.insert(i, entry);
                proof {
                    let ii = i as int;
                    assert(self.entries@.len() == pre.entries@.len());
                    assert(forall|j: int|
                        0 <= j < self.entries@.len() ==> #[trigger] self.entries@[j].0
                            == pre.entries@[j].0);
                    assert(forall|j: int|
                        0 <= j < self.entries@.len() && j != ii ==> #[trigger] self.entries@[j].1
                            == pre.entries@[j].1);
                    assert(self.wf()) by {
                        assert(forall|x: int, k: int|
                            0 <= x < self.entries@.len() && 0 <= k < self.entries@[x].1@.len()
                                ==> any_desc_matches(
                                #[trigger] self.entries@[x].1@[k].spec_desc(),
                                self.entries@[x].0,
                            ));
                    }
                    self.lemma_entry_index_unique(*desc, ii);
                    assert forall|d: AnyTransientResourceDescriptor|
                        any_desc_matches(d, *desc) implies #[trigger] self.spec_stack(d) == (
                    if pre.spec_stack(*desc).len() > 0 {
                        pre.spec_stack(*desc).drop_last()
                    } else {
                        pre.spec_stack(d)
                    }) by {
                        sym(d, *desc);
                        tra(self.entries@[ii].0, *desc, d);
                        self.lemma_entry_index_unique(d, ii);
                        assert(self.spec_stack(d) == self.entries@[ii].1@);
                        tra(pre.entries@[ii].0, *desc, d);
                        pre.lemma_entry_index_unique(d, ii);
                        if pre.spec_stack(*desc).len() > 0 {
                            assert(self.entries@[ii].1@ == pre.entries@[ii].1@.drop_last());
                        } else {
                            assert(self.entries@[ii].1@ == pre.entries@[ii].1@);
                            assert(pre.spec_stack(d) == pre.entries@[ii].1@);
                        }
                    }
                    assert forall|d: AnyTransientResourceDescriptor|
                        !any_desc_matches(d, *desc) implies #[trigger] self.spec_stack(d)
                        == pre.spec_stack(d) by {
                        assert(!any_desc_matches(d, pre.entries@[ii].0)) by {
                            if any_desc_matches(d, pre.entries@[ii].0) {
                                tra(d, pre.entries@[ii].0, *desc);
                            }
                        }
                        lemma_frame_other(&pre, self, ii, d);
                    }
                }
                return r;
            }
            i += 1;
        }
        proof {
            assert(!self.has_entry(*desc));
            assert forall|d: AnyTransientResourceDescriptor|
                !any_desc_matches(d, *desc) implies #[trigger] self.spec_stack(d) == pre.spec_stack(
                d,
            ) by {}
        }
        None
    }

    /// Pools a resource under the given descriptor. The descriptor must be
    /// the resource's own, so that a later hit hands back a resource of the
    /// same shape, and only engine-owned resources enter the pool.
    pub fn insert_resource(
        &mut self,
        desc: AnyTransientResourceDescriptor,
        resource: AnyTransientResource,
    )
        requires
            old(self).wf(),
            resource.is_owned(),
            any_desc_matches(resource.spec_desc(), desc),
        ensures
            final(self).wf(),
            forall|d: AnyTransientResourceDescriptor|
                any_desc_matches(d, desc) ==> #[trigger] final(self).spec_stack(d) == old(self).spec_stack(desc).push(resource),
            forall|d: AnyTransientResourceDescriptor|
                !any_desc_matches(d, desc) ==> #[trigger] final(self).spec_stack(d) == old(self).spec_stack(d),
    {
        let ghost pre = *self;
        let n = self.entries.len();
        let mut i: usize = 0;
        while i < n
            invariant
                *self == pre,
                pre == *old(self),
                pre.wf(),
                resource.is_owned(),
                any_desc_matches(resource.spec_desc(), desc),
                n == self.entries@.len(),
                0 <= i <= n,
                forall|j: int| 0 <= j < i ==> !any_desc_matches(#[trigger] self.entries@[j].0, desc),
            decreases n - i,
        {
            if self.entries[i].0.same_desc(&desc) {
                proof {
                    self.lemma_entry_index_unique(desc, i as int);
                }
                let mut entry = self.entries.remove(i);
                entry.1.push(resource);
                self.entries.insert(i, entry);
                proof {
                    let ii = i as int;
                    assert(self.entries@.len() == pre.entries@.len());
                    assert(forall|j: int|
                        0 <= j < self.entries@.len() ==> #[trigger] self.entries@[j].0
                            == pre.entries@[j].0);
                    assert(forall|j: int|
                        0 <= j < self.entries@.len() && j != ii ==> #[trigger] self.entries@[j].1
                            == pre.entries@[j].1);
                    assert(self.entries@[ii].1@ == pre.entries@[ii].1@.push(resource));
                    assert(self.wf()) by {
                        sym(resource.spec_desc(), desc);
                        tra(resource.spec_desc(), desc, pre.entries@[ii].0);
                        assert forall|x: int, k: int|
                            0 <= x < self.entries@.len() && 0 <= k
                                < self.entries@[x].1@.len() implies (any_desc_matches(
                            #[trigger] self.entries@[x].1@[k].spec_desc(),
                            self.entries@[x].0,
                        ) && self.entries@[x].1@[k].is_owned()) by {
                            if x == ii && k == self.entries@[x].1@.len() - 1 {
                                assert(self.entries@[x].1@[k] == resource);
                            } else {
                                assert(self.entries@[x].1@[k] == pre.entries@[x].1@[k]);
                            }
                        }
                    }
                    self.lemma_entry_index_unique(desc, ii);
                    assert forall|d: AnyTransientResourceDescriptor|
                        any_desc_matches(d, desc) implies #[trigger] self.spec_stack(d)
                        == pre.spec_stack(desc).push(resource) by {
                        sym(d, desc);
                        tra(self.entries@[ii].0, desc, d);
                        self.lemma_entry_index_unique(d, ii);
                    }
                    assert forall|d: AnyTransientResourceDescriptor|
                        !any_desc_matches(d, desc) implies #[trigger] self.spec_stack(d)
                        == pre.spec_stack(d) by {
                        assert(!any_desc_matches(d, pre.entries@[ii].0)) by {
                            if any_desc_matches(d, pre.entries@[ii].0) {
                                tra(d, pre.entries@[ii].0, desc);
                            }
                        }
                        lemma_frame_other(&pre, self, ii, d);
                    }
                }
                return ;
            }
            i += 1;
        }
        let mut stack: Vec<AnyTransientResource> = Vec::new();
        stack.push(resource);
        self.entries.push((desc, stack));
        proof {
            let m = pre.entries@.len() as int;
            assert(self.entries@.len() == m + 1);
            assert(forall|j: int|
                0 <= j < m ==> #[trigger] self.entries@[j] == pre.entries@[j]);
            assert(self.entries@[m].0 == desc);
            assert(self.entries@[m].1@ =~= Seq::<AnyTransientResource>::empty().push(resource));
            assert(!pre.has_entry(desc));
            assert(self.wf()) by {
                assert forall|x: int, y: int|
                    0 <= x < y < self.entries@.len() implies !any_desc_matches(
                    self.entries@[x].0,
                    self.entries@[y].0,
                ) by {
                    if y == m {
                        if any_desc_matches(self.entries@[x].0, desc) {
                            assert(pre.has_entry(desc));
                        }
                    }
                }
                assert forall|x: int, k: int|
                    0 <= x < self.entries@.len() && 0 <= k
                        < self.entries@[x].1@.len() implies any_desc_matches(
                    #[trigger] self.entries@[x].1@[k].spec_desc(),
                    self.entries@[x].0,
                ) by {
                    if x == m {
                        sym(resource.spec_desc(), desc);
                        sym(desc, resource.spec_desc());
                    }
                }
            }
            self.lemma_entry_index_unique(desc, m);
            assert(pre.spec_stack(desc) == Seq::<AnyTransientResource>::empty());
            assert forall|d: AnyTransientResourceDescriptor|
                any_desc_matches(d, desc) implies #[trigger] self.spec_stack(d) == pre.spec_stack(
                desc,
            ).push(resource) by {
                sym(d, desc);
                tra(self.entries@[m].0, desc, d);
                self.lemma_entry_index_unique(d, m);
            }
            assert forall|d: AnyTransientResourceDescriptor|
                !any_desc_matches(d, desc) implies #[trigger] self.spec_stack(d) == pre.spec_stack(
                d,
            ) by {
                if pre.has_entry(d) {
                    let j = pre.entry_index(d);
                    self.lemma_entry_index_unique(d, j);
                    assert(pre.spec_stack(d) == pre.entries@[j].1@);
                } else {
                    if self.has_entry(d) {
                        let j = self.entry_index(d);
                        assert(any_desc_matches(self.entries@[j].0, d));
                        if j < m {
                            assert(pre.has_entry(d));
                        } else {
                            assert(self.entries@[j].0 == desc);
                            sym(desc, d);
                            assert(false);
                        }
                    }
                }
            }
        }
    }
}

/// Pooling is last-in-first-out: inserting a resource under its descriptor
/// and then asking for a matching descriptor hands that same resource back,
/// and every stack ends where it started. The two hypotheses restate what
/// `insert_resource` and `get_resource` ensure, over the cache states they
/// leave behind.
pub proof fn lemma_pool_lifo(
    c0: TransientResourceCache,
    c1: TransientResourceCache,
    c2: TransientResourceCache,
    desc: AnyTransientResourceDescriptor,
    resource: AnyTransientResource,
    got: Option<AnyTransientResource>,
    probe: AnyTransientResourceDescriptor,
)
    requires
        c0.wf(),
        any_desc_matches(probe, desc),
        forall|d: AnyTransientResourceDescriptor|
            any_desc_matches(d, desc) ==> #[trigger] c1.spec_stack(d) == c0.spec_stack(desc).push(
                resource,
            ),
        forall|d: AnyTransientResourceDescriptor|
            !any_desc_matches(d, desc) ==> #[trigger] c1.spec_stack(d) == c0.spec_stack(d),
        c1.spec_stack(probe).len() == 0 ==> got is None,
        c1.spec_stack(probe).len() > 0 ==> got == Some(c1.spec_stack(probe).last()),
        forall|d: AnyTransientResourceDescriptor|
            any_desc_matches(d, probe) ==> #[trigger] c2.spec_stack(d) == (
            if c1.spec_stack(probe).len() > 0 {
                c1.spec_stack(probe).drop_last()
            } else {
                c1.spec_stack(d)
            }),
        forall|d: AnyTransientResourceDescriptor|
            !any_desc_matches(d, probe) ==> #[trigger] c2.spec_stack(d) == c1.spec_stack(d),
    ensures
        got == Some(resource),
        forall|d: AnyTransientResourceDescriptor| #[trigger] c2.spec_stack(d) == c0.spec_stack(d),
{
    assert(c1.spec_stack(probe) == c0.spec_stack(desc).push(resource));
    assert(c1.spec_stack(probe).len() > 0);
    assert(got == Some(resource));
    assert forall|d: AnyTransientResourceDescriptor| #[trigger] c2.spec_stack(d) == c0.spec_stack(
        d,
    ) by {
        if any_desc_matches(d, probe) {
            tra(d, probe, desc);
            assert(c2.spec_stack(d) == c0.spec_stack(desc).push(resource).drop_last());
            assert(c0.spec_stack(desc).push(resource).drop_last() =~= c0.spec_stack(desc));
            c0.lemma_stack_respects_matches(d, desc);
        } else {
            assert(!any_desc_matches(d, desc)) by {
                if any_desc_matches(d, desc) {
                    sym(probe, desc);
                    tra(d, desc, probe);
                }
            }
        }
    }
}

/// Changing only entry `i`'s stack leaves every non-matching descriptor's
/// stack unchanged.
proof fn lemma_frame_other(
    pre: &TransientResourceCache,
    post: &TransientResourceCache,
    i: int,
    d: AnyTransientResourceDescriptor,
)
    requires
        pre.wf(),
        pre.entries@.len() == post.entries@.len(),
        0 <= i < pre.entries@.len(),
        forall|j: int|
            0 <= j < pre.entries@.len() ==> #[trigger] post.entries@[j].0 == pre.entries@[j].0,
        forall|j: int|
            0 <= j < pre.entries@.len() && j != i ==> #[trigger] post.entries@[j].1
                == pre.entries@[j].1,
        !any_desc_matches(d, pre.entries@[i].0),
    ensures
        post.spec_stack(d) == pre.spec_stack(d),
        post.has_entry(d) == pre.has_entry(d),
{
    assert(forall|j: int|
        0 <= j < pre.entries@.len() ==> (any_desc_matches(#[trigger] post.entries@[j].0, d)
            <==> any_desc_matches(#[trigger] pre.entries@[j].0, d)));
    if pre.has_entry(d) {
        let j = pre.entry_index(d);
        assert(any_desc_matches(pre.entries@[j].0, d));
        assert(j != i) by {
            if j == i {
                sym(pre.entries@[i].0, d);
                assert(false);
            }
        }
        assert(any_desc_matches(post.entries@[j].0, d));
        assert(post.has_entry(d));
        let k = post.entry_index(d);
        assert(any_desc_matches(post.entries@[k].0, d));
        if k != j {
            sym(pre.entries@[j].0, d);
            sym(d, pre.entries@[j].0);
            tra(pre.entries@[k].0, d, pre.entries@[j].0);
            if k < j {
                assert(false);
            } else {
                sym(pre.entries@[k].0, pre.entries@[j].0);
                assert(false);
            }
        }
        assert(post.spec_stack(d) == post.entries@[j].1@);
        assert(post.entries@[j].1 == pre.entries@[j].1);
    } else {
        if post.has_entry(d) {
            let j = post.entry_index(d);
            assert(any_desc_matches(pre.entries@[j].0, d));
            assert(pre.has_entry(d));
        }
    }
}

} // verus!
