use vstd::prelude::*;
use vstd::map::*;

use crate::graph::{FrameGraph, FrameGraphContext};
use crate::index::IndexHandle;
use crate::pass::Pass;
use crate::pass_node::PassNode;
use crate::resource_node::{ResourceRelease, ResourceRequese};
use crate::resource_table::{
    apply_releases, apply_requests, lemma_prov_after_releases_congruent,
    lemma_prov_after_requests_congruent, lemma_prov_equiv_refl, lemma_prov_equiv_trans,
    lemma_pushes_for_congruent, pops_for, prov_after_releases, prov_after_requests, prov_equiv,
    pushes_for, req_prov, Prov, ResKind,
};
use crate::transient_resource::{
    any_desc_matches, lemma_any_desc_matches_equivalence, AnyTransientResourceDescriptor,
    VirtualResource as Vr,
};
use crate::transient_resource::vr_matches;

verus! {

/// The compiled, linear projection of one pass node: its resolved request and
/// release sets and its body, ready to run against a context.
pub struct DevicePass {
    pub pass: Option<Pass>,
    pub resource_release_array: Vec<ResourceRelease>,
    pub resource_request_array: Vec<ResourceRequese>,
    pub name: String,
}

impl DevicePass {
    pub fn new() -> (r: Self)
        ensures
            r.pass is None,
            r.resource_release_array@.len() == 0,
            r.resource_request_array@.len() == 0,
            r.name@ == Seq::<char>::empty(),
    {
        DevicePass {
            pass: None,
            resource_release_array: Vec::new(),
            resource_request_array: Vec::new(),
            name: String::new(),
        }
    }

    /// The table summary after this pass's requests have been satisfied.
    pub open spec fn summary_after_requests(&self, s: Map<int, ResKind>) -> Map<int, ResKind> {
        apply_requests(s, self.resource_request_array@)
    }

    /// The table summary after the whole pass has run.
    pub open spec fn summary_after(&self, s: Map<int, ResKind>) -> Map<int, ResKind> {
        apply_releases(self.summary_after_requests(s), self.resource_release_array@)
    }

    /// Every engine allocation in the request set names a descriptor the
    /// device accepts.
    pub open spec fn requests_valid(&self) -> bool {
        forall|t: int|
            0 <= t < self.resource_request_array@.len() ==> ((
            #[trigger] self.resource_request_array@[t]).resource matches Vr::Setuped(x)
                ==> crate::transient_resource::any_desc_valid(x))
    }

    /// The free-stack length of one descriptor class after the whole pass:
    /// matching engine allocations pop, releases of held engine-owned
    /// entries of a matching descriptor push.
    pub open spec fn cache_len_after(
        &self,
        len: int,
        m: Map<int, Prov>,
        d: AnyTransientResourceDescriptor,
    ) -> int {
        pushes_for(
            pops_for(len, self.resource_request_array@, d),
            prov_after_requests(m, self.resource_request_array@),
            self.resource_release_array@,
            d,
        )
    }

    /// The provenance map after the whole pass.
    pub open spec fn prov_after(&self, m: Map<int, Prov>) -> Map<int, Prov> {
        prov_after_releases(
            prov_after_requests(m, self.resource_request_array@),
            self.resource_release_array@,
        )
    }

    /// Whether the pass body can resolve every reference once the requests
    /// have been satisfied against a table with this summary.
    pub open spec fn ready(&self, s: Map<int, ResKind>) -> bool {
        match self.pass {
            Some(body) => body.resolvable(self.summary_after_requests(s)),
            None => true,
        }
    }

    /// Satisfies the request set, in order, against the context's table.
    pub fn request_resources(&self, context: &mut FrameGraphContext)
        requires
            old(context).resource_table.wf(),
            old(context).transient_resource_cache.wf(),
            self.requests_valid(),
        ensures
            final(context).resource_table.wf(),
            final(context).transient_resource_cache.wf(),
            final(context).resource_table.summary() == self.summary_after_requests(
                old(context).resource_table.summary(),
            ),
            forall|d: AnyTransientResourceDescriptor| #[trigger]
                final(context).transient_resource_cache.spec_stack(d).len() == pops_for(
                    old(context).transient_resource_cache.spec_stack(d).len() as int,
                    self.resource_request_array@,
                    d,
                ),
            prov_equiv(
                final(context).resource_table.prov(),
                prov_after_requests(
                    old(context).resource_table.prov(),
                    self.resource_request_array@,
                ),
            ),
            final(context).command_buffers == old(context).command_buffers,
            final(context).pipeline_container == old(context).pipeline_container,
            final(context).device == old(context).device,
    {
        let n = self.resource_request_array.len();
        proof {
            assert(self.resource_request_array@.subrange(0, n as int)
                =~= self.resource_request_array@);
            lemma_prov_equiv_refl(
                prov_after_requests(
                    old(context).resource_table.prov(),
                    self.resource_request_array@,
                ),
            );
        }
        let mut t: usize = 0;
        while t < n
            invariant
                n == self.resource_request_array@.len(),
                0 <= t <= n,
                self.requests_valid(),
                context.resource_table.wf(),
                context.transient_resource_cache.wf(),
                apply_requests(
                    context.resource_table.summary(),
                    self.resource_request_array@.subrange(t as int, n as int),
                ) == self.summary_after_requests(old(context).resource_table.summary()),
                forall|d: AnyTransientResourceDescriptor| #[trigger]
                    pops_for(
                        context.transient_resource_cache.spec_stack(d).len() as int,
                        self.resource_request_array@.subrange(t as int, n as int),
                        d,
                    ) == pops_for(
                        old(context).transient_resource_cache.spec_stack(d).len() as int,
                        self.resource_request_array@,
                        d,
                    ),
                prov_equiv(
                    prov_after_requests(
                        context.resource_table.prov(),
                        self.resource_request_array@.subrange(t as int, n as int),
                    ),
                    prov_after_requests(
                        old(context).resource_table.prov(),
                        self.resource_request_array@,
                    ),
                ),
                context.command_buffers == old(context).command_buffers,
                context.pipeline_container == old(context).pipeline_container,
                context.device == old(context).device,
            decreases n - t,
        {
            let ghost suffix = self.resource_request_array@.subrange(t as int, n as int);
            let ghost pre_cache = context.transient_resource_cache;
            let ghost pre_table = context.resource_table;
            context.resource_table.request_resource(
                &self.resource_request_array[t],
                context.device,
                &mut context.transient_resource_cache,
            );
            proof {
                let r = self.resource_request_array@[t as int];
                let i = r.index.index as int;
                assert(suffix.drop_first() =~= self.resource_request_array@.subrange(
                    t + 1,
                    n as int,
                ));
                assert forall|d: AnyTransientResourceDescriptor| #[trigger]
                    pops_for(
                        context.transient_resource_cache.spec_stack(d).len() as int,
                        suffix.drop_first(),
                        d,
                    ) == pops_for(pre_cache.spec_stack(d).len() as int, suffix, d) by {
                    match r.resource {
                        Vr::Setuped(x) => {
                            if any_desc_matches(x, d) {
                                lemma_any_desc_matches_equivalence(x, d, x);
                                pre_cache.lemma_stack_respects_matches(d, x);
                                assert(pre_cache.spec_stack(d) == pre_cache.spec_stack(x));
                                if pre_cache.spec_stack(x).len() > 0 {
                                    assert(context.transient_resource_cache.spec_stack(d)
                                        == pre_cache.spec_stack(x).drop_last());
                                } else {
                                    assert(context.transient_resource_cache.spec_stack(d)
                                        == pre_cache.spec_stack(d));
                                }
                            } else {
                                assert(!any_desc_matches(d, x)) by {
                                    if any_desc_matches(d, x) {
                                        lemma_any_desc_matches_equivalence(x, d, x);
                                        lemma_any_desc_matches_equivalence(d, x, x);
                                    }
                                }
                                assert(context.transient_resource_cache.spec_stack(d)
                                    == pre_cache.spec_stack(d));
                            }
                        },
                        Vr::Imported(_) => {
                            assert(context.transient_resource_cache.spec_stack(d)
                                == pre_cache.spec_stack(d));
                        },
                    }
                }
                assert(prov_equiv(
                    context.resource_table.prov(),
                    pre_table.prov().insert(i, req_prov(r)),
                )) by {
                    assert forall|k: int|
                        context.resource_table.prov().contains_key(k) == pre_table.prov().insert(
                        i,
                        req_prov(r),
                    ).contains_key(k) by {}
                    assert forall|k: int|
                        context.resource_table.prov().contains_key(k) implies ((
                    #[trigger] context.resource_table.prov()[k]).owned == pre_table.prov().insert(
                        i,
                        req_prov(r),
                    )[k].owned && any_desc_matches(
                        context.resource_table.prov()[k].desc,
                        pre_table.prov().insert(i, req_prov(r))[k].desc,
                    ) && any_desc_matches(
                        pre_table.prov().insert(i, req_prov(r))[k].desc,
                        context.resource_table.prov()[k].desc,
                    )) by {
                        if k == i {
                        } else {
                            assert(context.resource_table.spec_at(k) == pre_table.spec_at(k));
                            lemma_any_desc_matches_equivalence(
                                context.resource_table.spec_at(k).spec_desc(),
                                context.resource_table.spec_at(k).spec_desc(),
                                context.resource_table.spec_at(k).spec_desc(),
                            );
                        }
                    }
                }
                lemma_prov_after_requests_congruent(
                    context.resource_table.prov(),
                    pre_table.prov().insert(i, req_prov(r)),
                    suffix.drop_first(),
                );
                lemma_prov_equiv_trans(
                    prov_after_requests(context.resource_table.prov(), suffix.drop_first()),
                    prov_after_requests(
                        pre_table.prov().insert(i, req_prov(r)),
                        suffix.drop_first(),
                    ),
                    prov_after_requests(
                        old(context).resource_table.prov(),
                        self.resource_request_array@,
                    ),
                );
            }
            t += 1;
        }
        proof {
            assert(self.resource_request_array@.subrange(n as int, n as int)
                =~= Seq::<ResourceRequese>::empty());
            assert forall|d: AnyTransientResourceDescriptor| #[trigger]
                context.transient_resource_cache.spec_stack(d).len() == pops_for(
                    old(context).transient_resource_cache.spec_stack(d).len() as int,
                    self.resource_request_array@,
                    d,
                ) by {
                assert(pops_for(
                    context.transient_resource_cache.spec_stack(d).len() as int,
                    self.resource_request_array@.subrange(n as int, n as int),
                    d,
                ) == pops_for(
                    old(context).transient_resource_cache.spec_stack(d).len() as int,
                    self.resource_request_array@,
                    d,
                ));
            }
        }
    }

    /// Applies the release set, in order, against the context's table.
    pub fn release_resources(&self, context: &mut FrameGraphContext)
        requires
            old(context).resource_table.wf(),
            old(context).transient_resource_cache.wf(),
        ensures
            final(context).resource_table.wf(),
            final(context).transient_resource_cache.wf(),
            final(context).resource_table.summary() == apply_releases(
                old(context).resource_table.summary(),
                self.resource_release_array@,
            ),
            forall|d: AnyTransientResourceDescriptor| #[trigger]
                final(context).transient_resource_cache.spec_stack(d).len() == pushes_for(
                    old(context).transient_resource_cache.spec_stack(d).len() as int,
                    old(context).resource_table.prov(),
                    self.resource_release_array@,
                    d,
                ),
            prov_equiv(
                final(context).resource_table.prov(),
                prov_after_releases(
                    old(context).resource_table.prov(),
                    self.resource_release_array@,
                ),
            ),
            final(context).command_buffers == old(context).command_buffers,
            final(context).pipeline_container == old(context).pipeline_container,
            final(context).device == old(context).device,
    {
        let n = self.resource_release_array.len();
        proof {
            assert(self.resource_release_array@.subrange(0, n as int)
                =~= self.resource_release_array@);
            lemma_prov_equiv_refl(
                prov_after_releases(
                    old(context).resource_table.prov(),
                    self.resource_release_array@,
                ),
            );
        }
        let mut t: usize = 0;
        while t < n
            invariant
                n == self.resource_release_array@.len(),
                0 <= t <= n,
                context.resource_table.wf(),
                context.transient_resource_cache.wf(),
                apply_releases(
                    context.resource_table.summary(),
                    self.resource_release_array@.subrange(t as int, n as int),
                ) == apply_releases(
                    old(context).resource_table.summary(),
                    self.resource_release_array@,
                ),
                forall|d: AnyTransientResourceDescriptor| #[trigger]
                    pushes_for(
                        context.transient_resource_cache.spec_stack(d).len() as int,
                        context.resource_table.prov(),
                        self.resource_release_array@.subrange(t as int, n as int),
                        d,
                    ) == pushes_for(
                        old(context).transient_resource_cache.spec_stack(d).len() as int,
                        old(context).resource_table.prov(),
                        self.resource_release_array@,
                        d,
                    ),
                prov_equiv(
                    prov_after_releases(
                        context.resource_table.prov(),
                        self.resource_release_array@.subrange(t as int, n as int),
                    ),
                    prov_after_releases(
                        old(context).resource_table.prov(),
                        self.resource_release_array@,
                    ),
                ),
                context.command_buffers == old(context).command_buffers,
                context.pipeline_container == old(context).pipeline_container,
                context.device == old(context).device,
            decreases n - t,
        {
            let ghost suffix = self.resource_release_array@.subrange(t as int, n as int);
            let ghost pre_cache = context.transient_resource_cache;
            let ghost pre_table = context.resource_table;
            context.resource_table.release_resource(
                &self.resource_release_array[t],
                &mut context.transient_resource_cache,
            );
            proof {
                let rel = self.resource_release_array@[t as int];
                let i = rel.index.index as int;
                assert(suffix.drop_first() =~= self.resource_release_array@.subrange(
                    t + 1,
                    n as int,
                ));
                assert(prov_equiv(
                    context.resource_table.prov(),
                    pre_table.prov().remove(i),
                )) by {
                    assert forall|k: int|
                        context.resource_table.prov().contains_key(k) implies ((
                    #[trigger] context.resource_table.prov()[k]).owned == pre_table.prov().remove(
                        i,
                    )[k].owned && any_desc_matches(
                        context.resource_table.prov()[k].desc,
                        pre_table.prov().remove(i)[k].desc,
                    ) && any_desc_matches(
                        pre_table.prov().remove(i)[k].desc,
                        context.resource_table.prov()[k].desc,
                    )) by {
                        assert(context.resource_table.spec_at(k) == pre_table.spec_at(k));
                        lemma_any_desc_matches_equivalence(
                            context.resource_table.spec_at(k).spec_desc(),
                            context.resource_table.spec_at(k).spec_desc(),
                            context.resource_table.spec_at(k).spec_desc(),
                        );
                    }
                }
                assert forall|d: AnyTransientResourceDescriptor| #[trigger]
                    pushes_for(
                        context.transient_resource_cache.spec_stack(d).len() as int,
                        context.resource_table.prov(),
                        suffix.drop_first(),
                        d,
                    ) == pushes_for(
                        old(context).transient_resource_cache.spec_stack(d).len() as int,
                        old(context).resource_table.prov(),
                        self.resource_release_array@,
                        d,
                    ) by {
                    let m = pre_table.prov();
                    if pre_table.spec_contains(i) {
                        let removed = pre_table.spec_at(i);
                        if removed.is_owned() {
                            assert(m.contains_key(i) && m[i].owned && m[i].desc
                                == removed.spec_desc());
                            if any_desc_matches(removed.spec_desc(), d) {
                                lemma_any_desc_matches_equivalence(
                                    removed.spec_desc(),
                                    d,
                                    removed.spec_desc(),
                                );
                                pre_cache.lemma_stack_respects_matches(d, removed.spec_desc());
                                assert(context.transient_resource_cache.spec_stack(d)
                                    == pre_cache.spec_stack(removed.spec_desc()).push(removed));
                            } else {
                                assert(!any_desc_matches(d, removed.spec_desc())) by {
                                    if any_desc_matches(d, removed.spec_desc()) {
                                        lemma_any_desc_matches_equivalence(
                                            removed.spec_desc(),
                                            d,
                                            removed.spec_desc(),
                                        );
                                        lemma_any_desc_matches_equivalence(
                                            d,
                                            removed.spec_desc(),
                                            removed.spec_desc(),
                                        );
                                    }
                                }
                                assert(context.transient_resource_cache.spec_stack(d)
                                    == pre_cache.spec_stack(d));
                            }
                        } else {
                            assert(context.transient_resource_cache.spec_stack(d)
                                == pre_cache.spec_stack(d));
                        }
                    } else {
                        assert(!m.contains_key(i));
                        assert(context.transient_resource_cache.spec_stack(d)
                            == pre_cache.spec_stack(d));
                    }
                    let step: int = if m.contains_key(i) && m[i].owned && any_desc_matches(
                        m[i].desc,
                        d,
                    ) {
                        pre_cache.spec_stack(d).len() as int + 1
                    } else {
                        pre_cache.spec_stack(d).len() as int
                    };
                    assert(context.transient_resource_cache.spec_stack(d).len() as int == step);
                    assert(suffix[0] == rel);
                    assert(pushes_for(pre_cache.spec_stack(d).len() as int, m, suffix, d)
                        == pushes_for(step, m.remove(i), suffix.drop_first(), d));
                    lemma_pushes_for_congruent(
                        context.transient_resource_cache.spec_stack(d).len() as int,
                        context.resource_table.prov(),
                        m.remove(i),
                        suffix.drop_first(),
                        d,
                    );
                }
                lemma_prov_after_releases_congruent(
                    context.resource_table.prov(),
                    pre_table.prov().remove(i),
                    suffix.drop_first(),
                );
                lemma_prov_equiv_trans(
                    prov_after_releases(context.resource_table.prov(), suffix.drop_first()),
                    prov_after_releases(pre_table.prov().remove(i), suffix.drop_first()),
                    prov_after_releases(
                        old(context).resource_table.prov(),
                        self.resource_release_array@,
                    ),
                );
            }
            t += 1;
        }
        proof {
            assert(self.resource_release_array@.subrange(n as int, n as int)
                =~= Seq::<ResourceRelease>::empty());
            assert forall|d: AnyTransientResourceDescriptor| #[trigger]
                context.transient_resource_cache.spec_stack(d).len() == pushes_for(
                    old(context).transient_resource_cache.spec_stack(d).len() as int,
                    old(context).resource_table.prov(),
                    self.resource_release_array@,
                    d,
                ) by {
                assert(pushes_for(
                    context.transient_resource_cache.spec_stack(d).len() as int,
                    context.resource_table.prov(),
                    self.resource_release_array@.subrange(n as int, n as int),
                    d,
                ) == pushes_for(
                    old(context).transient_resource_cache.spec_stack(d).len() as int,
                    old(context).resource_table.prov(),
                    self.resource_release_array@,
                    d,
                ));
            }
        }
    }

    /// Runs the pass: request, run the body if there is one, release.
    pub fn execute(&self, context: &mut FrameGraphContext)
        requires
            old(context).resource_table.wf(),
            old(context).transient_resource_cache.wf(),
            self.requests_valid(),
            self.ready(old(context).resource_table.summary()),
        ensures
            final(context).resource_table.wf(),
            final(context).transient_resource_cache.wf(),
            final(context).resource_table.summary() == self.summary_after(
                old(context).resource_table.summary(),
            ),
            forall|d: AnyTransientResourceDescriptor| #[trigger]
                final(context).transient_resource_cache.spec_stack(d).len()
                    == self.cache_len_after(
                    old(context).transient_resource_cache.spec_stack(d).len() as int,
                    old(context).resource_table.prov(),
                    d,
                ),
            prov_equiv(
                final(context).resource_table.prov(),
                self.prov_after(old(context).resource_table.prov()),
            ),
            final(context).pipeline_container == old(context).pipeline_container,
            final(context).device == old(context).device,
            final(context).command_buffers@.len() == old(context).command_buffers@.len() + (
            if self.pass is Some {
                1int
            } else {
                0int
            }),
            forall|j: int|
                0 <= j < old(context).command_buffers@.len()
                    ==> #[trigger] final(context).command_buffers@[j] == old(context).command_buffers@[j],
    {
        self.request_resources(context);
        let ghost mid_table = context.resource_table;
        let ghost mid_cache = context.transient_resource_cache;
        if let Some(pass) = &self.pass {
            pass.render(
                &mut context.command_buffers,
                context.device,
                &context.resource_table,
                &context.pipeline_container,
            );
        }
        self.release_resources(context);
        proof {
            let m0 = old(context).resource_table.prov();
            assert forall|d: AnyTransientResourceDescriptor| #[trigger]
                context.transient_resource_cache.spec_stack(d).len() == self.cache_len_after(
                    old(context).transient_resource_cache.spec_stack(d).len() as int,
                    m0,
                    d,
                ) by {
                lemma_pushes_for_congruent(
                    mid_cache.spec_stack(d).len() as int,
                    mid_table.prov(),
                    prov_after_requests(m0, self.resource_request_array@),
                    self.resource_release_array@,
                    d,
                );
            }
            lemma_prov_after_releases_congruent(
                mid_table.prov(),
                prov_after_requests(m0, self.resource_request_array@),
                self.resource_release_array@,
            );
            lemma_prov_equiv_trans(
                context.resource_table.prov(),
                prov_after_releases(mid_table.prov(), self.resource_release_array@),
                self.prov_after(m0),
            );
        }
    }

    /// Builds the device pass for one pass node: the request and release sets
    /// resolved against the graph's nodes, the body moved out, the name
    /// copied.
    pub fn extra(&mut self, graph: &mut FrameGraph, index: IndexHandle<PassNode>)
        requires
            old(graph).wf(),
            index.index < old(graph).pass_nodes@.len(),
            crate::graph::requests_assigned(
                old(graph).resource_nodes@,
                old(graph).pass_nodes@,
            ),
        ensures
            final(graph).wf(),
            final(graph).resource_nodes == old(graph).resource_nodes,
            final(graph).resource_board == old(graph).resource_board,
            final(graph).compiled_frame_graph == old(graph).compiled_frame_graph,
            final(graph).pass_nodes@.len() == old(graph).pass_nodes@.len(),
            forall|p: int|
                0 <= p < old(graph).pass_nodes@.len() && p != index.index as int
                    ==> #[trigger] final(graph).pass_nodes@[p] == old(graph).pass_nodes@[p],
            pass_node_kept_except_body(
                final(graph).pass_nodes@[index.index as int],
                old(graph).pass_nodes@[index.index as int],
            ),
            final(graph).pass_nodes@[index.index as int].pass is None,
            final(self).pass == old(graph).pass_nodes@[index.index as int].pass,
            final(self).name@ == old(graph).pass_nodes@[index.index as int].name@,
            device_pass_matches(
                *final(self),
                old(graph).resource_nodes@,
                old(graph).pass_nodes@[index.index as int],
            ),
    {
        let p = index.index;
        let ghost nodes0 = graph.resource_nodes@;
        let ghost pass0 = graph.pass_nodes@[p as int];

        let mut resource_request_array: Vec<ResourceRequese> = Vec::new();
        let req_len = graph.pass_nodes[p].resource_request_array.len();
        let mut t: usize = 0;
        while t < req_len
            invariant
                *graph == *old(graph),
                old(graph).wf(),
                crate::graph::requests_assigned(
                    old(graph).resource_nodes@,
                    old(graph).pass_nodes@,
                ),
                p == index.index,
                p < graph.pass_nodes@.len(),
                pass0 == graph.pass_nodes@[p as int],
                nodes0 == graph.resource_nodes@,
                req_len == pass0.resource_request_array@.len(),
                0 <= t <= req_len,
                resource_request_array@.len() == t,
                forall|s: int|
                    0 <= s < t ==> request_entry_matches(
                        #[trigger] resource_request_array@[s],
                        nodes0,
                        pass0.resource_request_array@[s],
                    ),
            decreases req_len - t,
        {
            let node_index = graph.pass_nodes[p].resource_request_array[t];
            let request = graph.resource_nodes[node_index.index].request();
            resource_request_array.push(request);
            t += 1;
        }

        let mut resource_release_array: Vec<ResourceRelease> = Vec::new();
        let rel_len = graph.pass_nodes[p].resource_release_array.len();
        let mut t2: usize = 0;
        while t2 < rel_len
            invariant
                *graph == *old(graph),
                old(graph).wf(),
                crate::graph::requests_assigned(
                    old(graph).resource_nodes@,
                    old(graph).pass_nodes@,
                ),
                p == index.index,
                p < graph.pass_nodes@.len(),
                pass0 == graph.pass_nodes@[p as int],
                nodes0 == graph.resource_nodes@,
                rel_len == pass0.resource_release_array@.len(),
                0 <= t2 <= rel_len,
                resource_release_array@.len() == t2,
                forall|s: int|
                    0 <= s < t2 ==> (#[trigger] resource_release_array@[s]).index
                        == pass0.resource_release_array@[s],
            decreases rel_len - t2,
        {
            let node_index = graph.pass_nodes[p].resource_release_array[t2];
            let release = graph.resource_nodes[node_index.index].release();
            resource_release_array.push(release);
            t2 += 1;
        }

        let name = graph.pass_node_name(p);
        let pass = graph.take_pass_body(p);

        self.resource_request_array = resource_request_array;
        self.pass = pass;
        self.resource_release_array = resource_release_array;
        self.name = name;
    }
}

/// The compiled request list mirrors the pass node's request list entry for
/// entry, with each node's virtual resource copied in.
pub open spec fn device_pass_matches(
    dp: DevicePass,
    nodes: Seq<crate::resource_node::ResourceNode>,
    pass: PassNode,
) -> bool {
    &&& dp.resource_request_array@.len() == pass.resource_request_array@.len()
    &&& forall|t: int|
        0 <= t < pass.resource_request_array@.len() ==> request_entry_matches(
            #[trigger] dp.resource_request_array@[t],
            nodes,
            pass.resource_request_array@[t],
        )
    &&& dp.resource_release_array@.len() == pass.resource_release_array@.len()
    &&& forall|t: int|
        0 <= t < pass.resource_release_array@.len()
            ==> (#[trigger] dp.resource_release_array@[t]).index
            == pass.resource_release_array@[t]
}

/// One compiled request stands for one node: same index, a copy of its
/// backing resource.
pub open spec fn request_entry_matches(
    r: ResourceRequese,
    nodes: Seq<crate::resource_node::ResourceNode>,
    h: IndexHandle<crate::resource_node::ResourceNode>,
) -> bool {
    &&& r.index == h
    &&& 0 <= h.index < nodes.len()
    &&& vr_matches(r.resource, nodes[h.index as int].resource)
    &&& vr_matches(nodes[h.index as int].resource, r.resource)
}

/// All pass node fields except the body.
pub open spec fn pass_node_kept_except_body(a: PassNode, b: PassNode) -> bool {
    &&& a.name == b.name
    &&& a.index == b.index
    &&& a.writes == b.writes
    &&& a.reads == b.reads
    &&& a.resource_request_array == b.resource_request_array
    &&& a.resource_release_array == b.resource_release_array
}

} // verus!
