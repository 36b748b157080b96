mod device_pass;
mod pass_node_builder;

pub use device_pass::{
    device_pass_matches, pass_node_kept_except_body, request_entry_matches, DevicePass,
};
pub use pass_node_builder::{
    has_raw, raws_distinct, DrawIndexedParameter, DrawParameter, PassBuilder, PassNodeBuilder,
    RenderPassBuilder, SetBindGroupParameter, SetIndexBufferParameter,
    SetRenderPipelineParameter, SetVertexBufferParameter,
};

use vstd::prelude::*;
use vstd::map::*;

use crate::gpu::{ExCommandBuffer, ExDevice};
use crate::index::IndexHandle;
use crate::pass::Pass;
use crate::pass_node::PassNode;
use crate::pipeline_container::PipelineContainer;
use crate::resource_board::{ResourceBoard, ResourceBoardKey};
use crate::resource_node::{
    RawResourceHandle, ResourceHandle, ResourceNode, ResourceRelease, ResourceRequese,
};
use crate::resource_table::{
    lemma_prov_after_releases_congruent, lemma_prov_after_requests_congruent,
    lemma_pushes_for_congruent, prov_equiv, Prov, ResKind, ResourceTable,
};
use crate::transient_resource::{
    lemma_any_desc_matches_equivalence, IntoArcAnyTransientResource, TransientResource,
    TransientResourceCache, TransientResourceDescriptor, VirtualResource,
};
use std::sync::Arc;

verus! {

/// Whether a pass declares the node with this index among its reads or
/// writes.
pub open spec fn touches(pass: PassNode, i: int) -> bool {
    ||| exists|j: int|
        0 <= j < pass.reads@.len() && (#[trigger] pass.reads@[j]).index.index == i
    ||| exists|j: int|
        0 <= j < pass.writes@.len() && (#[trigger] pass.writes@[j]).index.index == i
}

/// The pass index held in a node's first-use field.
pub open spec fn first_idx(node: ResourceNode) -> int {
    match node.first_use_pass {
        Some(f) => f as int,
        None => arbitrary(),
    }
}

/// The pass index held in a node's last-use field.
pub open spec fn last_idx(node: ResourceNode) -> int {
    match node.last_user_pass {
        Some(l) => l as int,
        None => arbitrary(),
    }
}

/// A node's lifetime fields are exactly the first and last pass that touch
/// it, over the first `upto` passes.
pub open spec fn node_lifetime_ok(
    node: ResourceNode,
    passes: Seq<PassNode>,
    i: int,
    upto: int,
) -> bool {
    &&& (node.first_use_pass is None <==> node.last_user_pass is None)
    &&& match node.first_use_pass {
        None => forall|p: int| 0 <= p < upto ==> !touches(#[trigger] passes[p], i),
        Some(f) => {
            &&& 0 <= f < upto
            &&& touches(passes[f as int], i)
            &&& forall|p: int| 0 <= p < f ==> !touches(#[trigger] passes[p], i)
        },
    }
    &&& match node.last_user_pass {
        None => true,
        Some(l) => {
            &&& 0 <= l < upto
            &&& touches(passes[l as int], i)
            &&& forall|p: int| l < p < upto ==> !touches(#[trigger] passes[p], i)
            &&& first_idx(node) <= l
        },
    }
}

/// Lifetime analysis is complete: every node's endpoints are the first and
/// last pass that touch it.
pub open spec fn lifetimes_assigned(nodes: Seq<ResourceNode>, passes: Seq<PassNode>) -> bool {
    forall|i: int|
        0 <= i < nodes.len() ==> node_lifetime_ok(#[trigger] nodes[i], passes, i, passes.len() as int)
}

/// Whether a list of node indexes holds this index.
pub open spec fn has_index(s: Seq<IndexHandle<ResourceNode>>, i: int) -> bool {
    exists|t: int| 0 <= t < s.len() && (#[trigger] s[t]).index == i
}

/// The indexes in the list grow strictly, so no index repeats.
pub open spec fn strictly_increasing(s: Seq<IndexHandle<ResourceNode>>) -> bool {
    forall|t1: int, t2: int| 0 <= t1 < t2 < s.len() ==> s[t1].index < s[t2].index
}

/// A node takes part in the frame: some pass touches it.
pub open spec fn node_used(node: ResourceNode) -> bool {
    node.first_use_pass is Some && node.last_user_pass is Some
}

/// The request and release sets are exactly right: every used node is
/// requested by its first-use pass and released by its last-use pass, those
/// sets list only such nodes, and no set lists a node twice.
pub open spec fn requests_assigned(nodes: Seq<ResourceNode>, passes: Seq<PassNode>) -> bool {
    &&& forall|p: int|
        0 <= p < passes.len() ==> strictly_increasing(
            (#[trigger] passes[p]).resource_request_array@,
        ) && strictly_increasing(passes[p].resource_release_array@)
    &&& forall|p: int, t: int|
        0 <= p < passes.len() && 0 <= t < passes[p].resource_request_array@.len() ==> {
            let i = (#[trigger] passes[p].resource_request_array@[t]).index as int;
            &&& 0 <= i < nodes.len()
            &&& node_used(nodes[i])
            &&& first_idx(nodes[i]) == p
        }
    &&& forall|p: int, t: int|
        0 <= p < passes.len() && 0 <= t < passes[p].resource_release_array@.len() ==> {
            let i = (#[trigger] passes[p].resource_release_array@[t]).index as int;
            &&& 0 <= i < nodes.len()
            &&& node_used(nodes[i])
            &&& last_idx(nodes[i]) == p
        }
    &&& forall|i: int|
        0 <= i < nodes.len() && node_used(#[trigger] nodes[i]) ==> {
            &&& 0 <= first_idx(nodes[i]) < passes.len()
            &&& 0 <= last_idx(nodes[i]) < passes.len()
            &&& has_index(passes[first_idx(nodes[i])].resource_request_array@, i)
            &&& has_index(passes[last_idx(nodes[i])].resource_release_array@, i)
        }
}

/// Every used node is requested by exactly one pass and released by exactly
/// one pass, and the requesting pass comes no later than the releasing pass.
pub proof fn lemma_request_release_unique(
    nodes: Seq<ResourceNode>,
    passes: Seq<PassNode>,
    i: int,
)
    requires
        lifetimes_assigned(nodes, passes),
        requests_assigned(nodes, passes),
        0 <= i < nodes.len(),
        node_used(nodes[i]),
    ensures
        has_index(passes[first_idx(nodes[i])].resource_request_array@, i),
        has_index(passes[last_idx(nodes[i])].resource_release_array@, i),
        first_idx(nodes[i]) <= last_idx(nodes[i]),
        forall|p: int|
            0 <= p < passes.len() && has_index(
                (#[trigger] passes[p]).resource_request_array@,
                i,
            ) ==> p == first_idx(nodes[i]),
        forall|p: int|
            0 <= p < passes.len() && has_index(
                (#[trigger] passes[p]).resource_release_array@,
                i,
            ) ==> p == last_idx(nodes[i]),
        forall|t1: int, t2: int|
            0 <= t1 < t2 < passes[first_idx(nodes[i])].resource_request_array@.len()
                ==> !(passes[first_idx(nodes[i])].resource_request_array@[t1].index == i
                && passes[first_idx(nodes[i])].resource_request_array@[t2].index == i),
{
    assert forall|p: int|
        0 <= p < passes.len() && has_index(
            (#[trigger] passes[p]).resource_request_array@,
            i,
        ) implies p == first_idx(nodes[i]) by {
        let t = choose|t: int|
            0 <= t < passes[p].resource_request_array@.len()
                && (#[trigger] passes[p].resource_request_array@[t]).index == i;
        assert(first_idx(nodes[i]) == p);
    }
    assert forall|p: int|
        0 <= p < passes.len() && has_index(
            (#[trigger] passes[p]).resource_release_array@,
            i,
        ) implies p == last_idx(nodes[i]) by {
        let t = choose|t: int|
            0 <= t < passes[p].resource_release_array@.len()
                && (#[trigger] passes[p].resource_release_array@[t]).index == i;
        assert(last_idx(nodes[i]) == p);
    }
}

/// Every node index a pass declares lies between that node's first and last
/// use as the compiler assigned them.
pub proof fn lemma_use_within_lifetime(
    nodes: Seq<ResourceNode>,
    passes: Seq<PassNode>,
    p: int,
    i: int,
)
    requires
        lifetimes_assigned(nodes, passes),
        0 <= p < passes.len(),
        0 <= i < nodes.len(),
        touches(passes[p], i),
    ensures
        node_used(nodes[i]),
        first_idx(nodes[i]) <= p <= last_idx(nodes[i]),
{
    assert(node_lifetime_ok(nodes[i], passes, i, passes.len() as int));
    if nodes[i].first_use_pass is None {
        assert(!touches(passes[p], i));
    }
    if p < first_idx(nodes[i]) {
        assert(!touches(passes[p], i));
    }
    if p > last_idx(nodes[i]) {
        assert(!touches(passes[p], i));
    }
}

/// What one frame executes against: the per-frame resource table, the
/// pipeline cache, the device, the pool carried across frames, and the
/// command buffers produced so far.
pub struct FrameGraphContext<'a> {
    pub resource_table: ResourceTable,
    pub pipeline_container: PipelineContainer,
    pub device: &'a wgpu::Device,
    pub transient_resource_cache: TransientResourceCache,
    pub command_buffers: Vec<wgpu::CommandBuffer>,
}

impl<'a> FrameGraphContext<'a> {
    pub fn new(
        pipeline_container: PipelineContainer,
        device: &'a wgpu::Device,
        transient_resource_cache: TransientResourceCache,
    ) -> (r: Self)
        ensures
            r.resource_table.wf(),
            r.resource_table.summary() == Map::<int, ResKind>::empty(),
            r.pipeline_container == pipeline_container,
            r.device == device,
            r.transient_resource_cache == transient_resource_cache,
            r.command_buffers@.len() == 0,
    {
        Self {
            resource_table: ResourceTable::new(),
            pipeline_container,
            device,
            transient_resource_cache,
            command_buffers: Vec::new(),
        }
    }

    pub fn add_command_buffer(&mut self, command_buffer: wgpu::CommandBuffer)
        ensures
            final(self).command_buffers@ == old(self).command_buffers@.push(command_buffer),
            final(self).resource_table == old(self).resource_table,
            final(self).pipeline_container == old(self).pipeline_container,
            final(self).device == old(self).device,
            final(self).transient_resource_cache == old(self).transient_resource_cache,
    {
        self.command_buffers.push(command_buffer);
    }

    /// Hands back the recorded command buffers and the pool, which survives
    /// the frame.
    pub fn finish(self) -> (r: (Vec<wgpu::CommandBuffer>, TransientResourceCache))
        ensures
            r.0 == self.command_buffers,
            r.1 == self.transient_resource_cache,
    {
        (self.command_buffers, self.transient_resource_cache)
    }
}

/// An external object that can import its backing resource into a graph on
/// demand.
pub trait ResourceMaterial {
    type ResourceType: TransientResource;

    /// Imports the material's resource and hands back its handle. The handle
    /// is into the graph, the node it names can still be written, and the
    /// recorded passes are left alone. The version bound asks implementations
    /// to hand out nodes whose version space is not exhausted; an import of a
    /// fresh node gives version zero, and a name hit meets it as long as the
    /// node has not seen the full range of writes.
    fn imported(&self, frame_graph: &mut FrameGraph) -> (r: ResourceHandle<Self::ResourceType>)
        requires
            old(frame_graph).wf(),
        ensures
            final(frame_graph).wf(),
            old(frame_graph).recording() ==> final(frame_graph).recording(),
            final(frame_graph).pass_nodes == old(frame_graph).pass_nodes,
            final(frame_graph).resource_nodes@.len() >= old(frame_graph).resource_nodes@.len(),
            r.raw.index.index < final(frame_graph).resource_nodes@.len(),
            final(frame_graph).resource_nodes@[r.raw.index.index as int].version < u32::MAX,
    ;
}

/// The linear list of device passes one compile produced.
pub struct CompiledFrameGraph {
    pub device_passes: Vec<DevicePass>,
}

/// Every pass in the list finds what its body needs in the table state left
/// by the passes before it.
pub open spec fn ready_seq(s: Map<int, ResKind>, passes: Seq<DevicePass>) -> bool
    decreases passes.len(),
{
    if passes.len() == 0 {
        true
    } else {
        &&& passes[0].ready(s)
        &&& ready_seq(passes[0].summary_after(s), passes.drop_first())
    }
}

/// The free-stack length of one descriptor class after a list of device
/// passes has run, pass by pass.
pub open spec fn cache_len_seq(
    len: int,
    m: Map<int, Prov>,
    passes: Seq<DevicePass>,
    d: crate::transient_resource::AnyTransientResourceDescriptor,
) -> int
    decreases passes.len(),
{
    if passes.len() == 0 {
        len
    } else {
        cache_len_seq(
            passes[0].cache_len_after(len, m, d),
            passes[0].prov_after(m),
            passes.drop_first(),
            d,
        )
    }
}

/// The provenance map after a list of device passes has run.
pub open spec fn prov_after_seq(m: Map<int, Prov>, passes: Seq<DevicePass>) -> Map<int, Prov>
    decreases passes.len(),
{
    if passes.len() == 0 {
        m
    } else {
        prov_after_seq(passes[0].prov_after(m), passes.drop_first())
    }
}

/// One pass's provenance transition keeps agreeing maps agreeing.
proof fn lemma_dp_prov_after_congruent(dp: DevicePass, a: Map<int, Prov>, b: Map<int, Prov>)
    requires
        prov_equiv(a, b),
    ensures
        prov_equiv(dp.prov_after(a), dp.prov_after(b)),
{
    lemma_prov_after_requests_congruent(a, b, dp.resource_request_array@);
    lemma_prov_after_releases_congruent(
        crate::resource_table::prov_after_requests(a, dp.resource_request_array@),
        crate::resource_table::prov_after_requests(b, dp.resource_request_array@),
        dp.resource_release_array@,
    );
}

/// The pass-list cache-length fold agrees over agreeing provenance maps.
proof fn lemma_cache_len_seq_congruent(
    len: int,
    a: Map<int, Prov>,
    b: Map<int, Prov>,
    passes: Seq<DevicePass>,
    d: crate::transient_resource::AnyTransientResourceDescriptor,
)
    requires
        prov_equiv(a, b),
    ensures
        cache_len_seq(len, a, passes, d) == cache_len_seq(len, b, passes, d),
    decreases passes.len(),
{
    if passes.len() > 0 {
        let dp = passes[0];
        lemma_prov_after_requests_congruent(a, b, dp.resource_request_array@);
        lemma_pushes_for_congruent(
            crate::resource_table::pops_for(len, dp.resource_request_array@, d),
            crate::resource_table::prov_after_requests(a, dp.resource_request_array@),
            crate::resource_table::prov_after_requests(b, dp.resource_request_array@),
            dp.resource_release_array@,
            d,
        );
        lemma_dp_prov_after_congruent(dp, a, b);
        lemma_cache_len_seq_congruent(
            dp.cache_len_after(len, a, d),
            dp.prov_after(a),
            dp.prov_after(b),
            passes.drop_first(),
            d,
        );
    }
}

/// How many of the compiled passes carry a body.
pub open spec fn count_bodies(passes: Seq<DevicePass>) -> int
    decreases passes.len(),
{
    if passes.len() == 0 {
        0
    } else {
        (if passes[0].pass is Some {
            1int
        } else {
            0int
        }) + count_bodies(passes.drop_first())
    }
}

impl CompiledFrameGraph {
    /// Runs every device pass in declaration order.
    pub fn execute(&self, context: &mut FrameGraphContext)
        requires
            old(context).resource_table.wf(),
            old(context).transient_resource_cache.wf(),
            forall|p: int|
                0 <= p < self.device_passes@.len()
                    ==> (#[trigger] self.device_passes@[p]).requests_valid(),
            ready_seq(old(context).resource_table.summary(), self.device_passes@),
        ensures
            final(context).resource_table.wf(),
            final(context).transient_resource_cache.wf(),
            forall|d: crate::transient_resource::AnyTransientResourceDescriptor| #[trigger]
                final(context).transient_resource_cache.spec_stack(d).len() == cache_len_seq(
                    old(context).transient_resource_cache.spec_stack(d).len() as int,
                    old(context).resource_table.prov(),
                    self.device_passes@,
                    d,
                ),
            final(context).pipeline_container == old(context).pipeline_container,
            final(context).device == old(context).device,
            final(context).command_buffers@.len() == old(context).command_buffers@.len()
                + count_bodies(self.device_passes@),
            forall|j: int|
                0 <= j < old(context).command_buffers@.len()
                    ==> #[trigger] final(context).command_buffers@[j] == old(context).command_buffers@[j],
    {
        let n = self.device_passes.len();
        proof {
            assert(self.device_passes@.subrange(0, n as int) =~= self.device_passes@);
            assert(self.device_passes@.subrange(0, 0) =~= Seq::<DevicePass>::empty());
        }
        let mut p: usize = 0;
        while p < n
            invariant
                n == self.device_passes@.len(),
                0 <= p <= n,
                forall|q: int|
                    0 <= q < n ==> (#[trigger] self.device_passes@[q]).requests_valid(),
                context.resource_table.wf(),
                context.transient_resource_cache.wf(),
                ready_seq(
                    context.resource_table.summary(),
                    self.device_passes@.subrange(p as int, n as int),
                ),
                forall|d: crate::transient_resource::AnyTransientResourceDescriptor| #[trigger]
                    cache_len_seq(
                        context.transient_resource_cache.spec_stack(d).len() as int,
                        context.resource_table.prov(),
                        self.device_passes@.subrange(p as int, n as int),
                        d,
                    ) == cache_len_seq(
                        old(context).transient_resource_cache.spec_stack(d).len() as int,
                        old(context).resource_table.prov(),
                        self.device_passes@,
                        d,
                    ),
                context.pipeline_container == old(context).pipeline_container,
                context.device == old(context).device,
                context.command_buffers@.len() == old(context).command_buffers@.len()
                    + count_bodies(self.device_passes@.subrange(0, p as int)),
                forall|j: int|
                    0 <= j < old(context).command_buffers@.len()
                        ==> #[trigger] context.command_buffers@[j] == old(context).command_buffers@[j],
            decreases n - p,
        {
            let ghost suffix = self.device_passes@.subrange(p as int, n as int);
            let ghost done = self.device_passes@.subrange(0, p as int);
            let ghost bufs_before = context.command_buffers@;
            let ghost pre_table = context.resource_table;
            let ghost pre_cache = context.transient_resource_cache;
            self.device_passes[p].execute(context);
            proof {
                lemma_count_bodies_nonneg(done);
                assert forall|j: int|
                    0 <= j < old(context).command_buffers@.len() implies #[trigger] context.command_buffers@[j]
                    == old(context).command_buffers@[j] by {
                    assert(0 <= j < bufs_before.len());
                    assert(context.command_buffers@[j] == bufs_before[j]);
                }
                assert(suffix.drop_first() =~= self.device_passes@.subrange(p + 1, n as int));
                assert(self.device_passes@.subrange(0, p + 1) =~= done.push(
                    self.device_passes@[p as int],
                ));
                lemma_count_bodies_push(done, self.device_passes@[p as int]);
                let dp = self.device_passes@[p as int];
                assert forall|d: crate::transient_resource::AnyTransientResourceDescriptor| #[trigger]
                    cache_len_seq(
                        context.transient_resource_cache.spec_stack(d).len() as int,
                        context.resource_table.prov(),
                        suffix.drop_first(),
                        d,
                    ) == cache_len_seq(
                        old(context).transient_resource_cache.spec_stack(d).len() as int,
                        old(context).resource_table.prov(),
                        self.device_passes@,
                        d,
                    ) by {
                    assert(context.transient_resource_cache.spec_stack(d).len() as int
                        == dp.cache_len_after(
                        pre_cache.spec_stack(d).len() as int,
                        pre_table.prov(),
                        d,
                    ));
                    lemma_cache_len_seq_congruent(
                        context.transient_resource_cache.spec_stack(d).len() as int,
                        context.resource_table.prov(),
                        dp.prov_after(pre_table.prov()),
                        suffix.drop_first(),
                        d,
                    );
                    assert(cache_len_seq(
                        pre_cache.spec_stack(d).len() as int,
                        pre_table.prov(),
                        suffix,
                        d,
                    ) == cache_len_seq(
                        dp.cache_len_after(pre_cache.spec_stack(d).len() as int, pre_table.prov(), d),
                        dp.prov_after(pre_table.prov()),
                        suffix.drop_first(),
                        d,
                    ));
                }
            }
            p += 1;
        }
        proof {
            assert(self.device_passes@.subrange(0, n as int) =~= self.device_passes@);
            assert forall|d: crate::transient_resource::AnyTransientResourceDescriptor| #[trigger]
                context.transient_resource_cache.spec_stack(d).len() == cache_len_seq(
                    old(context).transient_resource_cache.spec_stack(d).len() as int,
                    old(context).resource_table.prov(),
                    self.device_passes@,
                    d,
                ) by {
                assert(cache_len_seq(
                    context.transient_resource_cache.spec_stack(d).len() as int,
                    context.resource_table.prov(),
                    self.device_passes@.subrange(n as int, n as int),
                    d,
                ) == cache_len_seq(
                    old(context).transient_resource_cache.spec_stack(d).len() as int,
                    old(context).resource_table.prov(),
                    self.device_passes@,
                    d,
                ));
                assert(self.device_passes@.subrange(n as int, n as int)
                    =~= Seq::<DevicePass>::empty());
            }
        }
    }
}

proof fn lemma_count_bodies_nonneg(s: Seq<DevicePass>)
    ensures
        count_bodies(s) >= 0,
    decreases s.len(),
{
    if s.len() > 0 {
        lemma_count_bodies_nonneg(s.drop_first());
    }
}

proof fn lemma_count_bodies_push(s: Seq<DevicePass>, dp: DevicePass)
    ensures
        count_bodies(s.push(dp)) == count_bodies(s) + (if dp.pass is Some {
            1int
        } else {
            0int
        }),
    decreases s.len(),
{
    if s.len() == 0 {
        assert(s.push(dp).drop_first() =~= Seq::<DevicePass>::empty());
        assert(count_bodies(s.push(dp).drop_first()) == 0);
    } else {
        assert(s.push(dp).drop_first() =~= s.drop_first().push(dp));
        lemma_count_bodies_push(s.drop_first(), dp);
    }
}

/// The frame graph: the recorded resource and pass nodes of one frame, the
/// name board, and the compiled form once compile has run.
pub struct FrameGraph {
    pub resource_nodes: Vec<ResourceNode>,
    pub pass_nodes: Vec<PassNode>,
    pub compiled_frame_graph: Option<CompiledFrameGraph>,
    pub resource_board: ResourceBoard,
}

impl FrameGraph {
    /// Internal shape: nodes and passes sit at the index their handle names,
    /// every declared read and write points into the node array, and so does
    /// every published name.
    pub open spec fn wf(&self) -> bool {
        &&& forall|i: int|
            0 <= i < self.resource_nodes@.len() ==> (#[trigger] self.resource_nodes@[i]).index
                == i
        &&& forall|p: int|
            0 <= p < self.pass_nodes@.len() ==> (#[trigger] self.pass_nodes@[p]).index == p
        &&& forall|p: int, j: int|
            0 <= p < self.pass_nodes@.len() && 0 <= j < self.pass_nodes@[p].reads@.len()
                ==> (#[trigger] self.pass_nodes@[p].reads@[j]).index.index
                < self.resource_nodes@.len()
        &&& forall|p: int, j: int|
            0 <= p < self.pass_nodes@.len() && 0 <= j < self.pass_nodes@[p].writes@.len()
                ==> (#[trigger] self.pass_nodes@[p].writes@[j]).index.index
                < self.resource_nodes@.len()
        &&& self.resource_board.wf()
        &&& self.resource_board.indexes_below(self.resource_nodes@.len() as int)
    }

    /// The graph is still being recorded: no lifetime analysis has run and
    /// nothing is compiled.
    pub open spec fn recording(&self) -> bool {
        &&& forall|i: int|
            0 <= i < self.resource_nodes@.len() ==> (#[trigger] self.resource_nodes@[i]).first_use_pass is None
                && self.resource_nodes@[i].last_user_pass is None
        &&& forall|p: int|
            0 <= p < self.pass_nodes@.len()
                ==> (#[trigger] self.pass_nodes@[p]).resource_request_array@.len() == 0
                && self.pass_nodes@[p].resource_release_array@.len() == 0
        &&& self.compiled_frame_graph is None
    }

    /// The graph holds nothing: the state reset leaves behind.
    pub open spec fn is_reset(&self) -> bool {
        &&& self.resource_nodes@.len() == 0
        &&& self.pass_nodes@.len() == 0
        &&& self.compiled_frame_graph is None
        &&& forall|name: Seq<char>| !self.resource_board.spec_contains(name)
    }

    pub fn new() -> (r: Self)
        ensures
            r.wf(),
            r.recording(),
            r.is_reset(),
    {
        FrameGraph {
            resource_nodes: Vec::new(),
            pass_nodes: Vec::new(),
            compiled_frame_graph: None,
            resource_board: ResourceBoard::new(),
        }
    }

    /// Discards everything recorded and compiled. The pool is held by the
    /// context, not the graph, so nothing of it is touched.
    pub fn reset(&mut self)
        ensures
            final(self).wf(),
            final(self).recording(),
            final(self).is_reset(),
    {
        self.pass_nodes = Vec::new();
        self.resource_nodes = Vec::new();
        self.compiled_frame_graph = None;
        self.resource_board = ResourceBoard::new();
    }

    /// Runs the compiled graph, if there is one, and resets. With nothing
    /// compiled this leaves both the graph and the context exactly as they
    /// were.
    pub fn execute(&mut self, context: &mut FrameGraphContext)
        requires
            old(context).resource_table.wf(),
            old(context).transient_resource_cache.wf(),
            old(self).compiled_frame_graph matches Some(cg) ==> ready_seq(
                old(context).resource_table.summary(),
                cg.device_passes@,
            ) && (forall|p: int|
                0 <= p < cg.device_passes@.len()
                    ==> (#[trigger] cg.device_passes@[p]).requests_valid()),
        ensures
            old(self).compiled_frame_graph is None ==> *final(self) == *old(self) && *final(context) == *old(context),
            old(self).compiled_frame_graph is Some ==> final(self).is_reset() && final(self).wf() && final(self).recording(),
            final(context).resource_table.wf(),
            final(context).transient_resource_cache.wf(),
            final(context).pipeline_container == old(context).pipeline_container,
            final(context).device == old(context).device,
            old(self).compiled_frame_graph matches Some(cg) ==> final(context).command_buffers@.len() == old(context).command_buffers@.len() + count_bodies(
                cg.device_passes@,
            ),
            old(self).compiled_frame_graph matches Some(cg) ==> forall|
                d: crate::transient_resource::AnyTransientResourceDescriptor,
            | #[trigger]
                final(context).transient_resource_cache.spec_stack(d).len() == cache_len_seq(
                    old(context).transient_resource_cache.spec_stack(d).len() as int,
                    old(context).resource_table.prov(),
                    cg.device_passes@,
                    d,
                ),
    {
        if self.compiled_frame_graph.is_none() {
            return ;
        }
        if let Some(compiled_frame_graph) = &self.compiled_frame_graph {
            compiled_frame_graph.execute(context);
        }
        self.reset();
    }

    /// The name of one pass node.
    pub fn pass_node_name(&self, p: usize) -> (r: String)
        requires
            p < self.pass_nodes@.len(),
        ensures
            r@ == self.pass_nodes@[p as int].name@,
    {
        self.pass_nodes[p].name.clone()
    }

    /// Moves the body out of one pass node, leaving the node otherwise
    /// untouched.
    pub fn take_pass_body(&mut self, p: usize) -> (r: Option<Pass>)
        requires
            p < old(self).pass_nodes@.len(),
        ensures
            r == old(self).pass_nodes@[p as int].pass,
            final(self).pass_nodes@.len() == old(self).pass_nodes@.len(),
            forall|q: int|
                0 <= q < old(self).pass_nodes@.len() && q != p as int
                    ==> #[trigger] final(self).pass_nodes@[q] == old(self).pass_nodes@[q],
            pass_node_kept_except_body(
                final(self).pass_nodes@[p as int],
                old(self).pass_nodes@[p as int],
            ),
            final(self).pass_nodes@[p as int].pass is None,
            final(self).resource_nodes == old(self).resource_nodes,
            final(self).resource_board == old(self).resource_board,
            final(self).compiled_frame_graph == old(self).compiled_frame_graph,
    {
        let mut node = self.pass_nodes.remove(p);
        let body = node.pass.take();
        let ghost pre = *old(self);
        self.pass_nodes.insert(p, node);
        proof {
            assert(forall|q: int|
                0 <= q < pre.pass_nodes@.len() && q != p as int
                    ==> #[trigger] self.pass_nodes@[q] == pre.pass_nodes@[q]);
        }
        body
    }

    /// Appends a recorded pass node.
    pub fn push_pass_node(&mut self, node: PassNode)
        ensures
            final(self).pass_nodes@ == old(self).pass_nodes@.push(node),
            final(self).resource_nodes == old(self).resource_nodes,
            final(self).resource_board == old(self).resource_board,
            final(self).compiled_frame_graph == old(self).compiled_frame_graph,
    {
        self.pass_nodes.push(node);
    }

    /// Bumps the version of one node, for a write.
    pub fn bump_version(&mut self, i: usize) -> (r: u32)
        requires
            i < old(self).resource_nodes@.len(),
            old(self).resource_nodes@[i as int].version < u32::MAX,
        ensures
            r == old(self).resource_nodes@[i as int].version + 1,
            final(self).resource_nodes@.len() == old(self).resource_nodes@.len(),
            forall|j: int|
                0 <= j < old(self).resource_nodes@.len() && j != i as int
                    ==> #[trigger] final(self).resource_nodes@[j] == old(self).resource_nodes@[j],
            node_kept_except_version(
                final(self).resource_nodes@[i as int],
                old(self).resource_nodes@[i as int],
            ),
            final(self).resource_nodes@[i as int].version == old(self).resource_nodes@[i as int].version
                + 1,
            final(self).pass_nodes == old(self).pass_nodes,
            final(self).resource_board == old(self).resource_board,
            final(self).compiled_frame_graph == old(self).compiled_frame_graph,
    {
        let mut node = self.resource_nodes.remove(i);
        node.new_version();
        let version = node.version();
        let ghost pre = *old(self);
        self.resource_nodes.insert(i, node);
        proof {
            assert(forall|j: int|
                0 <= j < pre.resource_nodes@.len() && j != i as int
                    ==> #[trigger] self.resource_nodes@[j] == pre.resource_nodes@[j]);
        }
        version
    }

    /// Marks one node as touched by the pass with this handle, for lifetime
    /// analysis.
    fn touch_node(&mut self, i: usize, handle: IndexHandle<PassNode>)
        requires
            i < old(self).resource_nodes@.len(),
        ensures
            final(self).resource_nodes@.len() == old(self).resource_nodes@.len(),
            forall|j: int|
                0 <= j < old(self).resource_nodes@.len() && j != i as int
                    ==> #[trigger] final(self).resource_nodes@[j] == old(self).resource_nodes@[j],
            node_kept_except_lifetime(
                final(self).resource_nodes@[i as int],
                old(self).resource_nodes@[i as int],
            ),
            final(self).resource_nodes@[i as int].first_use_pass == (if old(self).resource_nodes@[i as int].first_use_pass is None {
                Some(handle.index)
            } else {
                old(self).resource_nodes@[i as int].first_use_pass
            }),
            final(self).resource_nodes@[i as int].last_user_pass == Some(handle.index),
            final(self).pass_nodes == old(self).pass_nodes,
            final(self).resource_board == old(self).resource_board,
            final(self).compiled_frame_graph == old(self).compiled_frame_graph,
    {
        let mut node = self.resource_nodes.remove(i);
        node.update_lifetime(handle);
        let ghost pre = *old(self);
        self.resource_nodes.insert(i, node);
        proof {
            assert(forall|j: int|
                0 <= j < pre.resource_nodes@.len() && j != i as int
                    ==> #[trigger] self.resource_nodes@[j] == pre.resource_nodes@[j]);
        }
    }

    /// Appends one node index to a pass's request set.
    fn push_request(&mut self, p: usize, h: IndexHandle<ResourceNode>)
        requires
            p < old(self).pass_nodes@.len(),
        ensures
            final(self).pass_nodes@.len() == old(self).pass_nodes@.len(),
            forall|q: int|
                0 <= q < old(self).pass_nodes@.len() && q != p as int
                    ==> #[trigger] final(self).pass_nodes@[q] == old(self).pass_nodes@[q],
            pass_kept_except_sets(
                final(self).pass_nodes@[p as int],
                old(self).pass_nodes@[p as int],
            ),
            final(self).pass_nodes@[p as int].resource_request_array@ == old(self).pass_nodes@[p as int].resource_request_array@.push(h),
            final(self).pass_nodes@[p as int].resource_release_array == old(self).pass_nodes@[p as int].resource_release_array,
            final(self).resource_nodes == old(self).resource_nodes,
            final(self).resource_board == old(self).resource_board,
            final(self).compiled_frame_graph == old(self).compiled_frame_graph,
    {
        let mut node = self.pass_nodes.remove(p);
        node.resource_request_array.push(h);
        let ghost pre = *old(self);
        self.pass_nodes.insert(p, node);
        proof {
            assert(forall|q: int|
                0 <= q < pre.pass_nodes@.len() && q != p as int ==> #[trigger] self.pass_nodes@[q]
                    == pre.pass_nodes@[q]);
        }
    }

    /// Appends one node index to a pass's release set.
    fn push_release(&mut self, p: usize, h: IndexHandle<ResourceNode>)
        requires
            p < old(self).pass_nodes@.len(),
        ensures
            final(self).pass_nodes@.len() == old(self).pass_nodes@.len(),
            forall|q: int|
                0 <= q < old(self).pass_nodes@.len() && q != p as int
                    ==> #[trigger] final(self).pass_nodes@[q] == old(self).pass_nodes@[q],
            pass_kept_except_sets(
                final(self).pass_nodes@[p as int],
                old(self).pass_nodes@[p as int],
            ),
            final(self).pass_nodes@[p as int].resource_release_array@ == old(self).pass_nodes@[p as int].resource_release_array@.push(h),
            final(self).pass_nodes@[p as int].resource_request_array == old(self).pass_nodes@[p as int].resource_request_array,
            final(self).resource_nodes == old(self).resource_nodes,
            final(self).resource_board == old(self).resource_board,
            final(self).compiled_frame_graph == old(self).compiled_frame_graph,
    {
        let mut node = self.pass_nodes.remove(p);
        node.resource_release_array.push(h);
        let ghost pre = *old(self);
        self.pass_nodes.insert(p, node);
        proof {
            assert(forall|q: int|
                0 <= q < pre.pass_nodes@.len() && q != p as int ==> #[trigger] self.pass_nodes@[q]
                    == pre.pass_nodes@[q]);
        }
    }
}


/// Whether a list of raw handles names this node index.
pub open spec fn touched_by(s: Seq<RawResourceHandle>, i: int) -> bool {
    exists|t: int| 0 <= t < s.len() && (#[trigger] s[t]).index.index == i
}

/// The node was marked by the pass with index `p`: the first use is kept (or
/// set, if there was none) and the last use becomes `p`.
pub open spec fn stepped(pre: ResourceNode, cur: ResourceNode, p: usize) -> bool {
    &&& node_kept_except_lifetime(cur, pre)
    &&& cur.first_use_pass == (if pre.first_use_pass is None {
        Some(p)
    } else {
        pre.first_use_pass
    })
    &&& cur.last_user_pass == Some(p)
}

impl FrameGraph {
    /// One pass of the lifetime sweep: marks every node the pass reads or
    /// writes.
    fn sweep_one_pass(&mut self, p: usize)
        requires
            old(self).wf(),
            p < old(self).pass_nodes@.len(),
        ensures
            final(self).wf(),
            final(self).pass_nodes == old(self).pass_nodes,
            final(self).resource_board == old(self).resource_board,
            final(self).compiled_frame_graph == old(self).compiled_frame_graph,
            final(self).resource_nodes@.len() == old(self).resource_nodes@.len(),
            forall|i: int|
                0 <= i < old(self).resource_nodes@.len() ==> (if touches(
                    old(self).pass_nodes@[p as int],
                    i,
                ) {
                    stepped(
                        old(self).resource_nodes@[i],
                        #[trigger] final(self).resource_nodes@[i],
                        p,
                    )
                } else {
                    final(self).resource_nodes@[i] == old(self).resource_nodes@[i]
                }),
    {
        let ghost mid = old(self).resource_nodes@;
        let handle = IndexHandle::new(p);
        let nr = self.pass_nodes[p].reads.len();
        let mut t: usize = 0;
        while t < nr
            invariant
                old(self).wf(),
                p < old(self).pass_nodes@.len(),
                handle.index == p,
                mid == old(self).resource_nodes@,
                nr == old(self).pass_nodes@[p as int].reads@.len(),
                0 <= t <= nr,
                self.pass_nodes == old(self).pass_nodes,
                self.resource_board == old(self).resource_board,
                self.compiled_frame_graph == old(self).compiled_frame_graph,
                self.resource_nodes@.len() == mid.len(),
                forall|i: int|
                    0 <= i < mid.len() ==> (if touched_by(
                        old(self).pass_nodes@[p as int].reads@.subrange(0, t as int),
                        i,
                    ) {
                        stepped(mid[i], #[trigger] self.resource_nodes@[i], p)
                    } else {
                        self.resource_nodes@[i] == mid[i]
                    }),
            decreases nr - t,
        {
            let ghost reads = self.pass_nodes@[p as int].reads@;
            let idx = self.pass_nodes[p].reads[t].index.index;
            proof {
                assert(reads[t as int].index.index == idx);
            }
            let ghost before = self.resource_nodes@;
            self.touch_node(idx, handle);
            proof {
                assert forall|i: int|
                    0 <= i < mid.len() implies (if touched_by(reads.subrange(0, t + 1), i) {
                    stepped(mid[i], #[trigger] self.resource_nodes@[i], p)
                } else {
                    self.resource_nodes@[i] == mid[i]
                }) by {
                    if i == idx as int {
                        assert(reads.subrange(0, t + 1)[t as int].index.index == i);
                        assert(touched_by(reads.subrange(0, t + 1), i));
                        if touched_by(reads.subrange(0, t as int), i) {
                            assert(stepped(mid[i], before[i], p));
                        } else {
                            assert(before[i] == mid[i]);
                        }
                        assert(stepped(mid[i], self.resource_nodes@[i], p));
                    } else {
                        assert(self.resource_nodes@[i] == before[i]);
                        if touched_by(reads.subrange(0, t + 1), i) {
                            let w = choose|w: int|
                                0 <= w < t + 1 && (#[trigger] reads.subrange(0, t + 1)[w]).index.index
                                    == i;
                            assert(reads.subrange(0, t as int)[w] == reads[w]);
                            assert(touched_by(reads.subrange(0, t as int), i));
                        }
                    }
                }
            }
            t += 1;
        }
        proof {
            assert(old(self).pass_nodes@[p as int].reads@.subrange(0, nr as int)
                =~= old(self).pass_nodes@[p as int].reads@);
        }
        let nw = self.pass_nodes[p].writes.len();
        let mut t2: usize = 0;
        while t2 < nw
            invariant
                old(self).wf(),
                p < old(self).pass_nodes@.len(),
                handle.index == p,
                mid == old(self).resource_nodes@,
                nw == old(self).pass_nodes@[p as int].writes@.len(),
                0 <= t2 <= nw,
                self.pass_nodes == old(self).pass_nodes,
                self.resource_board == old(self).resource_board,
                self.compiled_frame_graph == old(self).compiled_frame_graph,
                self.resource_nodes@.len() == mid.len(),
                forall|i: int|
                    0 <= i < mid.len() ==> (if (touched_by(
                        old(self).pass_nodes@[p as int].reads@,
                        i,
                    ) || touched_by(
                        old(self).pass_nodes@[p as int].writes@.subrange(0, t2 as int),
                        i,
                    )) {
                        stepped(mid[i], #[trigger] self.resource_nodes@[i], p)
                    } else {
                        self.resource_nodes@[i] == mid[i]
                    }),
            decreases nw - t2,
        {
            let ghost writes = self.pass_nodes@[p as int].writes@;
            let idx = self.pass_nodes[p].writes[t2].index.index;
            proof {
                assert(writes[t2 as int].index.index == idx);
            }
            let ghost before = self.resource_nodes@;
            self.touch_node(idx, handle);
            proof {
                assert forall|i: int|
                    0 <= i < mid.len() implies (if (touched_by(
                    old(self).pass_nodes@[p as int].reads@,
                    i,
                ) || touched_by(writes.subrange(0, t2 + 1), i)) {
                    stepped(mid[i], #[trigger] self.resource_nodes@[i], p)
                } else {
                    self.resource_nodes@[i] == mid[i]
                }) by {
                    if i == idx as int {
                        assert(writes.subrange(0, t2 + 1)[t2 as int].index.index == i);
                        assert(touched_by(writes.subrange(0, t2 + 1), i));
                        if (touched_by(old(self).pass_nodes@[p as int].reads@, i) || touched_by(
                            writes.subrange(0, t2 as int),
                            i,
                        )) {
                            assert(stepped(mid[i], before[i], p));
                        } else {
                            assert(before[i] == mid[i]);
                        }
                        assert(stepped(mid[i], self.resource_nodes@[i], p));
                    } else {
                        assert(self.resource_nodes@[i] == before[i]);
                        if touched_by(writes.subrange(0, t2 + 1), i) {
                            let w = choose|w: int|
                                0 <= w < t2 + 1 && (#[trigger] writes.subrange(0, t2 + 1)[w]).index.index
                                    == i;
                            assert(writes.subrange(0, t2 as int)[w] == writes[w]);
                            assert(touched_by(writes.subrange(0, t2 as int), i));
                        }
                    }
                }
            }
            t2 += 1;
        }
        proof {
            assert(old(self).pass_nodes@[p as int].writes@.subrange(0, nw as int)
                =~= old(self).pass_nodes@[p as int].writes@);
            assert forall|i: int|
                0 <= i < mid.len() implies (if touches(old(self).pass_nodes@[p as int], i) {
                stepped(mid[i], #[trigger] self.resource_nodes@[i], p)
            } else {
                self.resource_nodes@[i] == mid[i]
            }) by {}
        }
    }

    /// Lifetime analysis: after the sweep, every node's endpoints are the
    /// first and last pass that touch it.
    fn sweep_lifetimes(&mut self)
        requires
            old(self).wf(),
            old(self).recording(),
        ensures
            final(self).wf(),
            final(self).pass_nodes == old(self).pass_nodes,
            final(self).resource_board == old(self).resource_board,
            final(self).compiled_frame_graph == old(self).compiled_frame_graph,
            final(self).resource_nodes@.len() == old(self).resource_nodes@.len(),
            forall|i: int|
                0 <= i < old(self).resource_nodes@.len() ==> node_kept_except_lifetime(
                    #[trigger] final(self).resource_nodes@[i],
                    old(self).resource_nodes@[i],
                ),
            lifetimes_assigned(final(self).resource_nodes@, final(self).pass_nodes@),
    {
        let np = self.pass_nodes.len();
        let mut p: usize = 0;
        while p < np
            invariant
                old(self).wf(),
                old(self).recording(),
                np == self.pass_nodes@.len(),
                0 <= p <= np,
                self.pass_nodes == old(self).pass_nodes,
                self.resource_board == old(self).resource_board,
                self.compiled_frame_graph == old(self).compiled_frame_graph,
                self.resource_nodes@.len() == old(self).resource_nodes@.len(),
                forall|i: int|
                    0 <= i < old(self).resource_nodes@.len() ==> node_kept_except_lifetime(
                        #[trigger] self.resource_nodes@[i],
                        old(self).resource_nodes@[i],
                    ),
                forall|i: int|
                    0 <= i < self.resource_nodes@.len() ==> node_lifetime_ok(
                        #[trigger] self.resource_nodes@[i],
                        self.pass_nodes@,
                        i,
                        p as int,
                    ),
            decreases np - p,
        {
            let ghost mid = self.resource_nodes@;
            self.sweep_one_pass(p);
            proof {
                assert forall|i: int|
                    0 <= i < self.resource_nodes@.len() implies node_lifetime_ok(
                    #[trigger] self.resource_nodes@[i],
                    self.pass_nodes@,
                    i,
                    p + 1,
                ) by {
                    assert(node_lifetime_ok(mid[i], self.pass_nodes@, i, p as int));
                    if touches(self.pass_nodes@[p as int], i) {
                        assert(stepped(mid[i], self.resource_nodes@[i], p));
                    } else {
                        assert(self.resource_nodes@[i] == mid[i]);
                    }
                }
            }
            p += 1;
        }
    }

    /// Request assignment: every used node is pushed onto its first-use
    /// pass's request set and its last-use pass's release set, in node order.
    fn assign_requests(&mut self)
        requires
            old(self).wf(),
            lifetimes_assigned(old(self).resource_nodes@, old(self).pass_nodes@),
            forall|p: int|
                0 <= p < old(self).pass_nodes@.len()
                    ==> (#[trigger] old(self).pass_nodes@[p]).resource_request_array@.len() == 0
                    && old(self).pass_nodes@[p].resource_release_array@.len() == 0,
        ensures
            final(self).wf(),
            final(self).resource_nodes == old(self).resource_nodes,
            final(self).resource_board == old(self).resource_board,
            final(self).compiled_frame_graph == old(self).compiled_frame_graph,
            final(self).pass_nodes@.len() == old(self).pass_nodes@.len(),
            forall|p: int|
                0 <= p < old(self).pass_nodes@.len() ==> pass_kept_except_sets(
                    #[trigger] final(self).pass_nodes@[p],
                    old(self).pass_nodes@[p],
                ),
            lifetimes_assigned(final(self).resource_nodes@, final(self).pass_nodes@),
            requests_assigned(final(self).resource_nodes@, final(self).pass_nodes@),
    {
        let nn = self.resource_nodes.len();
        let mut k: usize = 0;
        while k < nn
            invariant
                old(self).wf(),
                lifetimes_assigned(old(self).resource_nodes@, old(self).pass_nodes@),
                nn == self.resource_nodes@.len(),
                0 <= k <= nn,
                self.resource_nodes == old(self).resource_nodes,
                self.resource_board == old(self).resource_board,
                self.compiled_frame_graph == old(self).compiled_frame_graph,
                self.pass_nodes@.len() == old(self).pass_nodes@.len(),
                forall|p: int|
                    0 <= p < old(self).pass_nodes@.len() ==> pass_kept_except_sets(
                        #[trigger] self.pass_nodes@[p],
                        old(self).pass_nodes@[p],
                    ),
                forall|p: int|
                    0 <= p < self.pass_nodes@.len() ==> strictly_increasing(
                        (#[trigger] self.pass_nodes@[p]).resource_request_array@,
                    ) && strictly_increasing(self.pass_nodes@[p].resource_release_array@),
                forall|p: int, t: int|
                    0 <= p < self.pass_nodes@.len() && 0 <= t
                        < self.pass_nodes@[p].resource_request_array@.len() ==> {
                        let i = (
                        #[trigger] self.pass_nodes@[p].resource_request_array@[t]).index as int;
                        &&& 0 <= i < k
                        &&& node_used(self.resource_nodes@[i])
                        &&& first_idx(self.resource_nodes@[i]) == p
                    },
                forall|p: int, t: int|
                    0 <= p < self.pass_nodes@.len() && 0 <= t
                        < self.pass_nodes@[p].resource_release_array@.len() ==> {
                        let i = (
                        #[trigger] self.pass_nodes@[p].resource_release_array@[t]).index as int;
                        &&& 0 <= i < k
                        &&& node_used(self.resource_nodes@[i])
                        &&& last_idx(self.resource_nodes@[i]) == p
                    },
                forall|i: int|
                    0 <= i < k && node_used(#[trigger] self.resource_nodes@[i]) ==> {
                        &&& 0 <= first_idx(self.resource_nodes@[i]) < self.pass_nodes@.len()
                        &&& 0 <= last_idx(self.resource_nodes@[i]) < self.pass_nodes@.len()
                        &&& has_index(
                            self.pass_nodes@[first_idx(self.resource_nodes@[i])].resource_request_array@,
                            i,
                        )
                        &&& has_index(
                            self.pass_nodes@[last_idx(self.resource_nodes@[i])].resource_release_array@,
                            i,
                        )
                    },
            decreases nn - k,
        {
            let first = self.resource_nodes[k].first_use_pass;
            let last = self.resource_nodes[k].last_user_pass;
            if first.is_some() && last.is_some() {
                let f = first.unwrap();
                let l = last.unwrap();
                proof {
                    assert(node_lifetime_ok(
                        self.resource_nodes@[k as int],
                        self.pass_nodes@,
                        k as int,
                        self.pass_nodes@.len() as int,
                    ));
                }
                let h = IndexHandle::new(k);
                let ghost before = self.pass_nodes@;
                self.push_request(f, h);
                proof {
                    assert forall|p: int, t: int|
                        0 <= p < self.pass_nodes@.len() && 0 <= t
                            < self.pass_nodes@[p].resource_request_array@.len() implies {
                        let i = (
                        #[trigger] self.pass_nodes@[p].resource_request_array@[t]).index as int;
                        &&& 0 <= i < k + 1
                        &&& node_used(self.resource_nodes@[i])
                        &&& first_idx(self.resource_nodes@[i]) == p
                    } by {
                        if p == f as int && t == self.pass_nodes@[p].resource_request_array@.len()
                            - 1 {
                        } else {
                            assert(self.pass_nodes@[p].resource_request_array@[t]
                                == before[p].resource_request_array@[t]);
                        }
                    }
                }
                let ghost before2 = self.pass_nodes@;
                self.push_release(l, h);
                proof {
                    assert forall|p: int, t: int|
                        0 <= p < self.pass_nodes@.len() && 0 <= t
                            < self.pass_nodes@[p].resource_release_array@.len() implies {
                        let i = (
                        #[trigger] self.pass_nodes@[p].resource_release_array@[t]).index as int;
                        &&& 0 <= i < k + 1
                        &&& node_used(self.resource_nodes@[i])
                        &&& last_idx(self.resource_nodes@[i]) == p
                    } by {
                        if p == l as int && t == self.pass_nodes@[p].resource_release_array@.len()
                            - 1 {
                        } else {
                            assert(self.pass_nodes@[p].resource_release_array@[t]
                                == before2[p].resource_release_array@[t]);
                        }
                    }
                    assert(has_index(
                        self.pass_nodes@[f as int].resource_request_array@,
                        k as int,
                    )) by {
                        let arr = self.pass_nodes@[f as int].resource_request_array@;
                        assert(arr[arr.len() - 1].index == k);
                    }
                    assert(has_index(
                        self.pass_nodes@[l as int].resource_release_array@,
                        k as int,
                    )) by {
                        let arr = self.pass_nodes@[l as int].resource_release_array@;
                        assert(arr[arr.len() - 1].index == k);
                    }
                    assert forall|i: int|
                        0 <= i < k + 1 && node_used(#[trigger] self.resource_nodes@[i]) implies {
                        &&& 0 <= first_idx(self.resource_nodes@[i]) < self.pass_nodes@.len()
                        &&& 0 <= last_idx(self.resource_nodes@[i]) < self.pass_nodes@.len()
                        &&& has_index(
                            self.pass_nodes@[first_idx(self.resource_nodes@[i])].resource_request_array@,
                            i,
                        )
                        &&& has_index(
                            self.pass_nodes@[last_idx(self.resource_nodes@[i])].resource_release_array@,
                            i,
                        )
                    } by {
                        if i < k {
                            let fi = first_idx(self.resource_nodes@[i]);
                            let li = last_idx(self.resource_nodes@[i]);
                            assert(has_index(before[fi].resource_request_array@, i));
                            let w1 = choose|w: int|
                                0 <= w < before[fi].resource_request_array@.len() && (
                                #[trigger] before[fi].resource_request_array@[w]).index == i;
                            assert(self.pass_nodes@[fi].resource_request_array@[w1].index == i);
                            assert(has_index(before2[li].resource_release_array@, i));
                            let w2 = choose|w: int|
                                0 <= w < before2[li].resource_release_array@.len() && (
                                #[trigger] before2[li].resource_release_array@[w]).index == i;
                            assert(self.pass_nodes@[li].resource_release_array@[w2].index == i);
                        } else {
                            assert(node_lifetime_ok(
                                self.resource_nodes@[k as int],
                                self.pass_nodes@,
                                k as int,
                                self.pass_nodes@.len() as int,
                            )) by {
                                lemma_lifetimes_assigned_kept(
                                    old(self).resource_nodes@,
                                    old(self).pass_nodes@,
                                    self.pass_nodes@,
                                );
                            }
                        }
                    }
                }
            }
            k += 1;
        }
    }

    /// Linearisation: one device pass per pass node, in declaration order,
    /// each with its resolved request and release sets and its body moved
    /// out.
    fn generate_compiled_frame_graph(&mut self)
        requires
            old(self).wf(),
            requests_assigned(old(self).resource_nodes@, old(self).pass_nodes@),
            old(self).compiled_frame_graph is None,
        ensures
            final(self).wf(),
            final(self).resource_nodes == old(self).resource_nodes,
            final(self).resource_board == old(self).resource_board,
            final(self).pass_nodes@.len() == old(self).pass_nodes@.len(),
            forall|p: int|
                0 <= p < old(self).pass_nodes@.len() ==> pass_node_kept_except_body(
                    #[trigger] final(self).pass_nodes@[p],
                    old(self).pass_nodes@[p],
                ) && final(self).pass_nodes@[p].pass is None,
            final(self).compiled_frame_graph matches Some(cg) && compiled_matches(
                cg,
                old(self).resource_nodes@,
                old(self).pass_nodes@,
            ),
    {
        if self.pass_nodes.len() == 0 {
            self.compiled_frame_graph = Some(
                CompiledFrameGraph { device_passes: Vec::new() },
            );
            return ;
        }
        let mut device_passes: Vec<DevicePass> = Vec::new();
        let np = self.pass_nodes.len();
        let mut p: usize = 0;
        while p < np
            invariant
                old(self).wf(),
                requests_assigned(old(self).resource_nodes@, old(self).pass_nodes@),
                np == self.pass_nodes@.len(),
                0 <= p <= np,
                self.wf(),
                self.resource_nodes == old(self).resource_nodes,
                self.resource_board == old(self).resource_board,
                self.compiled_frame_graph == old(self).compiled_frame_graph,
                self.pass_nodes@.len() == old(self).pass_nodes@.len(),
                forall|q: int|
                    p <= q < np ==> #[trigger] self.pass_nodes@[q] == old(self).pass_nodes@[q],
                forall|q: int|
                    0 <= q < p ==> pass_node_kept_except_body(
                        #[trigger] self.pass_nodes@[q],
                        old(self).pass_nodes@[q],
                    ) && self.pass_nodes@[q].pass is None,
                device_passes@.len() == p,
                forall|q: int|
                    0 <= q < p ==> device_pass_entry_ok(
                        #[trigger] device_passes@[q],
                        old(self).resource_nodes@,
                        old(self).pass_nodes@[q],
                    ),
            decreases np - p,
        {
            let type_index = IndexHandle::new(p);
            let mut device_pass = DevicePass::new();
            proof {
                lemma_requests_assigned_kept(
                    old(self).resource_nodes@,
                    old(self).pass_nodes@,
                    self.pass_nodes@,
                );
            }
            device_pass.extra(self, type_index);
            device_passes.push(device_pass);
            p += 1;
        }
        self.compiled_frame_graph = Some(CompiledFrameGraph { device_passes });
    }

    /// Compile: lifetime analysis, request assignment, then linearisation.
    /// On an empty graph nothing happens at all.
    pub fn compile(&mut self)
        requires
            old(self).wf(),
            old(self).recording(),
        ensures
            final(self).wf(),
            old(self).pass_nodes@.len() == 0 ==> *final(self) == *old(self),
            old(self).pass_nodes@.len() > 0 ==> {
                &&& final(self).resource_board == old(self).resource_board
                &&& final(self).resource_nodes@.len() == old(self).resource_nodes@.len()
                &&& forall|i: int|
                    0 <= i < old(self).resource_nodes@.len() ==> node_kept_except_lifetime(
                        #[trigger] final(self).resource_nodes@[i],
                        old(self).resource_nodes@[i],
                    )
                &&& final(self).pass_nodes@.len() == old(self).pass_nodes@.len()
                &&& forall|p: int|
                    0 <= p < old(self).pass_nodes@.len() ==> pass_recorded_kept(
                        #[trigger] final(self).pass_nodes@[p],
                        old(self).pass_nodes@[p],
                    ) && final(self).pass_nodes@[p].pass is None
                &&& lifetimes_assigned(final(self).resource_nodes@, final(self).pass_nodes@)
                &&& requests_assigned(final(self).resource_nodes@, final(self).pass_nodes@)
                &&& final(self).compiled_frame_graph matches Some(cg) && cg.device_passes@.len()
                    == old(self).pass_nodes@.len() && forall|p: int|
                    0 <= p < old(self).pass_nodes@.len() ==> {
                        &&& (#[trigger] cg.device_passes@[p]).name@ == old(self).pass_nodes@[p].name@
                        &&& cg.device_passes@[p].pass == old(self).pass_nodes@[p].pass
                        &&& device_pass_matches(
                            cg.device_passes@[p],
                            final(self).resource_nodes@,
                            final(self).pass_nodes@[p],
                        )
                    }
            },
    {
        if self.pass_nodes.len() == 0 {
            return ;
        }
        self.sweep_lifetimes();
        self.assign_requests();
        let ghost g2 = *self;
        self.generate_compiled_frame_graph();
        proof {
            lemma_lifetimes_assigned_kept(g2.resource_nodes@, g2.pass_nodes@, self.pass_nodes@);
            lemma_requests_assigned_kept(g2.resource_nodes@, g2.pass_nodes@, self.pass_nodes@);
        }
    }
}

/// The name, declared sets and computed sets of a pass are all kept; only the
/// body may have been moved out.
pub open spec fn pass_recorded_kept(a: PassNode, b: PassNode) -> bool {
    &&& a.name == b.name
    &&& a.index == b.index
    &&& a.writes == b.writes
    &&& a.reads == b.reads
}

/// The compiled list mirrors the pass list entry for entry.
pub open spec fn compiled_matches(
    cg: CompiledFrameGraph,
    nodes: Seq<ResourceNode>,
    passes: Seq<PassNode>,
) -> bool {
    &&& cg.device_passes@.len() == passes.len()
    &&& forall|p: int|
        0 <= p < passes.len() ==> device_pass_entry_ok(
            #[trigger] cg.device_passes@[p],
            nodes,
            passes[p],
        )
}

/// Request assignment only looks at the computed sets, so it survives any
/// change that keeps them.
pub proof fn lemma_requests_assigned_kept(
    nodes: Seq<ResourceNode>,
    a: Seq<PassNode>,
    b: Seq<PassNode>,
)
    requires
        requests_assigned(nodes, a),
        b.len() == a.len(),
        forall|q: int|
            0 <= q < a.len() ==> (#[trigger] b[q]).resource_request_array
                == a[q].resource_request_array && b[q].resource_release_array
                == a[q].resource_release_array,
    ensures
        requests_assigned(nodes, b),
{
}

/// Lifetime analysis only looks at the declared reads and writes, so it
/// survives any change that keeps them.
pub proof fn lemma_lifetimes_assigned_kept(
    nodes: Seq<ResourceNode>,
    a: Seq<PassNode>,
    b: Seq<PassNode>,
)
    requires
        lifetimes_assigned(nodes, a),
        b.len() == a.len(),
        forall|q: int|
            0 <= q < a.len() ==> (#[trigger] b[q]).reads == a[q].reads && b[q].writes
                == a[q].writes,
    ensures
        lifetimes_assigned(nodes, b),
{
    assert forall|i: int|
        0 <= i < nodes.len() implies node_lifetime_ok(
        #[trigger] nodes[i],
        b,
        i,
        b.len() as int,
    ) by {
        assert(node_lifetime_ok(nodes[i], a, i, a.len() as int));
        assert(forall|p: int|
            0 <= p < b.len() ==> touches(#[trigger] b[p], i) == touches(a[p], i));
    }
}

/// One compiled pass mirrors one pass node.
pub open spec fn device_pass_entry_ok(
    dp: DevicePass,
    nodes: Seq<ResourceNode>,
    pass: PassNode,
) -> bool {
    &&& dp.name@ == pass.name@
    &&& dp.pass == pass.pass
    &&& device_pass_matches(dp, nodes, pass)
}


impl FrameGraph {
    /// Appends one resource node.
    fn push_resource_node(&mut self, node: ResourceNode)
        ensures
            final(self).resource_nodes@ == old(self).resource_nodes@.push(node),
            final(self).pass_nodes == old(self).pass_nodes,
            final(self).resource_board == old(self).resource_board,
            final(self).compiled_frame_graph == old(self).compiled_frame_graph,
    {
        self.resource_nodes.push(node);
    }

    /// Publishes a node index under a name on the resource board.
    pub fn insert(&mut self, key: &str, index: IndexHandle<ResourceNode>)
        requires
            old(self).wf(),
            index.index < old(self).resource_nodes@.len(),
        ensures
            final(self).wf(),
            final(self).resource_nodes == old(self).resource_nodes,
            final(self).pass_nodes == old(self).pass_nodes,
            final(self).compiled_frame_graph == old(self).compiled_frame_graph,
            final(self).resource_board.spec_contains(key@),
            final(self).resource_board.spec_get(key@) == index,
            forall|name: Seq<char>|
                name != key@ ==> #[trigger] final(self).resource_board.spec_contains(name) == old(self).resource_board.spec_contains(name),
            forall|name: Seq<char>|
                name != key@ && old(self).resource_board.spec_contains(name)
                    ==> #[trigger] final(self).resource_board.spec_get(name) == old(self).resource_board.spec_get(name),
            old(self).recording() ==> final(self).recording(),
    {
        let board_key = ResourceBoardKey::from_name(key);
        self.resource_board.insert(board_key, index);
        proof {
            assert forall|name: Seq<char>|
                self.resource_board.spec_contains(name) implies (
            #[trigger] self.resource_board.spec_get(name)).index
                < self.resource_nodes@.len() by {
                if name != key@ {
                    assert(old(self).resource_board.spec_contains(name));
                }
            }
        }
    }

    /// Looks a published name up and hands back a handle to its node at the
    /// node's current version.
    pub fn get<ResourceType: TransientResource>(&self, key: &str) -> (r: Option<
        ResourceHandle<ResourceType>,
    >)
        requires
            self.wf(),
        ensures
            match r {
                Some(h) => {
                    &&& self.resource_board.spec_contains(key@)
                    &&& h.raw.index == self.resource_board.spec_get(key@)
                    &&& h.raw.version == self.resource_nodes@[h.raw.index.index as int].version
                    &&& crate::transient_resource::any_desc_matches(
                        h.desc,
                        self.resource_nodes@[h.raw.index.index as int].resource.spec_desc(),
                    )
                },
                None => !self.resource_board.spec_contains(key@),
            },
    {
        let board_key = ResourceBoardKey::from_name(key);
        match self.resource_board.get(&board_key) {
            Some(handle) => {
                let i = handle.index;
                let r = self.resource_nodes[i].get_handle::<ResourceType>();
                proof {
                    assert(r.raw.index.index == i);
                }
                Some(r)
            },
            None => None,
        }
    }

    /// Starts a fresh pass node and hands back its handle.
    pub fn pass_node(&mut self, name: &str) -> (r: IndexHandle<PassNode>)
        ensures
            r.index == old(self).pass_nodes@.len(),
            final(self).pass_nodes@.len() == old(self).pass_nodes@.len() + 1,
            forall|p: int|
                0 <= p < old(self).pass_nodes@.len() ==> #[trigger] final(self).pass_nodes@[p]
                    == old(self).pass_nodes@[p],
            final(self).pass_nodes@.last().name@ == name@,
            final(self).pass_nodes@.last().index == r.index,
            final(self).pass_nodes@.last().reads@.len() == 0,
            final(self).pass_nodes@.last().writes@.len() == 0,
            final(self).pass_nodes@.last().resource_request_array@.len() == 0,
            final(self).pass_nodes@.last().resource_release_array@.len() == 0,
            final(self).pass_nodes@.last().pass is None,
            final(self).resource_nodes == old(self).resource_nodes,
            final(self).resource_board == old(self).resource_board,
            final(self).compiled_frame_graph == old(self).compiled_frame_graph,
    {
        let handle = IndexHandle::new(self.pass_nodes.len());
        let node = PassNode::new(name, handle);
        self.push_pass_node(node);
        handle
    }

    /// Borrows one pass node.
    pub fn get_pass_node(&self, handle: &IndexHandle<PassNode>) -> (r: &PassNode)
        requires
            handle.index < self.pass_nodes@.len(),
        ensures
            *r == self.pass_nodes@[handle.index as int],
    {
        &self.pass_nodes[handle.index]
    }

    /// Borrows one resource node.
    pub fn get_resource_node(&self, handle: &IndexHandle<ResourceNode>) -> (r: &ResourceNode)
        requires
            handle.index < self.resource_nodes@.len(),
        ensures
            *r == self.resource_nodes@[handle.index as int],
    {
        &self.resource_nodes[handle.index]
    }

    /// Opens a scoped pass-node builder; the graph moves into the builder and
    /// comes back when the builder finishes.
    pub fn create_pass_node_builder(self, name: &str) -> (r: PassNodeBuilder)
        requires
            self.wf(),
        ensures
            r.wf(),
            r.graph == self,
            r.name@ == name@,
            r.writes@.len() == 0,
            r.reads@.len() == 0,
            r.pass is None,
    {
        PassNodeBuilder::new(name, self)
    }

    /// Opens a scoped pass builder with an empty body.
    pub fn create_pass_buidlder(self, name: &str) -> (r: PassBuilder)
        requires
            self.wf(),
        ensures
            r.wf(),
            r.pass_node_builder.graph == self,
            r.pass_node_builder.name@ == name@,
            r.pass_node_builder.writes@.len() == 0,
            r.pass_node_builder.reads@.len() == 0,
            r.pass.commands@.len() == 0,
    {
        PassBuilder::new(PassNodeBuilder::new(name, self))
    }

    /// Declares a fresh engine-allocated resource and hands back its handle
    /// at version zero.
    pub fn create<ResourceType: TransientResource>(
        &mut self,
        name: &str,
        desc: <ResourceType as TransientResource>::Descriptor,
    ) -> (r: ResourceHandle<ResourceType>)
        requires
            old(self).wf(),
        ensures
            final(self).wf(),
            final(self).pass_nodes == old(self).pass_nodes,
            final(self).resource_board == old(self).resource_board,
            final(self).compiled_frame_graph == old(self).compiled_frame_graph,
            final(self).resource_nodes@.len() == old(self).resource_nodes@.len() + 1,
            forall|i: int|
                0 <= i < old(self).resource_nodes@.len() ==> #[trigger] final(self).resource_nodes@[i]
                    == old(self).resource_nodes@[i],
            final(self).resource_nodes@.last().name@ == name@,
            final(self).resource_nodes@.last().version == 0,
            final(self).resource_nodes@.last().first_use_pass is None,
            final(self).resource_nodes@.last().last_user_pass is None,
            final(self).resource_nodes@.last().resource is Setuped,
            crate::transient_resource::any_desc_matches(
                final(self).resource_nodes@.last().resource.spec_desc(),
                desc.to_any(),
            ),
            crate::transient_resource::any_desc_matches(
                desc.to_any(),
                final(self).resource_nodes@.last().resource.spec_desc(),
            ),
            r.raw.index.index == old(self).resource_nodes@.len(),
            r.raw.version == 0,
            crate::transient_resource::any_desc_matches(
                r.desc,
                final(self).resource_nodes@.last().resource.spec_desc(),
            ),
            old(self).recording() ==> final(self).recording(),
    {
        let resource_node_handle = IndexHandle::new(self.resource_nodes.len());
        let any = desc.into_any();
        proof {
            lemma_any_desc_matches_equivalence(any, any, any);
        }
        let virtual_resource = VirtualResource::Setuped(any);
        let resource_node = ResourceNode::new(name, resource_node_handle, virtual_resource);
        let handle = resource_node.get_handle::<ResourceType>();
        self.push_resource_node(resource_node);
        proof {
            assert(self.resource_board.indexes_below(self.resource_nodes@.len() as int)) by {
                assert forall|nm: Seq<char>|
                    self.resource_board.spec_contains(nm) implies (
                #[trigger] self.resource_board.spec_get(nm)).index
                    < self.resource_nodes@.len() by {
                    assert(old(self).resource_board.spec_contains(nm));
                }
            }
        }
        handle
    }

    /// Imports an externally owned resource under a name. If the name is
    /// already on the board, the existing node's handle is returned and
    /// nothing changes; otherwise a fresh node holds the shared reference and
    /// the name is published.
    pub fn import<ResourceType: IntoArcAnyTransientResource>(
        &mut self,
        name: &str,
        resource: Arc<ResourceType>,
    ) -> (r: ResourceHandle<ResourceType>)
        requires
            old(self).wf(),
        ensures
            final(self).wf(),
            final(self).pass_nodes == old(self).pass_nodes,
            final(self).compiled_frame_graph == old(self).compiled_frame_graph,
            old(self).resource_board.spec_contains(name@) ==> *final(self) == *old(self)
                && r.raw.index == old(self).resource_board.spec_get(name@) && r.raw.version
                == old(self).resource_nodes@[r.raw.index.index as int].version
                && crate::transient_resource::any_desc_matches(
                r.desc,
                old(self).resource_nodes@[r.raw.index.index as int].resource.spec_desc(),
            ) && crate::transient_resource::any_desc_matches(
                old(self).resource_nodes@[r.raw.index.index as int].resource.spec_desc(),
                r.desc,
            ),
            !old(self).resource_board.spec_contains(name@) ==> {
                &&& final(self).resource_nodes@.len() == old(self).resource_nodes@.len() + 1
                &&& (forall|i: int|
                    0 <= i < old(self).resource_nodes@.len()
                        ==> #[trigger] final(self).resource_nodes@[i] == old(self).resource_nodes@[i])
                &&& final(self).resource_nodes@.last().name@ == name@
                &&& final(self).resource_nodes@.last().version == 0
                &&& final(self).resource_nodes@.last().first_use_pass is None
                &&& final(self).resource_nodes@.last().last_user_pass is None
                &&& final(self).resource_nodes@.last().resource == VirtualResource::Imported(
                    ResourceType::spec_wrap_arc(resource),
                )
                &&& r.raw.index.index == old(self).resource_nodes@.len()
                &&& r.raw.version == 0
                &&& crate::transient_resource::any_desc_matches(
                    r.desc,
                    final(self).resource_nodes@.last().resource.spec_desc(),
                )
                &&& crate::transient_resource::any_desc_matches(
                    final(self).resource_nodes@.last().resource.spec_desc(),
                    r.desc,
                )
                &&& final(self).resource_board.spec_contains(name@)
                &&& final(self).resource_board.spec_get(name@).index == old(self).resource_nodes@.len()
            },
            old(self).recording() ==> final(self).recording(),
    {
        let key = ResourceBoardKey::from_name(name);
        let hit = match self.resource_board.get(&key) {
            Some(raw_handle) => Some(*raw_handle),
            None => None,
        };
        if let Some(raw_handle) = hit {
            let r = self.resource_nodes[raw_handle.index].get_handle::<ResourceType>();
            proof {
                assert(r.raw.index.index == raw_handle.index);
            }
            return r;
        }
        let resource_node_handle = IndexHandle::new(self.resource_nodes.len());
        let virtual_resource = VirtualResource::Imported(
            ResourceType::wrap_arc(resource),
        );
        let resource_node = ResourceNode::new(name, resource_node_handle, virtual_resource);
        let handle = resource_node.get_handle::<ResourceType>();
        self.push_resource_node(resource_node);
        proof {
            assert(self.resource_board.indexes_below(self.resource_nodes@.len() as int)) by {
                assert forall|nm: Seq<char>|
                    self.resource_board.spec_contains(nm) implies (
                #[trigger] self.resource_board.spec_get(nm)).index
                    < self.resource_nodes@.len() by {
                    assert(old(self).resource_board.spec_contains(nm));
                }
            }
        }
        self.insert(name, resource_node_handle);
        handle
    }

    /// Looks a name up, and declares a fresh resource under it only when it
    /// is not on the board yet.
    pub fn get_or_create<ResourceType: TransientResource>(
        &mut self,
        name: &str,
        desc: <ResourceType as TransientResource>::Descriptor,
    ) -> (r: ResourceHandle<ResourceType>)
        requires
            old(self).wf(),
        ensures
            final(self).wf(),
            final(self).pass_nodes == old(self).pass_nodes,
            final(self).compiled_frame_graph == old(self).compiled_frame_graph,
            old(self).resource_board.spec_contains(name@) ==> *final(self) == *old(self)
                && r.raw.index == old(self).resource_board.spec_get(name@) && r.raw.version
                == old(self).resource_nodes@[r.raw.index.index as int].version,
            !old(self).resource_board.spec_contains(name@) ==> {
                &&& final(self).resource_nodes@.len() == old(self).resource_nodes@.len() + 1
                &&& final(self).resource_nodes@.last().name@ == name@
                &&& final(self).resource_nodes@.last().version == 0
                &&& final(self).resource_nodes@.last().resource is Setuped
                &&& crate::transient_resource::any_desc_matches(
                    final(self).resource_nodes@.last().resource.spec_desc(),
                    desc.to_any(),
                )
                &&& r.raw.index.index == old(self).resource_nodes@.len()
                &&& r.raw.version == 0
                &&& final(self).resource_board.spec_contains(name@)
                &&& final(self).resource_board.spec_get(name@).index == old(self).resource_nodes@.len()
            },
            old(self).recording() ==> final(self).recording(),
    {
        let key = ResourceBoardKey::from_name(name);
        let hit = match self.resource_board.get(&key) {
            Some(raw_handle) => Some(*raw_handle),
            None => None,
        };
        if let Some(raw_handle) = hit {
            let r = self.resource_nodes[raw_handle.index].get_handle::<ResourceType>();
            proof {
                assert(r.raw.index.index == raw_handle.index);
            }
            return r;
        }
        let index = IndexHandle::new(self.resource_nodes.len());
        let handle = self.create::<ResourceType>(name, desc);
        self.insert(name, index);
        handle
    }
}


/// Whether a request list names this node index.
pub open spec fn requested_in(reqs: Seq<ResourceRequese>, k: int) -> bool {
    exists|t: int| 0 <= t < reqs.len() && (#[trigger] reqs[t]).index.index == k
}

/// Whether a release list names this node index.
pub open spec fn released_in(rels: Seq<ResourceRelease>, k: int) -> bool {
    exists|t: int| 0 <= t < rels.len() && (#[trigger] rels[t]).index.index == k
}

/// A node held over from an earlier pass when pass `p` starts: requested
/// before `p` and not released before `p`.
pub open spec fn held_before(nodes: Seq<ResourceNode>, i: int, p: int) -> bool {
    &&& 0 <= i < nodes.len()
    &&& node_used(nodes[i])
    &&& first_idx(nodes[i]) < p
    &&& p <= last_idx(nodes[i])
}

/// A node alive while pass `p` runs: its window covers `p`.
pub open spec fn alive_at(nodes: Seq<ResourceNode>, i: int, p: int) -> bool {
    &&& 0 <= i < nodes.len()
    &&& node_used(nodes[i])
    &&& first_idx(nodes[i]) <= p <= last_idx(nodes[i])
}

/// The table summary of the nodes held over when pass `p` starts.
pub open spec fn held_summary(nodes: Seq<ResourceNode>, p: int) -> Map<int, ResKind> {
    Map::new(
        |i: int| held_before(nodes, i, p),
        |i: int| crate::resource_table::desc_kind(nodes[i].resource.spec_desc()),
    )
}

/// The table summary of the nodes alive while pass `p` runs.
pub open spec fn active_summary(nodes: Seq<ResourceNode>, p: int) -> Map<int, ResKind> {
    Map::new(
        |i: int| alive_at(nodes, i, p),
        |i: int| crate::resource_table::desc_kind(nodes[i].resource.spec_desc()),
    )
}

/// A request standing for a node provides a resource of the node's kind.
proof fn lemma_req_kind_of_matching(r: ResourceRequese, node: ResourceNode)
    requires
        crate::transient_resource::vr_matches(r.resource, node.resource),
    ensures
        crate::resource_table::req_kind(r) == crate::resource_table::desc_kind(
            node.resource.spec_desc(),
        ),
{
    match (r.resource, node.resource) {
        (VirtualResource::Setuped(x), VirtualResource::Setuped(y)) => {
            crate::resource_table::lemma_matches_same_kind(x, y);
        },
        _ => {},
    }
}

/// Satisfying a request list inserts exactly the named keys, each at the kind
/// the target summary gives it, and leaves every other key alone.
proof fn lemma_apply_requests_pointwise(
    s: Map<int, ResKind>,
    reqs: Seq<ResourceRequese>,
    target: Map<int, ResKind>,
)
    requires
        forall|t: int|
            0 <= t < reqs.len() ==> target.contains_key((#[trigger] reqs[t]).index.index as int)
                && crate::resource_table::req_kind(reqs[t]) == target[reqs[t].index.index as int],
    ensures
        forall|k: int|
            #[trigger] crate::resource_table::apply_requests(s, reqs).contains_key(k) == (
            s.contains_key(k) || requested_in(reqs, k)),
        forall|k: int|
            requested_in(reqs, k) ==> #[trigger] crate::resource_table::apply_requests(
                s,
                reqs,
            )[k] == target[k],
        forall|k: int|
            !requested_in(reqs, k) && s.contains_key(k)
                ==> #[trigger] crate::resource_table::apply_requests(s, reqs)[k] == s[k],
    decreases reqs.len(),
{
    if reqs.len() > 0 {
        let i0 = reqs[0].index.index as int;
        let s1 = s.insert(i0, crate::resource_table::req_kind(reqs[0]));
        let tail = reqs.drop_first();
        assert(forall|t: int|
            0 <= t < tail.len() ==> tail[t] == reqs[t + 1]);
        assert(crate::resource_table::apply_requests(s, reqs)
            == crate::resource_table::apply_requests(s1, tail));
        lemma_apply_requests_pointwise(s1, tail, target);
        assert forall|k: int|
            #[trigger] crate::resource_table::apply_requests(s, reqs).contains_key(k) == (
        s.contains_key(k) || requested_in(reqs, k)) by {
            if requested_in(reqs, k) {
                let t = choose|t: int|
                    0 <= t < reqs.len() && (#[trigger] reqs[t]).index.index == k;
                if t == 0 {
                    assert(s1.contains_key(k));
                } else {
                    assert(tail[t - 1].index.index == k);
                    assert(requested_in(tail, k));
                }
            }
            if crate::resource_table::apply_requests(s, reqs).contains_key(k) {
                if !s.contains_key(k) {
                    if !requested_in(tail, k) {
                        assert(s1.contains_key(k));
                        assert(k == i0);
                        assert(requested_in(reqs, k));
                    } else {
                        let t = choose|t: int|
                            0 <= t < tail.len() && (#[trigger] tail[t]).index.index == k;
                        assert(reqs[t + 1].index.index == k);
                        assert(requested_in(reqs, k));
                    }
                }
            }
        }
        assert forall|k: int|
            requested_in(reqs, k) implies #[trigger] crate::resource_table::apply_requests(
            s,
            reqs,
        )[k] == target[k] by {
            if requested_in(tail, k) {
            } else {
                let t = choose|t: int|
                    0 <= t < reqs.len() && (#[trigger] reqs[t]).index.index == k;
                if t != 0 {
                    assert(tail[t - 1].index.index == k);
                    assert(requested_in(tail, k));
                    assert(false);
                }
                assert(k == i0);
                assert(s1[k] == target[k]);
            }
        }
        assert forall|k: int|
            !requested_in(reqs, k) && s.contains_key(k)
                implies #[trigger] crate::resource_table::apply_requests(s, reqs)[k] == s[k] by {
            assert(!requested_in(tail, k)) by {
                if requested_in(tail, k) {
                    let t = choose|t: int|
                        0 <= t < tail.len() && (#[trigger] tail[t]).index.index == k;
                    assert(reqs[t + 1].index.index == k);
                }
            }
            assert(k != i0) by {
                if k == i0 {
                    assert(reqs[0].index.index == k);
                }
            }
            assert(s1.contains_key(k) && s1[k] == s[k]);
        }
    }
}

/// Applying a release list removes exactly the named keys.
proof fn lemma_apply_releases_pointwise(s: Map<int, ResKind>, rels: Seq<ResourceRelease>)
    ensures
        forall|k: int|
            #[trigger] crate::resource_table::apply_releases(s, rels).contains_key(k) == (
            s.contains_key(k) && !released_in(rels, k)),
        forall|k: int|
            s.contains_key(k) && !released_in(rels, k)
                ==> #[trigger] crate::resource_table::apply_releases(s, rels)[k] == s[k],
    decreases rels.len(),
{
    if rels.len() > 0 {
        let i0 = rels[0].index.index as int;
        let s1 = s.remove(i0);
        let tail = rels.drop_first();
        assert(forall|t: int|
            0 <= t < tail.len() ==> tail[t] == rels[t + 1]);
        assert(crate::resource_table::apply_releases(s, rels)
            == crate::resource_table::apply_releases(s1, tail));
        lemma_apply_releases_pointwise(s1, tail);
        assert forall|k: int|
            #[trigger] crate::resource_table::apply_releases(s, rels).contains_key(k) == (
        s.contains_key(k) && !released_in(rels, k)) by {
            if crate::resource_table::apply_releases(s, rels).contains_key(k) {
                assert(s1.contains_key(k) && !released_in(tail, k));
                assert(k != i0);
                assert(!released_in(rels, k)) by {
                    if released_in(rels, k) {
                        let t = choose|t: int|
                            0 <= t < rels.len() && (#[trigger] rels[t]).index.index == k;
                        assert(t != 0);
                        assert(tail[t - 1].index.index == k);
                        assert(released_in(tail, k));
                    }
                }
            }
            if s.contains_key(k) && !released_in(rels, k) {
                assert(k != i0) by {
                    if k == i0 {
                        assert(rels[0].index.index == k);
                    }
                }
                assert(!released_in(tail, k)) by {
                    if released_in(tail, k) {
                        let t = choose|t: int|
                            0 <= t < tail.len() && (#[trigger] tail[t]).index.index == k;
                        assert(rels[t + 1].index.index == k);
                    }
                }
                assert(s1.contains_key(k));
            }
        }
        assert forall|k: int|
            s.contains_key(k) && !released_in(rels, k)
                implies #[trigger] crate::resource_table::apply_releases(s, rels)[k] == s[k] by {
            assert(k != i0);
            assert(!released_in(tail, k)) by {
                if released_in(tail, k) {
                    let t = choose|t: int|
                        0 <= t < tail.len() && (#[trigger] tail[t]).index.index == k;
                    assert(rels[t + 1].index.index == k);
                }
            }
            assert(s1.contains_key(k) && s1[k] == s[k]);
        }
    }
}


/// Satisfying one compiled pass's requests turns the held-over summary into
/// the alive summary of that pass.
proof fn lemma_requests_make_active(
    nodes: Seq<ResourceNode>,
    passes: Seq<PassNode>,
    p: int,
    dp: DevicePass,
)
    requires
        lifetimes_assigned(nodes, passes),
        requests_assigned(nodes, passes),
        0 <= p < passes.len(),
        device_pass_matches(dp, nodes, passes[p]),
    ensures
        crate::resource_table::apply_requests(
            held_summary(nodes, p),
            dp.resource_request_array@,
        ) == active_summary(nodes, p),
{
    let s = held_summary(nodes, p);
    let reqs = dp.resource_request_array@;
    let target = active_summary(nodes, p);
    assert forall|t: int|
        0 <= t < reqs.len() implies target.contains_key(
        (#[trigger] reqs[t]).index.index as int,
    ) && crate::resource_table::req_kind(reqs[t]) == target[reqs[t].index.index as int] by {
        let h = passes[p].resource_request_array@[t];
        assert(request_entry_matches(reqs[t], nodes, h));
        let i = h.index as int;
        assert(node_used(nodes[i]) && first_idx(nodes[i]) == p);
        assert(node_lifetime_ok(nodes[i], passes, i, passes.len() as int));
        assert(alive_at(nodes, i, p));
        lemma_req_kind_of_matching(reqs[t], nodes[i]);
    }
    lemma_apply_requests_pointwise(s, reqs, target);
    assert forall|k: int|
        requested_in(reqs, k) == (0 <= k < nodes.len() && node_used(nodes[k]) && first_idx(
            nodes[k],
        ) == p) by {
        if requested_in(reqs, k) {
            let t = choose|t: int| 0 <= t < reqs.len() && (#[trigger] reqs[t]).index.index == k;
            assert(request_entry_matches(reqs[t], nodes, passes[p].resource_request_array@[t]));
            assert(passes[p].resource_request_array@[t].index == k);
        }
        if 0 <= k < nodes.len() && node_used(nodes[k]) && first_idx(nodes[k]) == p {
            assert(has_index(passes[first_idx(nodes[k])].resource_request_array@, k));
            let t = choose|t: int|
                0 <= t < passes[p].resource_request_array@.len() && (
                #[trigger] passes[p].resource_request_array@[t]).index == k;
            assert(request_entry_matches(reqs[t], nodes, passes[p].resource_request_array@[t]));
            assert(reqs[t].index.index == k);
        }
    }
    assert forall|k: int|
        #![all_triggers]
        true implies (crate::resource_table::apply_requests(s, reqs).contains_key(k)
        == target.contains_key(k) && (target.contains_key(k)
        ==> crate::resource_table::apply_requests(s, reqs)[k] == target[k])) by {
        if 0 <= k < nodes.len() && node_used(nodes[k]) {
            assert(node_lifetime_ok(nodes[k], passes, k, passes.len() as int));
        }
    }
    assert(crate::resource_table::apply_requests(s, reqs) =~= target);
}

/// Applying one compiled pass's releases turns the alive summary into the
/// held-over summary of the next pass.
proof fn lemma_releases_restore_held(
    nodes: Seq<ResourceNode>,
    passes: Seq<PassNode>,
    p: int,
    dp: DevicePass,
)
    requires
        lifetimes_assigned(nodes, passes),
        requests_assigned(nodes, passes),
        0 <= p < passes.len(),
        device_pass_matches(dp, nodes, passes[p]),
    ensures
        crate::resource_table::apply_releases(
            active_summary(nodes, p),
            dp.resource_release_array@,
        ) == held_summary(nodes, p + 1),
{
    let s = active_summary(nodes, p);
    let rels = dp.resource_release_array@;
    lemma_apply_releases_pointwise(s, rels);
    assert forall|k: int|
        released_in(rels, k) == (0 <= k < nodes.len() && node_used(nodes[k]) && last_idx(
            nodes[k],
        ) == p) by {
        if released_in(rels, k) {
            let t = choose|t: int| 0 <= t < rels.len() && (#[trigger] rels[t]).index.index == k;
            assert(rels[t].index == passes[p].resource_release_array@[t]);
            assert(passes[p].resource_release_array@[t].index == k);
        }
        if 0 <= k < nodes.len() && node_used(nodes[k]) && last_idx(nodes[k]) == p {
            assert(has_index(passes[last_idx(nodes[k])].resource_release_array@, k));
            let t = choose|t: int|
                0 <= t < passes[p].resource_release_array@.len() && (
                #[trigger] passes[p].resource_release_array@[t]).index == k;
            assert(rels[t].index == passes[p].resource_release_array@[t]);
            assert(rels[t].index.index == k);
        }
    }
    assert forall|k: int|
        #![all_triggers]
        true implies (crate::resource_table::apply_releases(s, rels).contains_key(k)
        == held_summary(nodes, p + 1).contains_key(k) && (held_summary(
        nodes,
        p + 1,
    ).contains_key(k) ==> crate::resource_table::apply_releases(s, rels)[k] == held_summary(
        nodes,
        p + 1,
    )[k])) by {
        if 0 <= k < nodes.len() && node_used(nodes[k]) {
            assert(node_lifetime_ok(nodes[k], passes, k, passes.len() as int));
        }
    }
    assert(crate::resource_table::apply_releases(s, rels) =~= held_summary(nodes, p + 1));
}

proof fn lemma_ready_from(
    nodes: Seq<ResourceNode>,
    passes: Seq<PassNode>,
    cg: CompiledFrameGraph,
    p: int,
)
    requires
        lifetimes_assigned(nodes, passes),
        requests_assigned(nodes, passes),
        cg.device_passes@.len() == passes.len(),
        forall|q: int|
            0 <= q < passes.len() ==> device_pass_matches(
                #[trigger] cg.device_passes@[q],
                nodes,
                passes[q],
            ),
        forall|q: int|
            0 <= q < passes.len() ==> match (#[trigger] cg.device_passes@[q]).pass {
                Some(b) => b.resolvable(active_summary(nodes, q)),
                None => true,
            },
        0 <= p <= passes.len(),
    ensures
        ready_seq(
            held_summary(nodes, p),
            cg.device_passes@.subrange(p, passes.len() as int),
        ),
    decreases passes.len() - p,
{
    let n = passes.len() as int;
    let dps = cg.device_passes@.subrange(p, n);
    if p < n {
        let dp = cg.device_passes@[p];
        assert(dps[0] == dp);
        assert(device_pass_matches(dp, nodes, passes[p]));
        lemma_requests_make_active(nodes, passes, p, dp);
        lemma_releases_restore_held(nodes, passes, p, dp);
        assert(dp.ready(held_summary(nodes, p))) by {
            match dp.pass {
                Some(b) => {
                    assert(dp.summary_after_requests(held_summary(nodes, p)) == active_summary(
                        nodes,
                        p,
                    ));
                },
                None => {},
            }
        }
        assert(dp.summary_after(held_summary(nodes, p)) == held_summary(nodes, p + 1));
        lemma_ready_from(nodes, passes, cg, p + 1);
        assert(dps.drop_first() =~= cg.device_passes@.subrange(p + 1, n));
    }
}

/// After a compile, the device passes are ready to run on an empty resource
/// table: provided each recorded body resolves against the resources alive at
/// its own pass, every pass finds everything its commands need at execution
/// time.
pub proof fn lemma_compiled_graph_ready(
    nodes: Seq<ResourceNode>,
    passes: Seq<PassNode>,
    cg: CompiledFrameGraph,
)
    requires
        lifetimes_assigned(nodes, passes),
        requests_assigned(nodes, passes),
        cg.device_passes@.len() == passes.len(),
        forall|q: int|
            0 <= q < passes.len() ==> device_pass_matches(
                #[trigger] cg.device_passes@[q],
                nodes,
                passes[q],
            ),
        forall|p: int|
            0 <= p < passes.len() ==> match (#[trigger] cg.device_passes@[p]).pass {
                Some(b) => b.resolvable(active_summary(nodes, p)),
                None => true,
            },
    ensures
        ready_seq(Map::<int, ResKind>::empty(), cg.device_passes@),
{
    assert(Map::<int, ResKind>::empty() =~= held_summary(nodes, 0)) by {
        assert forall|i: int| !held_before(nodes, i, 0) by {
            if 0 <= i < nodes.len() && node_used(nodes[i]) {
                assert(node_lifetime_ok(nodes[i], passes, i, passes.len() as int));
            }
        }
    }
    lemma_ready_from(nodes, passes, cg, 0);
    assert(cg.device_passes@.subrange(0, passes.len() as int) =~= cg.device_passes@);
}

/// All resource node fields except the version.
pub open spec fn node_kept_except_version(a: ResourceNode, b: ResourceNode) -> bool {
    &&& a.index == b.index
    &&& a.name == b.name
    &&& a.first_use_pass == b.first_use_pass
    &&& a.last_user_pass == b.last_user_pass
    &&& a.resource == b.resource
}

/// All resource node fields except the lifetime endpoints.
pub open spec fn node_kept_except_lifetime(a: ResourceNode, b: ResourceNode) -> bool {
    &&& a.index == b.index
    &&& a.name == b.name
    &&& a.version == b.version
    &&& a.resource == b.resource
}

/// All pass node fields except the request and release sets.
pub open spec fn pass_kept_except_sets(a: PassNode, b: PassNode) -> bool {
    &&& a.name == b.name
    &&& a.index == b.index
    &&& a.writes == b.writes
    &&& a.reads == b.reads
    &&& a.pass == b.pass
}

} // verus!
