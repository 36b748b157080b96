mod parameter;
mod pass_builder;
mod render_pass_builder;

pub use parameter::{
    DrawIndexedParameter, DrawParameter, SetBindGroupParameter, SetIndexBufferParameter,
    SetRenderPipelineParameter, SetVertexBufferParameter,
};
pub use pass_builder::PassBuilder;
pub use render_pass_builder::RenderPassBuilder;

use vstd::prelude::*;

use crate::graph::{FrameGraph, ResourceMaterial};
use crate::pass::Pass;
use crate::pass_node::PassNode;
use crate::resource_node::{
    RawResourceHandle, ResourceHandle, ResourceNode, ResourceRead, ResourceRef, ResourceWrite,
};
use crate::transient_resource::TransientResource;
use core::marker::PhantomData;

verus! {

/// Whether a list of raw handles holds one with this index and version.
pub open spec fn has_raw(s: Seq<RawResourceHandle>, raw: RawResourceHandle) -> bool {
    exists|t: int|
        0 <= t < s.len() && (#[trigger] s[t]).index.index == raw.index.index && s[t].version
            == raw.version
}

/// No two entries of the list name the same index and version.
pub open spec fn raws_distinct(s: Seq<RawResourceHandle>) -> bool {
    forall|t1: int, t2: int|
        0 <= t1 < t2 < s.len() ==> !((#[trigger] s[t1]).index.index == (
        #[trigger] s[t2]).index.index && s[t1].version == s[t2].version)
}

/// Records one pass: the builder owns the graph while the pass is described,
/// accumulates the declared reads and writes and the body, and hands the
/// graph back with the finished pass node pushed when it is done. Because the
/// graph can only be recovered through `finish`, a pass that was started
/// cannot be dropped on the floor without losing the graph itself: dropping
/// a builder discards the whole recording, it does not commit the pass. Call
/// `finish` on every exit path.
pub struct PassNodeBuilder {
    pub graph: FrameGraph,
    pub name: String,
    pub writes: Vec<RawResourceHandle>,
    pub reads: Vec<RawResourceHandle>,
    pub pass: Option<Pass>,
}

impl PassNodeBuilder {
    /// Everything the builder accumulated points into the graph it holds.
    pub open spec fn wf(&self) -> bool {
        &&& self.graph.wf()
        &&& forall|t: int|
            0 <= t < self.reads@.len() ==> (#[trigger] self.reads@[t]).index.index
                < self.graph.resource_nodes@.len()
        &&& forall|t: int|
            0 <= t < self.writes@.len() ==> (#[trigger] self.writes@[t]).index.index
                < self.graph.resource_nodes@.len()
        &&& raws_distinct(self.reads@)
    }

    pub fn new(name: &str, graph: FrameGraph) -> (r: Self)
        requires
            graph.wf(),
        ensures
            r.wf(),
            r.graph == graph,
            r.name@ == name@,
            r.writes@.len() == 0,
            r.reads@.len() == 0,
            r.pass is None,
    {
        Self { graph, name: name.to_owned(), writes: Vec::new(), reads: Vec::new(), pass: None }
    }

    /// Declares a write: the node moves to a fresh version and the new
    /// versioned handle is recorded and returned.
    pub fn write<ResourceType: TransientResource>(
        &mut self,
        resource_handle: ResourceHandle<ResourceType>,
    ) -> (r: ResourceRef<ResourceType, ResourceWrite>)
        requires
            old(self).wf(),
            resource_handle.raw.index.index < old(self).graph.resource_nodes@.len(),
            old(self).graph.resource_nodes@[resource_handle.raw.index.index as int].version
                < u32::MAX,
        ensures
            final(self).wf(),
            r.raw.index == resource_handle.raw.index,
            r.raw.version == old(self).graph.resource_nodes@[resource_handle.raw.index.index as int].version
                + 1,
            r.desc == resource_handle.desc,
            final(self).writes@ == old(self).writes@.push(r.raw),
            final(self).reads == old(self).reads,
            final(self).name == old(self).name,
            final(self).pass == old(self).pass,
            final(self).graph.resource_nodes@.len() == old(self).graph.resource_nodes@.len(),
            forall|j: int|
                0 <= j < old(self).graph.resource_nodes@.len() && j
                    != resource_handle.raw.index.index as int ==> #[trigger] final(self).graph.resource_nodes@[j] == old(self).graph.resource_nodes@[j],
            crate::graph::node_kept_except_version(
                final(self).graph.resource_nodes@[resource_handle.raw.index.index as int],
                old(self).graph.resource_nodes@[resource_handle.raw.index.index as int],
            ),
            final(self).graph.resource_nodes@[resource_handle.raw.index.index as int].version
                == old(self).graph.resource_nodes@[resource_handle.raw.index.index as int].version
                + 1,
            final(self).graph.pass_nodes == old(self).graph.pass_nodes,
            final(self).graph.resource_board == old(self).graph.resource_board,
            final(self).graph.compiled_frame_graph == old(self).graph.compiled_frame_graph,
            old(self).graph.recording() ==> final(self).graph.recording(),
    {
        let index = resource_handle.raw.index;
        let desc = resource_handle.desc;
        let version = self.graph.bump_version(index.index);
        let new_raw = RawResourceHandle { index, version };
        self.writes.push(new_raw);
        ResourceRef { raw: new_raw, desc, _marker: PhantomData }
    }

    /// Declares a read: the handle's raw pair is recorded once, in first-read
    /// order, and a read reference at the same version is returned.
    pub fn read<ResourceType: TransientResource>(
        &mut self,
        resource_handle: ResourceHandle<ResourceType>,
    ) -> (r: ResourceRef<ResourceType, ResourceRead>)
        requires
            old(self).wf(),
            resource_handle.raw.index.index < old(self).graph.resource_nodes@.len(),
        ensures
            final(self).wf(),
            r.raw == resource_handle.raw,
            r.desc == resource_handle.desc,
            has_raw(old(self).reads@, resource_handle.raw) ==> final(self).reads == old(self).reads,
            !has_raw(old(self).reads@, resource_handle.raw) ==> final(self).reads@ == old(self).reads@.push(resource_handle.raw),
            final(self).writes == old(self).writes,
            final(self).name == old(self).name,
            final(self).pass == old(self).pass,
            final(self).graph == old(self).graph,
    {
        let raw = resource_handle.raw;
        let desc = resource_handle.desc;
        if !self.contains_read(&raw) {
            self.reads.push(raw);
        }
        ResourceRef { raw, desc, _marker: PhantomData }
    }

    fn contains_read(&self, raw: &RawResourceHandle) -> (r: bool)
        ensures
            r == has_raw(self.reads@, *raw),
    {
        let n = self.reads.len();
        let mut t: usize = 0;
        while t < n
            invariant
                n == self.reads@.len(),
                0 <= t <= n,
                forall|s: int|
                    0 <= s < t ==> !((#[trigger] self.reads@[s]).index.index == raw.index.index
                        && self.reads@[s].version == raw.version),
            decreases n - t,
        {
            if self.reads[t].index.index == raw.index.index && self.reads[t].version
                == raw.version {
                return true;
            }
            t += 1;
        }
        false
    }

    /// Imports a material's resource and reads it.
    pub fn read_material<M: ResourceMaterial>(&mut self, material: &M) -> (r: ResourceRef<
        M::ResourceType,
        ResourceRead,
    >)
        requires
            old(self).wf(),
        ensures
            final(self).wf(),
    {
        let handle = material.imported(&mut self.graph);
        proof {
            assert(self.wf());
        }
        self.read(handle)
    }

    /// Imports a material's resource and writes it.
    pub fn write_material<M: ResourceMaterial>(&mut self, material: &M) -> (r: ResourceRef<
        M::ResourceType,
        ResourceWrite,
    >)
        requires
            old(self).wf(),
        ensures
            final(self).wf(),
    {
        let handle = material.imported(&mut self.graph);
        proof {
            assert(self.wf());
        }
        self.write(handle)
    }

    /// Installs the body this pass will run, labelled with the pass name.
    pub fn set_pass(&mut self, pass: Pass)
        ensures
            final(self).pass matches Some(q) && q.commands == pass.commands && (
            q.label matches Some(l) && l@ == old(self).name@),
            final(self).graph == old(self).graph,
            final(self).name == old(self).name,
            final(self).reads == old(self).reads,
            final(self).writes == old(self).writes,
    {
        let mut pass = pass;
        pass.label = Some(self.name.clone());
        self.pass = Some(pass);
    }

    /// Finalises the pass: a node carrying the declared reads and writes and
    /// the body is pushed onto the graph, and the graph is handed back.
    pub fn finish(self) -> (r: FrameGraph)
        requires
            self.wf(),
        ensures
            r.wf(),
            r.resource_nodes == self.graph.resource_nodes,
            r.resource_board == self.graph.resource_board,
            r.compiled_frame_graph == self.graph.compiled_frame_graph,
            r.pass_nodes@.len() == self.graph.pass_nodes@.len() + 1,
            forall|p: int|
                0 <= p < self.graph.pass_nodes@.len() ==> #[trigger] r.pass_nodes@[p]
                    == self.graph.pass_nodes@[p],
            r.pass_nodes@.last().name@ == self.name@,
            r.pass_nodes@.last().index == self.graph.pass_nodes@.len(),
            r.pass_nodes@.last().reads == self.reads,
            r.pass_nodes@.last().writes == self.writes,
            r.pass_nodes@.last().resource_request_array@.len() == 0,
            r.pass_nodes@.last().resource_release_array@.len() == 0,
            r.pass_nodes@.last().pass == self.pass,
            self.graph.recording() ==> r.recording(),
    {
        let mut graph = self.graph;
        let index = crate::index::IndexHandle::new(graph.pass_nodes.len());
        let mut pass_node = PassNode::new(self.name.as_str(), index);
        pass_node.writes = self.writes;
        pass_node.reads = self.reads;
        pass_node.pass = self.pass;
        graph.push_pass_node(pass_node);
        graph
    }
}

} // verus!
