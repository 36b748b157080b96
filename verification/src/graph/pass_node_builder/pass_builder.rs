use vstd::prelude::*;

use crate::graph::pass_node_builder::PassNodeBuilder;
use crate::graph::{FrameGraph, ResourceMaterial};
use crate::pass::{Pass, TransientRenderPass};
use crate::resource_node::{ResourceHandle, ResourceRead, ResourceRef, ResourceWrite};
use crate::transient_resource::TransientResource;

use super::RenderPassBuilder;

verus! {

/// Extends the pass-node builder with a pass body under construction. The
/// body travels with the builder and is installed on the node when the
/// builder finishes.
pub struct PassBuilder {
    pub pass_node_builder: PassNodeBuilder,
    pub pass: Pass,
}

impl PassBuilder {
    pub open spec fn wf(&self) -> bool {
        self.pass_node_builder.wf()
    }

    pub fn new(pass_node_builder: PassNodeBuilder) -> (r: Self)
        requires
            pass_node_builder.wf(),
        ensures
            r.wf(),
            r.pass_node_builder == pass_node_builder,
            r.pass.commands@.len() == 0,
            r.pass.label is None,
    {
        PassBuilder { pass_node_builder, pass: Pass::new() }
    }

    pub fn read<ResourceType: TransientResource>(
        &mut self,
        resource_handle: ResourceHandle<ResourceType>,
    ) -> (r: ResourceRef<ResourceType, ResourceRead>)
        requires
            old(self).wf(),
            resource_handle.raw.index.index < old(self).pass_node_builder.graph.resource_nodes@.len(),
        ensures
            final(self).wf(),
            r.raw == resource_handle.raw,
            r.desc == resource_handle.desc,
            final(self).pass == old(self).pass,
    {
        self.pass_node_builder.read(resource_handle)
    }

    pub fn write<ResourceType: TransientResource>(
        &mut self,
        resource_handle: ResourceHandle<ResourceType>,
    ) -> (r: ResourceRef<ResourceType, ResourceWrite>)
        requires
            old(self).wf(),
            resource_handle.raw.index.index < old(self).pass_node_builder.graph.resource_nodes@.len(),
            old(self).pass_node_builder.graph.resource_nodes@[resource_handle.raw.index.index as int].version
                < u32::MAX,
        ensures
            final(self).wf(),
            r.raw.index == resource_handle.raw.index,
            r.raw.version == old(self).pass_node_builder.graph.resource_nodes@[resource_handle.raw.index.index as int].version
                + 1,
            r.desc == resource_handle.desc,
            final(self).pass == old(self).pass,
    {
        self.pass_node_builder.write(resource_handle)
    }

    pub fn read_material<M: ResourceMaterial>(&mut self, material: &M) -> (r: ResourceRef<
        M::ResourceType,
        ResourceRead,
    >)
        requires
            old(self).wf(),
        ensures
            final(self).wf(),
    {
        self.pass_node_builder.read_material(material)
    }

    pub fn write_material<M: ResourceMaterial>(&mut self, material: &M) -> (r: ResourceRef<
        M::ResourceType,
        ResourceWrite,
    >)
        requires
            old(self).wf(),
        ensures
            final(self).wf(),
    {
        self.pass_node_builder.write_material(material)
    }

    /// Opens a scoped recorder for one render pass inside this pass.
    pub fn create_render_pass_builder(self, name: &str) -> (r: RenderPassBuilder)
        requires
            self.wf(),
        ensures
            r.wf(),
            r.pass_builder == self,
            r.render_pass.desc.label matches Some(l) && l@ == name@,
            r.render_pass.desc.color_attachments@.len() == 0,
            r.render_pass.commands@.len() == 0,
    {
        RenderPassBuilder::new(self, name)
    }

    /// Appends one render pass to the body; passes run in push order.
    pub fn push(&mut self, command: TransientRenderPass)
        ensures
            final(self).pass.commands@ == old(self).pass.commands@.push(command),
            final(self).pass.label == old(self).pass.label,
            final(self).pass_node_builder == old(self).pass_node_builder,
    {
        self.pass.push(command);
    }

    /// Finalises the pass: the body is installed on the node and the node is
    /// pushed onto the graph, which is handed back.
    pub fn finish(self) -> (r: FrameGraph)
        requires
            self.wf(),
        ensures
            r.wf(),
            r.resource_nodes == self.pass_node_builder.graph.resource_nodes,
            r.resource_board == self.pass_node_builder.graph.resource_board,
            r.compiled_frame_graph == self.pass_node_builder.graph.compiled_frame_graph,
            r.pass_nodes@.len() == self.pass_node_builder.graph.pass_nodes@.len() + 1,
            forall|p: int|
                0 <= p < self.pass_node_builder.graph.pass_nodes@.len()
                    ==> #[trigger] r.pass_nodes@[p]
                    == self.pass_node_builder.graph.pass_nodes@[p],
            r.pass_nodes@.last().name@ == self.pass_node_builder.name@,
            r.pass_nodes@.last().reads == self.pass_node_builder.reads,
            r.pass_nodes@.last().writes == self.pass_node_builder.writes,
            r.pass_nodes@.last().resource_request_array@.len() == 0,
            r.pass_nodes@.last().resource_release_array@.len() == 0,
            r.pass_nodes@.last().pass matches Some(q) && q.commands == self.pass.commands,
            self.pass_node_builder.graph.recording() ==> r.recording(),
    {
        let mut pass_node_builder = self.pass_node_builder;
        pass_node_builder.set_pass(self.pass);
        pass_node_builder.finish()
    }
}

} // verus!
