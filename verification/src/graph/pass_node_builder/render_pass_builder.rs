use vstd::prelude::*;
use core::ops::Range;

use crate::gpu::{ExIndexFormat, ExRenderPipeline};
use crate::graph::pass_node_builder::PassBuilder;
use crate::graph::ResourceMaterial;
use crate::pass::{TransientRenderPass, TransientRenderPassColorAttachment};
use crate::resource_node::{ResourceHandle, ResourceRead, ResourceRef, ResourceWrite};
use crate::transient_resource::{TransientBuffer, TransientResource};

verus! {

/// Extends the pass builder with an in-progress render pass. Render-pass
/// commands are recorded in call order; the render pass joins the enclosing
/// body when the builder finishes.
pub struct RenderPassBuilder {
    pub render_pass: TransientRenderPass,
    pub pass_builder: PassBuilder,
}

impl RenderPassBuilder {
    pub open spec fn wf(&self) -> bool {
        self.pass_builder.wf()
    }

    pub fn new(pass_builder: PassBuilder, name: &str) -> (r: Self)
        requires
            pass_builder.wf(),
        ensures
            r.wf(),
            r.pass_builder == pass_builder,
            r.render_pass.desc.label matches Some(l) && l@ == name@,
            r.render_pass.desc.color_attachments@.len() == 0,
            r.render_pass.commands@.len() == 0,
    {
        let mut render_pass = TransientRenderPass::new();
        render_pass.set_pass_name(name);
        Self { render_pass, pass_builder }
    }

    pub fn read<ResourceType: TransientResource>(
        &mut self,
        resource_handle: ResourceHandle<ResourceType>,
    ) -> (r: ResourceRef<ResourceType, ResourceRead>)
        requires
            old(self).wf(),
            resource_handle.raw.index.index < old(self).pass_builder.pass_node_builder.graph.resource_nodes@.len(),
        ensures
            final(self).wf(),
            r.raw == resource_handle.raw,
            r.desc == resource_handle.desc,
            final(self).render_pass == old(self).render_pass,
    {
        self.pass_builder.read(resource_handle)
    }

    pub fn write<ResourceType: TransientResource>(
        &mut self,
        resource_handle: ResourceHandle<ResourceType>,
    ) -> (r: ResourceRef<ResourceType, ResourceWrite>)
        requires
            old(self).wf(),
            resource_handle.raw.index.index < old(self).pass_builder.pass_node_builder.graph.resource_nodes@.len(),
            old(self).pass_builder.pass_node_builder.graph.resource_nodes@[resource_handle.raw.index.index as int].version
                < u32::MAX,
        ensures
            final(self).wf(),
            r.raw.index == resource_handle.raw.index,
            r.raw.version == old(self).pass_builder.pass_node_builder.graph.resource_nodes@[resource_handle.raw.index.index as int].version
                + 1,
            r.desc == resource_handle.desc,
            final(self).render_pass == old(self).render_pass,
    {
        self.pass_builder.write(resource_handle)
    }

    pub fn read_material<M: ResourceMaterial>(&mut self, material: &M) -> (r: ResourceRef<
        M::ResourceType,
        ResourceRead,
    >)
        requires
            old(self).wf(),
        ensures
            final(self).wf(),
    {
        self.pass_builder.read_material(material)
    }

    pub fn write_material<M: ResourceMaterial>(&mut self, material: &M) -> (r: ResourceRef<
        M::ResourceType,
        ResourceWrite,
    >)
        requires
            old(self).wf(),
        ensures
            final(self).wf(),
    {
        self.pass_builder.write_material(material)
    }

    pub fn draw_indexed(&mut self, indices: Range<u32>, base_vertex: i32, instances: Range<u32>)
        ensures
            final(self).render_pass.commands@.len() == old(self).render_pass.commands@.len() + 1,
            final(self).pass_builder == old(self).pass_builder,
    {
        self.render_pass.draw_indexed(indices, base_vertex, instances);
    }

    pub fn draw(&mut self, vertices: Range<u32>, instances: Range<u32>)
        ensures
            final(self).render_pass.commands@.len() == old(self).render_pass.commands@.len() + 1,
            final(self).pass_builder == old(self).pass_builder,
    {
        self.render_pass.draw(vertices, instances);
    }

    pub fn add_color_attachment(&mut self, color_attachment: TransientRenderPassColorAttachment)
        ensures
            final(self).render_pass.desc.color_attachments@ == old(self).render_pass.desc.color_attachments@.push(Some(color_attachment)),
            final(self).render_pass.commands == old(self).render_pass.commands,
            final(self).pass_builder == old(self).pass_builder,
    {
        self.render_pass.add_color_attachment(Some(color_attachment));
    }

    pub fn set_render_pipeline(&mut self, pipeline: wgpu::RenderPipeline)
        ensures
            final(self).render_pass.commands@.len() == old(self).render_pass.commands@.len() + 1,
            final(self).pass_builder == old(self).pass_builder,
    {
        self.render_pass.set_render_pipeline(pipeline);
    }

    pub fn set_index_buffer(
        &mut self,
        buffer_ref: &ResourceRef<TransientBuffer, ResourceRead>,
        index_format: wgpu::IndexFormat,
        offset: u64,
        size: u64,
    )
        requires
            1 <= size,
        ensures
            final(self).render_pass.commands@.len() == old(self).render_pass.commands@.len() + 1,
            final(self).pass_builder == old(self).pass_builder,
    {
        self.render_pass.set_index_buffer(buffer_ref, index_format, offset, size);
    }

    pub fn set_vertex_buffer(
        &mut self,
        slot: u32,
        buffer_ref: &ResourceRef<TransientBuffer, ResourceRead>,
        offset: u64,
        size: u64,
    )
        requires
            1 <= size,
        ensures
            final(self).render_pass.commands@.len() == old(self).render_pass.commands@.len() + 1,
            final(self).pass_builder == old(self).pass_builder,
    {
        self.render_pass.set_vertex_buffer(slot, buffer_ref, offset, size);
    }

    /// Flushes the render pass recorded so far into the enclosing body and
    /// starts recording a fresh, unnamed one.
    pub fn create_render_pass_builder(&mut self)
        ensures
            final(self).pass_builder.pass.commands@ == old(self).pass_builder.pass.commands@.push(
                old(self).render_pass,
            ),
            final(self).pass_builder.pass_node_builder == old(self).pass_builder.pass_node_builder,
            final(self).render_pass.desc.label is None,
            final(self).render_pass.desc.color_attachments@.len() == 0,
            final(self).render_pass.commands@.len() == 0,
    {
        let mut fresh = TransientRenderPass::new();
        core::mem::swap(&mut self.render_pass, &mut fresh);
        self.pass_builder.push(fresh);
    }

    /// Finalises the render pass: it joins the enclosing body, and the pass
    /// builder is handed back.
    pub fn finish(self) -> (r: PassBuilder)
        requires
            self.wf(),
        ensures
            r.wf(),
            r.pass.commands@ == self.pass_builder.pass.commands@.push(self.render_pass),
            r.pass.label == self.pass_builder.pass.label,
            r.pass_node_builder == self.pass_builder.pass_node_builder,
    {
        let mut pass_builder = self.pass_builder;
        pass_builder.push(self.render_pass);
        pass_builder
    }
}

} // verus!
