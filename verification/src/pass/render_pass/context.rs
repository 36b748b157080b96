use vstd::prelude::*;
use core::ops::Range;

use crate::bind_group::TransientBindGroup;
use crate::gpu::{ExIndexFormat, ExRenderPipeline};
use crate::pass::render_pass::gpu_render_pass::{
    rp_draw, rp_draw_indexed, rp_set_bind_group, rp_set_index_buffer, rp_set_pipeline,
    rp_set_vertex_buffer, GpuRenderPass,
};
use crate::pass::PassContext;
use crate::resource_node::{ResourceRead, ResourceRef};
use crate::resource_table::{lemma_summary_buffer, summary_buffer_at_least};
use crate::transient_resource::{TransientBuffer, TransientResource};

verus! {

/// The surface a render-pass command runs against: the live GPU render pass
/// and, for resolving resource references, the enclosing pass context.
pub struct RenderPassContext<'a, 'b> {
    pub render_pass: GpuRenderPass,
    pub pass_context: &'b PassContext<'a>,
}

impl<'a, 'b> RenderPassContext<'a, 'b> {
    pub fn new(render_pass: GpuRenderPass, pass_context: &'b PassContext<'a>) -> (r: Self)
        ensures
            r.pass_context == pass_context,
    {
        RenderPassContext { render_pass, pass_context }
    }

    pub fn set_bind_group(&mut self, index: u32, bind_group: &TransientBindGroup, offsets: &Vec<u32>)
        requires
            old(self).pass_context.resource_table.wf(),
            bind_group.resolvable(old(self).pass_context.resource_table.summary()),
        ensures
            final(self).pass_context == old(self).pass_context,
    {
        let bind_group = bind_group.create_bind_group(self.pass_context);
        rp_set_bind_group(&mut self.render_pass, index, &bind_group, offsets);
    }

    pub fn draw_indexed(&mut self, indices: Range<u32>, base_vertex: i32, instances: Range<u32>)
        ensures
            final(self).pass_context == old(self).pass_context,
    {
        rp_draw_indexed(&mut self.render_pass, indices, base_vertex, instances);
    }

    pub fn draw(&mut self, vertices: Range<u32>, instances: Range<u32>)
        ensures
            final(self).pass_context == old(self).pass_context,
    {
        rp_draw(&mut self.render_pass, vertices, instances);
    }

    pub fn set_render_pipeline(&mut self, pipeline: &wgpu::RenderPipeline)
        ensures
            final(self).pass_context == old(self).pass_context,
    {
        rp_set_pipeline(&mut self.render_pass, pipeline);
    }

    /// Binds a slice of a transient vertex buffer. The slice must lie within
    /// the buffer as its descriptor records it.
    pub fn set_vertex_buffer(
        &mut self,
        slot: u32,
        buffer_ref: &ResourceRef<TransientBuffer, ResourceRead>,
        offset: u64,
        size: u64,
    )
        requires
            old(self).pass_context.resource_table.wf(),
            1 <= size,
            summary_buffer_at_least(
                old(self).pass_context.resource_table.summary(),
                buffer_ref.raw.index.index as int,
                offset + size,
            ),
        ensures
            final(self).pass_context == old(self).pass_context,
    {
        proof {
            lemma_summary_buffer(
                self.pass_context.resource_table,
                buffer_ref.raw.index.index as int,
            );
        }
        let buffer = self.pass_context.resource_table.get_resource(buffer_ref);
        rp_set_vertex_buffer(&mut self.render_pass, slot, buffer, offset, size);
    }

    /// Binds a slice of a transient index buffer, under the same bounds rule
    /// as vertex buffers.
    pub fn set_index_buffer(
        &mut self,
        buffer_ref: &ResourceRef<TransientBuffer, ResourceRead>,
        index_format: wgpu::IndexFormat,
        offset: u64,
        size: u64,
    )
        requires
            old(self).pass_context.resource_table.wf(),
            1 <= size,
            summary_buffer_at_least(
                old(self).pass_context.resource_table.summary(),
                buffer_ref.raw.index.index as int,
                offset + size,
            ),
        ensures
            final(self).pass_context == old(self).pass_context,
    {
        proof {
            lemma_summary_buffer(
                self.pass_context.resource_table,
                buffer_ref.raw.index.index as int,
            );
        }
        let buffer = self.pass_context.resource_table.get_resource(buffer_ref);
        rp_set_index_buffer(&mut self.render_pass, buffer, index_format, offset, size);
    }
}

} // verus!
