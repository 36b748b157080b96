use vstd::prelude::*;
use core::ops::Range;

use crate::gpu::{ExBindGroup, ExColor, ExCommandEncoder, ExIndexFormat, ExOperations,
    ExRenderPipeline, ExTextureView, ExWgpuRenderPass};
use crate::transient_resource::TransientBuffer;

verus! {

/// A color attachment whose view has already been resolved to a live GPU
/// texture view.
pub struct RenderPassColorAttachment {
    pub view: wgpu::TextureView,
    pub depth_slice: Option<u32>,
    pub resolve_target: Option<wgpu::TextureView>,
    pub ops: wgpu::Operations<wgpu::Color>,
}

/// A render pass descriptor whose attachments have been resolved.
pub struct RenderPassDescriptor {
    pub label: Option<String>,
    pub color_attachments: Vec<Option<RenderPassColorAttachment>>,
}

/// A live GPU render pass, encoding into the encoder it was begun on.
pub struct GpuRenderPass(pub wgpu::RenderPass<'static>);

impl GpuRenderPass {
    /// Relies on wgpu::CommandEncoder::begin_render_pass, called with the
    /// resolved attachments, and TransientRenderPass::forget_lifetime to detach the
    /// recording from the encoder borrow.
    #[verifier::external_body]
    pub fn begin_render_pass(
        command_encoder: &mut wgpu::CommandEncoder,
        desc: &RenderPassDescriptor,
    ) -> GpuRenderPass {
        let color_attachments: Vec<Option<wgpu::RenderPassColorAttachment>> = desc
            .color_attachments.iter().map(|a| a.as_ref().map(|a| wgpu::RenderPassColorAttachment {
                view: &a.view,
                depth_slice: a.depth_slice,
                resolve_target: a.resolve_target.as_ref(),
                ops: a.ops,
            })).collect();
        let render_pass = command_encoder.begin_render_pass(&wgpu::RenderPassDescriptor {
            label: desc.label.as_deref(),
            color_attachments: &color_attachments,
            depth_stencil_attachment: None,
            ..Default::default()
        });
        GpuRenderPass(render_pass.forget_lifetime())
    }
}

/// Relies on wgpu::RenderPass::set_pipeline.
#[verifier::external_body]
pub(crate) fn rp_set_pipeline(rp: &mut GpuRenderPass, pipeline: &wgpu::RenderPipeline) {
    rp.0.set_pipeline(pipeline);
}

/// Relies on wgpu::RenderPass::set_bind_group.
#[verifier::external_body]
pub(crate) fn rp_set_bind_group(
    rp: &mut GpuRenderPass,
    index: u32,
    bind_group: &wgpu::BindGroup,
    offsets: &Vec<u32>,
) {
    rp.0.set_bind_group(index, bind_group, offsets);
}

/// Relies on wgpu::RenderPass::set_vertex_buffer and wgpu::Buffer::slice; the
/// sliced range is nonempty and lies within the size the buffer's descriptor
/// records, which is the size the buffer was created with, so neither the
/// slice nor the bind call can reject it.
#[verifier::external_body]
pub(crate) fn rp_set_vertex_buffer(
    rp: &mut GpuRenderPass,
    slot: u32,
    buffer: &TransientBuffer,
    offset: u64,
    size: u64,
)
    requires
        1 <= size,
        offset + size <= buffer.desc.size,
{
    rp.0.set_vertex_buffer(slot, buffer.resource.slice(offset..(offset + size)));
}

/// Relies on wgpu::RenderPass::set_index_buffer and wgpu::Buffer::slice; the
/// sliced range is nonempty and lies within the size the buffer's descriptor
/// records, which is the size the buffer was created with, so neither the
/// slice nor the bind call can reject it.
#[verifier::external_body]
pub(crate) fn rp_set_index_buffer(
    rp: &mut GpuRenderPass,
    buffer: &TransientBuffer,
    index_format: wgpu::IndexFormat,
    offset: u64,
    size: u64,
)
    requires
        1 <= size,
        offset + size <= buffer.desc.size,
{
    rp.0.set_index_buffer(buffer.resource.slice(offset..(offset + size)), index_format);
}

/// Relies on wgpu::RenderPass::draw.
#[verifier::external_body]
pub(crate) fn rp_draw(rp: &mut GpuRenderPass, vertices: Range<u32>, instances: Range<u32>) {
    rp.0.draw(vertices, instances);
}

/// Relies on wgpu::RenderPass::draw_indexed.
#[verifier::external_body]
pub(crate) fn rp_draw_indexed(
    rp: &mut GpuRenderPass,
    indices: Range<u32>,
    base_vertex: i32,
    instances: Range<u32>,
) {
    rp.0.draw_indexed(indices, base_vertex, instances);
}

} // verus!
