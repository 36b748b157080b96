mod context;
mod gpu_render_pass;

pub use context::RenderPassContext;
pub use gpu_render_pass::{GpuRenderPass, RenderPassColorAttachment, RenderPassDescriptor};

use vstd::prelude::*;
use core::ops::Range;

use crate::gpu::{ExColor, ExIndexFormat, ExOperations, ExRenderPipeline};
use crate::graph::{
    DrawIndexedParameter, DrawParameter, SetBindGroupParameter, SetIndexBufferParameter,
    SetRenderPipelineParameter, SetVertexBufferParameter,
};
use crate::pass::PassContext;
use crate::resource_node::{ResourceRead, ResourceRef};
use crate::resource_table::{ResKind, ResourceTable};
use vstd::map::*;
use crate::texture_view::{clone_texture_view, TransientTextureView};
use crate::transient_resource::{opt_label_eq, TransientBuffer};

verus! {

/// A color attachment recorded against transient texture views.
pub struct TransientRenderPassColorAttachment {
    pub view: TransientTextureView,
    pub depth_slice: Option<u32>,
    pub resolve_target: Option<TransientTextureView>,
    pub ops: wgpu::Operations<wgpu::Color>,
}

impl TransientRenderPassColorAttachment {
    /// Whether the table can resolve the attachment's views.
    pub open spec fn resolvable(&self, s: Map<int, ResKind>) -> bool {
        &&& self.view.resolvable(s)
        &&& match self.resolve_target {
            Some(target) => target.resolvable(s),
            None => true,
        }
    }

    pub fn create_render_pass_color_attachment(&self, context: &PassContext) -> (r:
        RenderPassColorAttachment)
        requires
            context.resource_table.wf(),
            self.resolvable(context.resource_table.summary()),
        ensures
            attachment_converted(*self, r),
    {
        RenderPassColorAttachment {
            view: self.view.create_texture_view(context),
            depth_slice: self.depth_slice,
            resolve_target: match &self.resolve_target {
                Some(resolve_target) => Some(resolve_target.create_texture_view(context)),
                None => None,
            },
            ops: self.ops,
        }
    }
}

/// One recorded attachment resolves to one live attachment: the slice and
/// operations are kept, a resolve target is built exactly when one was
/// recorded, and an externally created view passes through as it is.
pub open spec fn attachment_converted(
    src: TransientRenderPassColorAttachment,
    dst: RenderPassColorAttachment,
) -> bool {
    &&& dst.depth_slice == src.depth_slice
    &&& dst.ops == src.ops
    &&& (dst.resolve_target is Some <==> src.resolve_target is Some)
    &&& (src.view matches TransientTextureView::Owned(v) ==> dst.view == v)
}

/// A render pass descriptor recorded against transient texture views.
pub struct TransientRenderPassDescriptor {
    pub label: Option<String>,
    pub color_attachments: Vec<Option<TransientRenderPassColorAttachment>>,
}

impl TransientRenderPassDescriptor {
    pub fn new() -> (r: Self)
        ensures
            r.label is None,
            r.color_attachments@.len() == 0,
    {
        TransientRenderPassDescriptor { label: None, color_attachments: Vec::new() }
    }

    /// Whether the table can resolve every attachment.
    pub open spec fn resolvable(&self, s: Map<int, ResKind>) -> bool {
        forall|j: int|
            0 <= j < self.color_attachments@.len() ==> match #[trigger] self.color_attachments@[j] {
                Some(a) => a.resolvable(s),
                None => true,
            }
    }

    pub fn create_render_pass_descriptor(&self, context: &PassContext) -> (r: RenderPassDescriptor)
        requires
            context.resource_table.wf(),
            self.resolvable(context.resource_table.summary()),
        ensures
            opt_label_eq(r.label, self.label),
            r.color_attachments@.len() == self.color_attachments@.len(),
            forall|j: int|
                0 <= j < self.color_attachments@.len() ==> match self.color_attachments@[j] {
                    Some(a) => (#[trigger] r.color_attachments@[j]) matches Some(b)
                        && attachment_converted(a, b),
                    None => r.color_attachments@[j] is None,
                },
    {
        let mut color_attachments: Vec<Option<RenderPassColorAttachment>> = Vec::new();
        let n = self.color_attachments.len();
        let mut j: usize = 0;
        while j < n
            invariant
                n == self.color_attachments@.len(),
                0 <= j <= n,
                color_attachments@.len() == j,
                context.resource_table.wf(),
                self.resolvable(context.resource_table.summary()),
                forall|t: int|
                    0 <= t < j ==> match self.color_attachments@[t] {
                        Some(a) => (#[trigger] color_attachments@[t]) matches Some(b)
                            && attachment_converted(a, b),
                        None => color_attachments@[t] is None,
                    },
            decreases n - j,
        {
            let converted = match &self.color_attachments[j] {
                Some(color_attachment) => Some(
                    color_attachment.create_render_pass_color_attachment(context),
                ),
                None => None,
            };
            color_attachments.push(converted);
            j += 1;
        }
        RenderPassDescriptor {
            label: match &self.label {
                Some(s) => Some(s.clone()),
                None => None,
            },
            color_attachments,
        }
    }
}

/// One deferred render-pass command: a typed record of the call to replay on
/// the live render pass.
pub enum RenderPassParameter {
    SetBindGroup(SetBindGroupParameter),
    SetIndexBuffer(SetIndexBufferParameter),
    SetRenderPipeline(SetRenderPipelineParameter),
    SetVertexBuffer(SetVertexBufferParameter),
    Draw(DrawParameter),
    DrawIndexed(DrawIndexedParameter),
}

impl RenderPassParameter {
    /// Whether the table holds what this command will resolve.
    pub open spec fn resolvable(&self, s: Map<int, ResKind>) -> bool {
        match self {
            RenderPassParameter::SetBindGroup(p) => p.resolvable(s),
            RenderPassParameter::SetIndexBuffer(p) => p.resolvable(s),
            RenderPassParameter::SetRenderPipeline(_) => true,
            RenderPassParameter::SetVertexBuffer(p) => p.resolvable(s),
            RenderPassParameter::Draw(_) => true,
            RenderPassParameter::DrawIndexed(_) => true,
        }
    }

    pub fn execute(&self, render_pass_context: &mut RenderPassContext)
        requires
            old(render_pass_context).pass_context.resource_table.wf(),
            self.resolvable(old(render_pass_context).pass_context.resource_table.summary()),
        ensures
            final(render_pass_context).pass_context == old(render_pass_context).pass_context,
    {
        match self {
            RenderPassParameter::SetBindGroup(p) => p.execute(render_pass_context),
            RenderPassParameter::SetIndexBuffer(p) => p.execute(render_pass_context),
            RenderPassParameter::SetRenderPipeline(p) => p.execute(render_pass_context),
            RenderPassParameter::SetVertexBuffer(p) => p.execute(render_pass_context),
            RenderPassParameter::Draw(p) => p.execute(render_pass_context),
            RenderPassParameter::DrawIndexed(p) => p.execute(render_pass_context),
        }
    }
}

/// One recorded render pass: its descriptor and its ordered command list.
pub struct TransientRenderPass {
    pub desc: TransientRenderPassDescriptor,
    pub commands: Vec<RenderPassParameter>,
}

impl TransientRenderPass {
    pub fn new() -> (r: Self)
        ensures
            r.desc.label is None,
            r.desc.color_attachments@.len() == 0,
            r.commands@.len() == 0,
    {
        TransientRenderPass { desc: TransientRenderPassDescriptor::new(), commands: Vec::new() }
    }

    pub fn set_pass_name(&mut self, name: &str)
        ensures
            final(self).desc.label matches Some(l) && l@ == name@,
            final(self).desc.color_attachments == old(self).desc.color_attachments,
            final(self).commands == old(self).commands,
    {
        self.desc.label = Some(name.to_owned());
    }

    pub fn add_color_attachment(
        &mut self,
        color_attachment: Option<TransientRenderPassColorAttachment>,
    )
        ensures
            final(self).desc.color_attachments@ == old(self).desc.color_attachments@.push(
                color_attachment,
            ),
            final(self).desc.label == old(self).desc.label,
            final(self).commands == old(self).commands,
    {
        self.desc.color_attachments.push(color_attachment);
    }

    /// Appends one command; commands replay in the order they were pushed.
    pub fn push(&mut self, value: RenderPassParameter)
        ensures
            final(self).commands@ == old(self).commands@.push(value),
            final(self).desc == old(self).desc,
    {
        self.commands.push(value);
    }

    pub fn draw(&mut self, vertices: Range<u32>, instances: Range<u32>)
        ensures
            final(self).commands@ == old(self).commands@.push(
                RenderPassParameter::Draw(DrawParameter { vertices, instances }),
            ),
            final(self).desc == old(self).desc,
    {
        self.push(RenderPassParameter::Draw(DrawParameter { vertices, instances }));
    }

    pub fn draw_indexed(&mut self, indices: Range<u32>, base_vertex: i32, instances: Range<u32>)
        ensures
            final(self).commands@ == old(self).commands@.push(
                RenderPassParameter::DrawIndexed(
                    DrawIndexedParameter { indices, base_vertex, instances },
                ),
            ),
            final(self).desc == old(self).desc,
    {
        self.push(
            RenderPassParameter::DrawIndexed(DrawIndexedParameter { indices, base_vertex, instances }),
        );
    }

    pub fn set_render_pipeline(&mut self, pipeline: wgpu::RenderPipeline)
        ensures
            final(self).commands@ == old(self).commands@.push(
                RenderPassParameter::SetRenderPipeline(SetRenderPipelineParameter { pipeline }),
            ),
            final(self).desc == old(self).desc,
    {
        self.push(RenderPassParameter::SetRenderPipeline(SetRenderPipelineParameter { pipeline }));
    }

    pub fn set_vertex_buffer(
        &mut self,
        slot: u32,
        buffer_ref: &ResourceRef<TransientBuffer, ResourceRead>,
        offset: u64,
        size: u64,
    )
        requires
            1 <= size,
        ensures
            final(self).commands@.len() == old(self).commands@.len() + 1,
            forall|j: int|
                0 <= j < old(self).commands@.len() ==> final(self).commands@[j] == old(self).commands@[j],
            final(self).commands@.last() matches RenderPassParameter::SetVertexBuffer(p)
                && p.slot == slot && p.buffer_ref.raw == buffer_ref.raw && p.offset == offset
                && p.size == size,
            final(self).desc == old(self).desc,
    {
        self.push(
            RenderPassParameter::SetVertexBuffer(
                SetVertexBufferParameter { slot, buffer_ref: buffer_ref.duplicate(), offset, size },
            ),
        );
    }

    pub fn set_index_buffer(
        &mut self,
        buffer_ref: &ResourceRef<TransientBuffer, ResourceRead>,
        index_format: wgpu::IndexFormat,
        offset: u64,
        size: u64,
    )
        requires
            1 <= size,
        ensures
            final(self).commands@.len() == old(self).commands@.len() + 1,
            forall|j: int|
                0 <= j < old(self).commands@.len() ==> final(self).commands@[j] == old(self).commands@[j],
            final(self).commands@.last() matches RenderPassParameter::SetIndexBuffer(p)
                && p.buffer_ref.raw == buffer_ref.raw && p.offset == offset && p.size == size,
            final(self).desc == old(self).desc,
    {
        self.push(
            RenderPassParameter::SetIndexBuffer(
                SetIndexBufferParameter {
                    buffer_ref: buffer_ref.duplicate(),
                    index_format,
                    offset,
                    size,
                },
            ),
        );
    }

    /// Whether the table can resolve the descriptor and every command.
    pub open spec fn resolvable(&self, s: Map<int, ResKind>) -> bool {
        &&& self.desc.resolvable(s)
        &&& forall|j: int|
            0 <= j < self.commands@.len() ==> (#[trigger] self.commands@[j]).resolvable(s)
    }

    /// Materialises the attachments, begins the GPU render pass, and replays
    /// the commands in order.
    pub fn execute(&self, context: &mut PassContext)
        requires
            old(context).resource_table.wf(),
            self.resolvable(old(context).resource_table.summary()),
        ensures
            final(context).device == old(context).device,
            final(context).resource_table == old(context).resource_table,
            final(context).pipeline_container == old(context).pipeline_container,
    {
        let desc = self.desc.create_render_pass_descriptor(context);
        let render_pass = GpuRenderPass::begin_render_pass(&mut context.command_encoder, &desc);
        let mut render_pass_context = RenderPassContext::new(render_pass, context);
        let n = self.commands.len();
        let mut j: usize = 0;
        while j < n
            invariant
                n == self.commands@.len(),
                0 <= j <= n,
                render_pass_context.pass_context.resource_table.wf(),
                forall|t: int|
                    0 <= t < n ==> (#[trigger] self.commands@[t]).resolvable(
                        render_pass_context.pass_context.resource_table.summary(),
                    ),
            decreases n - j,
        {
            self.commands[j].execute(&mut render_pass_context);
            j += 1;
        }
    }
}

} // verus!
