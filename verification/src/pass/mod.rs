mod render_pass;

pub use render_pass::{
    attachment_converted, RenderPassParameter,
    GpuRenderPass, TransientRenderPass, RenderPassColorAttachment, RenderPassContext, RenderPassDescriptor,
    TransientRenderPassColorAttachment, TransientRenderPassDescriptor,
};

use vstd::prelude::*;

use crate::gpu::{ExCommandBuffer, ExCommandEncoder, ExDevice, ExRenderPipeline};
use crate::pipeline_container::PipelineContainer;
use crate::resource_node::{ResourceRef, ResourceView};
use crate::resource_table::{ResKind, ResourceTable};
use vstd::map::*;
use crate::transient_resource::TransientResource;

verus! {

/// Relies on wgpu::Device::create_command_encoder, labelled with the pass
/// name.
#[verifier::external_body]
fn create_command_encoder(device: &wgpu::Device, label: &Option<String>) -> wgpu::CommandEncoder {
    device.create_command_encoder(&wgpu::CommandEncoderDescriptor { label: label.as_deref() })
}

/// Relies on wgpu::CommandEncoder::finish, which closes the encoder into a
/// command buffer.
#[verifier::external_body]
fn encoder_finish(encoder: wgpu::CommandEncoder) -> wgpu::CommandBuffer {
    encoder.finish()
}

/// Everything one pass body may touch while it records GPU commands: the
/// device, the encoder being filled, the live resource table and the pipeline
/// cache.
pub struct PassContext<'a> {
    pub device: &'a wgpu::Device,
    pub command_encoder: wgpu::CommandEncoder,
    pub resource_table: &'a ResourceTable,
    pub pipeline_container: &'a PipelineContainer,
}

impl<'a> PassContext<'a> {
    pub fn resource_table(&self) -> (r: &ResourceTable)
        ensures
            r == self.resource_table,
    {
        self.resource_table
    }

    pub fn device(&self) -> (r: &wgpu::Device)
        ensures
            r == self.device,
    {
        self.device
    }

    /// A missing pipeline id is a programming error; the caller restates that
    /// the container holds a render pipeline under this id.
    pub fn get_render_pipeline(&self, id: usize) -> (r: &wgpu::RenderPipeline)
        requires
            self.pipeline_container.has_render_pipeline(id as int),
        ensures
            self.pipeline_container.0@[id as int] == Some(
                crate::pipeline_container::Pipeline::RenderPipeline(*r),
            ),
    {
        match self.pipeline_container.get_render_pipeline(id) {
            Some(p) => p,
            None => unreached(),
        }
    }

    pub fn finish(self) -> wgpu::CommandBuffer {
        encoder_finish(self.command_encoder)
    }

    pub fn get_resource<ResourceType: TransientResource, ViewType: ResourceView>(
        &self,
        resource_ref: &ResourceRef<ResourceType, ViewType>,
    ) -> (r: &ResourceType)
        requires
            self.resource_table.wf(),
            self.resource_table.spec_contains(resource_ref.raw.index.index as int),
            <ResourceType as TransientResource>::fits(
                &self.resource_table.spec_at(resource_ref.raw.index.index as int),
            ),
        ensures
            *r == <ResourceType as TransientResource>::of_any(
                self.resource_table.spec_at(resource_ref.raw.index.index as int),
            ),
    {
        self.resource_table.get_resource(resource_ref)
    }
}

/// One recorded pass body: an ordered list of render passes, run in the order
/// they were pushed.
pub struct Pass {
    pub label: Option<String>,
    pub commands: Vec<TransientRenderPass>,
}

impl Pass {
    pub fn new() -> (r: Self)
        ensures
            r.label is None,
            r.commands@.len() == 0,
    {
        Pass { label: None, commands: Vec::new() }
    }

    /// Whether the table can satisfy every reference this body records.
    pub open spec fn resolvable(&self, s: Map<int, ResKind>) -> bool {
        forall|j: int|
            0 <= j < self.commands@.len() ==> (#[trigger] self.commands@[j]).resolvable(s)
    }

    pub fn push(&mut self, value: TransientRenderPass)
        ensures
            final(self).commands@ == old(self).commands@.push(value),
            final(self).label == old(self).label,
    {
        self.commands.push(value);
    }

    /// Runs the body: a fresh encoder is filled by every command in push
    /// order, and the finished command buffer is appended to the output list.
    pub fn render(
        &self,
        command_buffers: &mut Vec<wgpu::CommandBuffer>,
        device: &wgpu::Device,
        resource_table: &ResourceTable,
        pipeline_container: &PipelineContainer,
    )
        requires
            resource_table.wf(),
            self.resolvable(resource_table.summary()),
        ensures
            final(command_buffers)@.len() == old(command_buffers)@.len() + 1,
            forall|j: int|
                0 <= j < old(command_buffers)@.len() ==> #[trigger] final(command_buffers)@[j]
                    == old(command_buffers)@[j],
    {
        let command_encoder = create_command_encoder(device, &self.label);
        let mut pass_context = PassContext {
            device,
            command_encoder,
            resource_table,
            pipeline_container,
        };
        let n = self.commands.len();
        let mut j: usize = 0;
        while j < n
            invariant
                n == self.commands@.len(),
                0 <= j <= n,
                resource_table.wf(),
                self.resolvable(resource_table.summary()),
                pass_context.resource_table == resource_table,
            decreases n - j,
        {
            self.commands[j].execute(&mut pass_context);
            j += 1;
        }
        command_buffers.push(pass_context.finish());
    }
}

} // verus!
