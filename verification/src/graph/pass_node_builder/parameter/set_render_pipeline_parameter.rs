use vstd::prelude::*;

use crate::gpu::ExRenderPipeline;
use crate::pass::RenderPassContext;

verus! {

/// A deferred pipeline binding.
pub struct SetRenderPipelineParameter {
    pub pipeline: wgpu::RenderPipeline,
}

impl SetRenderPipelineParameter {
    pub fn execute(&self, render_pass_context: &mut RenderPassContext)
        ensures
            final(render_pass_context).pass_context == old(render_pass_context).pass_context,
    {
        render_pass_context.set_render_pipeline(&self.pipeline);
    }
}

} // verus!
