use vstd::prelude::*;
use core::ops::Range;

use crate::pass::RenderPassContext;

verus! {

/// A deferred indexed draw.
pub struct DrawIndexedParameter {
    pub indices: Range<u32>,
    pub base_vertex: i32,
    pub instances: Range<u32>,
}

impl DrawIndexedParameter {
    pub fn execute(&self, render_pass_context: &mut RenderPassContext)
        ensures
            final(render_pass_context).pass_context == old(render_pass_context).pass_context,
    {
        render_pass_context.draw_indexed(
            self.indices.start..self.indices.end,
            self.base_vertex,
            self.instances.start..self.instances.end,
        );
    }
}

} // verus!
