use vstd::prelude::*;
use core::ops::Range;

use crate::pass::RenderPassContext;

verus! {

/// A deferred draw over a vertex range and an instance range.
pub struct DrawParameter {
    pub vertices: Range<u32>,
    pub instances: Range<u32>,
}

impl DrawParameter {
    pub fn execute(&self, render_pass_context: &mut RenderPassContext)
        ensures
            final(render_pass_context).pass_context == old(render_pass_context).pass_context,
    {
        render_pass_context.draw(
            self.vertices.start..self.vertices.end,
            self.instances.start..self.instances.end,
        );
    }
}

} // verus!
