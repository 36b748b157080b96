use vstd::prelude::*;

use crate::bind_group::TransientBindGroup;
use crate::pass::RenderPassContext;
use crate::resource_table::{ResKind, ResourceTable};
use vstd::map::*;

verus! {

/// A deferred bind-group binding; the bind group is materialised when the
/// command runs.
pub struct SetBindGroupParameter {
    pub index: u32,
    pub bind_group: TransientBindGroup,
    pub offsets: Vec<u32>,
}

impl SetBindGroupParameter {
    pub open spec fn resolvable(&self, s: Map<int, ResKind>) -> bool {
        self.bind_group.resolvable(s)
    }

    pub fn execute(&self, render_pass_context: &mut RenderPassContext)
        requires
            old(render_pass_context).pass_context.resource_table.wf(),
            self.resolvable(old(render_pass_context).pass_context.resource_table.summary()),
        ensures
            final(render_pass_context).pass_context == old(render_pass_context).pass_context,
    {
        render_pass_context.set_bind_group(self.index, &self.bind_group, &self.offsets);
    }
}

} // verus!
