use vstd::prelude::*;

use crate::gpu::ExIndexFormat;
use crate::pass::RenderPassContext;
use crate::resource_node::{ResourceRead, ResourceRef};
use crate::resource_table::{ResKind, ResourceTable};
use vstd::map::*;
use crate::transient_resource::{TransientBuffer, TransientResource};

verus! {

/// A deferred index-buffer binding of a slice of a transient buffer.
pub struct SetIndexBufferParameter {
    pub buffer_ref: ResourceRef<TransientBuffer, ResourceRead>,
    pub index_format: wgpu::IndexFormat,
    pub offset: u64,
    pub size: u64,
}

impl SetIndexBufferParameter {
    /// The recorded slice is nonempty, and the table summary shows, under the
    /// reference's node index, a buffer it fits into.
    pub open spec fn resolvable(&self, s: Map<int, ResKind>) -> bool {
        &&& 1 <= self.size
        &&& crate::resource_table::summary_buffer_at_least(
            s,
            self.buffer_ref.raw.index.index as int,
            self.offset + self.size,
        )
    }

    pub fn execute(&self, render_pass_context: &mut RenderPassContext)
        requires
            old(render_pass_context).pass_context.resource_table.wf(),
            self.resolvable(old(render_pass_context).pass_context.resource_table.summary()),
        ensures
            final(render_pass_context).pass_context == old(render_pass_context).pass_context,
    {
        render_pass_context.set_index_buffer(
            &self.buffer_ref,
            self.index_format,
            self.offset,
            self.size,
        );
    }
}

} // verus!
