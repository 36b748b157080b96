use vstd::prelude::*;
use vstd::map::*;

use crate::gpu::{ExBindGroup, ExBindGroupLayout, ExBuffer, ExDevice, ExSampler, ExTextureView};
use crate::pass::PassContext;
use crate::resource_node::{ResourceRead, ResourceRef};
use crate::resource_table::{
    lemma_summary_buffer, lemma_summary_texture, ResKind, ResourceTable,
};
use crate::texture_view::{texture_create_view, TextureViewDescriptor};
use crate::transient_resource::{
    opt_label_eq, TransientBuffer, TransientResource, TransientTexture,
};

verus! {

/// Relies on wgpu::Buffer::clone: the clone is a shared handle to the same
/// buffer.
#[verifier::external_body]
fn clone_buffer(buffer: &wgpu::Buffer) -> (r: wgpu::Buffer)
    ensures
        r == *buffer,
{
    buffer.clone()
}

/// Relies on wgpu::Sampler::clone: the clone is a shared handle to the same
/// sampler.
#[verifier::external_body]
fn clone_sampler(sampler: &wgpu::Sampler) -> (r: wgpu::Sampler)
    ensures
        r == *sampler,
{
    sampler.clone()
}

/// A binding slot fed from a transient buffer, resolved at execution time. A
/// recorded size of zero bytes is never valid; `None` binds the rest of the
/// buffer.
pub struct TransientBindGroupBuffer {
    pub buffer: ResourceRef<TransientBuffer, ResourceRead>,
    pub size: Option<u64>,
    pub offset: u64,
}

/// A binding slot fed from a view over a transient texture.
pub struct TransientBindGroupTextureView {
    pub texture: ResourceRef<TransientTexture, ResourceRead>,
    pub texture_view_desc: TextureViewDescriptor,
}

impl TransientBindGroupTextureView {
    /// The table summary shows a texture under this view's node index.
    pub open spec fn resolvable(&self, s: Map<int, ResKind>) -> bool {
        crate::resource_table::summary_texture(s, self.texture.raw.index.index as int)
    }
}

/// What one bind-group entry binds, before resolution.
pub enum TransientBindGroupResource {
    Buffer(TransientBindGroupBuffer),
    Sampler(wgpu::Sampler),
    TextureView(TransientBindGroupTextureView),
    TextureViewArray(Vec<TransientBindGroupTextureView>),
}

/// One bind-group entry, before resolution.
pub struct TransientBindGroupEntry {
    pub binding: u32,
    pub resource: TransientBindGroupResource,
}

impl TransientBindGroupEntry {
    /// Whether the table holds live resources for everything this entry
    /// binds, and the entry's recorded parameters are valid.
    pub open spec fn resolvable(&self, s: Map<int, ResKind>) -> bool {
        match self.resource {
            TransientBindGroupResource::Buffer(binding) => {
                &&& s.contains_key(binding.buffer.raw.index.index as int)
                &&& s[binding.buffer.raw.index.index as int] is Buf
                &&& (binding.size matches Some(sz) ==> 1 <= sz)
            },
            TransientBindGroupResource::Sampler(_) => true,
            TransientBindGroupResource::TextureView(binding) => binding.resolvable(s),
            TransientBindGroupResource::TextureViewArray(bindings) => forall|j: int|
                0 <= j < bindings@.len() ==> (#[trigger] bindings@[j]).resolvable(s),
        }
    }

    /// Resolves the entry against the live resource table, building views on
    /// demand.
    pub fn get_gpu_bind_group_entry(&self, context: &PassContext<'_>) -> (r: GpuBindGroupEntry)
        requires
            context.resource_table.wf(),
            self.resolvable(context.resource_table.summary()),
        ensures
            entry_converted(*self, r, *context.resource_table),
    {
        match &self.resource {
            TransientBindGroupResource::Buffer(binding) => {
                proof {
                    lemma_summary_buffer(
                        context.resource_table,
                        binding.buffer.raw.index.index as int,
                    );
                }
                let buffer = context.resource_table().get_resource(&binding.buffer);
                GpuBindGroupEntry {
                    binding: self.binding,
                    resource: GpuBindingResource::Buffer(BufferBinding {
                        buffer: clone_buffer(&buffer.resource),
                        offset: binding.offset,
                        size: binding.size,
                    }),
                }
            },
            TransientBindGroupResource::Sampler(sampler) => GpuBindGroupEntry {
                binding: self.binding,
                resource: GpuBindingResource::Sampler(clone_sampler(sampler)),
            },
            TransientBindGroupResource::TextureView(binding) => {
                proof {
                    lemma_summary_texture(
                        context.resource_table,
                        binding.texture.raw.index.index as int,
                    );
                }
                let texture = context.resource_table().get_resource(&binding.texture);
                let texture_view = texture_create_view(
                    &texture.resource,
                    &binding.texture_view_desc,
                );
                GpuBindGroupEntry {
                    binding: self.binding,
                    resource: GpuBindingResource::TextureView(texture_view),
                }
            },
            TransientBindGroupResource::TextureViewArray(bindings) => {
                let mut views: Vec<wgpu::TextureView> = Vec::new();
                let n = bindings.len();
                let mut j: usize = 0;
                while j < n
                    invariant
                        n == bindings@.len(),
                        0 <= j <= n,
                        views@.len() == j,
                        context.resource_table.wf(),
                        forall|t: int|
                            0 <= t < n ==> (#[trigger] bindings@[t]).resolvable(
                                context.resource_table.summary(),
                            ),
                    decreases n - j,
                {
                    let binding = &bindings[j];
                    proof {
                        lemma_summary_texture(
                            context.resource_table,
                            binding.texture.raw.index.index as int,
                        );
                    }
                    let texture = context.resource_table().get_resource(&binding.texture);
                    views.push(texture_create_view(&texture.resource, &binding.texture_view_desc));
                    j += 1;
                }
                GpuBindGroupEntry {
                    binding: self.binding,
                    resource: GpuBindingResource::TextureViewArray(views),
                }
            },
        }
    }
}

/// One recorded entry resolves to one device entry: the same binding slot,
/// and the matching variant carrying the recorded parameters over the live
/// resource the table holds.
pub open spec fn entry_converted(
    src: TransientBindGroupEntry,
    dst: GpuBindGroupEntry,
    table: ResourceTable,
) -> bool {
    &&& dst.binding == src.binding
    &&& match src.resource {
        TransientBindGroupResource::Buffer(b) => dst.resource matches GpuBindingResource::Buffer(
            bb,
        ) && bb.offset == b.offset && bb.size == b.size && (bb.size matches Some(sz) ==> 1 <= sz)
            && bb.buffer == TransientBuffer::of_any(
            table.spec_at(b.buffer.raw.index.index as int),
        ).resource,
        TransientBindGroupResource::Sampler(s) => dst.resource == GpuBindingResource::Sampler(s),
        TransientBindGroupResource::TextureView(_) => dst.resource is TextureView,
        TransientBindGroupResource::TextureViewArray(bs) => dst.resource matches GpuBindingResource::TextureViewArray(
            vs,
        ) && vs@.len() == bs@.len(),
    }
}

/// One bind-group entry after resolution: every binding owns its live GPU
/// object.
pub struct GpuBindGroupEntry {
    pub binding: u32,
    pub resource: GpuBindingResource,
}

/// A buffer binding with its slice bounds.
pub struct BufferBinding {
    pub buffer: wgpu::Buffer,
    pub offset: u64,
    pub size: Option<u64>,
}

/// What one resolved bind-group entry binds.
pub enum GpuBindingResource {
    Buffer(BufferBinding),
    Sampler(wgpu::Sampler),
    TextureView(wgpu::TextureView),
    TextureViewArray(Vec<wgpu::TextureView>),
}

/// A resolved bind-group description, ready to hand to the device.
pub struct TransientBindGroupDescriptor {
    pub label: Option<String>,
    pub layout: wgpu::BindGroupLayout,
    pub entries: Vec<GpuBindGroupEntry>,
}

/// Relies on wgpu::Device::create_bind_group, called with the resolved
/// entries converted to the GPU API's borrowed form; `arrays` carries, slot
/// for slot, the borrows of each array entry's views. Buffer sizes are at
/// least one byte, so the embedding into the API's nonzero size type keeps
/// every recorded bound.
#[verifier::external_body]
fn device_create_bind_group<'a>(
    device: &wgpu::Device,
    desc: &'a TransientBindGroupDescriptor,
    arrays: &'a Vec<Vec<&'a wgpu::TextureView>>,
) -> wgpu::BindGroup
    requires
        arrays@.len() == desc.entries@.len(),
        forall|j: int|
            0 <= j < desc.entries@.len() ==> ((#[trigger] desc.entries@[j]).resource matches GpuBindingResource::Buffer(
                b,
            ) ==> (b.size matches Some(sz) ==> 1 <= sz)),
        forall|j: int|
            0 <= j < desc.entries@.len() ==> ((#[trigger] desc.entries@[j]).resource matches GpuBindingResource::TextureViewArray(
                vs,
            ) ==> arrays@[j]@.len() == vs@.len() && (forall|k: int|
                0 <= k < vs@.len() ==> *(#[trigger] arrays@[j]@[k]) == vs@[k])),
{
    let entries: Vec<wgpu::BindGroupEntry> = desc.entries.iter().zip(arrays).map(|(e, a)| wgpu::BindGroupEntry {
        binding: e.binding,
        resource: match &e.resource {
            GpuBindingResource::Buffer(b) => wgpu::BindingResource::Buffer(wgpu::BufferBinding { buffer: &b.buffer, offset: b.offset, size: b.size.and_then(wgpu::BufferSize::new) }),
            GpuBindingResource::Sampler(s) => wgpu::BindingResource::Sampler(s),
            GpuBindingResource::TextureView(v) => wgpu::BindingResource::TextureView(v),
            GpuBindingResource::TextureViewArray(_) => wgpu::BindingResource::TextureViewArray(a),
        },
    }).collect();
    device.create_bind_group(&wgpu::BindGroupDescriptor { label: desc.label.as_deref(), layout: &desc.layout, entries: &entries })
}

/// A bind group recorded against transient resources; it is materialised anew
/// at each execution, never cached.
pub struct TransientBindGroup {
    pub label: Option<String>,
    pub layout: wgpu::BindGroupLayout,
    pub entries: Vec<TransientBindGroupEntry>,
}

/// Relies on wgpu::BindGroupLayout::clone: the clone is a shared handle to
/// the same layout.
#[verifier::external_body]
fn clone_bind_group_layout(layout: &wgpu::BindGroupLayout) -> (r: wgpu::BindGroupLayout)
    ensures
        r == *layout,
{
    layout.clone()
}

impl TransientBindGroup {
    /// Whether the table holds live resources for every entry.
    pub open spec fn resolvable(&self, s: Map<int, ResKind>) -> bool {
        forall|j: int|
            0 <= j < self.entries@.len() ==> (#[trigger] self.entries@[j]).resolvable(s)
    }

    /// Resolves every entry against the live table into the description
    /// handed to the device: the label text and the layout are kept, and each
    /// recorded entry becomes one resolved entry, in order.
    pub fn create_bind_group_descriptor(&self, context: &PassContext<'_>) -> (r:
        TransientBindGroupDescriptor)
        requires
            context.resource_table.wf(),
            self.resolvable(context.resource_table.summary()),
        ensures
            opt_label_eq(r.label, self.label),
            r.layout == self.layout,
            r.entries@.len() == self.entries@.len(),
            forall|j: int|
                0 <= j < self.entries@.len() ==> entry_converted(
                    self.entries@[j],
                    #[trigger] r.entries@[j],
                    *context.resource_table,
                ),
    {
        let mut entries: Vec<GpuBindGroupEntry> = Vec::new();
        let n = self.entries.len();
        let mut j: usize = 0;
        while j < n
            invariant
                n == self.entries@.len(),
                0 <= j <= n,
                entries@.len() == j,
                context.resource_table.wf(),
                self.resolvable(context.resource_table.summary()),
                forall|t: int|
                    0 <= t < j ==> entry_converted(
                        self.entries@[t],
                        #[trigger] entries@[t],
                        *context.resource_table,
                    ),
            decreases n - j,
        {
            entries.push(self.entries[j].get_gpu_bind_group_entry(context));
            j += 1;
        }
        TransientBindGroupDescriptor {
            label: match &self.label {
                Some(s) => Some(s.clone()),
                None => None,
            },
            layout: clone_bind_group_layout(&self.layout),
            entries,
        }
    }

    /// Walks the entries, resolves each against the live table, and asks the
    /// device for a fresh bind group over them.
    pub fn create_bind_group(&self, context: &PassContext<'_>) -> wgpu::BindGroup
        requires
            context.resource_table.wf(),
            self.resolvable(context.resource_table.summary()),
    {
        let desc = self.create_bind_group_descriptor(context);
        proof {
            assert forall|j: int|
                0 <= j < desc.entries@.len() implies ((
            #[trigger] desc.entries@[j]).resource matches GpuBindingResource::Buffer(b) ==> (
            b.size matches Some(sz) ==> 1 <= sz)) by {
                assert(entry_converted(
                    self.entries@[j],
                    desc.entries@[j],
                    *context.resource_table,
                ));
            }
        }
        let mut arrays: Vec<Vec<&wgpu::TextureView>> = Vec::new();
        let n = desc.entries.len();
        let mut j: usize = 0;
        while j < n
            invariant
                n == desc.entries@.len(),
                0 <= j <= n,
                arrays@.len() == j,
                forall|t: int|
                    0 <= t < j ==> ((#[trigger] desc.entries@[t]).resource matches GpuBindingResource::TextureViewArray(
                        vs,
                    ) ==> arrays@[t]@.len() == vs@.len() && (forall|k: int|
                        0 <= k < vs@.len() ==> *(#[trigger] arrays@[t]@[k]) == vs@[k])),
            decreases n - j,
        {
            let refs = match &desc.entries[j].resource {
                GpuBindingResource::TextureViewArray(vs) => {
                    let mut refs: Vec<&wgpu::TextureView> = Vec::new();
                    let m = vs.len();
                    let mut k: usize = 0;
                    while k < m
                        invariant
                            m == vs@.len(),
                            0 <= k <= m,
                            refs@.len() == k,
                            forall|t: int| 0 <= t < k ==> *(#[trigger] refs@[t]) == vs@[t],
                        decreases m - k,
                    {
                        refs.push(&vs[k]);
                        k += 1;
                    }
                    refs
                },
                _ => Vec::new(),
            };
            arrays.push(refs);
            j += 1;
        }
        device_create_bind_group(context.device(), &desc, &arrays)
    }
}

} // verus!
