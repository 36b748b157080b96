use vstd::prelude::*;

use crate::gpu::{ExTexture, ExTextureAspect, ExTextureFormat, ExTextureUsages,
    ExTextureView, ExTextureViewDimension};
use crate::pass::PassContext;
use crate::resource_node::{ResourceRead, ResourceRef, ResourceView, ResourceWrite};
use crate::resource_table::{lemma_summary_texture, ResKind, ResourceTable};
use vstd::map::*;
use crate::transient_resource::{TransientResource, TransientTexture};

verus! {

pub type TransientTextureViewDescriptorRead = TransientTextureViewDescriptor<ResourceRead>;

pub type TransientTextureViewDescriptorWrite = TransientTextureViewDescriptor<ResourceWrite>;

/// The creation parameters of a texture view, mirroring the GPU API's own
/// record with an owned label.
pub struct TextureViewDescriptor {
    pub label: Option<String>,
    pub format: Option<wgpu::TextureFormat>,
    pub dimension: Option<wgpu::TextureViewDimension>,
    pub usage: Option<wgpu::TextureUsages>,
    pub aspect: wgpu::TextureAspect,
    pub base_mip_level: u32,
    pub mip_level_count: Option<u32>,
    pub base_array_layer: u32,
    pub array_layer_count: Option<u32>,
}

/// Relies on wgpu::Texture::create_view, called with exactly the fields of
/// the given descriptor.
#[verifier::external_body]
pub(crate) fn texture_create_view(
    texture: &wgpu::Texture,
    desc: &TextureViewDescriptor,
) -> wgpu::TextureView {
    texture.create_view(&wgpu::TextureViewDescriptor {
        label: desc.label.as_deref(),
        format: desc.format,
        dimension: desc.dimension,
        usage: desc.usage,
        aspect: desc.aspect,
        base_mip_level: desc.base_mip_level,
        mip_level_count: desc.mip_level_count,
        base_array_layer: desc.base_array_layer,
        array_layer_count: desc.array_layer_count,
    })
}

/// Relies on wgpu::TextureView::clone: the clone is a shared handle to the
/// same view.
#[verifier::external_body]
pub(crate) fn clone_texture_view(view: &wgpu::TextureView) -> (r: wgpu::TextureView)
    ensures
        r == *view,
{
    view.clone()
}

/// A view over a transient texture, to be resolved against the live resource
/// table when the pass runs.
#[verifier::reject_recursive_types(ViewType)]
pub struct TransientTextureViewDescriptor<ViewType> {
    pub texture: ResourceRef<TransientTexture, ViewType>,
    pub desc: TextureViewDescriptor,
}

impl<ViewType: ResourceView> TransientTextureViewDescriptor<ViewType> {
    /// The table summary shows a texture under this view's node index.
    pub open spec fn resolvable(&self, s: Map<int, ResKind>) -> bool {
        crate::resource_table::summary_texture(s, self.texture.raw.index.index as int)
    }

    pub fn create_gpu_texture_view(&self, context: &PassContext) -> wgpu::TextureView
        requires
            context.resource_table.wf(),
            self.resolvable(context.resource_table.summary()),
    {
        proof {
            lemma_summary_texture(context.resource_table, self.texture.raw.index.index as int);
        }
        let resource = context.get_resource(&self.texture);
        texture_create_view(&resource.resource, &self.desc)
    }
}

/// A texture view for an attachment: resolved against the table for transient
/// textures, or an externally created view passed through as it is.
pub enum TransientTextureView {
    Read(TransientTextureViewDescriptorRead),
    Write(TransientTextureViewDescriptorWrite),
    Owned(wgpu::TextureView),
}

impl TransientTextureView {
    /// Whether the table can resolve this view.
    pub open spec fn resolvable(&self, s: Map<int, ResKind>) -> bool {
        match self {
            TransientTextureView::Read(desc) => desc.resolvable(s),
            TransientTextureView::Write(desc) => desc.resolvable(s),
            TransientTextureView::Owned(_) => true,
        }
    }

    pub fn create_texture_view(&self, context: &PassContext) -> (r: wgpu::TextureView)
        requires
            context.resource_table.wf(),
            self.resolvable(context.resource_table.summary()),
        ensures
            self matches TransientTextureView::Owned(v) ==> r == v,
    {
        match self {
            TransientTextureView::Read(desc) => desc.create_gpu_texture_view(context),
            TransientTextureView::Write(desc) => desc.create_gpu_texture_view(context),
            TransientTextureView::Owned(texture_view) => clone_texture_view(texture_view),
        }
    }
}

} // verus!
