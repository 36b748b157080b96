use vstd::prelude::*;
use std::sync::Arc;

use crate::gpu::{
    texture_dimension_eq, texture_format_eq, texture_usages_eq, ExExtent3d, ExTexture,
    ExTextureDimension, ExTextureFormat, ExTextureUsages,
};
use crate::transient_resource::{
    opt_label_eq, AnyTransientResource, AnyTransientResourceDescriptor, ArcAnyTransientResource,
    IntoArcAnyTransientResource, TransientResource, TransientResourceDescriptor,
};

verus! {

/// A GPU texture together with the descriptor it was created from; the
/// descriptor is the pooling key, exactly as for buffers.
pub struct TransientTexture {
    pub resource: wgpu::Texture,
    pub desc: TransientTextureDescriptor,
}

impl TransientResource for TransientTexture {
    type Descriptor = TransientTextureDescriptor;

    open spec fn fits(res: &AnyTransientResource) -> bool {
        res is OwnedTexture || res is ImportedTexture
    }

    open spec fn of_any(res: AnyTransientResource) -> Self {
        match res {
            AnyTransientResource::OwnedTexture(t) => t,
            AnyTransientResource::ImportedTexture(t) => *t,
            _ => arbitrary(),
        }
    }

    open spec fn spec_desc(&self) -> TransientTextureDescriptor {
        self.desc
    }

    fn borrow_resource(res: &AnyTransientResource) -> (r: &Self) {
        match res {
            AnyTransientResource::OwnedTexture(t) => t,
            AnyTransientResource::ImportedTexture(t) => &*t,
            _ => unreached(),
        }
    }

    fn get_desc(&self) -> (r: &TransientTextureDescriptor) {
        &self.desc
    }
}

impl IntoArcAnyTransientResource for TransientTexture {
    open spec fn spec_wrap_arc(res: Arc<Self>) -> ArcAnyTransientResource {
        ArcAnyTransientResource::Texture(res)
    }

    fn wrap_arc(res: Arc<Self>) -> (r: ArcAnyTransientResource) {
        proof {
            let d = res.desc;
            TransientTextureDescriptor::lemma_matches_equivalence(d, d, d);
        }
        ArcAnyTransientResource::Texture(res)
    }
}

/// The creation parameters of a transient texture; every field, the label
/// included, takes part in the structural comparison that keys the pool.
pub struct TransientTextureDescriptor {
    pub label: Option<String>,
    pub size: wgpu::Extent3d,
    pub mip_level_count: u32,
    pub sample_count: u32,
    pub dimension: wgpu::TextureDimension,
    pub format: wgpu::TextureFormat,
    pub usage: wgpu::TextureUsages,
    pub view_formats: Vec<wgpu::TextureFormat>,
}

/// Structural equality of two texture descriptors.
pub open spec fn texture_desc_matches(
    a: TransientTextureDescriptor,
    b: TransientTextureDescriptor,
) -> bool {
    &&& opt_label_eq(a.label, b.label)
    &&& a.size == b.size
    &&& a.mip_level_count == b.mip_level_count
    &&& a.sample_count == b.sample_count
    &&& a.dimension == b.dimension
    &&& a.format == b.format
    &&& a.usage == b.usage
    &&& a.view_formats@ == b.view_formats@
}

impl TransientResourceDescriptor for TransientTextureDescriptor {
    open spec fn fits_any(res: &AnyTransientResourceDescriptor) -> bool {
        res is Texture
    }

    open spec fn of_any(res: AnyTransientResourceDescriptor) -> Self {
        match res {
            AnyTransientResourceDescriptor::Texture(d) => d,
            _ => arbitrary(),
        }
    }

    open spec fn to_any(self) -> AnyTransientResourceDescriptor {
        AnyTransientResourceDescriptor::Texture(self)
    }

    fn borrow_resource_descriptor(res: &AnyTransientResourceDescriptor) -> (r: &Self) {
        match res {
            AnyTransientResourceDescriptor::Texture(d) => d,
            _ => unreached(),
        }
    }

    fn into_any(self) -> (r: AnyTransientResourceDescriptor) {
        AnyTransientResourceDescriptor::Texture(self)
    }

    open spec fn matches(self, other: Self) -> bool {
        texture_desc_matches(self, other)
    }

    fn same_desc(&self, other: &Self) -> (r: bool) {
        let label_eq = match (&self.label, &other.label) {
            (None, None) => true,
            (Some(a), Some(b)) => *a == *b,
            _ => false,
        };
        if !(label_eq && self.size.width == other.size.width
            && self.size.height == other.size.height
            && self.size.depth_or_array_layers == other.size.depth_or_array_layers
            && self.mip_level_count == other.mip_level_count
            && self.sample_count == other.sample_count
            && texture_dimension_eq(&self.dimension, &other.dimension)
            && texture_format_eq(&self.format, &other.format)
            && texture_usages_eq(&self.usage, &other.usage)) {
            return false;
        }
        if self.view_formats.len() != other.view_formats.len() {
            proof {
                assert(self.view_formats@ != other.view_formats@);
            }
            return false;
        }
        let n = self.view_formats.len();
        let mut i: usize = 0;
        while i < n
            invariant
                n == self.view_formats@.len(),
                n == other.view_formats@.len(),
                0 <= i <= n,
                forall|j: int| 0 <= j < i ==> self.view_formats@[j] == other.view_formats@[j],
            decreases n - i,
        {
            if !texture_format_eq(&self.view_formats[i], &other.view_formats[i]) {
                return false;
            }
            i += 1;
        }
        proof {
            assert(self.view_formats@ =~= other.view_formats@);
        }
        true
    }

    proof fn lemma_matches_equivalence(a: Self, b: Self, c: Self) {
    }

    fn duplicate(&self) -> (r: Self) {
        let label = match &self.label {
            Some(s) => Some(s.clone()),
            None => None,
        };
        let mut view_formats: Vec<wgpu::TextureFormat> = Vec::new();
        let mut i: usize = 0;
        while i < self.view_formats.len()
            invariant
                0 <= i <= self.view_formats@.len(),
                view_formats@ == self.view_formats@.subrange(0, i as int),
            decreases self.view_formats@.len() - i,
        {
            view_formats.push(self.view_formats[i]);
            i += 1;
        }
        proof {
            assert(view_formats@ =~= self.view_formats@);
        }
        TransientTextureDescriptor {
            label,
            size: self.size,
            mip_level_count: self.mip_level_count,
            sample_count: self.sample_count,
            dimension: self.dimension,
            format: self.format,
            usage: self.usage,
            view_formats,
        }
    }

    proof fn lemma_roundtrip(d: Self) {
    }

    proof fn lemma_matches_any(
        a: AnyTransientResourceDescriptor,
        b: AnyTransientResourceDescriptor,
    ) {
    }
}

} // verus!
