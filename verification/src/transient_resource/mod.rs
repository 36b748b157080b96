mod buffer;
mod cache;
mod texture;

pub use buffer::{buffer_desc_matches, TransientBuffer, TransientBufferDescriptor,
    COPY_BUFFER_ALIGNMENT};
pub use cache::{lemma_pool_lifo, TransientResourceCache};
pub use texture::{texture_desc_matches, TransientTexture, TransientTextureDescriptor};

use vstd::prelude::*;
use std::sync::Arc;

verus! {

/// Equality of optional labels, by the text they hold.
pub open spec fn opt_label_eq(a: Option<String>, b: Option<String>) -> bool {
    match (a, b) {
        (Option::None, Option::None) => true,
        (Option::Some(x), Option::Some(y)) => x@ == y@,
        _ => false,
    }
}

/// Relies on Arc::clone from std: the clone is a shared handle to the same value.
#[verifier::external_body]
pub(crate) fn clone_arc<T>(a: &Arc<T>) -> (r: Arc<T>)
    ensures
        r == *a,
{
    a.clone()
}

/// Structural equality of two virtual resources: matching descriptors for
/// engine-allocated ones, the same shared reference for imported ones.
pub open spec fn vr_matches(a: VirtualResource, b: VirtualResource) -> bool {
    match (a, b) {
        (VirtualResource::Setuped(x), VirtualResource::Setuped(y)) => any_desc_matches(x, y),
        (VirtualResource::Imported(x), VirtualResource::Imported(y)) => x == y,
        _ => false,
    }
}

/// What a resource node stands for before execution: either a descriptor the
/// engine will allocate from (and pool afterwards), or a shared reference to a
/// resource that lives outside the graph.
pub enum VirtualResource {
    Setuped(AnyTransientResourceDescriptor),
    Imported(ArcAnyTransientResource),
}

impl VirtualResource {
    /// The descriptor of the resource, whichever side it lives on.
    pub open spec fn spec_desc(&self) -> AnyTransientResourceDescriptor {
        match self {
            VirtualResource::Setuped(desc) => *desc,
            VirtualResource::Imported(res) => res.spec_desc(),
        }
    }

    pub fn get_desc<ResourceType: TransientResource>(&self) -> (r: <ResourceType as TransientResource>::Descriptor)
        requires
            <ResourceType as TransientResource>::Descriptor::fits_any(&self.spec_desc()),
        ensures
            <ResourceType as TransientResource>::Descriptor::matches(
                r,
                <ResourceType as TransientResource>::Descriptor::of_any(self.spec_desc()),
            ),
            <ResourceType as TransientResource>::Descriptor::matches(
                <ResourceType as TransientResource>::Descriptor::of_any(self.spec_desc()),
                r,
            ),
    {
        let ghost sd = self.spec_desc();
        match self {
            VirtualResource::Imported(resource) => {
                let desc = resource.get_desc();
                proof {
                    <ResourceType as TransientResource>::Descriptor::lemma_matches_any(sd, desc);
                }
                let r = <ResourceType as TransientResource>::Descriptor::borrow_resource_descriptor(&desc).duplicate();
                proof {
                    let d0 = <ResourceType as TransientResource>::Descriptor::of_any(sd);
                    let d1 = <ResourceType as TransientResource>::Descriptor::of_any(desc);
                    <ResourceType as TransientResource>::Descriptor::lemma_matches_equivalence(d0, d1, r);
                    <ResourceType as TransientResource>::Descriptor::lemma_matches_equivalence(d1, r, d0);
                    <ResourceType as TransientResource>::Descriptor::lemma_matches_equivalence(r, d1, d0);
                    <ResourceType as TransientResource>::Descriptor::lemma_matches_equivalence(d1, d0, r);
                }
                r
            },
            VirtualResource::Setuped(desc) => {
                <ResourceType as TransientResource>::Descriptor::borrow_resource_descriptor(desc).duplicate()
            },
        }
    }

    pub fn duplicate(&self) -> (r: Self)
        ensures
            vr_matches(r, *self),
            vr_matches(*self, r),
    {
        match self {
            VirtualResource::Setuped(desc) => VirtualResource::Setuped(desc.duplicate_any()),
            VirtualResource::Imported(res) => VirtualResource::Imported(res.duplicate()),
        }
    }

    /// The type-erased descriptor of the resource.
    pub fn get_any_desc(&self) -> (r: AnyTransientResourceDescriptor)
        ensures
            any_desc_matches(r, self.spec_desc()),
            any_desc_matches(self.spec_desc(), r),
    {
        match self {
            VirtualResource::Setuped(desc) => desc.duplicate_any(),
            VirtualResource::Imported(res) => {
                let r = res.get_desc();
                r
            },
        }
    }
}

/// A shared reference to an externally owned resource.
pub enum ArcAnyTransientResource {
    Buffer(Arc<TransientBuffer>),
    Texture(Arc<TransientTexture>),
}

impl ArcAnyTransientResource {
    pub open spec fn spec_desc(&self) -> AnyTransientResourceDescriptor {
        match self {
            ArcAnyTransientResource::Buffer(res) => AnyTransientResourceDescriptor::Buffer(
                res.desc,
            ),
            ArcAnyTransientResource::Texture(res) => AnyTransientResourceDescriptor::Texture(
                res.desc,
            ),
        }
    }

    pub fn get_desc(&self) -> (r: AnyTransientResourceDescriptor)
        ensures
            any_desc_matches(r, self.spec_desc()),
            any_desc_matches(self.spec_desc(), r),
            r is Buffer <==> self is Buffer,
    {
        match self {
            ArcAnyTransientResource::Buffer(res) => AnyTransientResourceDescriptor::Buffer(
                res.desc.duplicate(),
            ),
            ArcAnyTransientResource::Texture(res) => AnyTransientResourceDescriptor::Texture(
                res.desc.duplicate(),
            ),
        }
    }

    pub fn duplicate(&self) -> (r: Self)
        ensures
            r == *self,
    {
        match self {
            ArcAnyTransientResource::Buffer(res) => ArcAnyTransientResource::Buffer(clone_arc(res)),
            ArcAnyTransientResource::Texture(res) => ArcAnyTransientResource::Texture(clone_arc(
                res,
            )),
        }
    }
}

/// A resource that currently sits in the per-execution table: owned variants
/// go back to the pool on release, imported variants are dropped.
pub enum AnyTransientResource {
    OwnedBuffer(TransientBuffer),
    ImportedBuffer(Arc<TransientBuffer>),
    OwnedTexture(TransientTexture),
    ImportedTexture(Arc<TransientTexture>),
}

impl AnyTransientResource {
    pub open spec fn spec_desc(&self) -> AnyTransientResourceDescriptor {
        match self {
            AnyTransientResource::OwnedBuffer(b) => AnyTransientResourceDescriptor::Buffer(b.desc),
            AnyTransientResource::ImportedBuffer(b) => AnyTransientResourceDescriptor::Buffer(
                b.desc,
            ),
            AnyTransientResource::OwnedTexture(t) => AnyTransientResourceDescriptor::Texture(
                t.desc,
            ),
            AnyTransientResource::ImportedTexture(t) => AnyTransientResourceDescriptor::Texture(
                t.desc,
            ),
        }
    }

    pub open spec fn is_owned(&self) -> bool {
        self is OwnedBuffer || self is OwnedTexture
    }
}

/// Allows a shared resource to be wrapped for import into a graph.
pub trait IntoArcAnyTransientResource: TransientResource {
    spec fn spec_wrap_arc(res: Arc<Self>) -> ArcAnyTransientResource;

    fn wrap_arc(res: Arc<Self>) -> (r: ArcAnyTransientResource)
        ensures
            r == Self::spec_wrap_arc(res),
            r.spec_desc().matches_any(res.spec_desc().to_any()),
    ;
}

/// The descriptor of either kind of transient resource; the key under which
/// free resources are pooled.
pub enum AnyTransientResourceDescriptor {
    Buffer(TransientBufferDescriptor),
    Texture(TransientTextureDescriptor),
}

impl From<TransientBufferDescriptor> for AnyTransientResourceDescriptor {
    fn from(value: TransientBufferDescriptor) -> (r: Self) {
        AnyTransientResourceDescriptor::Buffer(value)
    }
}

impl vstd::std_specs::convert::FromSpecImpl<TransientBufferDescriptor> for AnyTransientResourceDescriptor {
    open spec fn obeys_from_spec() -> bool {
        true
    }

    open spec fn from_spec(value: TransientBufferDescriptor) -> Self {
        AnyTransientResourceDescriptor::Buffer(value)
    }
}

impl From<TransientTextureDescriptor> for AnyTransientResourceDescriptor {
    fn from(value: TransientTextureDescriptor) -> (r: Self) {
        AnyTransientResourceDescriptor::Texture(value)
    }
}

impl vstd::std_specs::convert::FromSpecImpl<TransientTextureDescriptor> for AnyTransientResourceDescriptor {
    open spec fn obeys_from_spec() -> bool {
        true
    }

    open spec fn from_spec(value: TransientTextureDescriptor) -> Self {
        AnyTransientResourceDescriptor::Texture(value)
    }
}

impl From<TransientBuffer> for AnyTransientResource {
    fn from(value: TransientBuffer) -> (r: Self) {
        AnyTransientResource::OwnedBuffer(value)
    }
}

impl vstd::std_specs::convert::FromSpecImpl<TransientBuffer> for AnyTransientResource {
    open spec fn obeys_from_spec() -> bool {
        true
    }

    open spec fn from_spec(value: TransientBuffer) -> Self {
        AnyTransientResource::OwnedBuffer(value)
    }
}

impl From<Arc<TransientBuffer>> for AnyTransientResource {
    fn from(value: Arc<TransientBuffer>) -> (r: Self) {
        AnyTransientResource::ImportedBuffer(value)
    }
}

impl vstd::std_specs::convert::FromSpecImpl<Arc<TransientBuffer>> for AnyTransientResource {
    open spec fn obeys_from_spec() -> bool {
        true
    }

    open spec fn from_spec(value: Arc<TransientBuffer>) -> Self {
        AnyTransientResource::ImportedBuffer(value)
    }
}

impl From<TransientTexture> for AnyTransientResource {
    fn from(value: TransientTexture) -> (r: Self) {
        AnyTransientResource::OwnedTexture(value)
    }
}

impl vstd::std_specs::convert::FromSpecImpl<TransientTexture> for AnyTransientResource {
    open spec fn obeys_from_spec() -> bool {
        true
    }

    open spec fn from_spec(value: TransientTexture) -> Self {
        AnyTransientResource::OwnedTexture(value)
    }
}

impl From<Arc<TransientTexture>> for AnyTransientResource {
    fn from(value: Arc<TransientTexture>) -> (r: Self) {
        AnyTransientResource::ImportedTexture(value)
    }
}

impl vstd::std_specs::convert::FromSpecImpl<Arc<TransientTexture>> for AnyTransientResource {
    open spec fn obeys_from_spec() -> bool {
        true
    }

    open spec fn from_spec(value: Arc<TransientTexture>) -> Self {
        AnyTransientResource::ImportedTexture(value)
    }
}

/// A descriptor the device accepts without argument-only validation
/// failures: a buffer mapped at creation must have a size aligned to the
/// copy-buffer alignment.
pub open spec fn any_desc_valid(d: AnyTransientResourceDescriptor) -> bool {
    match d {
        AnyTransientResourceDescriptor::Buffer(b) => b.mapped_at_creation ==> b.size % COPY_BUFFER_ALIGNMENT
            == 0,
        AnyTransientResourceDescriptor::Texture(_) => true,
    }
}

/// Structural equality of descriptors: same kind, and the fields match.
pub open spec fn any_desc_matches(
    a: AnyTransientResourceDescriptor,
    b: AnyTransientResourceDescriptor,
) -> bool {
    match (a, b) {
        (
            AnyTransientResourceDescriptor::Buffer(x),
            AnyTransientResourceDescriptor::Buffer(y),
        ) => buffer_desc_matches(x, y),
        (
            AnyTransientResourceDescriptor::Texture(x),
            AnyTransientResourceDescriptor::Texture(y),
        ) => texture_desc_matches(x, y),
        _ => false,
    }
}

impl AnyTransientResourceDescriptor {
    pub open spec fn matches_any(self, other: Self) -> bool {
        any_desc_matches(self, other)
    }

    pub fn same_desc(&self, other: &Self) -> (r: bool)
        ensures
            r == any_desc_matches(*self, *other),
    {
        match (self, other) {
            (
                AnyTransientResourceDescriptor::Buffer(x),
                AnyTransientResourceDescriptor::Buffer(y),
            ) => x.same_desc(y),
            (
                AnyTransientResourceDescriptor::Texture(x),
                AnyTransientResourceDescriptor::Texture(y),
            ) => x.same_desc(y),
            _ => false,
        }
    }

    pub fn duplicate_any(&self) -> (r: Self)
        ensures
            any_desc_matches(r, *self),
            any_desc_matches(*self, r),
            r is Buffer <==> self is Buffer,
    {
        match self {
            AnyTransientResourceDescriptor::Buffer(d) => {
                proof {
                    TransientBufferDescriptor::lemma_matches_equivalence(*d, *d, *d);
                }
                AnyTransientResourceDescriptor::Buffer(d.duplicate())
            },
            AnyTransientResourceDescriptor::Texture(d) => {
                proof {
                    TransientTextureDescriptor::lemma_matches_equivalence(*d, *d, *d);
                }
                AnyTransientResourceDescriptor::Texture(d.duplicate())
            },
        }
    }
}

/// A proof that descriptor matching is an equivalence relation.
pub proof fn lemma_any_desc_matches_equivalence(
    a: AnyTransientResourceDescriptor,
    b: AnyTransientResourceDescriptor,
    c: AnyTransientResourceDescriptor,
)
    ensures
        any_desc_matches(a, a),
        any_desc_matches(a, b) ==> any_desc_matches(b, a),
        any_desc_matches(a, b) && any_desc_matches(b, c) ==> any_desc_matches(a, c),
{
    match (a, b, c) {
        (
            AnyTransientResourceDescriptor::Buffer(x),
            AnyTransientResourceDescriptor::Buffer(y),
            AnyTransientResourceDescriptor::Buffer(z),
        ) => TransientBufferDescriptor::lemma_matches_equivalence(x, y, z),
        (
            AnyTransientResourceDescriptor::Texture(x),
            AnyTransientResourceDescriptor::Texture(y),
            AnyTransientResourceDescriptor::Texture(z),
        ) => TransientTextureDescriptor::lemma_matches_equivalence(x, y, z),
        _ => {
            match a {
                AnyTransientResourceDescriptor::Buffer(x) => {
                    TransientBufferDescriptor::lemma_matches_equivalence(x, x, x);
                },
                AnyTransientResourceDescriptor::Texture(x) => {
                    TransientTextureDescriptor::lemma_matches_equivalence(x, x, x);
                },
            }
        },
    }
}

/// One kind of transient resource (a buffer or a texture), as stored in the
/// type-erased table and pool.
pub trait TransientResource: Sized {
    type Descriptor: TransientResourceDescriptor;

    /// Whether the type-erased resource holds this kind.
    spec fn fits(res: &AnyTransientResource) -> bool;

    /// The typed resource inside the type-erased one.
    spec fn of_any(res: AnyTransientResource) -> Self;

    /// The descriptor this resource was created from.
    spec fn spec_desc(&self) -> Self::Descriptor;

    /// Borrows the typed resource out of the type-erased one. The engine only
    /// calls this after the table has been checked to hold the right kind.
    fn borrow_resource(res: &AnyTransientResource) -> (r: &Self)
        requires
            Self::fits(res),
        ensures
            *r == Self::of_any(*res),
    ;

    fn get_desc(&self) -> (r: &Self::Descriptor)
        ensures
            *r == self.spec_desc(),
    ;
}

/// The descriptor side of a transient resource kind.
pub trait TransientResourceDescriptor: Sized {
    /// Whether the type-erased descriptor holds this kind.
    spec fn fits_any(res: &AnyTransientResourceDescriptor) -> bool;

    /// The typed descriptor inside the type-erased one.
    spec fn of_any(res: AnyTransientResourceDescriptor) -> Self;

    /// The type-erased form of this descriptor.
    spec fn to_any(self) -> AnyTransientResourceDescriptor;

    /// Structural equality of two descriptors of this kind.
    spec fn matches(self, other: Self) -> bool;

    fn borrow_resource_descriptor(res: &AnyTransientResourceDescriptor) -> (r: &Self)
        requires
            Self::fits_any(res),
        ensures
            *r == Self::of_any(*res),
    ;

    fn into_any(self) -> (r: AnyTransientResourceDescriptor)
        ensures
            r == self.to_any(),
    ;

    /// An exact structural copy.
    fn duplicate(&self) -> (r: Self)
        ensures
            Self::matches(*self, r),
            Self::matches(r, *self),
    ;

    fn same_desc(&self, other: &Self) -> (r: bool)
        ensures
            r == Self::matches(*self, *other),
    ;

    proof fn lemma_matches_equivalence(a: Self, b: Self, c: Self)
        ensures
            Self::matches(a, a),
            Self::matches(a, b) ==> Self::matches(b, a),
            Self::matches(a, b) && Self::matches(b, c) ==> Self::matches(a, c),
    ;

    proof fn lemma_roundtrip(d: Self)
        ensures
            Self::fits_any(&d.to_any()),
            Self::of_any(d.to_any()) == d,
    ;

    /// Matching at the type-erased level agrees with matching at this level.
    proof fn lemma_matches_any(a: AnyTransientResourceDescriptor, b: AnyTransientResourceDescriptor)
        requires
            Self::fits_any(&a),
        ensures
            any_desc_matches(a, b) ==> Self::fits_any(&b),
            Self::fits_any(&b) ==> (any_desc_matches(a, b) == Self::matches(
                Self::of_any(a),
                Self::of_any(b),
            )),
    ;
}

} // verus!
