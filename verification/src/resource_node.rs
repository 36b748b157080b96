use vstd::prelude::*;
use core::marker::PhantomData;

use crate::index::IndexHandle;
use crate::pass_node::PassNode;
use crate::transient_resource::{
    any_desc_matches, vr_matches, AnyTransientResourceDescriptor, TransientResource,
    TransientResourceDescriptor, VirtualResource,
};

verus! {

/// A versioned reference to a resource node, tagged with the access (read or
/// write) under which it was obtained. Both tags resolve to the same stored
/// resource at execution time; the tag only selects the builder path. The
/// carried descriptor is kept type-erased; the phantom parameter records
/// which kind it holds.
#[verifier::reject_recursive_types(ResourceType)]
#[verifier::reject_recursive_types(VieType)]
pub struct ResourceRef<ResourceType, VieType> {
    pub raw: RawResourceHandle,
    pub desc: AnyTransientResourceDescriptor,
    pub _marker: PhantomData<(ResourceType, VieType)>,
}

impl<ResourceType: TransientResource, VieType> ResourceRef<ResourceType, VieType> {
    pub fn new(
        raw: RawResourceHandle,
        desc: <ResourceType as TransientResource>::Descriptor,
    ) -> (r: Self)
        ensures
            r.raw == raw,
            r.desc == desc.to_any(),
    {
        Self { raw, desc: desc.into_any(), _marker: PhantomData }
    }

    /// An exact copy of the reference; the descriptor is copied structurally.
    pub fn duplicate(&self) -> (r: Self)
        ensures
            r.raw == self.raw,
            any_desc_matches(r.desc, self.desc),
            any_desc_matches(self.desc, r.desc),
    {
        Self { raw: self.raw, desc: self.desc.duplicate_any(), _marker: PhantomData }
    }
}

/// Marks the access under which a resource reference was obtained.
pub trait ResourceView {
}

pub struct ResourceRead;

pub struct ResourceWrite;

impl ResourceView for ResourceRead {
}

impl ResourceView for ResourceWrite {
}

/// A typed handle to a resource node at a specific version of its write
/// timeline.
#[verifier::reject_recursive_types(ResourceType)]
pub struct ResourceHandle<ResourceType> {
    pub raw: RawResourceHandle,
    pub desc: AnyTransientResourceDescriptor,
    pub _marker: PhantomData<ResourceType>,
}

impl<ResourceType: TransientResource> ResourceHandle<ResourceType> {
    pub fn new(
        index: IndexHandle<ResourceNode>,
        version: u32,
        desc: <ResourceType as TransientResource>::Descriptor,
    ) -> (r: Self)
        ensures
            r.raw.index == index,
            r.raw.version == version,
            r.desc == desc.to_any(),
    {
        Self { raw: RawResourceHandle { index, version }, desc: desc.into_any(), _marker: PhantomData }
    }

    /// An exact copy of the handle; the descriptor is copied structurally.
    pub fn duplicate(&self) -> (r: Self)
        ensures
            r.raw == self.raw,
            any_desc_matches(r.desc, self.desc),
            any_desc_matches(self.desc, r.desc),
    {
        Self { raw: self.raw, desc: self.desc.duplicate_any(), _marker: PhantomData }
    }
}

/// The untyped content of a versioned handle: a node index and the version of
/// the node at which the handle was taken. Two raw handles are the same
/// exactly when both fields agree.
pub struct RawResourceHandle {
    pub index: IndexHandle<ResourceNode>,
    pub version: u32,
}

impl Clone for RawResourceHandle {
    fn clone(&self) -> (r: Self)
        ensures
            r == *self,
    {
        RawResourceHandle { index: self.index, version: self.version }
    }
}

impl Copy for RawResourceHandle {
}

impl PartialEq for RawResourceHandle {
    fn eq(&self, other: &Self) -> (r: bool) {
        self.index.index == other.index.index && self.version == other.version
    }
}

impl vstd::std_specs::cmp::PartialEqSpecImpl for RawResourceHandle {
    open spec fn obeys_eq_spec() -> bool {
        true
    }

    open spec fn eq_spec(&self, other: &Self) -> bool {
        self.index.index == other.index.index && self.version == other.version
    }
}

impl Eq for RawResourceHandle {
}

/// One logical resource of the graph: its name, its position in the write
/// timeline, the pass range over which it is alive, and what backs it.
pub struct ResourceNode {
    pub index: usize,
    pub name: String,
    pub first_use_pass: Option<usize>,
    pub last_user_pass: Option<usize>,
    pub version: u32,
    pub resource: VirtualResource,
}

/// What a device pass asks the resource table to provide before it runs.
pub struct ResourceRequese {
    pub index: IndexHandle<ResourceNode>,
    pub resource: VirtualResource,
}

/// What a device pass asks the resource table to drop after it runs.
pub struct ResourceRelease {
    pub index: IndexHandle<ResourceNode>,
}

impl ResourceNode {
    pub fn new(name: &str, index: IndexHandle<ResourceNode>, resource: VirtualResource) -> (r: Self)
        ensures
            r.name@ == name@,
            r.index == index.index,
            r.version == 0,
            r.first_use_pass is None,
            r.last_user_pass is None,
            r.resource == resource,
    {
        ResourceNode {
            name: name.to_owned(),
            index: index.index,
            version: 0,
            first_use_pass: None,
            last_user_pass: None,
            resource,
        }
    }

    pub fn request(&self) -> (r: ResourceRequese)
        ensures
            r.index.index == self.index,
            vr_matches(r.resource, self.resource),
            vr_matches(self.resource, r.resource),
    {
        ResourceRequese { index: IndexHandle::new(self.index), resource: self.resource.duplicate() }
    }

    pub fn get_handle<ResourceType: TransientResource>(&self) -> (r: ResourceHandle<ResourceType>)
        ensures
            r.raw.index.index == self.index,
            r.raw.version == self.version,
            any_desc_matches(r.desc, self.resource.spec_desc()),
            any_desc_matches(self.resource.spec_desc(), r.desc),
    {
        let desc = self.resource.get_any_desc();
        ResourceHandle {
            raw: RawResourceHandle { index: IndexHandle::new(self.index), version: self.version },
            desc,
            _marker: PhantomData,
        }
    }

    pub fn get_desc<ResourceType: TransientResource>(&self) -> (r: <ResourceType as TransientResource>::Descriptor)
        requires
            <ResourceType as TransientResource>::Descriptor::fits_any(&self.resource.spec_desc()),
        ensures
            <ResourceType as TransientResource>::Descriptor::matches(
                r,
                <ResourceType as TransientResource>::Descriptor::of_any(self.resource.spec_desc()),
            ),
            <ResourceType as TransientResource>::Descriptor::matches(
                <ResourceType as TransientResource>::Descriptor::of_any(self.resource.spec_desc()),
                r,
            ),
    {
        self.resource.get_desc::<ResourceType>()
    }

    pub fn release(&self) -> (r: ResourceRelease)
        ensures
            r.index.index == self.index,
    {
        ResourceRelease { index: IndexHandle::new(self.index) }
    }

    pub fn version(&self) -> (r: u32)
        ensures
            r == self.version,
    {
        self.version
    }

    /// A write bumps the node to a fresh version.
    pub fn new_version(&mut self)
        requires
            old(self).version < u32::MAX,
        ensures
            final(self).version == old(self).version + 1,
            final(self).index == old(self).index,
            final(self).name == old(self).name,
            final(self).first_use_pass == old(self).first_use_pass,
            final(self).last_user_pass == old(self).last_user_pass,
            final(self).resource == old(self).resource,
    {
        self.version = self.version + 1;
    }

    /// Lifetime analysis: the first pass to touch the node is kept, the last
    /// pass to touch it is always updated.
    pub fn update_lifetime(&mut self, handle: IndexHandle<PassNode>)
        ensures
            final(self).first_use_pass == (if old(self).first_use_pass is None {
                Some(handle.index)
            } else {
                old(self).first_use_pass
            }),
            final(self).last_user_pass == Some(handle.index),
            final(self).index == old(self).index,
            final(self).name == old(self).name,
            final(self).version == old(self).version,
            final(self).resource == old(self).resource,
    {
        if self.first_use_pass.is_none() {
            self.first_use_pass = Some(handle.index);
        }
        self.last_user_pass = Some(handle.index);
    }
}

} // verus!
