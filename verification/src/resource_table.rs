use vstd::prelude::*;

use crate::gpu::{ExBuffer, ExDevice, ExTexture};
use crate::resource_node::{ResourceRef, ResourceRelease, ResourceRequese};
use crate::transient_resource::{
    any_desc_matches, lemma_any_desc_matches_equivalence, AnyTransientResource,
    AnyTransientResourceDescriptor, ArcAnyTransientResource, TransientBuffer,
    TransientBufferDescriptor, TransientResource, TransientResourceCache,
    TransientResourceDescriptor, TransientTexture, TransientTextureDescriptor, VirtualResource,
};
use vstd::map::*;

verus! {

/// Relies on wgpu::Device::create_buffer, called with exactly the fields of
/// the given descriptor. The device rejects a buffer mapped at creation
/// whose size is not copy-aligned, whatever the hardware; the requires
/// excludes those arguments.
#[verifier::external_body]
fn device_create_buffer(device: &wgpu::Device, desc: &TransientBufferDescriptor) -> wgpu::Buffer
    requires
        desc.mapped_at_creation ==> desc.size % crate::transient_resource::COPY_BUFFER_ALIGNMENT
            == 0,
{
    device.create_buffer(&wgpu::BufferDescriptor {
        label: desc.label.as_deref(),
        size: desc.size,
        usage: desc.usage,
        mapped_at_creation: desc.mapped_at_creation,
    })
}

/// Relies on wgpu::Device::create_texture, called with exactly the fields of
/// the given descriptor.
#[verifier::external_body]
fn device_create_texture(device: &wgpu::Device, desc: &TransientTextureDescriptor) -> wgpu::Texture {
    device.create_texture(&wgpu::TextureDescriptor {
        label: desc.label.as_deref(),
        size: desc.size,
        mip_level_count: desc.mip_level_count,
        sample_count: desc.sample_count,
        dimension: desc.dimension,
        format: desc.format,
        usage: desc.usage,
        view_formats: &desc.view_formats,
    })
}

/// Asks the device for a fresh resource of the descriptor's kind. The result
/// is owned by the engine and carries a copy of the descriptor.
pub fn create_resource(device: &wgpu::Device, desc: &AnyTransientResourceDescriptor) -> (r:
    AnyTransientResource)
    requires
        crate::transient_resource::any_desc_valid(*desc),
    ensures
        r.is_owned(),
        r is OwnedBuffer <==> desc is Buffer,
        any_desc_matches(r.spec_desc(), *desc),
        any_desc_matches(*desc, r.spec_desc()),
{
    match desc {
        AnyTransientResourceDescriptor::Buffer(d) => {
            let resource = device_create_buffer(device, d);
            AnyTransientResource::OwnedBuffer(TransientBuffer { resource, desc: d.duplicate() })
        },
        AnyTransientResourceDescriptor::Texture(d) => {
            let resource = device_create_texture(device, d);
            AnyTransientResource::OwnedTexture(TransientTexture { resource, desc: d.duplicate() })
        },
    }
}

/// The per-execution map from resource node index to the live resource that
/// currently backs it.
pub struct ResourceTable {
    resources: Vec<(usize, AnyTransientResource)>,
}

impl ResourceTable {
    /// Internal shape: one entry per node index.
    pub closed spec fn wf(&self) -> bool {
        forall|i: int, j: int|
            0 <= i < j < self.resources@.len() ==> self.resources@[i].0 != self.resources@[j].0
    }

    pub closed spec fn spec_contains(&self, key: int) -> bool {
        exists|j: int| 0 <= j < self.resources@.len() && #[trigger] self.resources@[j].0 == key
    }

    pub closed spec fn entry_of(&self, key: int) -> int {
        choose|j: int| 0 <= j < self.resources@.len() && #[trigger] self.resources@[j].0 == key
    }

    /// The live resource stored under a node index.
    pub closed spec fn spec_at(&self, key: int) -> AnyTransientResource {
        self.resources@[self.entry_of(key)].1
    }

    /// The kind summary of the whole table.
    pub open spec fn summary(&self) -> Map<int, ResKind> {
        Map::new(|i: int| self.spec_contains(i), |i: int| kind_of(self.spec_at(i)))
    }

    /// The provenance summary of the whole table.
    pub open spec fn prov(&self) -> Map<int, Prov> {
        Map::new(|i: int| self.spec_contains(i), |i: int| prov_of_entry(self.spec_at(i)))
    }

    pub fn new() -> (r: Self)
        ensures
            r.wf(),
            forall|k: int| !r.spec_contains(k),
            r.summary() =~= Map::<int, ResKind>::empty(),
    {
        ResourceTable { resources: Vec::new() }
    }

    proof fn lemma_entry_unique(&self, key: int, j: int)
        requires
            self.wf(),
            0 <= j < self.resources@.len(),
            self.resources@[j].0 == key,
        ensures
            self.spec_contains(key),
            self.entry_of(key) == j,
            self.spec_at(key) == self.resources@[j].1,
    {
        let k = self.entry_of(key);
        if k != j {
            assert(false);
        }
    }

    /// Looks up the live resource a reference points at, at the reference's
    /// type. The compiler has arranged for the node to be requested at or
    /// before the pass that uses the reference; the caller restates that
    /// arrangement.
    pub fn get_resource<ResourceType: TransientResource, ViewType: crate::resource_node::ResourceView>(
        &self,
        resource_ref: &ResourceRef<ResourceType, ViewType>,
    ) -> (r: &ResourceType)
        requires
            self.wf(),
            self.spec_contains(resource_ref.raw.index.index as int),
            <ResourceType as TransientResource>::fits(
                &self.spec_at(resource_ref.raw.index.index as int),
            ),
        ensures
            *r == <ResourceType as TransientResource>::of_any(
                self.spec_at(resource_ref.raw.index.index as int),
            ),
    {
        let key = resource_ref.raw.index.index;
        let n = self.resources.len();
        let mut j: usize = 0;
        while j < n
            invariant
                key == resource_ref.raw.index.index,
                self.wf(),
                self.spec_contains(key as int),
                <ResourceType as TransientResource>::fits(&self.spec_at(key as int)),
                n == self.resources@.len(),
                0 <= j <= n,
                forall|t: int| 0 <= t < j ==> #[trigger] self.resources@[t].0 != key,
            decreases n - j,
        {
            if self.resources[j].0 == key {
                proof {
                    self.lemma_entry_unique(key as int, j as int);
                }
                return <ResourceType as TransientResource>::borrow_resource(&self.resources[j].1);
            }
            j += 1;
        }
        proof {
            assert(!self.spec_contains(key as int));
        }
        unreached()
    }

    /// Installs a resource under a node index, replacing what was there.
    fn install(&mut self, key: usize, value: AnyTransientResource)
        requires
            old(self).wf(),
        ensures
            final(self).wf(),
            final(self).spec_contains(key as int),
            final(self).spec_at(key as int) == value,
            forall|k: int|
                k != key as int ==> #[trigger] final(self).spec_contains(k) == old(self).spec_contains(k),
            forall|k: int|
                k != key as int && old(self).spec_contains(k) ==> #[trigger] final(self).spec_at(k)
                    == old(self).spec_at(k),
    {
        let ghost pre = *self;
        let n = self.resources.len();
        let mut j: usize = 0;
        while j < n
            invariant
                *self == pre,
                pre == *old(self),
                pre.wf(),
                n == self.resources@.len(),
                0 <= j <= n,
                forall|t: int| 0 <= t < j ==> #[trigger] self.resources@[t].0 != key,
            decreases n - j,
        {
            if self.resources[j].0 == key {
                proof {
                    self.lemma_entry_unique(key as int, j as int);
                }
                let _old = self.resources.remove(j);
                self.resources.insert(j, (key, value));
                proof {
                    let jj = j as int;
                    assert(self.resources@.len() == pre.resources@.len());
                    assert(forall|t: int|
                        0 <= t < self.resources@.len() && t != jj ==> #[trigger] self.resources@[t]
                            == pre.resources@[t]);
                    assert(self.resources@[jj].0 == key);
                    assert(self.wf());
                    self.lemma_entry_unique(key as int, jj);
                    assert forall|k: int|
                        k != key as int implies #[trigger] self.spec_contains(k)
                        == pre.spec_contains(k) by {
                        lemma_same_keys_contains(&pre, self, k);
                    }
                    assert forall|k: int|
                        k != key as int && pre.spec_contains(k) implies #[trigger] self.spec_at(k)
                        == pre.spec_at(k) by {
                        let t = pre.entry_of(k);
                        pre.lemma_entry_unique(k, t);
                        assert(self.resources@[t].0 == k);
                        self.lemma_entry_unique(k, t);
                    }
                }
                return ;
            }
            j += 1;
        }
        let ghost m = self.resources@.len() as int;
        self.resources.push((key, value));
        proof {
            assert(!pre.spec_contains(key as int));
            assert(forall|t: int|
                0 <= t < m ==> #[trigger] self.resources@[t] == pre.resources@[t]);
            assert(self.resources@[m].0 == key);
            assert(self.wf()) by {
                assert forall|x: int, y: int|
                    0 <= x < y < self.resources@.len() implies self.resources@[x].0
                    != self.resources@[y].0 by {
                    if y == m {
                        if self.resources@[x].0 == key {
                            assert(pre.spec_contains(key as int));
                        }
                    }
                }
            }
            self.lemma_entry_unique(key as int, m);
            assert forall|k: int|
                k != key as int implies #[trigger] self.spec_contains(k) == pre.spec_contains(
                k,
            ) by {
                if pre.spec_contains(k) {
                    let t = pre.entry_of(k);
                    pre.lemma_entry_unique(k, t);
                    assert(self.resources@[t].0 == k);
                }
                if self.spec_contains(k) {
                    let t = self.entry_of(k);
                    assert(self.resources@[t].0 == k);
                    if t < m {
                        assert(pre.resources@[t].0 == k);
                        assert(pre.spec_contains(k));
                    }
                }
            }
            assert forall|k: int|
                k != key as int && pre.spec_contains(k) implies #[trigger] self.spec_at(k)
                == pre.spec_at(k) by {
                let t = pre.entry_of(k);
                pre.lemma_entry_unique(k, t);
                assert(self.resources@[t].0 == k);
                self.lemma_entry_unique(k, t);
            }
        }
    }

    /// Provides the live resource for one request: imported resources are
    /// shared in, engine-owned ones come from the pool when a free resource of
    /// the same descriptor exists, and from the device otherwise.
    pub fn request_resource(
        &mut self,
        request: &ResourceRequese,
        device: &wgpu::Device,
        transient_resource_cache: &mut TransientResourceCache,
    )
        requires
            old(self).wf(),
            old(transient_resource_cache).wf(),
            request.resource matches VirtualResource::Setuped(x)
                ==> crate::transient_resource::any_desc_valid(x),
        ensures
            final(self).wf(),
            final(transient_resource_cache).wf(),
            final(self).spec_contains(request.index.index as int),
            forall|k: int|
                k != request.index.index as int ==> #[trigger] final(self).spec_contains(k) == old(self).spec_contains(k),
            forall|k: int|
                k != request.index.index as int && old(self).spec_contains(k)
                    ==> #[trigger] final(self).spec_at(k) == old(self).spec_at(k),
            request.resource matches VirtualResource::Imported(a) ==> {
                &&& final(self).spec_at(request.index.index as int) == imported_resource(a)
                &&& forall|d: AnyTransientResourceDescriptor| #[trigger]
                    final(transient_resource_cache).spec_stack(d) == old(transient_resource_cache).spec_stack(d)
            },
            request.resource matches VirtualResource::Setuped(desc) ==> {
                let provided = final(self).spec_at(request.index.index as int);
                if old(transient_resource_cache).spec_stack(desc).len() > 0 {
                    &&& provided == old(transient_resource_cache).spec_stack(desc).last()
                    &&& forall|d: AnyTransientResourceDescriptor|
                        any_desc_matches(d, desc) ==> #[trigger] final(transient_resource_cache).spec_stack(d) == old(transient_resource_cache).spec_stack(
                            desc,
                        ).drop_last()
                    &&& forall|d: AnyTransientResourceDescriptor|
                        !any_desc_matches(d, desc) ==> #[trigger] final(transient_resource_cache).spec_stack(d) == old(transient_resource_cache).spec_stack(d)
                } else {
                    &&& provided.is_owned()
                    &&& (provided is OwnedBuffer <==> desc is Buffer)
                    &&& any_desc_matches(provided.spec_desc(), desc)
                    &&& any_desc_matches(desc, provided.spec_desc())
                    &&& forall|d: AnyTransientResourceDescriptor| #[trigger]
                        final(transient_resource_cache).spec_stack(d) == old(transient_resource_cache).spec_stack(d)
                }
            },
            final(self).summary() == old(self).summary().insert(
                request.index.index as int,
                req_kind(*request),
            ),
            final(self).spec_at(request.index.index as int).is_owned() == (
            request.resource is Setuped),
            any_desc_matches(
                final(self).spec_at(request.index.index as int).spec_desc(),
                req_prov(*request).desc,
            ),
            any_desc_matches(
                req_prov(*request).desc,
                final(self).spec_at(request.index.index as int).spec_desc(),
            ),
    {
        let index = request.index;
        let resource = match &request.resource {
            VirtualResource::Imported(resource) => {
                match resource {
                    ArcAnyTransientResource::Texture(resource) => {
                        AnyTransientResource::ImportedTexture(
                            crate::transient_resource::clone_arc(resource),
                        )
                    },
                    ArcAnyTransientResource::Buffer(resource) => {
                        AnyTransientResource::ImportedBuffer(
                            crate::transient_resource::clone_arc(resource),
                        )
                    },
                }
            },
            VirtualResource::Setuped(desc) => {
                match transient_resource_cache.get_resource(desc) {
                    Some(resource) => {
                        proof {
                            old(transient_resource_cache).lemma_stack_descs(
                                *desc,
                                old(transient_resource_cache).spec_stack(*desc).len() - 1,
                            );
                        }
                        resource
                    },
                    None => create_resource(device, desc),
                }
            },
        };
        proof {
            assert(resource.is_owned() == (request.resource is Setuped));
            assert(any_desc_matches(resource.spec_desc(), req_prov(*request).desc)
                && any_desc_matches(req_prov(*request).desc, resource.spec_desc())) by {
                match request.resource {
                    VirtualResource::Imported(a) => {
                        lemma_any_desc_matches_equivalence(
                            resource.spec_desc(),
                            resource.spec_desc(),
                            resource.spec_desc(),
                        );
                    },
                    VirtualResource::Setuped(d) => {},
                }
            }
        }
        proof {
            assert(kind_of(resource) == req_kind(*request)) by {
                match request.resource {
                    VirtualResource::Imported(a) => {},
                    VirtualResource::Setuped(d) => {
                        assert(any_desc_matches(resource.spec_desc(), d) || any_desc_matches(
                            d,
                            resource.spec_desc(),
                        ));
                        lemma_matches_same_kind(resource.spec_desc(), d);
                        lemma_matches_same_kind(d, resource.spec_desc());
                    },
                }
            }
        }
        self.install(index.index, resource);
        proof {
            let i = request.index.index as int;
            assert forall|k: int|
                #![all_triggers]
                true implies (self.summary().contains_key(k) == old(self).summary().insert(
                i,
                req_kind(*request),
            ).contains_key(k) && (self.summary().contains_key(k) ==> self.summary()[k] == old(self).summary().insert(i, req_kind(*request))[k])) by {
                if k == i {
                    assert(self.spec_contains(k));
                    assert(self.spec_at(k) == resource);
                } else {
                    assert(self.spec_contains(k) == old(self).spec_contains(k));
                    if self.spec_contains(k) {
                        assert(self.spec_at(k) == old(self).spec_at(k));
                    }
                }
            }
            assert(self.summary() =~= old(self).summary().insert(i, req_kind(*request)));
        }
    }

    /// Drops the entry for one node. An engine-owned resource goes back into
    /// the pool under its own descriptor; an imported one is simply released.
    pub fn release_resource(
        &mut self,
        release: &ResourceRelease,
        transient_resource_cache: &mut TransientResourceCache,
    )
        requires
            old(self).wf(),
            old(transient_resource_cache).wf(),
        ensures
            final(self).wf(),
            final(transient_resource_cache).wf(),
            !final(self).spec_contains(release.index.index as int),
            forall|k: int|
                k != release.index.index as int ==> #[trigger] final(self).spec_contains(k) == old(self).spec_contains(k),
            forall|k: int|
                k != release.index.index as int && old(self).spec_contains(k)
                    ==> #[trigger] final(self).spec_at(k) == old(self).spec_at(k),
            !old(self).spec_contains(release.index.index as int) ==> forall|
                d: AnyTransientResourceDescriptor,
            | #[trigger]
                final(transient_resource_cache).spec_stack(d) == old(transient_resource_cache).spec_stack(d),
            old(self).spec_contains(release.index.index as int) ==> {
                let removed = old(self).spec_at(release.index.index as int);
                if removed.is_owned() {
                    &&& forall|d: AnyTransientResourceDescriptor|
                        any_desc_matches(d, removed.spec_desc()) ==> #[trigger] final(transient_resource_cache).spec_stack(d) == old(transient_resource_cache).spec_stack(
                            removed.spec_desc(),
                        ).push(removed)
                    &&& forall|d: AnyTransientResourceDescriptor|
                        !any_desc_matches(d, removed.spec_desc()) ==> #[trigger] final(transient_resource_cache).spec_stack(d) == old(transient_resource_cache).spec_stack(d)
                } else {
                    forall|d: AnyTransientResourceDescriptor| #[trigger]
                        final(transient_resource_cache).spec_stack(d) == old(transient_resource_cache).spec_stack(d)
                }
            },
            final(self).summary() == old(self).summary().remove(release.index.index as int),
    {
        let ghost pre = *self;
        let key = release.index.index;
        let n = self.resources.len();
        let mut j: usize = 0;
        while j < n
            invariant
                key == release.index.index,
                *self == pre,
                pre == *old(self),
                pre.wf(),
                old(transient_resource_cache) == transient_resource_cache,
                old(transient_resource_cache).wf(),
                n == self.resources@.len(),
                0 <= j <= n,
                forall|t: int| 0 <= t < j ==> #[trigger] self.resources@[t].0 != key,
            decreases n - j,
        {
            if self.resources[j].0 == key {
                proof {
                    self.lemma_entry_unique(key as int, j as int);
                }
                let entry = self.resources.remove(j);
                proof {
                    let jj = j as int;
                    assert(entry == pre.resources@[jj]);
                    assert(self.resources@ == pre.resources@.remove(jj));
                    assert(self.wf());
                    assert(!self.spec_contains(key as int)) by {
                        if self.spec_contains(key as int) {
                            let t = self.entry_of(key as int);
                            assert(self.resources@[t].0 == key);
                            if t < jj {
                                assert(pre.resources@[t].0 == key);
                                assert(false);
                            } else {
                                assert(pre.resources@[t + 1].0 == key);
                                assert(false);
                            }
                        }
                    }
                    assert forall|k: int|
                        k != key as int implies #[trigger] self.spec_contains(k)
                        == pre.spec_contains(k) by {
                        if pre.spec_contains(k) {
                            let t = pre.entry_of(k);
                            pre.lemma_entry_unique(k, t);
                            if t < jj {
                                assert(self.resources@[t].0 == k);
                            } else {
                                assert(t > jj);
                                assert(self.resources@[t - 1].0 == k);
                            }
                        }
                        if self.spec_contains(k) {
                            let t = self.entry_of(k);
                            assert(self.resources@[t].0 == k);
                            if t < jj {
                                assert(pre.resources@[t].0 == k);
                            } else {
                                assert(pre.resources@[t + 1].0 == k);
                            }
                        }
                    }
                    assert forall|k: int|
                        k != key as int && pre.spec_contains(k) implies #[trigger] self.spec_at(k)
                        == pre.spec_at(k) by {
                        let t = pre.entry_of(k);
                        pre.lemma_entry_unique(k, t);
                        if t < jj {
                            assert(self.resources@[t].0 == k);
                            self.lemma_entry_unique(k, t);
                        } else {
                            assert(t > jj);
                            assert(self.resources@[t - 1].0 == k);
                            self.lemma_entry_unique(k, t - 1);
                        }
                    }
                }
                proof {
                    let i = key as int;
                    assert forall|k: int|
                        #![all_triggers]
                        true implies (self.summary().contains_key(k) == old(self).summary().remove(i).contains_key(k) && (self.summary().contains_key(k)
                        ==> self.summary()[k] == old(self).summary().remove(i)[k])) by {
                        if k != i {
                            if self.spec_contains(k) {
                                assert(self.spec_at(k) == old(self).spec_at(k));
                            }
                        }
                    }
                    assert(self.summary() =~= old(self).summary().remove(i));
                }
                match entry.1 {
                    AnyTransientResource::OwnedBuffer(buffer) => {
                        let ghost removed = AnyTransientResource::OwnedBuffer(buffer);
                        let desc = AnyTransientResourceDescriptor::Buffer(buffer.desc.duplicate());
                        proof {
                            lemma_any_desc_matches_equivalence(
                                removed.spec_desc(),
                                desc,
                                removed.spec_desc(),
                            );
                        }
                        transient_resource_cache.insert_resource(
                            desc,
                            AnyTransientResource::OwnedBuffer(buffer),
                        );
                        proof {
                            lemma_cache_effect_via_matching_key(
                                old(transient_resource_cache),
                                transient_resource_cache,
                                removed,
                                desc,
                            );
                        }
                    },
                    AnyTransientResource::OwnedTexture(texture) => {
                        let ghost removed = AnyTransientResource::OwnedTexture(texture);
                        let desc = AnyTransientResourceDescriptor::Texture(
                            texture.desc.duplicate(),
                        );
                        proof {
                            lemma_any_desc_matches_equivalence(
                                removed.spec_desc(),
                                desc,
                                removed.spec_desc(),
                            );
                        }
                        transient_resource_cache.insert_resource(
                            desc,
                            AnyTransientResource::OwnedTexture(texture),
                        );
                        proof {
                            lemma_cache_effect_via_matching_key(
                                old(transient_resource_cache),
                                transient_resource_cache,
                                removed,
                                desc,
                            );
                        }
                    },
                    _ => {
                    },
                }
                return ;
            }
            j += 1;
        }
        proof {
            assert(!self.spec_contains(key as int));
            assert(self.summary() =~= old(self).summary().remove(key as int));
        }
    }
}

/// The table entry an imported virtual resource provides.
pub open spec fn imported_resource(a: ArcAnyTransientResource) -> AnyTransientResource {
    match a {
        ArcAnyTransientResource::Buffer(b) => AnyTransientResource::ImportedBuffer(b),
        ArcAnyTransientResource::Texture(t) => AnyTransientResource::ImportedTexture(t),
    }
}

/// Matching descriptors describe resources of the same kind and, for
/// buffers, the same size.
pub proof fn lemma_matches_same_kind(
    a: AnyTransientResourceDescriptor,
    b: AnyTransientResourceDescriptor,
)
    ensures
        any_desc_matches(a, b) ==> desc_kind(a) == desc_kind(b),
{
}

/// The kind a descriptor describes.
pub open spec fn desc_kind(d: AnyTransientResourceDescriptor) -> ResKind {
    match d {
        AnyTransientResourceDescriptor::Buffer(x) => ResKind::Buf { size: x.size },
        AnyTransientResourceDescriptor::Texture(_) => ResKind::Tex,
    }
}

/// What the pool can tell about one live table entry: whether the engine
/// owns it, and a descriptor matching its own.
pub struct Prov {
    pub owned: bool,
    pub desc: AnyTransientResourceDescriptor,
}

/// The provenance summary of one live resource.
pub open spec fn prov_of_entry(res: AnyTransientResource) -> Prov {
    Prov { owned: res.is_owned(), desc: res.spec_desc() }
}

/// The provenance a request will install, whichever way it is satisfied.
pub open spec fn req_prov(r: ResourceRequese) -> Prov {
    match r.resource {
        VirtualResource::Setuped(x) => Prov { owned: true, desc: x },
        VirtualResource::Imported(a) => Prov { owned: false, desc: a.spec_desc() },
    }
}

/// Two provenance maps agree up to descriptor matching.
pub open spec fn prov_equiv(a: Map<int, Prov>, b: Map<int, Prov>) -> bool {
    &&& forall|i: int| a.contains_key(i) == b.contains_key(i)
    &&& forall|i: int|
        a.contains_key(i) ==> (#[trigger] a[i]).owned == b[i].owned && any_desc_matches(
            a[i].desc,
            b[i].desc,
        ) && any_desc_matches(b[i].desc, a[i].desc)
}

/// The free-stack length of one descriptor class after a request list is
/// satisfied, in order: each matching engine allocation pops a pooled
/// resource when one is free, and asks the device otherwise.
pub open spec fn pops_for(
    len: int,
    reqs: Seq<ResourceRequese>,
    d: AnyTransientResourceDescriptor,
) -> int
    decreases reqs.len(),
{
    if reqs.len() == 0 {
        len
    } else {
        let l2 = match reqs[0].resource {
            VirtualResource::Setuped(x) => if any_desc_matches(x, d) {
                if len > 0 {
                    len - 1
                } else {
                    0
                }
            } else {
                len
            },
            VirtualResource::Imported(_) => len,
        };
        pops_for(l2, reqs.drop_first(), d)
    }
}

/// The provenance map after a request list is satisfied, in order.
pub open spec fn prov_after_requests(m: Map<int, Prov>, reqs: Seq<ResourceRequese>) -> Map<
    int,
    Prov,
>
    decreases reqs.len(),
{
    if reqs.len() == 0 {
        m
    } else {
        prov_after_requests(
            m.insert(reqs[0].index.index as int, req_prov(reqs[0])),
            reqs.drop_first(),
        )
    }
}

/// The free-stack length of one descriptor class after a release list is
/// applied, in order: each release of a held engine-owned entry of a
/// matching descriptor pushes it back into the pool.
pub open spec fn pushes_for(
    len: int,
    m: Map<int, Prov>,
    rels: Seq<ResourceRelease>,
    d: AnyTransientResourceDescriptor,
) -> int
    decreases rels.len(),
{
    if rels.len() == 0 {
        len
    } else {
        let i = rels[0].index.index as int;
        let l2 = if m.contains_key(i) && m[i].owned && any_desc_matches(m[i].desc, d) {
            len + 1
        } else {
            len
        };
        pushes_for(l2, m.remove(i), rels.drop_first(), d)
    }
}

/// The provenance map after a release list is applied, in order.
pub open spec fn prov_after_releases(m: Map<int, Prov>, rels: Seq<ResourceRelease>) -> Map<
    int,
    Prov,
>
    decreases rels.len(),
{
    if rels.len() == 0 {
        m
    } else {
        prov_after_releases(m.remove(rels[0].index.index as int), rels.drop_first())
    }
}

/// Provenance agreement is reflexive.
pub proof fn lemma_prov_equiv_refl(a: Map<int, Prov>)
    ensures
        prov_equiv(a, a),
{
    assert forall|i: int|
        a.contains_key(i) implies ((#[trigger] a[i]).owned == a[i].owned && any_desc_matches(
        a[i].desc,
        a[i].desc,
    ) && any_desc_matches(a[i].desc, a[i].desc)) by {
        lemma_any_desc_matches_equivalence(a[i].desc, a[i].desc, a[i].desc);
    }
}

/// Provenance agreement is transitive.
pub proof fn lemma_prov_equiv_trans(a: Map<int, Prov>, b: Map<int, Prov>, c: Map<int, Prov>)
    requires
        prov_equiv(a, b),
        prov_equiv(b, c),
    ensures
        prov_equiv(a, c),
{
    assert forall|i: int|
        a.contains_key(i) implies ((#[trigger] a[i]).owned == c[i].owned && any_desc_matches(
        a[i].desc,
        c[i].desc,
    ) && any_desc_matches(c[i].desc, a[i].desc)) by {
        lemma_any_desc_matches_equivalence(a[i].desc, b[i].desc, c[i].desc);
        lemma_any_desc_matches_equivalence(c[i].desc, b[i].desc, a[i].desc);
    }
}

/// Satisfying the same requests over agreeing provenance maps keeps them
/// agreeing.
pub proof fn lemma_prov_after_requests_congruent(
    a: Map<int, Prov>,
    b: Map<int, Prov>,
    reqs: Seq<ResourceRequese>,
)
    requires
        prov_equiv(a, b),
    ensures
        prov_equiv(prov_after_requests(a, reqs), prov_after_requests(b, reqs)),
    decreases reqs.len(),
{
    if reqs.len() > 0 {
        let i = reqs[0].index.index as int;
        let v = req_prov(reqs[0]);
        assert(prov_equiv(a.insert(i, v), b.insert(i, v))) by {
            lemma_any_desc_matches_equivalence(v.desc, v.desc, v.desc);
            assert forall|k: int|
                a.insert(i, v).contains_key(k) implies ((#[trigger] a.insert(i, v)[k]).owned
                == b.insert(i, v)[k].owned && any_desc_matches(
                a.insert(i, v)[k].desc,
                b.insert(i, v)[k].desc,
            ) && any_desc_matches(b.insert(i, v)[k].desc, a.insert(i, v)[k].desc)) by {
                if k != i {
                    assert(a.contains_key(k));
                }
            }
        }
        lemma_prov_after_requests_congruent(a.insert(i, v), b.insert(i, v), reqs.drop_first());
    }
}

/// Applying the same releases over agreeing provenance maps pushes the same
/// number of resources per descriptor class.
pub proof fn lemma_pushes_for_congruent(
    len: int,
    a: Map<int, Prov>,
    b: Map<int, Prov>,
    rels: Seq<ResourceRelease>,
    d: AnyTransientResourceDescriptor,
)
    requires
        prov_equiv(a, b),
    ensures
        pushes_for(len, a, rels, d) == pushes_for(len, b, rels, d),
    decreases rels.len(),
{
    if rels.len() > 0 {
        let i = rels[0].index.index as int;
        if a.contains_key(i) {
            assert(any_desc_matches(a[i].desc, d) == any_desc_matches(b[i].desc, d)) by {
                if any_desc_matches(a[i].desc, d) {
                    lemma_any_desc_matches_equivalence(b[i].desc, a[i].desc, d);
                }
                if any_desc_matches(b[i].desc, d) {
                    lemma_any_desc_matches_equivalence(a[i].desc, b[i].desc, d);
                }
            }
        }
        assert(prov_equiv(a.remove(i), b.remove(i))) by {
            assert forall|k: int|
                a.remove(i).contains_key(k) implies ((#[trigger] a.remove(i)[k]).owned == b.remove(
                i,
            )[k].owned && any_desc_matches(a.remove(i)[k].desc, b.remove(i)[k].desc)
                && any_desc_matches(b.remove(i)[k].desc, a.remove(i)[k].desc)) by {
                assert(a.contains_key(k));
            }
        }
        lemma_pushes_for_congruent(
            if a.contains_key(i) && a[i].owned && any_desc_matches(a[i].desc, d) {
                len + 1
            } else {
                len
            },
            a.remove(i),
            b.remove(i),
            rels.drop_first(),
            d,
        );
    }
}

/// Applying the same releases over agreeing provenance maps keeps them
/// agreeing.
pub proof fn lemma_prov_after_releases_congruent(
    a: Map<int, Prov>,
    b: Map<int, Prov>,
    rels: Seq<ResourceRelease>,
)
    requires
        prov_equiv(a, b),
    ensures
        prov_equiv(prov_after_releases(a, rels), prov_after_releases(b, rels)),
    decreases rels.len(),
{
    if rels.len() > 0 {
        let i = rels[0].index.index as int;
        assert(prov_equiv(a.remove(i), b.remove(i))) by {
            assert forall|k: int|
                a.remove(i).contains_key(k) implies ((#[trigger] a.remove(i)[k]).owned == b.remove(
                i,
            )[k].owned && any_desc_matches(a.remove(i)[k].desc, b.remove(i)[k].desc)
                && any_desc_matches(b.remove(i)[k].desc, a.remove(i)[k].desc)) by {
                assert(a.contains_key(k));
            }
        }
        lemma_prov_after_releases_congruent(a.remove(i), b.remove(i), rels.drop_first());
    }
}

/// What a recorded command needs to know of a live resource: its kind, and
/// for buffers the size it was created with.
pub enum ResKind {
    Buf { size: u64 },
    Tex,
}

/// The kind summary of one live resource.
pub open spec fn kind_of(res: AnyTransientResource) -> ResKind {
    match res {
        AnyTransientResource::OwnedBuffer(b) => ResKind::Buf { size: b.desc.size },
        AnyTransientResource::ImportedBuffer(b) => ResKind::Buf { size: b.desc.size },
        AnyTransientResource::OwnedTexture(_) => ResKind::Tex,
        AnyTransientResource::ImportedTexture(_) => ResKind::Tex,
    }
}

/// The kind a request will install, whichever way it is satisfied.
pub open spec fn req_kind(r: ResourceRequese) -> ResKind {
    match r.resource {
        VirtualResource::Imported(a) => kind_of(imported_resource(a)),
        VirtualResource::Setuped(desc) => match desc {
            AnyTransientResourceDescriptor::Buffer(d) => ResKind::Buf { size: d.size },
            AnyTransientResourceDescriptor::Texture(_) => ResKind::Tex,
        },
    }
}

/// The summary after a list of requests has been satisfied, in order.
pub open spec fn apply_requests(s: Map<int, ResKind>, reqs: Seq<ResourceRequese>) -> Map<
    int,
    ResKind,
>
    decreases reqs.len(),
{
    if reqs.len() == 0 {
        s
    } else {
        apply_requests(s.insert(reqs[0].index.index as int, req_kind(reqs[0])), reqs.drop_first())
    }
}

/// The summary after a list of releases has been applied, in order.
pub open spec fn apply_releases(s: Map<int, ResKind>, rels: Seq<ResourceRelease>) -> Map<
    int,
    ResKind,
>
    decreases rels.len(),
{
    if rels.len() == 0 {
        s
    } else {
        apply_releases(s.remove(rels[0].index.index as int), rels.drop_first())
    }
}

/// A buffer of at least this size is known under the index.
pub open spec fn summary_buffer_at_least(s: Map<int, ResKind>, i: int, bound: int) -> bool {
    s.contains_key(i) && match s[i] {
        ResKind::Buf { size } => bound <= size,
        ResKind::Tex => false,
    }
}

/// A texture is known under the index.
pub open spec fn summary_texture(s: Map<int, ResKind>, i: int) -> bool {
    s.contains_key(i) && s[i] is Tex
}

/// Bridges the summary of a table to the facts lookups need, for a buffer.
pub proof fn lemma_summary_buffer(table: &ResourceTable, i: int)
    requires
        table.summary().contains_key(i),
        table.summary()[i] is Buf,
    ensures
        table.spec_contains(i),
        TransientBuffer::fits(&table.spec_at(i)),
        TransientBuffer::of_any(table.spec_at(i)).desc.size == table.summary()[i]->Buf_size,
{
    assert(table.spec_contains(i));
    assert(table.summary()[i] == kind_of(table.spec_at(i)));
}

/// Bridges the summary of a table to the facts lookups need, for a texture.
pub proof fn lemma_summary_texture(table: &ResourceTable, i: int)
    requires
        table.summary().contains_key(i),
        table.summary()[i] is Tex,
    ensures
        table.spec_contains(i),
        TransientTexture::fits(&table.spec_at(i)),
{
    assert(table.spec_contains(i));
    assert(table.summary()[i] == kind_of(table.spec_at(i)));
}

proof fn lemma_same_keys_contains(pre: &ResourceTable, post: &ResourceTable, k: int)
    requires
        pre.resources@.len() == post.resources@.len(),
        forall|t: int|
            0 <= t < pre.resources@.len() ==> #[trigger] post.resources@[t].0
                == pre.resources@[t].0,
    ensures
        post.spec_contains(k) == pre.spec_contains(k),
{
    if pre.spec_contains(k) {
        let t = pre.entry_of(k);
        assert(pre.resources@[t].0 == k);
        assert(post.resources@[t].0 == k);
    }
    if post.spec_contains(k) {
        let t = post.entry_of(k);
        assert(post.resources@[t].0 == k);
        assert(pre.resources@[t].0 == k);
    }
}

/// Inserting under a matching duplicate of a resource's own descriptor has
/// the same effect on every stack as inserting under the descriptor itself.
proof fn lemma_cache_effect_via_matching_key(
    pre: &TransientResourceCache,
    post: &TransientResourceCache,
    removed: AnyTransientResource,
    key: AnyTransientResourceDescriptor,
)
    requires
        pre.wf(),
        any_desc_matches(removed.spec_desc(), key),
        any_desc_matches(key, removed.spec_desc()),
        forall|d: AnyTransientResourceDescriptor|
            any_desc_matches(d, key) ==> #[trigger] post.spec_stack(d) == pre.spec_stack(key).push(
                removed,
            ),
        forall|d: AnyTransientResourceDescriptor|
            !any_desc_matches(d, key) ==> #[trigger] post.spec_stack(d) == pre.spec_stack(d),
    ensures
        forall|d: AnyTransientResourceDescriptor|
            any_desc_matches(d, removed.spec_desc()) ==> #[trigger] post.spec_stack(d)
                == pre.spec_stack(removed.spec_desc()).push(removed),
        forall|d: AnyTransientResourceDescriptor|
            !any_desc_matches(d, removed.spec_desc()) ==> #[trigger] post.spec_stack(d)
                == pre.spec_stack(d),
{
    pre.lemma_stack_respects_matches(removed.spec_desc(), key);
    assert(pre.spec_stack(removed.spec_desc()) == pre.spec_stack(key));
    assert forall|d: AnyTransientResourceDescriptor|
        any_desc_matches(d, removed.spec_desc()) implies #[trigger] post.spec_stack(d)
        == pre.spec_stack(removed.spec_desc()).push(removed) by {
        lemma_any_desc_matches_equivalence(d, removed.spec_desc(), key);
        assert(any_desc_matches(d, key));
    }
    assert forall|d: AnyTransientResourceDescriptor|
        !any_desc_matches(d, removed.spec_desc()) implies #[trigger] post.spec_stack(d)
        == pre.spec_stack(d) by {
        if any_desc_matches(d, key) {
            lemma_any_desc_matches_equivalence(key, removed.spec_desc(), d);
            lemma_any_desc_matches_equivalence(d, key, removed.spec_desc());
            assert(false);
        }
    }
}

} // verus!
