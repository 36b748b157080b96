//! A frame graph: a per-frame declarative scheduler for GPU work.
//!
//! A client records named passes that declare which logical resources they
//! read and write, through scoped builders. Compiling the graph derives each
//! resource's lifetime over the pass list and turns it into a linear list of
//! device passes, each carrying the set of resources to request before it
//! runs and to release after it. Executing walks that list in declaration
//! order: engine-owned resources come from a descriptor-keyed pool (or from
//! the device on a pool miss) and go back to the pool on release, imported
//! resources are shared in and dropped on release, and each pass body replays
//! its recorded commands into a fresh command encoder.
//!
//! The scheduling and lifetime machinery is verified: versioned handles move
//! forward one version per write, declared reads are kept once each, the
//! compiler requests every used resource exactly once (at its first use) and
//! releases it exactly once (at its last use), the pool hands resources back
//! last-in-first-out per descriptor, and a compiled graph provably supplies
//! every pass's resources when run on a fresh table. The GPU API itself is
//! out of scope: its objects pass through opaquely behind a small set of
//! declared types and trusted wrappers.
//!
//! Two boundaries are worth knowing. Builders own the graph while a pass is
//! recorded: the graph comes back only from `finish`, so dropping a builder
//! without finishing loses the graph itself rather than committing the pass.
//! And depth-stencil attachments carry floating-point clear values the
//! verified library does not hold: a companion crate can attach them to
//! render passes begun by hand, but they cannot flow through the graph's own
//! execute loop, whose render passes take color attachments only.
use vstd::prelude::*;

mod bind_group;
mod gpu;
mod graph;
mod index;
mod pass;
mod pass_node;
mod pipeline_container;
mod resource_board;
mod resource_node;
mod resource_table;
mod texture_view;
mod transient_resource;

pub use bind_group::{
    entry_converted, BufferBinding, GpuBindGroupEntry, GpuBindingResource, TransientBindGroup,
    TransientBindGroupBuffer, TransientBindGroupDescriptor, TransientBindGroupEntry,
    TransientBindGroupResource, TransientBindGroupTextureView,
};
pub use graph::{
    active_summary, alive_at, cache_len_seq, count_bodies, device_pass_matches, first_idx,
    has_index, has_raw, held_before, held_summary, last_idx, lemma_compiled_graph_ready,
    prov_after_seq, raws_distinct,
    lemma_request_release_unique, lemma_use_within_lifetime, lifetimes_assigned, node_lifetime_ok,
    node_used, pass_node_kept_except_body, ready_seq, request_entry_matches, requests_assigned,
    strictly_increasing, touches, CompiledFrameGraph, DevicePass, FrameGraph, FrameGraphContext,
    ResourceMaterial, DrawIndexedParameter, DrawParameter, PassBuilder, PassNodeBuilder,
    RenderPassBuilder, SetBindGroupParameter, SetIndexBufferParameter, SetRenderPipelineParameter,
    SetVertexBufferParameter,
};
pub use index::IndexHandle;
pub use pass::{
    attachment_converted, GpuRenderPass, Pass, PassContext, RenderPassColorAttachment,
    RenderPassContext, RenderPassDescriptor, RenderPassParameter, TransientRenderPass,
    TransientRenderPassColorAttachment, TransientRenderPassDescriptor,
};
pub use pass_node::PassNode;
pub use pipeline_container::{GetPipelineContainer, Pipeline, PipelineContainer};
pub use resource_board::{ResourceBoard, ResourceBoardKey};
pub use resource_node::{
    RawResourceHandle, ResourceHandle, ResourceNode, ResourceRead, ResourceRef, ResourceRelease,
    ResourceRequese, ResourceView, ResourceWrite,
};
pub use resource_table::{
    apply_releases, apply_requests, create_resource, desc_kind, imported_resource, kind_of,
    lemma_prov_after_releases_congruent, lemma_prov_after_requests_congruent,
    lemma_prov_equiv_refl, lemma_prov_equiv_trans, lemma_pushes_for_congruent, pops_for,
    prov_after_releases, prov_after_requests, prov_equiv, prov_of_entry, pushes_for, req_kind,
    req_prov, summary_buffer_at_least, summary_texture, Prov, ResKind, ResourceTable,
};
pub use texture_view::{
    TextureViewDescriptor, TransientTextureView, TransientTextureViewDescriptor,
    TransientTextureViewDescriptorRead, TransientTextureViewDescriptorWrite,
};
pub use transient_resource::{
    any_desc_matches, any_desc_valid, buffer_desc_matches, lemma_any_desc_matches_equivalence, lemma_pool_lifo,
    opt_label_eq, texture_desc_matches, vr_matches, AnyTransientResource,
    AnyTransientResourceDescriptor, ArcAnyTransientResource, IntoArcAnyTransientResource,
    TransientBuffer, TransientBufferDescriptor, TransientResource, TransientResourceCache,
    TransientResourceDescriptor, TransientTexture, TransientTextureDescriptor, VirtualResource,
    COPY_BUFFER_ALIGNMENT,
};

verus! {

} // verus!
