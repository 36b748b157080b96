//! Declarations for the GPU API types that the frame graph carries around.
//!
//! The graph never looks inside these values: it stores them, hands them to
//! the GPU, and recycles them keyed by its own descriptor records. Each type
//! below is therefore declared opaque, and the few facts the contracts need
//! about them (equality of usage flags, formats and dimensions) are stated on
//! small trusted wrappers over the derived comparisons.
use vstd::prelude::*;

verus! {

#[verifier::external_type_specification]
#[verifier::external_body]
pub struct ExDevice(wgpu::Device);

#[verifier::external_type_specification]
#[verifier::external_body]
pub struct ExBuffer(wgpu::Buffer);

#[verifier::external_type_specification]
#[verifier::external_body]
pub struct ExTexture(wgpu::Texture);

#[verifier::external_type_specification]
#[verifier::external_body]
pub struct ExTextureView(wgpu::TextureView);

#[verifier::external_type_specification]
#[verifier::external_body]
pub struct ExSampler(wgpu::Sampler);

#[verifier::external_type_specification]
#[verifier::external_body]
pub struct ExBindGroup(wgpu::BindGroup);

#[verifier::external_type_specification]
#[verifier::external_body]
pub struct ExBindGroupLayout(wgpu::BindGroupLayout);

#[verifier::external_type_specification]
#[verifier::external_body]
pub struct ExCommandEncoder(wgpu::CommandEncoder);

#[verifier::external_type_specification]
#[verifier::external_body]
pub struct ExCommandBuffer(wgpu::CommandBuffer);

#[verifier::external_type_specification]
#[verifier::external_body]
pub struct ExWgpuRenderPass<'a>(wgpu::RenderPass<'a>);

#[verifier::external_type_specification]
#[verifier::external_body]
pub struct ExRenderPipeline(wgpu::RenderPipeline);

#[verifier::external_type_specification]
#[verifier::external_body]
pub struct ExComputePipeline(wgpu::ComputePipeline);

#[verifier::external_type_specification]
#[verifier::external_body]
pub struct ExBufferUsages(wgpu::BufferUsages);

#[verifier::external_type_specification]
#[verifier::external_body]
pub struct ExTextureUsages(wgpu::TextureUsages);

#[verifier::external_type_specification]
#[verifier::external_body]
pub struct ExTextureFormat(wgpu::TextureFormat);

#[verifier::external_type_specification]
#[verifier::external_body]
pub struct ExTextureDimension(wgpu::TextureDimension);

#[verifier::external_type_specification]
#[verifier::external_body]
pub struct ExTextureViewDimension(wgpu::TextureViewDimension);

#[verifier::external_type_specification]
#[verifier::external_body]
pub struct ExTextureAspect(wgpu::TextureAspect);

#[verifier::external_type_specification]
pub struct ExExtent3d(wgpu::Extent3d);

#[verifier::external_type_specification]
#[verifier::external_body]
pub struct ExIndexFormat(wgpu::IndexFormat);

#[verifier::external_type_specification]
#[verifier::external_body]
pub struct ExColor(wgpu::Color);

#[verifier::external_type_specification]
#[verifier::external_body]
#[verifier::reject_recursive_types(V)]
pub struct ExOperations<V>(wgpu::Operations<V>);

/// Relies on the derived equality of wgpu::BufferUsages, which compares the
/// underlying bit set field for field.
#[verifier::external_body]
pub(crate) fn buffer_usages_eq(a: &wgpu::BufferUsages, b: &wgpu::BufferUsages) -> (r: bool)
    ensures
        r == (a == b),
{
    a == b
}

/// Relies on the derived equality of wgpu::TextureUsages, which compares the
/// underlying bit set field for field.
#[verifier::external_body]
pub(crate) fn texture_usages_eq(a: &wgpu::TextureUsages, b: &wgpu::TextureUsages) -> (r: bool)
    ensures
        r == (a == b),
{
    a == b
}

/// Relies on the derived equality of wgpu::TextureFormat, which compares the
/// variants and their payloads structurally.
#[verifier::external_body]
pub(crate) fn texture_format_eq(a: &wgpu::TextureFormat, b: &wgpu::TextureFormat) -> (r: bool)
    ensures
        r == (a == b),
{
    a == b
}

/// Relies on the derived equality of wgpu::TextureDimension, a fieldless enum.
#[verifier::external_body]
pub(crate) fn texture_dimension_eq(a: &wgpu::TextureDimension, b: &wgpu::TextureDimension) -> (r: bool)
    ensures
        r == (a == b),
{
    a == b
}

} // verus!
