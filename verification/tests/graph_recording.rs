use frame_graph::{
    FrameGraph, TransientBuffer, TransientBufferDescriptor, TransientTexture,
    TransientTextureDescriptor,
};

fn buffer_desc(label: &str, size: u64) -> TransientBufferDescriptor {
    TransientBufferDescriptor {
        label: Some(label.to_string()),
        size,
        usage: wgpu::BufferUsages::VERTEX,
        mapped_at_creation: false,
    }
}

fn texture_desc(label: &str, side: u32) -> TransientTextureDescriptor {
    TransientTextureDescriptor {
        label: Some(label.to_string()),
        size: wgpu::Extent3d { width: side, height: side, depth_or_array_layers: 1 },
        mip_level_count: 1,
        sample_count: 1,
        dimension: wgpu::TextureDimension::D2,
        format: wgpu::TextureFormat::Rgba8Unorm,
        usage: wgpu::TextureUsages::RENDER_ATTACHMENT,
        view_formats: Vec::new(),
    }
}

#[test]
fn create_hands_back_version_zero() {
    let mut graph = FrameGraph::new();
    let handle = graph.create::<TransientBuffer>("vbo", buffer_desc("vbo", 1024));
    assert_eq!(handle.raw.index.index, 0);
    assert_eq!(handle.raw.version, 0);
    assert_eq!(graph.resource_nodes.len(), 1);
    assert_eq!(graph.resource_nodes[0].name, "vbo");
    assert_eq!(graph.resource_nodes[0].version, 0);
}

#[test]
fn write_returns_the_next_version_each_time() {
    let mut graph = FrameGraph::new();
    let handle = graph.create::<TransientBuffer>("vbo", buffer_desc("vbo", 64));
    let h2 = handle.duplicate();
    let mut builder = graph.create_pass_buidlder("A");
    let w1 = builder.write(handle);
    assert_eq!(w1.raw.version, 1);
    let w2 = builder.write(h2);
    assert_eq!(w2.raw.version, 2);
    assert_eq!(w2.raw.index.index, w1.raw.index.index);
    let graph = builder.finish();
    assert_eq!(graph.resource_nodes[0].version, 2);
    assert_eq!(graph.pass_nodes[0].writes.len(), 2);
    assert_eq!(graph.pass_nodes[0].writes[0].version, 1);
    assert_eq!(graph.pass_nodes[0].writes[1].version, 2);
}

#[test]
fn read_returns_the_same_raw_handle() {
    let mut graph = FrameGraph::new();
    let handle = graph.create::<TransientBuffer>("vbo", buffer_desc("vbo", 64));
    let h2 = handle.duplicate();
    let mut builder = graph.create_pass_buidlder("A");
    let r = builder.read(handle);
    assert_eq!(r.raw.index.index, h2.raw.index.index);
    assert_eq!(r.raw.version, h2.raw.version);
}

#[test]
fn reads_are_deduplicated_by_raw_handle() {
    let mut graph = FrameGraph::new();
    let handle = graph.create::<TransientBuffer>("vbo", buffer_desc("vbo", 64));
    let h2 = handle.duplicate();
    let h3 = handle.duplicate();
    let mut builder = graph.create_pass_buidlder("A");
    let _ = builder.read(handle);
    let _ = builder.read(h2);
    let _ = builder.read(h3);
    let graph = builder.finish();
    assert_eq!(graph.pass_nodes[0].reads.len(), 1);
}

#[test]
fn reads_of_different_versions_are_kept_apart() {
    let mut graph = FrameGraph::new();
    let handle = graph.create::<TransientBuffer>("vbo", buffer_desc("vbo", 64));
    let at_v0 = handle.duplicate();
    let mut builder = graph.create_pass_buidlder("A");
    let w = builder.write(handle);
    // reconstruct a handle at the written version, as a client would keep it
    let mut graph = builder.finish();
    let at_v1 = graph.get::<TransientBuffer>("vbo");
    assert!(at_v1.is_none());
    graph.insert("vbo", at_v0.raw.index);
    let at_v1 = graph.get::<TransientBuffer>("vbo").expect("published");
    assert_eq!(at_v1.raw.version, 1);
    let mut builder = graph.create_pass_buidlder("B");
    let _ = builder.read(at_v0);
    let _ = builder.read(at_v1);
    let graph = builder.finish();
    assert_eq!(graph.pass_nodes[1].reads.len(), 2);
    assert_eq!(graph.pass_nodes[1].reads[0].version, 0);
    assert_eq!(graph.pass_nodes[1].reads[1].version, 1);
    let _ = w;
}

#[test]
fn get_or_create_deduplicates_by_name() {
    let mut graph = FrameGraph::new();
    let first = graph.get_or_create::<TransientTexture>("shadow", texture_desc("shadow", 256));
    let second = graph.get_or_create::<TransientTexture>("shadow", texture_desc("shadow", 256));
    assert_eq!(graph.resource_nodes.len(), 1);
    assert_eq!(first.raw.index.index, second.raw.index.index);
}

#[test]
fn pass_names_are_recorded_in_order() {
    let mut graph = FrameGraph::new();
    let builder = graph.create_pass_buidlder("first");
    let graph = builder.finish();
    let builder = graph.create_pass_buidlder("second");
    let graph = builder.finish();
    assert_eq!(graph.pass_nodes.len(), 2);
    assert_eq!(graph.pass_nodes[0].name, "first");
    assert_eq!(graph.pass_nodes[1].name, "second");
    assert_eq!(graph.pass_nodes[0].index, 0);
    assert_eq!(graph.pass_nodes[1].index, 1);
}

struct UniformMaterial {
    backing: std::sync::Arc<TransientBuffer>,
}

impl frame_graph::ResourceMaterial for UniformMaterial {
    type ResourceType = TransientBuffer;

    fn imported(&self, frame_graph: &mut FrameGraph) -> frame_graph::ResourceHandle<TransientBuffer> {
        frame_graph.import::<TransientBuffer>("material_ubo", self.backing.clone())
    }
}

#[test]
fn materials_import_once_and_share_the_node() {
    let (buffer, _device, _queue) = noop_buffer(64);
    let backing = std::sync::Arc::new(TransientBuffer {
        resource: buffer,
        desc: buffer_desc("material_ubo", 64),
    });
    let material = UniformMaterial { backing };
    let graph = FrameGraph::new();
    let mut builder = graph.create_pass_node_builder("A");
    let r1 = builder.read_material(&material);
    let r2 = builder.read_material(&material);
    assert_eq!(r1.raw.index.index, r2.raw.index.index);
    let graph = builder.finish();
    assert_eq!(graph.resource_nodes.len(), 1);
    assert_eq!(graph.pass_nodes[0].reads.len(), 1);
}

fn noop_buffer(size: u64) -> (wgpu::Buffer, wgpu::Device, wgpu::Queue) {
    let mut desc = wgpu::InstanceDescriptor::new_without_display_handle();
    desc.backends = wgpu::Backends::NOOP;
    desc.backend_options.noop = wgpu::NoopBackendOptions::enabled();
    let instance = wgpu::Instance::new(desc);
    let adapter = pollster::block_on(
        instance.request_adapter(&wgpu::RequestAdapterOptions::default()),
    )
    .expect("adapter");
    let (device, queue) = pollster::block_on(
        adapter.request_device(&wgpu::DeviceDescriptor::default()),
    )
    .expect("device");
    let buffer = device.create_buffer(&wgpu::BufferDescriptor {
        label: None,
        size,
        usage: wgpu::BufferUsages::UNIFORM,
        mapped_at_creation: false,
    });
    (buffer, device, queue)
}

#[test]
fn an_empty_pipeline_container_holds_nothing() {
    let container = frame_graph::PipelineContainer::new();
    assert!(container.get_render_pipeline(0).is_none());
    assert!(container.get_compute_pipeline(3).is_none());
}
