use frame_graph::{
    create_resource, AnyTransientResource, AnyTransientResourceDescriptor, FrameGraph,
    FrameGraphContext, PipelineContainer, TransientBuffer, TransientBufferDescriptor,
    TransientResourceCache, TransientResourceDescriptor, TransientTextureDescriptor,
};
use std::sync::Arc;

fn device() -> (wgpu::Device, wgpu::Queue) {
    let mut desc = wgpu::InstanceDescriptor::new_without_display_handle();
    desc.backends = wgpu::Backends::NOOP;
    desc.backend_options.noop = wgpu::NoopBackendOptions::enabled();
    let instance = wgpu::Instance::new(desc);
    let adapter = pollster::block_on(
        instance.request_adapter(&wgpu::RequestAdapterOptions::default()),
    )
    .expect("adapter");
    pollster::block_on(adapter.request_device(&wgpu::DeviceDescriptor::default()))
        .expect("device")
}

fn buffer_desc(label: &str, size: u64) -> TransientBufferDescriptor {
    TransientBufferDescriptor {
        label: Some(label.to_string()),
        size,
        usage: wgpu::BufferUsages::VERTEX,
        mapped_at_creation: false,
    }
}

fn texture_desc(label: &str, side: u32) -> TransientTextureDescriptor {
    TransientTextureDescriptor {
        label: Some(label.to_string()),
        size: wgpu::Extent3d { width: side, height: side, depth_or_array_layers: 1 },
        mip_level_count: 1,
        sample_count: 1,
        dimension: wgpu::TextureDimension::D2,
        format: wgpu::TextureFormat::Rgba8Unorm,
        usage: wgpu::TextureUsages::RENDER_ATTACHMENT,
        view_formats: Vec::new(),
    }
}

#[test]
fn created_buffers_carry_their_descriptor() {
    let (device, _queue) = device();
    let desc = AnyTransientResourceDescriptor::Buffer(buffer_desc("test buffer", 1024));
    let resource = create_resource(&device, &desc);
    match resource {
        AnyTransientResource::OwnedBuffer(buffer) => {
            assert_eq!(buffer.desc.label.as_deref(), Some("test buffer"));
            assert_eq!(buffer.desc.size, 1024);
            assert_eq!(buffer.desc.usage, wgpu::BufferUsages::VERTEX);
        },
        _ => panic!("expected an owned buffer"),
    }
}

#[test]
fn created_textures_carry_their_descriptor() {
    let (device, _queue) = device();
    let texture_desc = TransientTextureDescriptor {
        label: Some("test texture".to_string()),
        size: wgpu::Extent3d { width: 256, height: 256, depth_or_array_layers: 1 },
        mip_level_count: 4,
        sample_count: 1,
        dimension: wgpu::TextureDimension::D2,
        format: wgpu::TextureFormat::Rgba8Unorm,
        usage: wgpu::TextureUsages::TEXTURE_BINDING,
        view_formats: Vec::new(),
    };
    let resource = create_resource(
        &device,
        &AnyTransientResourceDescriptor::Texture(texture_desc),
    );
    match resource {
        AnyTransientResource::OwnedTexture(texture) => {
            assert_eq!(texture.desc.label.as_deref(), Some("test texture"));
            assert_eq!(texture.desc.size.width, 256);
            assert_eq!(texture.desc.mip_level_count, 4);
            assert_eq!(texture.desc.format, wgpu::TextureFormat::Rgba8Unorm);
        },
        _ => panic!("expected an owned texture"),
    }
}

#[test]
fn multiple_resources_are_created_in_one_run() {
    let (device, _queue) = device();
    let buffer_desc = TransientBufferDescriptor {
        label: None,
        size: 2048,
        usage: wgpu::BufferUsages::INDEX,
        mapped_at_creation: false,
    };
    let texture_desc = TransientTextureDescriptor {
        label: None,
        size: wgpu::Extent3d { width: 512, height: 512, depth_or_array_layers: 1 },
        mip_level_count: 1,
        sample_count: 1,
        dimension: wgpu::TextureDimension::D2,
        format: wgpu::TextureFormat::Rgba8Unorm,
        usage: wgpu::TextureUsages::RENDER_ATTACHMENT,
        view_formats: Vec::new(),
    };
    let buffer_resource = create_resource(
        &device,
        &AnyTransientResourceDescriptor::Buffer(buffer_desc),
    );
    let texture_resource = create_resource(
        &device,
        &AnyTransientResourceDescriptor::Texture(texture_desc),
    );
    match buffer_resource {
        AnyTransientResource::OwnedBuffer(_) => {},
        _ => panic!("expected an owned buffer"),
    }
    match texture_resource {
        AnyTransientResource::OwnedTexture(_) => {},
        _ => panic!("expected an owned texture"),
    }
}

#[test]
fn pool_is_last_in_first_out_per_descriptor() {
    let (device, _queue) = device();
    let desc_a = buffer_desc("a", 64);
    let res1 = create_resource(&device, &AnyTransientResourceDescriptor::Buffer(desc_a.duplicate()));
    let res2 = create_resource(&device, &AnyTransientResourceDescriptor::Buffer(desc_a.duplicate()));
    let other = create_resource(&device, &AnyTransientResourceDescriptor::Buffer(buffer_desc("b", 64)));

    let mut cache = TransientResourceCache::new();
    cache.insert_resource(AnyTransientResourceDescriptor::Buffer(desc_a.duplicate()), res1);
    cache.insert_resource(AnyTransientResourceDescriptor::Buffer(desc_a.duplicate()), res2);
    cache.insert_resource(AnyTransientResourceDescriptor::Buffer(buffer_desc("b", 64)), other);

    // the most recently pooled resource of a descriptor comes back first
    let key = AnyTransientResourceDescriptor::Buffer(desc_a.duplicate());
    assert!(cache.get_resource(&key).is_some());
    assert!(cache.get_resource(&key).is_some());
    assert!(cache.get_resource(&key).is_none());
    // the other descriptor's stack is untouched by those pops
    let other_key = AnyTransientResourceDescriptor::Buffer(buffer_desc("b", 64));
    assert!(cache.get_resource(&other_key).is_some());
    assert!(cache.get_resource(&other_key).is_none());
}

#[test]
fn pool_misses_on_a_different_label() {
    let (device, _queue) = device();
    let res = create_resource(
        &device,
        &AnyTransientResourceDescriptor::Buffer(buffer_desc("named", 64)),
    );
    let mut cache = TransientResourceCache::new();
    cache.insert_resource(AnyTransientResourceDescriptor::Buffer(buffer_desc("named", 64)), res);
    let probe = AnyTransientResourceDescriptor::Buffer(buffer_desc("other", 64));
    assert!(cache.get_resource(&probe).is_none());
}

#[test]
fn executed_frame_pools_its_transient_buffer() {
    let (device, _queue) = device();
    let mut graph = FrameGraph::new();
    let handle = graph.create::<TransientBuffer>("vbo", buffer_desc("vbo", 1024));
    let mut builder = graph.create_pass_buidlder("A");
    let _ = builder.write(handle);
    let mut graph = builder.finish();
    graph.compile();

    let mut context = FrameGraphContext::new(PipelineContainer::new(), &device, TransientResourceCache::new());
    graph.execute(&mut context);
    let (buffers, mut cache) = context.finish();
    assert_eq!(buffers.len(), 1);

    // exactly one free buffer of the descriptor is pooled
    let key = AnyTransientResourceDescriptor::Buffer(buffer_desc("vbo", 1024));
    assert!(cache.get_resource(&key).is_some());
    assert!(cache.get_resource(&key).is_none());
    // and the graph is reset
    assert_eq!(graph.resource_nodes.len(), 0);
    assert_eq!(graph.pass_nodes.len(), 0);
    assert!(graph.compiled_frame_graph.is_none());
}

#[test]
fn imported_resources_never_enter_the_pool() {
    let (device, _queue) = device();
    let external = match create_resource(
        &device,
        &AnyTransientResourceDescriptor::Buffer(buffer_desc("frame_ubo", 256)),
    ) {
        AnyTransientResource::OwnedBuffer(b) => Arc::new(b),
        _ => panic!("expected a buffer"),
    };

    let mut graph = FrameGraph::new();
    let handle = graph.import::<TransientBuffer>("frame_ubo", external.clone());
    let h2 = handle.duplicate();
    let mut builder = graph.create_pass_buidlder("A");
    let _ = builder.read(handle);
    let graph = builder.finish();
    let mut builder = graph.create_pass_buidlder("B");
    let _ = builder.read(h2);
    let mut graph = builder.finish();
    graph.compile();

    assert_eq!(graph.pass_nodes[0].resource_request_array.len(), 1);
    assert_eq!(graph.pass_nodes[1].resource_release_array.len(), 1);

    let mut context = FrameGraphContext::new(PipelineContainer::new(), &device, TransientResourceCache::new());
    graph.execute(&mut context);
    let (_buffers, mut cache) = context.finish();
    let key = AnyTransientResourceDescriptor::Buffer(buffer_desc("frame_ubo", 256));
    assert!(cache.get_resource(&key).is_none());
}

#[test]
fn the_pool_feeds_the_next_frame() {
    let (device, _queue) = device();
    let mut cache = TransientResourceCache::new();

    // frame one allocates and pools
    let mut graph = FrameGraph::new();
    let handle = graph.create::<TransientBuffer>("vbo", buffer_desc("vbo", 512));
    let mut builder = graph.create_pass_buidlder("A");
    let _ = builder.write(handle);
    let mut graph = builder.finish();
    graph.compile();
    let mut context = FrameGraphContext::new(PipelineContainer::new(), &device, cache);
    graph.execute(&mut context);
    let parts = context.finish();
    cache = parts.1;

    // frame two records the same descriptor and reuses the pooled buffer
    let handle = graph.create::<TransientBuffer>("vbo", buffer_desc("vbo", 512));
    let mut builder = graph.create_pass_buidlder("A");
    let _ = builder.write(handle);
    let mut graph = builder.finish();
    graph.compile();
    let mut context = FrameGraphContext::new(PipelineContainer::new(), &device, cache);
    graph.execute(&mut context);
    let parts = context.finish();
    cache = parts.1;

    // still exactly one pooled buffer: the frames shared one allocation
    let key = AnyTransientResourceDescriptor::Buffer(buffer_desc("vbo", 512));
    assert!(cache.get_resource(&key).is_some());
    assert!(cache.get_resource(&key).is_none());
}

#[test]
fn execute_without_a_compiled_graph_is_a_no_op() {
    let (device, _queue) = device();
    let mut graph = FrameGraph::new();
    let mut context = FrameGraphContext::new(PipelineContainer::new(), &device, TransientResourceCache::new());
    graph.execute(&mut context);
    let (buffers, _cache) = context.finish();
    assert_eq!(buffers.len(), 0);
    assert_eq!(graph.pass_nodes.len(), 0);
}

#[test]
fn execute_then_reset_runs_nothing_twice() {
    let (device, _queue) = device();
    let mut graph = FrameGraph::new();
    let handle = graph.create::<TransientBuffer>("vbo", buffer_desc("vbo", 128));
    let mut builder = graph.create_pass_buidlder("upload");
    let _ = builder.write(handle);
    let mut graph = builder.finish();
    graph.compile();

    let mut context = FrameGraphContext::new(PipelineContainer::new(), &device, TransientResourceCache::new());
    graph.execute(&mut context);
    // the graph reset itself; a second execute with no new recording does nothing
    graph.execute(&mut context);
    let (buffers, _cache) = context.finish();
    assert_eq!(buffers.len(), 1);
}

#[test]
fn shared_texture_is_held_between_passes_and_pooled_after() {
    let (device, _queue) = device();
    let mut graph = FrameGraph::new();
    let shadow = graph.create::<frame_graph::TransientTexture>("shadow", texture_desc("shadow", 256));
    let read_handle = shadow.duplicate();
    let mut builder = graph.create_pass_buidlder("A");
    let _ = builder.write(shadow);
    let graph = builder.finish();
    let mut builder = graph.create_pass_buidlder("B");
    let _ = builder.read(read_handle);
    let mut graph = builder.finish();
    graph.compile();

    let mut context = FrameGraphContext::new(
        PipelineContainer::new(),
        &device,
        TransientResourceCache::new(),
    );
    graph.execute(&mut context);
    let (buffers, mut cache) = context.finish();
    assert_eq!(buffers.len(), 2);
    let key = AnyTransientResourceDescriptor::Texture(texture_desc("shadow", 256));
    assert!(cache.get_resource(&key).is_some());
    assert!(cache.get_resource(&key).is_none());
}

#[test]
fn render_passes_resolve_their_attachments() {
    let (device, _queue) = device();
    let mut graph = FrameGraph::new();
    let color = graph.create::<frame_graph::TransientTexture>("color", texture_desc("color", 64));
    let builder = graph.create_pass_buidlder("draw");
    let mut render = builder.create_render_pass_builder("main");
    let target = render.write(color);
    render.add_color_attachment(frame_graph::TransientRenderPassColorAttachment {
        view: frame_graph::TransientTextureView::Write(
            frame_graph::TransientTextureViewDescriptor {
                texture: target,
                desc: frame_graph::TextureViewDescriptor {
                    label: None,
                    format: None,
                    dimension: None,
                    usage: None,
                    aspect: wgpu::TextureAspect::All,
                    base_mip_level: 0,
                    mip_level_count: None,
                    base_array_layer: 0,
                    array_layer_count: None,
                },
            },
        ),
        depth_slice: None,
        resolve_target: None,
        ops: wgpu::Operations { load: wgpu::LoadOp::Clear(wgpu::Color::BLACK), store: wgpu::StoreOp::Store },
    });
    let builder = render.finish();
    let mut graph = builder.finish();
    graph.compile();

    let mut context = FrameGraphContext::new(
        PipelineContainer::new(),
        &device,
        TransientResourceCache::new(),
    );
    graph.execute(&mut context);
    let (buffers, mut cache) = context.finish();
    assert_eq!(buffers.len(), 1);
    let key = AnyTransientResourceDescriptor::Texture(texture_desc("color", 64));
    assert!(cache.get_resource(&key).is_some());
}
