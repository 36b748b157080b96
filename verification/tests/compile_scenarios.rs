use frame_graph::{
    FrameGraph, TransientBuffer, TransientBufferDescriptor, TransientTexture,
    TransientTextureDescriptor,
};

fn buffer_desc(label: &str, size: u64) -> TransientBufferDescriptor {
    TransientBufferDescriptor {
        label: Some(label.to_string()),
        size,
        usage: wgpu::BufferUsages::VERTEX,
        mapped_at_creation: false,
    }
}

fn texture_desc(label: &str, side: u32) -> TransientTextureDescriptor {
    TransientTextureDescriptor {
        label: Some(label.to_string()),
        size: wgpu::Extent3d { width: side, height: side, depth_or_array_layers: 1 },
        mip_level_count: 1,
        sample_count: 1,
        dimension: wgpu::TextureDimension::D2,
        format: wgpu::TextureFormat::Rgba8Unorm,
        usage: wgpu::TextureUsages::RENDER_ATTACHMENT,
        view_formats: Vec::new(),
    }
}

#[test]
fn single_pass_created_resource_owns_its_window() {
    // one pass writes one fresh buffer: it is requested and released by that pass
    let mut graph = FrameGraph::new();
    let handle = graph.create::<TransientBuffer>("vbo", buffer_desc("vbo", 1024));
    let mut builder = graph.create_pass_buidlder("A");
    let _ = builder.write(handle);
    let mut graph = builder.finish();
    graph.compile();

    assert_eq!(graph.resource_nodes[0].first_use_pass, Some(0));
    assert_eq!(graph.resource_nodes[0].last_user_pass, Some(0));
    assert_eq!(graph.pass_nodes[0].resource_request_array.len(), 1);
    assert_eq!(graph.pass_nodes[0].resource_request_array[0].index, 0);
    assert_eq!(graph.pass_nodes[0].resource_release_array.len(), 1);
    assert_eq!(graph.pass_nodes[0].resource_release_array[0].index, 0);

    let compiled = graph.compiled_frame_graph.as_ref().expect("compiled");
    assert_eq!(compiled.device_passes.len(), 1);
    assert_eq!(compiled.device_passes[0].name, "A");
    assert_eq!(compiled.device_passes[0].resource_request_array.len(), 1);
    assert_eq!(compiled.device_passes[0].resource_request_array[0].index.index, 0);
    assert_eq!(compiled.device_passes[0].resource_release_array.len(), 1);
}

#[test]
fn shared_texture_spans_writer_to_reader() {
    // pass A writes the texture, pass B reads it: requested by A, released by B
    let mut graph = FrameGraph::new();
    let shadow = graph.create::<TransientTexture>("shadow", texture_desc("shadow", 256));
    let read_handle = shadow.duplicate();
    let mut builder = graph.create_pass_buidlder("A");
    let written = builder.write(shadow);
    let graph = builder.finish();
    let mut builder = graph.create_pass_buidlder("B");
    let _ = builder.read(read_handle);
    let mut graph = builder.finish();
    graph.compile();

    assert_eq!(graph.resource_nodes[0].first_use_pass, Some(0));
    assert_eq!(graph.resource_nodes[0].last_user_pass, Some(1));
    assert_eq!(graph.pass_nodes[0].resource_request_array.len(), 1);
    assert_eq!(graph.pass_nodes[0].resource_release_array.len(), 0);
    assert_eq!(graph.pass_nodes[1].resource_request_array.len(), 0);
    assert_eq!(graph.pass_nodes[1].resource_release_array.len(), 1);
    let compiled = graph.compiled_frame_graph.as_ref().expect("compiled");
    assert_eq!(compiled.device_passes.len(), 2);
    assert_eq!(written.raw.version, 1);
}

#[test]
fn unused_resource_is_never_requested() {
    // a node nothing touches gets no lifetime and no request or release
    let mut graph = FrameGraph::new();
    let _unused = graph.create::<TransientBuffer>("unused", buffer_desc("unused", 16));
    let used = graph.create::<TransientBuffer>("used", buffer_desc("used", 16));
    let mut builder = graph.create_pass_buidlder("A");
    let _ = builder.write(used);
    let mut graph = builder.finish();
    graph.compile();

    assert_eq!(graph.resource_nodes[0].first_use_pass, None);
    assert_eq!(graph.resource_nodes[0].last_user_pass, None);
    assert_eq!(graph.pass_nodes[0].resource_request_array.len(), 1);
    assert_eq!(graph.pass_nodes[0].resource_request_array[0].index, 1);
    assert_eq!(graph.pass_nodes[0].resource_release_array.len(), 1);
    assert_eq!(graph.pass_nodes[0].resource_release_array[0].index, 1);
}

#[test]
fn write_then_read_in_one_pass_covers_exactly_that_pass() {
    let mut graph = FrameGraph::new();
    let handle = graph.create::<TransientBuffer>("scratch", buffer_desc("scratch", 64));
    let pre_write = handle.duplicate();
    let mut builder = graph.create_pass_buidlder("A");
    let written = builder.write(handle);
    let _ = builder.read(pre_write);
    let mut graph = builder.finish();
    graph.compile();

    assert_eq!(written.raw.version, 1);
    assert_eq!(graph.pass_nodes[0].writes.len(), 1);
    assert_eq!(graph.pass_nodes[0].writes[0].version, 1);
    assert_eq!(graph.pass_nodes[0].reads.len(), 1);
    assert_eq!(graph.pass_nodes[0].reads[0].version, 0);
    assert_eq!(graph.resource_nodes[0].first_use_pass, Some(0));
    assert_eq!(graph.resource_nodes[0].last_user_pass, Some(0));
}

#[test]
fn compile_on_an_empty_graph_changes_nothing() {
    let mut graph = FrameGraph::new();
    graph.compile();
    assert!(graph.compiled_frame_graph.is_none());
    assert_eq!(graph.resource_nodes.len(), 0);
    assert_eq!(graph.pass_nodes.len(), 0);
}

#[test]
fn compile_moves_pass_bodies_into_device_passes() {
    let mut graph = FrameGraph::new();
    let handle = graph.create::<TransientBuffer>("vbo", buffer_desc("vbo", 64));
    let builder = graph.create_pass_buidlder("draw");
    let mut render = builder.create_render_pass_builder("rp");
    let vref = render.write(handle);
    render.draw(0..3, 0..1);
    let builder = render.finish();
    let mut graph = builder.finish();
    graph.compile();

    assert!(graph.pass_nodes[0].pass.is_none());
    let compiled = graph.compiled_frame_graph.as_ref().expect("compiled");
    let body = compiled.device_passes[0].pass.as_ref().expect("body");
    assert_eq!(body.commands.len(), 1);
    assert_eq!(body.commands[0].commands.len(), 1);
    assert_eq!(body.label.as_deref(), Some("draw"));
    let _ = vref;
}
