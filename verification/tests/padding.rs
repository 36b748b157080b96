use frame_graph::TransientBufferDescriptor;

fn desc_of(len: usize) -> TransientBufferDescriptor {
    TransientBufferDescriptor::from_init_parts(None, len, wgpu::BufferUsages::VERTEX)
}

#[test]
fn empty_contents_keep_size_zero() {
    assert_eq!(desc_of(0).size, 0);
}

#[test]
fn tiny_contents_pad_to_alignment() {
    assert_eq!(desc_of(1).size, 4);
    assert_eq!(desc_of(3).size, 4);
    assert_eq!(desc_of(4).size, 4);
}

#[test]
fn unaligned_contents_round_up() {
    assert_eq!(desc_of(5).size, 8);
    assert_eq!(desc_of(10).size, 12);
    assert_eq!(desc_of(1023).size, 1024);
}

#[test]
fn aligned_contents_keep_their_size() {
    assert_eq!(desc_of(8).size, 8);
    assert_eq!(desc_of(1024).size, 1024);
}

#[test]
fn padded_size_is_never_mapped_and_keeps_label_and_usage() {
    let d = TransientBufferDescriptor::from_init_parts(
        Some("staging".to_string()),
        100,
        wgpu::BufferUsages::COPY_SRC,
    );
    assert_eq!(d.label.as_deref(), Some("staging"));
    assert_eq!(d.usage, wgpu::BufferUsages::COPY_SRC);
    assert!(!d.mapped_at_creation);
    assert_eq!(d.size, 100);
}

#[test]
fn init_descriptors_pad_their_contents() {
    let data = [0u8, 1, 2, 3, 4];
    let desc = TransientBufferDescriptor::from_init_desc(&wgpu::util::BufferInitDescriptor {
        label: Some("mesh"),
        contents: &data,
        usage: wgpu::BufferUsages::VERTEX,
    });
    assert_eq!(desc.label.as_deref(), Some("mesh"));
    assert_eq!(desc.size, 8);
    assert_eq!(desc.usage, wgpu::BufferUsages::VERTEX);
    assert!(!desc.mapped_at_creation);
}

#[test]
fn empty_init_descriptors_stay_empty() {
    let desc = TransientBufferDescriptor::from_init_desc(&wgpu::util::BufferInitDescriptor {
        label: None,
        contents: &[],
        usage: wgpu::BufferUsages::INDEX,
    });
    assert_eq!(desc.size, 0);
    assert!(desc.label.is_none());
}
