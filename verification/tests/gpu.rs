use sapphire_journal::gpu::device_lost_explanation;

/// The real text from egui-wgpu 0.34.3 `renderer.rs`, index-buffer branch.
const INDEX_PANIC: &str = "Failed to create staging buffer for index data. \
    Index count: 16113. Required index buffer size: 64452. \
    Actual size 99168 and capacity: 99168 (bytes)";

/// The vertex-buffer branch of the same function panics with parallel wording.
const VERTEX_PANIC: &str = "Failed to create staging buffer for vertex data. \
    Vertex count: 4028. Required vertex buffer size: 128896. \
    Actual size 198336 and capacity: 198336 (bytes)";

#[test]
fn explains_the_index_buffer_panic() {
    assert!(device_lost_explanation(INDEX_PANIC).is_some());
}

#[test]
fn explains_the_vertex_buffer_panic() {
    assert!(device_lost_explanation(VERTEX_PANIC).is_some());
}

#[test]
fn explanation_names_the_real_cause() {
    let msg = device_lost_explanation(INDEX_PANIC).unwrap();
    assert!(msg.contains("device"), "should say the device was lost: {msg}");
    assert!(msg.contains("Remote Desktop"), "should name the usual Windows trigger: {msg}");
}

#[test]
fn ignores_unrelated_panics() {
    assert_eq!(device_lost_explanation("index out of bounds: len is 3"), None);
    assert_eq!(device_lost_explanation(""), None);
}
