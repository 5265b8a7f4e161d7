use guikit::geometry::{Color, Uv, Vec3};
use guikit::render::{
    BufferedVertex, DrawBuffer, DrawCall, DrawError, PrimitiveKind, SimpleVertex, Vertex,
};

fn v(x: i32, y: i32) -> Vertex {
    Vertex::pos(Vec3 { x, y, z: 0 })
}

const RED: Color = Color { r: 255, g: 0, b: 0, a: 255 };

#[test]
fn start_drawing_twice_fails_with_invalid_state() {
    let mut buffer = DrawBuffer::new();
    assert_eq!(buffer.start_drawing(PrimitiveKind::Triangles, false, false), Ok(()));
    assert_eq!(
        buffer.start_drawing(PrimitiveKind::Triangles, false, false),
        Err(DrawError::InvalidState)
    );
}

#[test]
fn start_drawing_after_draw_still_fails_until_reset() {
    let mut buffer = DrawBuffer::new();
    assert_eq!(buffer.start_drawing(PrimitiveKind::Triangles, false, false), Ok(()));
    assert_eq!(buffer.add_vertex(v(0, 0)), Ok(()));
    assert!(buffer.draw().is_ok());
    assert_eq!(
        buffer.start_drawing(PrimitiveKind::Lines, false, false),
        Err(DrawError::InvalidState)
    );
    buffer.reset();
    assert_eq!(buffer.start_drawing(PrimitiveKind::Lines, false, false), Ok(()));
}

#[test]
fn adding_before_start_fails_with_invalid_state() {
    let mut buffer = DrawBuffer::new();
    assert_eq!(buffer.add_vertex(v(1, 2)), Err(DrawError::InvalidState));
    assert_eq!(
        buffer.add_multiple_vertices(vec![v(1, 2)], vec![0]),
        Err(DrawError::InvalidState)
    );
}

#[test]
fn normal_into_session_without_normals_fails_with_capability_mismatch() {
    let mut buffer = DrawBuffer::new();
    assert_eq!(buffer.start_drawing(PrimitiveKind::Triangles, false, false), Ok(()));
    let bad = v(0, 0).normal(Vec3 { x: 0, y: 0, z: 1 });
    assert_eq!(buffer.add_vertex(bad), Err(DrawError::CapabilityMismatch));
}

#[test]
fn uv_into_session_without_texture_fails_with_capability_mismatch() {
    let mut buffer = DrawBuffer::new();
    assert_eq!(buffer.start_drawing(PrimitiveKind::Triangles, true, false), Ok(()));
    let bad = v(0, 0).uv(Uv { u: 0, v: 1 });
    assert_eq!(buffer.add_vertex(bad), Err(DrawError::CapabilityMismatch));
}

#[test]
fn missing_uv_in_textured_session_fails_with_capability_mismatch() {
    let mut buffer = DrawBuffer::new();
    assert_eq!(buffer.start_drawing(PrimitiveKind::Triangles, false, true), Ok(()));
    assert_eq!(buffer.add_vertex(v(0, 0)), Err(DrawError::CapabilityMismatch));
}

#[test]
fn failed_batch_leaves_buffer_unchanged() {
    let mut buffer = DrawBuffer::new();
    assert_eq!(buffer.start_drawing(PrimitiveKind::Triangles, false, false), Ok(()));
    assert_eq!(buffer.add_vertex(v(5, 5)), Ok(()));
    let bad = v(0, 0).normal(Vec3 { x: 1, y: 0, z: 0 });
    assert_eq!(
        buffer.add_multiple_vertices(vec![v(1, 1), bad], vec![0, 1]),
        Err(DrawError::CapabilityMismatch)
    );
    match buffer.draw().expect("session is still open") {
        DrawCall::Simple { vertices, indices, .. } => {
            assert_eq!(vertices.len(), 1);
            assert_eq!(indices, vec![0]);
        },
        DrawCall::Textured { .. } => panic!("plain session encoded as textured"),
    }
}

#[test]
fn local_index_past_batch_fails_with_index_out_of_range() {
    let mut buffer = DrawBuffer::new();
    assert_eq!(buffer.start_drawing(PrimitiveKind::Triangles, false, false), Ok(()));
    assert_eq!(
        buffer.add_multiple_vertices(vec![v(0, 0), v(1, 0)], vec![0, 1, 2]),
        Err(DrawError::IndexOutOfRange)
    );
}

#[test]
fn indices_accumulate_across_batches_and_stay_in_bounds() {
    let mut buffer = DrawBuffer::new();
    assert_eq!(buffer.start_drawing(PrimitiveKind::Triangles, false, false), Ok(()));
    assert_eq!(
        buffer.add_multiple_vertices(vec![v(0, 0), v(1, 0), v(1, 1)], vec![0, 1, 2]),
        Ok(())
    );
    assert_eq!(
        buffer.add_multiple_vertices(vec![v(2, 0), v(3, 0)], vec![1, 0, 1]),
        Ok(())
    );
    match buffer.draw().expect("session is open") {
        DrawCall::Simple { vertices, indices, .. } => {
            // total index count is the sum of the per-batch counts
            assert_eq!(indices.len(), 3 + 3);
            // the second batch is re-based onto the three earlier vertices
            assert_eq!(indices, vec![0, 1, 2, 4, 3, 4]);
            // every submitted index references an accumulated vertex
            assert_eq!(vertices.len(), 5);
            for ix in indices {
                assert!((ix as usize) < vertices.len());
            }
        },
        DrawCall::Textured { .. } => panic!("plain session encoded as textured"),
    }
}

#[test]
fn missing_color_defaults_to_opaque_white_and_missing_normal_to_ones() {
    let mut buffer = DrawBuffer::new();
    assert_eq!(buffer.start_drawing(PrimitiveKind::Points, false, false), Ok(()));
    assert_eq!(buffer.add_vertex(v(7, 8)), Ok(()));
    match buffer.draw().expect("session is open") {
        DrawCall::Simple { vertices, .. } => {
            assert_eq!(
                vertices[0],
                SimpleVertex {
                    pos: Vec3 { x: 7, y: 8, z: 0 },
                    normal: Vec3 { x: 1, y: 1, z: 1 },
                    color: Color { r: 255, g: 255, b: 255, a: 255 },
                }
            );
        },
        DrawCall::Textured { .. } => panic!("plain session encoded as textured"),
    }
}

#[test]
fn draw_is_read_only_and_reset_clears() {
    let mut buffer = DrawBuffer::new();
    assert_eq!(buffer.start_drawing(PrimitiveKind::Lines, false, false), Ok(()));
    assert_eq!(buffer.add_vertex(v(0, 0)), Ok(()));
    let first = buffer.draw().expect("session is open");
    let second = buffer.draw().expect("drawing does not consume the buffer");
    assert_eq!(first, second);
    buffer.reset();
    assert_eq!(buffer.draw(), Err(DrawError::InvalidState));
}

#[test]
fn draw_once_emits_sequential_indices() {
    let vertices = vec![v(0, 0).color(RED), v(1, 0).color(RED), v(1, 1).color(RED)];
    match DrawBuffer::draw_once(PrimitiveKind::TriangleFan, false, false, vertices)
        .expect("all vertices conform")
    {
        DrawCall::Simple { primitive, vertices, indices } => {
            assert_eq!(primitive, PrimitiveKind::TriangleFan);
            assert_eq!(indices, vec![0, 1, 2]);
            assert_eq!(vertices.len(), 3);
            assert_eq!(vertices[2].color, RED);
        },
        DrawCall::Textured { .. } => panic!("plain session encoded as textured"),
    }
}

#[test]
fn draw_once_rejects_nonconforming_vertices() {
    let vertices = vec![v(0, 0), v(1, 0).uv(Uv { u: 1, v: 0 })];
    assert_eq!(
        DrawBuffer::draw_once(PrimitiveKind::Triangles, false, false, vertices),
        Err(DrawError::CapabilityMismatch)
    );
}

#[test]
fn textured_session_keeps_uvs() {
    let mut buffer = DrawBuffer::with_capacity(2);
    assert_eq!(buffer.start_drawing(PrimitiveKind::Triangles, false, true), Ok(()));
    assert_eq!(buffer.add_vertex(v(0, 0).uv(Uv { u: 0, v: 1 })), Ok(()));
    match buffer.draw().expect("session is open") {
        DrawCall::Textured { vertices, .. } => {
            assert_eq!(vertices[0].texture_uv, Uv { u: 0, v: 1 });
        },
        DrawCall::Simple { .. } => panic!("textured session encoded as plain"),
    }
}

#[test]
fn buffered_vertex_variants_follow_the_session_flag() {
    let mut plain = DrawBuffer::new();
    assert_eq!(plain.start_drawing(PrimitiveKind::Points, false, false), Ok(()));
    assert_eq!(plain.add_vertex(v(1, 1)), Ok(()));
    let call = plain.draw().expect("session is open");
    assert!(matches!(call, DrawCall::Simple { .. }));
    let _ = BufferedVertex::Simple(SimpleVertex {
        pos: Vec3 { x: 0, y: 0, z: 0 },
        normal: Vec3 { x: 1, y: 1, z: 1 },
        color: Color { r: 0, g: 0, b: 0, a: 0 },
    });
}
