use guikit::canvas::{
    frame, generic_shape, rect, text_origin, textured_rect, TextAlignHorizontal, TextAlignVertical,
};
use guikit::geometry::{Bounds, Color, Uv, Vec3};
use guikit::render::{DrawCall, DrawError, PrimitiveKind, Vertex};

const BLUE: Color = Color { r: 0, g: 0, b: 255, a: 255 };

#[test]
fn rect_emits_the_four_corners_in_fan_order() {
    let call = rect(Bounds { x: 10, y: 20, w: 30, h: 40 }, BLUE);
    match call {
        DrawCall::Simple { primitive, vertices, indices } => {
            assert_eq!(primitive, PrimitiveKind::TriangleFan);
            let ps: Vec<Vec3> = vertices.iter().map(|v| v.pos).collect();
            assert_eq!(
                ps,
                vec![
                    Vec3 { x: 10, y: 20, z: 0 },
                    Vec3 { x: 40, y: 20, z: 0 },
                    Vec3 { x: 40, y: 60, z: 0 },
                    Vec3 { x: 10, y: 60, z: 0 },
                ]
            );
            assert!(vertices.iter().all(|v| v.color == BLUE));
            assert_eq!(indices, vec![0, 1, 2, 3]);
        },
        DrawCall::Textured { .. } => panic!("rect must use the plain layout"),
    }
}

#[test]
fn frame_uses_a_line_loop_over_the_same_corners() {
    let filled = rect(Bounds { x: 1, y: 2, w: 3, h: 4 }, BLUE);
    let outline = frame(Bounds { x: 1, y: 2, w: 3, h: 4 }, BLUE);
    match (filled, outline) {
        (
            DrawCall::Simple { vertices: fill_vs, .. },
            DrawCall::Simple { primitive, vertices: line_vs, .. },
        ) => {
            assert_eq!(primitive, PrimitiveKind::LineLoop);
            assert_eq!(fill_vs, line_vs);
        },
        _ => panic!("rectangle primitives must use the plain layout"),
    }
}

#[test]
fn textured_rect_covers_the_unit_square() {
    let call = textured_rect(Bounds { x: 0, y: 0, w: 8, h: 8 }, BLUE);
    match call {
        DrawCall::Textured { primitive, vertices, indices } => {
            assert_eq!(primitive, PrimitiveKind::TriangleFan);
            let uvs: Vec<Uv> = vertices.iter().map(|v| v.texture_uv).collect();
            assert_eq!(
                uvs,
                vec![
                    Uv { u: 0, v: 0 },
                    Uv { u: 1, v: 0 },
                    Uv { u: 1, v: 1 },
                    Uv { u: 0, v: 1 },
                ]
            );
            assert_eq!(indices, vec![0, 1, 2, 3]);
        },
        DrawCall::Simple { .. } => panic!("textured rect must use the textured layout"),
    }
}

#[test]
fn generic_shape_passes_topology_and_flags_through() {
    let vs = vec![Vertex::pos(Vec3 { x: 0, y: 0, z: 0 }), Vertex::pos(Vec3 { x: 4, y: 4, z: 0 })];
    match generic_shape(PrimitiveKind::Lines, vs, false, false).expect("vertices conform") {
        DrawCall::Simple { primitive, vertices, .. } => {
            assert_eq!(primitive, PrimitiveKind::Lines);
            assert_eq!(vertices.len(), 2);
        },
        DrawCall::Textured { .. } => panic!("plain shape encoded as textured"),
    }
    let bad = vec![Vertex::pos(Vec3 { x: 0, y: 0, z: 0 })];
    assert_eq!(
        generic_shape(PrimitiveKind::Points, bad, true, false),
        Err(DrawError::CapabilityMismatch)
    );
}

#[test]
fn centered_text_starts_half_the_bound_before_the_anchor() {
    // anchor (100, 100), measured bound (20, 10), centered both ways
    let origin = text_origin(
        100,
        100,
        20,
        10,
        TextAlignHorizontal::Center,
        TextAlignVertical::Center,
    );
    assert_eq!(origin, (90, 95));
}

#[test]
fn text_anchor_edges() {
    assert_eq!(
        text_origin(100, 100, 20, 10, TextAlignHorizontal::Left, TextAlignVertical::Top),
        (100, 100)
    );
    assert_eq!(
        text_origin(100, 100, 20, 10, TextAlignHorizontal::Right, TextAlignVertical::Bottom),
        (80, 90)
    );
    assert_eq!(
        text_origin(0, 0, 7, 3, TextAlignHorizontal::Center, TextAlignVertical::Center),
        (-3, -1)
    );
}
