//! The pure geometry behind the canvas primitives.
//!
//! A canvas owns device handles and therefore lives outside this crate; what
//! is verified here is everything a canvas computes before it touches the
//! device: the quad each rectangle primitive submits, the texture
//! coordinates of a textured quad, and the anchor arithmetic that places a
//! text run relative to its measured bound.

use vstd::prelude::*;

use crate::geometry::{default_normal, Bounds, Color, Uv, Vec3};
use crate::render::{
    draw_once_call, resolve_vertex, vertex_allowed, DrawBuffer, DrawCall, DrawError, PrimitiveKind,
    SimpleVertex, TexturedVertex, Vertex,
};

verus! {

use vstd::pervasive::unreached;

/// Which point of the measured text bound the given x coordinate names.
#[derive(Clone, Copy, Debug, PartialEq, Eq, Structural)]
pub enum TextAlignHorizontal {
    Left,
    Right,
    Center,
}

/// Which point of the measured text bound the given y coordinate names.
#[derive(Clone, Copy, Debug, PartialEq, Eq, Structural)]
pub enum TextAlignVertical {
    Top,
    Bottom,
    Center,
}

/// The four corners of a rectangle in fan order: top-left, top-right,
/// bottom-right, bottom-left.
pub open spec fn quad_positions(b: Bounds) -> Seq<Vec3> {
    seq![
        Vec3 { x: b.x, y: b.y, z: 0 },
        Vec3 { x: (b.x + b.w) as i32, y: b.y, z: 0 },
        Vec3 { x: (b.x + b.w) as i32, y: (b.y + b.h) as i32, z: 0 },
        Vec3 { x: b.x, y: (b.y + b.h) as i32, z: 0 },
    ]
}

/// The texture coordinates attached to the four quad corners, covering the
/// unit square.
pub open spec fn quad_uvs() -> Seq<Uv> {
    seq![Uv { u: 0, v: 0 }, Uv { u: 1, v: 0 }, Uv { u: 1, v: 1 }, Uv { u: 0, v: 1 }]
}

/// A submission holding exactly the plain-layout quad of `b` under the given
/// topology: four corner vertices in fan order, all in `color`, with the
/// trivial indices.
pub open spec fn quad_call(call: DrawCall, primitive: PrimitiveKind, b: Bounds, color: Color) -> bool {
    &&& call matches DrawCall::Simple { primitive: p, vertices, indices }
    &&& p == primitive
    &&& vertices@ =~= seq![
        SimpleVertex { pos: quad_positions(b)[0], normal: default_normal(), color },
        SimpleVertex { pos: quad_positions(b)[1], normal: default_normal(), color },
        SimpleVertex { pos: quad_positions(b)[2], normal: default_normal(), color },
        SimpleVertex { pos: quad_positions(b)[3], normal: default_normal(), color },
    ]
    &&& indices@ =~= seq![0u32, 1u32, 2u32, 3u32]
}

/// A submission holding exactly the textured-layout quad of `b`: the same
/// four corners with the unit-square texture coordinates.
pub open spec fn textured_quad_call(
    call: DrawCall,
    primitive: PrimitiveKind,
    b: Bounds,
    color: Color,
) -> bool {
    &&& call matches DrawCall::Textured { primitive: p, vertices, indices }
    &&& p == primitive
    &&& vertices@ =~= seq![
        TexturedVertex {
            pos: quad_positions(b)[0],
            normal: default_normal(),
            color,
            texture_uv: quad_uvs()[0],
        },
        TexturedVertex {
            pos: quad_positions(b)[1],
            normal: default_normal(),
            color,
            texture_uv: quad_uvs()[1],
        },
        TexturedVertex {
            pos: quad_positions(b)[2],
            normal: default_normal(),
            color,
            texture_uv: quad_uvs()[2],
        },
        TexturedVertex {
            pos: quad_positions(b)[3],
            normal: default_normal(),
            color,
            texture_uv: quad_uvs()[3],
        },
    ]
    &&& indices@ =~= seq![0u32, 1u32, 2u32, 3u32]
}

/// A filled rectangle: the quad of `bounds` under a triangle fan.
pub fn rect(bounds: Bounds, color: Color) -> (r: DrawCall)
    requires
        bounds.fits(),
    ensures
        quad_call(r, PrimitiveKind::TriangleFan, bounds, color),
{
    quad_fill(PrimitiveKind::TriangleFan, bounds, color)
}

/// A rectangle outline: the same quad under a line loop.
pub fn frame(bounds: Bounds, color: Color) -> (r: DrawCall)
    requires
        bounds.fits(),
    ensures
        quad_call(r, PrimitiveKind::LineLoop, bounds, color),
{
    quad_fill(PrimitiveKind::LineLoop, bounds, color)
}

fn quad_fill(primitive: PrimitiveKind, bounds: Bounds, color: Color) -> (r: DrawCall)
    requires
        bounds.fits(),
    ensures
        quad_call(r, primitive, bounds, color),
{
    let x2 = bounds.x + bounds.w;
    let y2 = bounds.y + bounds.h;
    let mut vs: Vec<Vertex> = Vec::new();
    vs.push(Vertex::pos(Vec3 { x: bounds.x, y: bounds.y, z: 0 }).color(color));
    vs.push(Vertex::pos(Vec3 { x: x2, y: bounds.y, z: 0 }).color(color));
    vs.push(Vertex::pos(Vec3 { x: x2, y: y2, z: 0 }).color(color));
    vs.push(Vertex::pos(Vec3 { x: bounds.x, y: y2, z: 0 }).color(color));
    let ghost gvs = vs@;
    proof {
        assert forall|k: int| 0 <= k < gvs.len() implies vertex_allowed(gvs[k], false, false) by {
            assert(gvs[k].normal is None && gvs[k].texture_uv is None);
        }
    }
    match DrawBuffer::draw_once(primitive, false, false, vs) {
        Ok(call) => {
            proof {
                assert(draw_once_call(call, primitive, false, gvs));
                match &call {
                    DrawCall::Simple { primitive: p, vertices: cv, indices: ix } => {
                        assert(crate::render::BufferedVertex::Simple(cv@[0]) == resolve_vertex(
                            gvs[0],
                            false,
                        ));
                        assert(crate::render::BufferedVertex::Simple(cv@[1]) == resolve_vertex(
                            gvs[1],
                            false,
                        ));
                        assert(crate::render::BufferedVertex::Simple(cv@[2]) == resolve_vertex(
                            gvs[2],
                            false,
                        ));
                        assert(crate::render::BufferedVertex::Simple(cv@[3]) == resolve_vertex(
                            gvs[3],
                            false,
                        ));
                        assert(cv@ =~= seq![
                            SimpleVertex {
                                pos: quad_positions(bounds)[0],
                                normal: default_normal(),
                                color,
                            },
                            SimpleVertex {
                                pos: quad_positions(bounds)[1],
                                normal: default_normal(),
                                color,
                            },
                            SimpleVertex {
                                pos: quad_positions(bounds)[2],
                                normal: default_normal(),
                                color,
                            },
                            SimpleVertex {
                                pos: quad_positions(bounds)[3],
                                normal: default_normal(),
                                color,
                            },
                        ]);
                        assert(ix@ =~= seq![0u32, 1u32, 2u32, 3u32]);
                    },
                    DrawCall::Textured { .. } => {
                        assert(false);
                    },
                }
            }
            call
        },
        Err(_) => unreached(),
    }
}

/// A textured rectangle: the quad of `bounds` with unit-square texture
/// coordinates under a triangle fan.
pub fn textured_rect(bounds: Bounds, color: Color) -> (r: DrawCall)
    requires
        bounds.fits(),
    ensures
        textured_quad_call(r, PrimitiveKind::TriangleFan, bounds, color),
{
    let x2 = bounds.x + bounds.w;
    let y2 = bounds.y + bounds.h;
    let mut vs: Vec<Vertex> = Vec::new();
    vs.push(Vertex::pos(Vec3 { x: bounds.x, y: bounds.y, z: 0 }).color(color).uv(Uv { u: 0, v: 0 }));
    vs.push(Vertex::pos(Vec3 { x: x2, y: bounds.y, z: 0 }).color(color).uv(Uv { u: 1, v: 0 }));
    vs.push(Vertex::pos(Vec3 { x: x2, y: y2, z: 0 }).color(color).uv(Uv { u: 1, v: 1 }));
    vs.push(Vertex::pos(Vec3 { x: bounds.x, y: y2, z: 0 }).color(color).uv(Uv { u: 0, v: 1 }));
    let ghost gvs = vs@;
    proof {
        assert forall|k: int| 0 <= k < gvs.len() implies vertex_allowed(gvs[k], false, true) by {
            assert(gvs[k].normal is None && gvs[k].texture_uv is Some);
        }
    }
    match DrawBuffer::draw_once(PrimitiveKind::TriangleFan, false, true, vs) {
        Ok(call) => {
            proof {
                assert(draw_once_call(call, PrimitiveKind::TriangleFan, true, gvs));
                match &call {
                    DrawCall::Textured { primitive: p, vertices: cv, indices: ix } => {
                        assert(crate::render::BufferedVertex::Textured(cv@[0]) == resolve_vertex(
                            gvs[0],
                            true,
                        ));
                        assert(crate::render::BufferedVertex::Textured(cv@[1]) == resolve_vertex(
                            gvs[1],
                            true,
                        ));
                        assert(crate::render::BufferedVertex::Textured(cv@[2]) == resolve_vertex(
                            gvs[2],
                            true,
                        ));
                        assert(crate::render::BufferedVertex::Textured(cv@[3]) == resolve_vertex(
                            gvs[3],
                            true,
                        ));
                        assert(cv@ =~= seq![
                            TexturedVertex {
                                pos: quad_positions(bounds)[0],
                                normal: default_normal(),
                                color,
                                texture_uv: quad_uvs()[0],
                            },
                            TexturedVertex {
                                pos: quad_positions(bounds)[1],
                                normal: default_normal(),
                                color,
                                texture_uv: quad_uvs()[1],
                            },
                            TexturedVertex {
                                pos: quad_positions(bounds)[2],
                                normal: default_normal(),
                                color,
                                texture_uv: quad_uvs()[2],
                            },
                            TexturedVertex {
                                pos: quad_positions(bounds)[3],
                                normal: default_normal(),
                                color,
                                texture_uv: quad_uvs()[3],
                            },
                        ]);
                        assert(ix@ =~= seq![0u32, 1u32, 2u32, 3u32]);
                    },
                    DrawCall::Simple { .. } => {
                        assert(false);
                    },
                }
            }
            call
        },
        Err(_) => unreached(),
    }
}

/// Escape hatch for arbitrary vertex lists: one fresh session, the vertices
/// with trivial sequential indices, one submission.
pub fn generic_shape(ty: PrimitiveKind, vertices: Vec<Vertex>, texture: bool, normal: bool) -> (r:
    Result<DrawCall, DrawError>)
    requires
        vertices@.len() <= u32::MAX,
    ensures
        match r {
            Ok(call) => {
                &&& forall|k: int|
                    0 <= k < vertices@.len() ==> vertex_allowed(vertices@[k], normal, texture)
                &&& draw_once_call(call, ty, texture, vertices@)
            },
            Err(e) => {
                &&& e == DrawError::CapabilityMismatch
                &&& exists|k: int|
                    0 <= k < vertices@.len() && !vertex_allowed(vertices@[k], normal, texture)
            },
        },
{
    DrawBuffer::draw_once(ty, normal, texture, vertices)
}

/// The x where a text run starts so that `x` names the requested anchor of a
/// run measured `w` wide: its left edge, its right edge, or its middle.
pub open spec fn anchored_x(x: int, w: int, align: TextAlignHorizontal) -> int {
    match align {
        TextAlignHorizontal::Left => x,
        TextAlignHorizontal::Right => x - w,
        TextAlignHorizontal::Center => x - w / 2,
    }
}

/// The y where a text run starts so that `y` names the requested anchor of a
/// run measured `h` tall: its top edge, its bottom edge, or its middle.
pub open spec fn anchored_y(y: int, h: int, align: TextAlignVertical) -> int {
    match align {
        TextAlignVertical::Top => y,
        TextAlignVertical::Bottom => y - h,
        TextAlignVertical::Center => y - h / 2,
    }
}

/// Where a glyph run starts so that `(x, y)` is the requested anchor of the
/// measured bound `(text_w, text_h)`: the full extent is subtracted for a
/// far-edge anchor, half of it for a centered one, nothing for a near edge.
pub fn text_origin(
    x: i32,
    y: i32,
    text_w: i32,
    text_h: i32,
    align_h: TextAlignHorizontal,
    align_v: TextAlignVertical,
) -> (r: (i32, i32))
    requires
        text_w >= 0,
        text_h >= 0,
        x - text_w >= i32::MIN,
        y - text_h >= i32::MIN,
    ensures
        r.0 == anchored_x(x as int, text_w as int, align_h),
        r.1 == anchored_y(y as int, text_h as int, align_v),
{
    let rx = match align_h {
        TextAlignHorizontal::Left => x,
        TextAlignHorizontal::Right => x - text_w,
        TextAlignHorizontal::Center => x - text_w / 2,
    };
    let ry = match align_v {
        TextAlignVertical::Top => y,
        TextAlignVertical::Bottom => y - text_h,
        TextAlignVertical::Center => y - text_h / 2,
    };
    (rx, ry)
}

} // verus!
