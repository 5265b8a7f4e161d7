//! The draw-buffer batching layer.
//!
//! A [`DrawBuffer`] accumulates vertices and indices for one drawing session.
//! A session is opened with [`DrawBuffer::start_drawing`], which fixes the
//! primitive topology and two capability flags (`normal`, `texture`) for the
//! whole session; every vertex pushed afterwards must conform to those flags.
//! Indices are given in the local index space of the vertices added by the
//! same call and are re-based onto the running vertex count.  [`DrawBuffer::draw`]
//! encodes the accumulated data into one of two concrete vertex layouts,
//! ready for a single device submission; [`DrawBuffer::reset`] returns the
//! buffer to the idle state for reuse.

use vstd::prelude::*;

use crate::geometry::{default_normal, opaque_white, Color, Uv, Vec3};

verus! {

use vstd::pervasive::unreached;

/// Primitive assembly rule for the vertex list of one drawing session.
#[derive(Clone, Copy, Debug, PartialEq, Eq, Structural)]
pub enum PrimitiveKind {
    Points,
    Lines,
    LineStrip,
    LineLoop,
    Triangles,
    TriangleStrip,
    TriangleFan,
}

/// Why a draw-buffer operation was refused.
#[derive(Clone, Copy, Debug, PartialEq, Eq, Structural)]
pub enum DrawError {
    /// The buffer was not in the drawing state the call needs.
    InvalidState,
    /// A vertex carried or lacked an attribute contrary to the session's
    /// capability flags.
    CapabilityMismatch,
    /// A local index referred past the vertices added by the same call.
    IndexOutOfRange,
}

/// A vertex under construction: the position is mandatory, every other
/// attribute is attached by a chained call.
#[derive(Clone, Copy, Debug, PartialEq, Eq)]
pub struct Vertex {
    pub pos: Vec3,
    pub normal: Option<Vec3>,
    pub color: Option<Color>,
    pub texture_uv: Option<Uv>,
}

impl Vertex {
    /// A vertex at `pos` with no further attributes.
    pub fn pos(pos: Vec3) -> (r: Vertex)
        ensures
            r == (Vertex { pos, normal: None, color: None, texture_uv: None }),
    {
        Vertex { pos, normal: None, color: None, texture_uv: None }
    }

    /// Attaches a normal.
    pub fn normal(self, normal: Vec3) -> (r: Vertex)
        ensures
            r == (Vertex { normal: Some(normal), ..self }),
    {
        Vertex { normal: Some(normal), ..self }
    }

    /// Attaches a color.
    pub fn color(self, color: Color) -> (r: Vertex)
        ensures
            r == (Vertex { color: Some(color), ..self }),
    {
        Vertex { color: Some(color), ..self }
    }

    /// Attaches a texture coordinate.
    pub fn uv(self, texture_uv: Uv) -> (r: Vertex)
        ensures
            r == (Vertex { texture_uv: Some(texture_uv), ..self }),
    {
        Vertex { texture_uv: Some(texture_uv), ..self }
    }
}

/// The plain device layout: position, normal and color.
#[derive(Clone, Copy, Debug, PartialEq, Eq)]
pub struct SimpleVertex {
    pub pos: Vec3,
    pub normal: Vec3,
    pub color: Color,
}

/// The textured device layout: position, normal, color and texture coordinate.
#[derive(Clone, Copy, Debug, PartialEq, Eq)]
pub struct TexturedVertex {
    pub pos: Vec3,
    pub normal: Vec3,
    pub color: Color,
    pub texture_uv: Uv,
}

/// A vertex as stored in the buffer, already resolved to one of the two
/// concrete layouts.
#[derive(Clone, Copy, Debug, PartialEq, Eq)]
pub enum BufferedVertex {
    Simple(SimpleVertex),
    Textured(TexturedVertex),
}

/// Everything one device submission needs: the topology, the encoded vertex
/// array in its concrete layout, and the index array.
#[derive(Debug, PartialEq, Eq)]
#[allow(inconsistent_fields)]
pub enum DrawCall {
    Simple { primitive: PrimitiveKind, vertices: Vec<SimpleVertex>, indices: Vec<u32> },
    Textured { primitive: PrimitiveKind, vertices: Vec<TexturedVertex>, indices: Vec<u32> },
}

/// Whether a vertex conforms to the session's capability flags: it may carry
/// a normal only if `normal` is enabled, and it must carry a texture
/// coordinate exactly when `texture` is enabled.
pub open spec fn vertex_allowed(v: Vertex, normal: bool, texture: bool) -> bool {
    &&& (v.normal is Some ==> normal)
    &&& (v.texture_uv is Some ==> texture)
    &&& (texture ==> v.texture_uv is Some)
}

/// The normal stored for a vertex, defaulting to `default_normal()`.
pub open spec fn normal_or_default(n: Option<Vec3>) -> Vec3 {
    match n {
        Some(v) => v,
        None => default_normal(),
    }
}

/// The color stored for a vertex, defaulting to opaque white.
pub open spec fn color_or_default(c: Option<Color>) -> Color {
    match c {
        Some(v) => v,
        None => opaque_white(),
    }
}

/// How a pushed vertex is resolved into the session's concrete layout.
pub open spec fn resolve_vertex(v: Vertex, texture: bool) -> BufferedVertex {
    if texture {
        BufferedVertex::Textured(
            TexturedVertex {
                pos: v.pos,
                normal: normal_or_default(v.normal),
                color: color_or_default(v.color),
                texture_uv: match v.texture_uv {
                    Some(u) => u,
                    None => Uv { u: 0, v: 0 },
                },
            },
        )
    } else {
        BufferedVertex::Simple(
            SimpleVertex {
                pos: v.pos,
                normal: normal_or_default(v.normal),
                color: color_or_default(v.color),
            },
        )
    }
}

/// Local indices re-based onto the vertex count accumulated before the call.
pub open spec fn offset_indices(locs: Seq<u32>, offset: u32) -> Seq<u32> {
    locs.map_values(|x: u32| (x + offset) as u32)
}

/// The error [`DrawBuffer::add_multiple_vertices`] reports, if any: drawing
/// must have started, every vertex must conform to the session flags, and
/// every local index must refer to a vertex added by the same call.
pub open spec fn batch_error(
    drawing: bool,
    normal: bool,
    texture: bool,
    vs: Seq<Vertex>,
    locs: Seq<u32>,
) -> Option<DrawError> {
    if !drawing {
        Some(DrawError::InvalidState)
    } else if exists|i: int| 0 <= i < vs.len() && !vertex_allowed(vs[i], normal, texture) {
        Some(DrawError::CapabilityMismatch)
    } else if exists|j: int| 0 <= j < locs.len() && locs[j] >= vs.len() {
        Some(DrawError::IndexOutOfRange)
    } else {
        None
    }
}

/// A mutable accumulator for one drawing session.
pub struct DrawBuffer {
    index: u32,
    vertices: Vec<BufferedVertex>,
    indices: Vec<u32>,
    normal: bool,
    texture: bool,
    primitive_type: Option<PrimitiveKind>,
    drawing: bool,
}

impl DrawBuffer {
    /// Whether a drawing session is open.
    pub closed spec fn is_drawing(&self) -> bool {
        self.drawing
    }

    /// The session's normal capability flag.
    pub closed spec fn session_normal(&self) -> bool {
        self.normal
    }

    /// The session's texture capability flag.
    pub closed spec fn session_texture(&self) -> bool {
        self.texture
    }

    /// The session's primitive topology, while a session is open.
    pub closed spec fn session_primitive(&self) -> Option<PrimitiveKind> {
        self.primitive_type
    }

    /// The vertices accumulated so far, in push order.
    pub closed spec fn buffered(&self) -> Seq<BufferedVertex> {
        self.vertices@
    }

    /// The indices accumulated so far, already re-based.
    pub closed spec fn index_seq(&self) -> Seq<u32> {
        self.indices@
    }

    /// The running vertex count that local indices are re-based onto.
    pub closed spec fn vertex_count(&self) -> u32 {
        self.index
    }

    /// The buffer invariant: the running count equals the number of buffered
    /// vertices, every accumulated index lies below it, every buffered vertex
    /// is in the layout the session's texture flag selects, and an idle
    /// buffer is empty.
    pub open spec fn wf(&self) -> bool {
        &&& self.vertex_count() == self.buffered().len()
        &&& forall|k: int| 0 <= k < self.index_seq().len() ==> self.index_seq()[k] < self.vertex_count()
        &&& forall|k: int|
            0 <= k < self.buffered().len() ==> (self.buffered()[k] is Textured <==> self.session_texture())
        &&& !self.is_drawing() ==> {
            &&& self.buffered().len() == 0
            &&& self.index_seq().len() == 0
            &&& self.session_primitive() is None
        }
        &&& self.is_drawing() ==> self.session_primitive() is Some
    }

    /// An idle, empty buffer.
    pub fn new() -> (r: DrawBuffer)
        ensures
            r.wf(),
            !r.is_drawing(),
    {
        Self::with_capacity(0)
    }

    /// An idle, empty buffer sized for `initial_capacity` vertices.
    pub fn with_capacity(initial_capacity: usize) -> (r: DrawBuffer)
        ensures
            r.wf(),
            !r.is_drawing(),
    {
        DrawBuffer {
            index: 0,
            vertices: Vec::with_capacity(initial_capacity),
            indices: Vec::with_capacity(initial_capacity),
            normal: false,
            texture: false,
            primitive_type: None,
            drawing: false,
        }
    }

    /// Opens a drawing session, fixing the topology and the capability flags.
    /// Fails with `InvalidState`, leaving the buffer unchanged, if a session
    /// is already open.
    pub fn start_drawing(&mut self, primitive_type: PrimitiveKind, normal: bool, texture: bool) -> (r:
        Result<(), DrawError>)
        requires
            old(self).wf(),
        ensures
            final(self).wf(),
            old(self).is_drawing() ==> r == Err::<(), DrawError>(DrawError::InvalidState)
                && *final(self) == *old(self),
            !old(self).is_drawing() ==> {
                &&& r == Ok::<(), DrawError>(())
                &&& final(self).is_drawing()
                &&& final(self).session_primitive() == Some(primitive_type)
                &&& final(self).session_normal() == normal
                &&& final(self).session_texture() == texture
                &&& final(self).buffered().len() == 0
                &&& final(self).index_seq().len() == 0
                &&& final(self).vertex_count() == 0
            },
    {
        if !self.drawing {
            self.drawing = true;
            self.primitive_type = Some(primitive_type);
            self.normal = normal;
            self.texture = texture;
            Ok(())
        } else {
            Err(DrawError::InvalidState)
        }
    }

    /// Clears the buffer back to the idle state.
    pub fn reset(&mut self)
        ensures
            final(self).wf(),
            !final(self).is_drawing(),
            final(self).buffered().len() == 0,
            final(self).index_seq().len() == 0,
            final(self).vertex_count() == 0,
            final(self).session_primitive() is None,
    {
        self.index = 0;
        self.vertices.clear();
        self.indices.clear();
        self.primitive_type = None;
        self.drawing = false;
    }

    /// Appends a batch of vertices together with indices in the batch's local
    /// index space.  On success the vertices are resolved into the session's
    /// layout (missing colors default to opaque white, missing normals to the
    /// default normal) and the indices are re-based onto the running vertex
    /// count; on any failure the buffer is unchanged.
    pub fn add_multiple_vertices(&mut self, vertices: Vec<Vertex>, indices: Vec<u32>) -> (r: Result<
        (),
        DrawError,
    >)
        requires
            old(self).wf(),
            old(self).vertex_count() + vertices@.len() <= u32::MAX,
        ensures
            final(self).wf(),
            match r {
                Ok(()) => {
                    &&& batch_error(
                        old(self).is_drawing(),
                        old(self).session_normal(),
                        old(self).session_texture(),
                        vertices@,
                        indices@,
                    ) is None
                    &&& final(self).is_drawing()
                    &&& final(self).session_normal() == old(self).session_normal()
                    &&& final(self).session_texture() == old(self).session_texture()
                    &&& final(self).session_primitive() == old(self).session_primitive()
                    &&& final(self).buffered() == old(self).buffered() + vertices@.map_values(
                        |v: Vertex| resolve_vertex(v, old(self).session_texture()),
                    )
                    &&& final(self).index_seq() == old(self).index_seq() + offset_indices(
                        indices@,
                        old(self).vertex_count(),
                    )
                    &&& final(self).vertex_count() == old(self).vertex_count() + vertices@.len()
                },
                Err(e) => {
                    &&& batch_error(
                        old(self).is_drawing(),
                        old(self).session_normal(),
                        old(self).session_texture(),
                        vertices@,
                        indices@,
                    ) == Some(e)
                    &&& *final(self) == *old(self)
                },
            },
    {
        if !self.drawing {
            return Err(DrawError::InvalidState);
        }
        let n = vertices.len();
        let mut i: usize = 0;
        while i < n
            invariant
                n == vertices@.len(),
                i <= n,
                old(self).wf(),
                *self == *old(self),
                self.drawing,
                forall|k: int|
                    0 <= k < i ==> vertex_allowed(vertices@[k], self.session_normal(), self.session_texture()),
            decreases n - i,
        {
            let v = vertices[i];
            if (v.normal.is_some() && !self.normal) || (v.texture_uv.is_some() && !self.texture) || (
            self.texture && v.texture_uv.is_none()) {
                proof {
                    assert(!vertex_allowed(
                        vertices@[i as int],
                        self.session_normal(),
                        self.session_texture(),
                    ));
                }
                return Err(DrawError::CapabilityMismatch);
            }
            i += 1;
        }
        let m = indices.len();
        let mut j: usize = 0;
        while j < m
            invariant
                n == vertices@.len(),
                m == indices@.len(),
                j <= m,
                old(self).wf(),
                *self == *old(self),
                self.drawing,
                forall|k: int|
                    0 <= k < n ==> vertex_allowed(vertices@[k], self.session_normal(), self.session_texture()),
                forall|k: int| 0 <= k < j ==> indices@[k] < n,
            decreases m - j,
        {
            if indices[j] as usize >= n {
                proof {
                    assert(indices@[j as int] >= vertices@.len());
                }
                return Err(DrawError::IndexOutOfRange);
            }
            j += 1;
        }
        let ghost pre = *self;
        let mut i: usize = 0;
        while i < n
            invariant
                n == vertices@.len(),
                i <= n,
                pre.wf(),
                pre.is_drawing(),
                self.index == pre.index,
                self.indices@ == pre.indices@,
                self.normal == pre.normal,
                self.texture == pre.texture,
                self.primitive_type == pre.primitive_type,
                self.drawing == pre.drawing,
                self.drawing,
                forall|k: int|
                    0 <= k < n ==> vertex_allowed(vertices@[k], pre.session_normal(), pre.session_texture()),
                self.vertices@ == pre.vertices@ + vertices@.subrange(0, i as int).map_values(
                    |v: Vertex| resolve_vertex(v, pre.session_texture()),
                ),
            decreases n - i,
        {
            let v = vertices[i];
            let nrm = match v.normal {
                Some(nv) => nv,
                None => Vec3 { x: 1, y: 1, z: 1 },
            };
            let col = match v.color {
                Some(cv) => cv,
                None => Color { r: 255, g: 255, b: 255, a: 255 },
            };
            if self.texture {
                let uv = match v.texture_uv {
                    Some(u) => u,
                    None => unreached(),
                };
                self.vertices.push(
                    BufferedVertex::Textured(
                        TexturedVertex { pos: v.pos, normal: nrm, color: col, texture_uv: uv },
                    ),
                );
            } else {
                self.vertices.push(
                    BufferedVertex::Simple(SimpleVertex { pos: v.pos, normal: nrm, color: col }),
                );
            }
            proof {
                assert(vertices@.subrange(0, i + 1) =~= vertices@.subrange(0, i as int).push(
                    vertices@[i as int],
                ));
                assert(self.vertices@ =~= pre.vertices@ + vertices@.subrange(0, i + 1).map_values(
                    |v: Vertex| resolve_vertex(v, pre.session_texture()),
                ));
            }
            i += 1;
        }
        proof {
            assert(vertices@.subrange(0, n as int) =~= vertices@);
        }
        let ghost mid_vertices = self.vertices@;
        let mut j: usize = 0;
        while j < m
            invariant
                n == vertices@.len(),
                m == indices@.len(),
                j <= m,
                pre.wf(),
                pre.index + n <= u32::MAX,
                self.index == pre.index,
                self.vertices@ == mid_vertices,
                self.normal == pre.normal,
                self.texture == pre.texture,
                self.primitive_type == pre.primitive_type,
                self.drawing == pre.drawing,
                self.drawing,
                forall|k: int| 0 <= k < m ==> indices@[k] < n,
                self.indices@ == pre.indices@ + offset_indices(
                    indices@.subrange(0, j as int),
                    pre.index,
                ),
            decreases m - j,
        {
            let idx = indices[j];
            self.indices.push(idx + self.index);
            proof {
                assert(indices@.subrange(0, j + 1) =~= indices@.subrange(0, j as int).push(
                    indices@[j as int],
                ));
                assert(self.indices@ =~= pre.indices@ + offset_indices(
                    indices@.subrange(0, j + 1),
                    pre.index,
                ));
            }
            j += 1;
        }
        proof {
            assert(indices@.subrange(0, m as int) =~= indices@);
        }
        self.index = self.index + n as u32;
        proof {
            assert forall|k: int| 0 <= k < self.indices@.len() implies self.indices@[k]
                < self.index by {
                if k < pre.indices@.len() {
                    assert(pre.index_seq()[k] < pre.vertex_count());
                } else {
                    let loc = indices@[k - pre.indices@.len()];
                    assert(self.indices@[k] == (loc + pre.index) as u32);
                    assert(loc < n);
                }
            }
            assert forall|k: int| 0 <= k < self.vertices@.len() implies (self.vertices@[k]
                is Textured <==> self.texture) by {
                if k >= pre.vertices@.len() {
                    assert(self.vertices@[k] == resolve_vertex(
                        vertices@[k - pre.vertices@.len()],
                        pre.session_texture(),
                    ));
                }
            }
        }
        Ok(())
    }

    /// Appends a single vertex with the trivial local index `0`.
    pub fn add_vertex(&mut self, vertex: Vertex) -> (r: Result<(), DrawError>)
        requires
            old(self).wf(),
            old(self).vertex_count() + 1 <= u32::MAX,
        ensures
            final(self).wf(),
            match r {
                Ok(()) => {
                    &&& old(self).is_drawing()
                    &&& vertex_allowed(vertex, old(self).session_normal(), old(self).session_texture())
                    &&& final(self).is_drawing()
                    &&& final(self).session_normal() == old(self).session_normal()
                    &&& final(self).session_texture() == old(self).session_texture()
                    &&& final(self).session_primitive() == old(self).session_primitive()
                    &&& final(self).buffered() == old(self).buffered().push(
                        resolve_vertex(vertex, old(self).session_texture()),
                    )
                    &&& final(self).index_seq() == old(self).index_seq().push(
                        old(self).vertex_count(),
                    )
                    &&& final(self).vertex_count() == old(self).vertex_count() + 1
                },
                Err(DrawError::InvalidState) => !old(self).is_drawing() && *final(self)
                    == *old(self),
                Err(DrawError::CapabilityMismatch) => {
                    &&& old(self).is_drawing()
                    &&& !vertex_allowed(vertex, old(self).session_normal(), old(self).session_texture())
                    &&& *final(self) == *old(self)
                },
                Err(DrawError::IndexOutOfRange) => false,
            },
    {
        let mut vs: Vec<Vertex> = Vec::new();
        vs.push(vertex);
        let mut locs: Vec<u32> = Vec::new();
        locs.push(0);
        let ghost gvs = vs@;
        let ghost glocs = locs@;
        let r = self.add_multiple_vertices(vs, locs);
        proof {
            assert(gvs =~= seq![vertex]);
            assert(glocs =~= seq![0u32]);
            let ghost err = batch_error(
                old(self).is_drawing(),
                old(self).session_normal(),
                old(self).session_texture(),
                gvs,
                glocs,
            );
            match r {
                Ok(()) => {
                    if !vertex_allowed(
                        vertex,
                        old(self).session_normal(),
                        old(self).session_texture(),
                    ) {
                        assert(!vertex_allowed(
                            gvs[0],
                            old(self).session_normal(),
                            old(self).session_texture(),
                        ));
                        assert(err is Some);
                    }
                    assert(gvs.map_values(
                        |v: Vertex| resolve_vertex(v, old(self).session_texture()),
                    ) =~= seq![resolve_vertex(vertex, old(self).session_texture())]);
                    assert(offset_indices(glocs, old(self).vertex_count()) =~= seq![
                        old(self).vertex_count(),
                    ]);
                    assert(self.buffered() =~= old(self).buffered().push(
                        resolve_vertex(vertex, old(self).session_texture()),
                    ));
                    assert(self.index_seq() =~= old(self).index_seq().push(
                        old(self).vertex_count(),
                    ));
                },
                Err(DrawError::CapabilityMismatch) => {
                    let i = choose|i: int|
                        0 <= i < gvs.len() && !vertex_allowed(
                            gvs[i],
                            old(self).session_normal(),
                            old(self).session_texture(),
                        );
                    assert(i == 0);
                    assert(gvs[0] == vertex);
                },
                Err(DrawError::IndexOutOfRange) => {
                    let j = choose|j: int| 0 <= j < glocs.len() && glocs[j] >= gvs.len();
                    assert(j == 0);
                    assert(glocs[0] == 0u32 && gvs.len() == 1);
                    assert(false);
                },
                Err(DrawError::InvalidState) => {},
            }
        }
        r
    }

    /// Encodes the accumulated session into one device submission.  Fails
    /// with `InvalidState` if no session is open.  Read-only: the buffer is
    /// left as it is, so the same session can be submitted again or extended.
    pub fn draw(&self) -> (r: Result<DrawCall, DrawError>)
        requires
            self.wf(),
        ensures
            match r {
                Ok(call) => self.is_drawing() && call_matches(call, self),
                Err(e) => !self.is_drawing() && e == DrawError::InvalidState,
            },
    {
        if !self.drawing {
            return Err(DrawError::InvalidState);
        }
        let primitive = match self.primitive_type {
            Some(p) => p,
            None => unreached(),
        };
        let ix = copy_indices(&self.indices);
        if self.texture {
            let n = self.vertices.len();
            let mut out: Vec<TexturedVertex> = Vec::new();
            let mut i: usize = 0;
            while i < n
                invariant
                    n == self.vertices@.len(),
                    i <= n,
                    self.wf(),
                    self.is_drawing(),
                    self.session_texture(),
                    out@.len() == i,
                    forall|k: int|
                        0 <= k < i ==> BufferedVertex::Textured(out@[k]) == self.buffered()[k],
                decreases n - i,
            {
                match self.vertices[i] {
                    BufferedVertex::Textured(tv) => out.push(tv),
                    BufferedVertex::Simple(_) => {
                        proof {
                            assert(false);
                        }
                    },
                }
                i += 1;
            }
            Ok(DrawCall::Textured { primitive, vertices: out, indices: ix })
        } else {
            let n = self.vertices.len();
            let mut out: Vec<SimpleVertex> = Vec::new();
            let mut i: usize = 0;
            while i < n
                invariant
                    n == self.vertices@.len(),
                    i <= n,
                    self.wf(),
                    self.is_drawing(),
                    !self.session_texture(),
                    out@.len() == i,
                    forall|k: int|
                        0 <= k < i ==> BufferedVertex::Simple(out@[k]) == self.buffered()[k],
                decreases n - i,
            {
                match self.vertices[i] {
                    BufferedVertex::Simple(sv) => out.push(sv),
                    BufferedVertex::Textured(_) => {
                        proof {
                            assert(false);
                        }
                    },
                }
                i += 1;
            }
            Ok(DrawCall::Simple { primitive, vertices: out, indices: ix })
        }
    }

    /// One-shot convenience: a fresh buffer, one session, the given vertices
    /// with trivial sequential indices, one submission.  Succeeds exactly
    /// when every vertex conforms to the requested capability flags.
    pub fn draw_once(
        primitive_type: PrimitiveKind,
        normal: bool,
        texture: bool,
        vertices: Vec<Vertex>,
    ) -> (r: Result<DrawCall, DrawError>)
        requires
            vertices@.len() <= u32::MAX,
        ensures
            match r {
                Ok(call) => {
                    &&& forall|k: int|
                        0 <= k < vertices@.len() ==> vertex_allowed(vertices@[k], normal, texture)
                    &&& draw_once_call(call, primitive_type, texture, vertices@)
                },
                Err(e) => {
                    &&& e == DrawError::CapabilityMismatch
                    &&& exists|k: int|
                        0 <= k < vertices@.len() && !vertex_allowed(vertices@[k], normal, texture)
                },
            },
    {
        let mut buffer = Self::with_capacity(vertices.len());
        let started = buffer.start_drawing(primitive_type, normal, texture);
        proof {
            assert(started is Ok);
        }
        let n = vertices.len();
        let mut i: usize = 0;
        while i < n
            invariant
                n == vertices@.len(),
                n <= u32::MAX,
                i <= n,
                buffer.wf(),
                buffer.is_drawing(),
                buffer.session_normal() == normal,
                buffer.session_texture() == texture,
                buffer.session_primitive() == Some(primitive_type),
                buffer.vertex_count() == i,
                forall|k: int| 0 <= k < i ==> vertex_allowed(vertices@[k], normal, texture),
                forall|k: int|
                    0 <= k < i ==> buffer.buffered()[k] == resolve_vertex(vertices@[k], texture),
                buffer.buffered().len() == i,
                buffer.index_seq().len() == i,
                forall|k: int| 0 <= k < i ==> buffer.index_seq()[k] == k,
            decreases n - i,
        {
            let v = vertices[i];
            match buffer.add_vertex(v) {
                Ok(()) => {},
                Err(_) => {
                    proof {
                        assert(!vertex_allowed(vertices@[i as int], normal, texture));
                    }
                    return Err(DrawError::CapabilityMismatch);
                },
            }
            i += 1;
        }
        match buffer.draw() {
            Ok(call) => {
                proof {
                    assert(call_matches(call, &buffer));
                    match &call {
                        DrawCall::Simple { primitive: p, vertices: cv, indices: ix } => {
                            assert forall|k: int|
                                0 <= k < vertices@.len() implies BufferedVertex::Simple(cv@[k])
                                == resolve_vertex(vertices@[k], false) by {
                                assert(BufferedVertex::Simple(cv@[k]) == buffer.buffered()[k]);
                                assert(buffer.buffered()[k] == resolve_vertex(
                                    vertices@[k],
                                    texture,
                                ));
                            }
                            assert forall|k: int| 0 <= k < vertices@.len() implies ix@[k] == k by {
                                assert(ix@[k] == buffer.index_seq()[k]);
                            }
                        },
                        DrawCall::Textured { primitive: p, vertices: cv, indices: ix } => {
                            assert forall|k: int|
                                0 <= k < vertices@.len() implies BufferedVertex::Textured(cv@[k])
                                == resolve_vertex(vertices@[k], true) by {
                                assert(BufferedVertex::Textured(cv@[k]) == buffer.buffered()[k]);
                                assert(buffer.buffered()[k] == resolve_vertex(
                                    vertices@[k],
                                    texture,
                                ));
                            }
                            assert forall|k: int| 0 <= k < vertices@.len() implies ix@[k] == k by {
                                assert(ix@[k] == buffer.index_seq()[k]);
                            }
                        },
                    }
                    assert(draw_once_call(call, primitive_type, texture, vertices@));
                }
                Ok(call)
            },
            Err(_) => unreached(),
        }
    }
}

/// What [`DrawBuffer::draw`] hands out: the session's topology, the buffered
/// vertices re-encoded in the layout the texture flag selects, and the
/// accumulated indices, unchanged.
pub open spec fn call_matches(call: DrawCall, b: &DrawBuffer) -> bool {
    match call {
        DrawCall::Simple { primitive, vertices, indices } => {
            &&& !b.session_texture()
            &&& b.session_primitive() == Some(primitive)
            &&& vertices@.len() == b.buffered().len()
            &&& forall|k: int|
                0 <= k < vertices@.len() ==> BufferedVertex::Simple(vertices@[k]) == b.buffered()[k]
            &&& indices@ == b.index_seq()
        },
        DrawCall::Textured { primitive, vertices, indices } => {
            &&& b.session_texture()
            &&& b.session_primitive() == Some(primitive)
            &&& vertices@.len() == b.buffered().len()
            &&& forall|k: int|
                0 <= k < vertices@.len() ==> BufferedVertex::Textured(vertices@[k]) == b.buffered()[k]
            &&& indices@ == b.index_seq()
        },
    }
}

/// What [`DrawBuffer::draw_once`] hands out on success: the requested
/// topology, the input vertices resolved in order, and the trivial index
/// sequence `0, 1, .., n-1`.
pub open spec fn draw_once_call(
    call: DrawCall,
    primitive: PrimitiveKind,
    texture: bool,
    vs: Seq<Vertex>,
) -> bool {
    match call {
        DrawCall::Simple { primitive: p, vertices, indices } => {
            &&& !texture
            &&& p == primitive
            &&& vertices@.len() == vs.len()
            &&& forall|k: int|
                0 <= k < vs.len() ==> BufferedVertex::Simple(vertices@[k]) == resolve_vertex(
                    vs[k],
                    false,
                )
            &&& indices@.len() == vs.len()
            &&& forall|k: int| 0 <= k < vs.len() ==> indices@[k] == k
        },
        DrawCall::Textured { primitive: p, vertices, indices } => {
            &&& texture
            &&& p == primitive
            &&& vertices@.len() == vs.len()
            &&& forall|k: int|
                0 <= k < vs.len() ==> BufferedVertex::Textured(vertices@[k]) == resolve_vertex(
                    vs[k],
                    true,
                )
            &&& indices@.len() == vs.len()
            &&& forall|k: int| 0 <= k < vs.len() ==> indices@[k] == k
        },
    }
}

/// Law: in a well-formed buffer every accumulated index refers to a vertex
/// already accumulated in the same drawing session, so a submission can
/// never reference a vertex the session does not hold.
pub proof fn lemma_indices_reference_buffered(b: &DrawBuffer)
    requires
        b.wf(),
    ensures
        forall|k: int| 0 <= k < b.index_seq().len() ==> (b.index_seq()[k] as int) < b.buffered().len(),
{
}

/// Law: an encoded submission never dangles.  Whatever a session
/// accumulated, every index of the draw call it encodes references a vertex
/// of that same call.
pub proof fn lemma_draw_call_indices_in_bounds(call: DrawCall, b: &DrawBuffer)
    requires
        b.wf(),
        call_matches(call, b),
    ensures
        match call {
            DrawCall::Simple { vertices, indices, .. } => forall|k: int|
                0 <= k < indices@.len() ==> (indices@[k] as int) < vertices@.len(),
            DrawCall::Textured { vertices, indices, .. } => forall|k: int|
                0 <= k < indices@.len() ==> (indices@[k] as int) < vertices@.len(),
        },
{
    lemma_indices_reference_buffered(b);
}

fn copy_indices(v: &Vec<u32>) -> (r: Vec<u32>)
    ensures
        r@ == v@,
{
    let mut r: Vec<u32> = Vec::new();
    let n = v.len();
    let mut i: usize = 0;
    while i < n
        invariant
            n == v@.len(),
            i <= n,
            r@ == v@.subrange(0, i as int),
        decreases n - i,
    {
        r.push(v[i]);
        proof {
            assert(v@.subrange(0, i + 1) =~= v@.subrange(0, i as int).push(v@[i as int]));
        }
        i += 1;
    }
    proof {
        assert(v@.subrange(0, n as int) =~= v@);
    }
    r
}

} // verus!
