//! Triangle meshes and the vertex buffers that are drawn from them.

use vstd::prelude::*;
use vstd::seq_lib::seq_to_set_is_finite;
use vstd::set_lib::{lemma_len_subset, lemma_len_union};
use crate::color::{straight, Color};
use crate::error::PaintError;
use crate::scalar::{Scalar, UV_NUDGE_BITS, ZERO_BITS};
use crate::texture::TextureId;

verus! {

/// A point, in whatever space its holder says.
#[derive(Clone, Copy, Debug, PartialEq, Eq, Structural)]
pub struct Pos2 {
    pub x: Scalar,
    pub y: Scalar,
}

/// An axis-aligned rectangle given by two corners.
#[derive(Clone, Copy, Debug, PartialEq, Eq, Structural)]
pub struct Rect {
    pub min: Pos2,
    pub max: Pos2,
}

/// One corner of a triangle: where it lies, where it samples the texture,
/// and its color.
#[derive(Clone, Copy, Debug, PartialEq, Eq, Structural)]
pub struct Vertex {
    /// Position in device-independent units.
    pub pos: Pos2,
    /// Normalized texture coordinates.
    pub uv: Pos2,
    /// Premultiplied in a mesh, straight in a vertex buffer.
    pub color: Color,
}

/// Three vertices that are drawn as one triangle.
#[derive(Clone, Copy, Debug, PartialEq, Eq, Structural)]
pub struct Triangle {
    pub a: Vertex,
    pub b: Vertex,
    pub c: Vertex,
}

impl Pos2 {
    /// The point (0, 0), both coordinates positive zero.
    pub open spec fn origin() -> Pos2 {
        Pos2 { x: Scalar { bits: ZERO_BITS }, y: Scalar { bits: ZERO_BITS } }
    }

    /// Both coordinates compare equal to zero.
    pub open spec fn at_origin(self) -> bool {
        self.x.zero() && self.y.zero()
    }

    /// One of the coordinates is a NaN.
    pub open spec fn has_nan(self) -> bool {
        self.x.nan() || self.y.nan()
    }

    pub fn new(x: Scalar, y: Scalar) -> (p: Pos2)
        ensures
            p == (Pos2 { x, y }),
    {
        Pos2 { x, y }
    }
}

/// The texture coordinates given to the second vertex of a triangle whose
/// three vertices all sample the origin: (0, 2^-16).
pub open spec fn nudged_uv_b() -> Pos2 {
    Pos2 { x: Scalar { bits: ZERO_BITS }, y: Scalar { bits: UV_NUDGE_BITS } }
}

/// The texture coordinates given to the third vertex of such a triangle:
/// (2^-16, 0).
pub open spec fn nudged_uv_c() -> Pos2 {
    Pos2 { x: Scalar { bits: UV_NUDGE_BITS }, y: Scalar { bits: ZERO_BITS } }
}

impl Triangle {
    /// All three vertices sample the texture at exactly (0, 0): the mark of
    /// a flat-colored triangle.
    pub open spec fn samples_origin_only(self) -> bool {
        self.a.uv.at_origin() && self.b.uv.at_origin() && self.c.uv.at_origin()
    }

    /// The triangle with its texture coordinates made to span an area: where
    /// all three sample the origin, the second and third are moved by 2^-16
    /// along one axis each. Any other triangle is left as it is.
    pub open spec fn nudged(self) -> Triangle {
        if self.samples_origin_only() {
            Triangle {
                a: self.a,
                b: Vertex { pos: self.b.pos, uv: nudged_uv_b(), color: self.b.color },
                c: Vertex { pos: self.c.pos, uv: nudged_uv_c(), color: self.c.color },
            }
        } else {
            self
        }
    }

    /// The vertices that are drawn for this triangle, in order.
    pub open spec fn drawn(self) -> Seq<Vertex> {
        let t = self.nudged();
        seq![t.a.finished(), t.b.finished(), t.c.finished()]
    }

    pub fn nudge_uv(self) -> (t: Triangle)
        ensures
            t == self.nudged(),
    {
        if self.a.uv.x.is_zero() && self.a.uv.y.is_zero() && self.b.uv.x.is_zero()
            && self.b.uv.y.is_zero() && self.c.uv.x.is_zero() && self.c.uv.y.is_zero() {
            Triangle {
                a: self.a,
                b: Vertex {
                    pos: self.b.pos,
                    uv: Pos2 { x: Scalar::zero_value(), y: Scalar::uv_nudge() },
                    color: self.b.color,
                },
                c: Vertex {
                    pos: self.c.pos,
                    uv: Pos2 { x: Scalar::uv_nudge(), y: Scalar::zero_value() },
                    color: self.c.color,
                },
            }
        } else {
            self
        }
    }
}

impl Vertex {
    /// The vertex with a position that can be drawn: a position with a NaN
    /// coordinate is replaced by the origin. Nothing else changes.
    pub open spec fn with_drawable_position(self) -> Vertex {
        if self.pos.has_nan() {
            Vertex { pos: Pos2::origin(), uv: self.uv, color: self.color }
        } else {
            self
        }
    }

    /// The vertex as it enters a vertex buffer: position made drawable,
    /// color turned from premultiplied to straight alpha.
    pub open spec fn finished(self) -> Vertex {
        Vertex {
            pos: self.with_drawable_position().pos,
            uv: self.uv,
            color: straight(self.color),
        }
    }

    pub fn fix_position(self) -> (v: Vertex)
        ensures
            v == self.with_drawable_position(),
    {
        if self.pos.x.is_nan() || self.pos.y.is_nan() {
            Vertex {
                pos: Pos2 { x: Scalar::zero_value(), y: Scalar::zero_value() },
                uv: self.uv,
                color: self.color,
            }
        } else {
            self
        }
    }

    pub fn finish(self) -> (v: Vertex)
        ensures
            v == self.finished(),
    {
        let fixed = self.fix_position();
        Vertex { pos: fixed.pos, uv: self.uv, color: self.color.unpremultiply() }
    }
}

/// In a triangle whose vertices all sample the origin, the first vertex
/// keeps its texture coordinates, the second gets (0, 2^-16) and the third
/// (2^-16, 0); positions and colors stay. Every other triangle is unchanged.
pub proof fn lemma_nudged(t: Triangle)
    ensures
        t.samples_origin_only() ==> {
            &&& t.nudged().a == t.a
            &&& t.nudged().b.uv.x.bits == ZERO_BITS
            &&& t.nudged().b.uv.y.power_of_two(-16)
            &&& t.nudged().c.uv.x.power_of_two(-16)
            &&& t.nudged().c.uv.y.bits == ZERO_BITS
            &&& t.nudged().b.pos == t.b.pos && t.nudged().b.color == t.b.color
            &&& t.nudged().c.pos == t.c.pos && t.nudged().c.color == t.c.color
            &&& !t.nudged().samples_origin_only()
        },
        !t.samples_origin_only() ==> t.nudged() == t,
{
    let nudge = Scalar { bits: UV_NUDGE_BITS };
    assert(nudge.power_of_two(-16) && !nudge.zero());
}

/// A vertex with a NaN in its position is moved to exactly (0, 0) and keeps
/// its texture coordinates and color; a vertex without one is unchanged.
pub proof fn lemma_drawable_position(v: Vertex)
    ensures
        v.pos.has_nan() ==> v.with_drawable_position().pos == Pos2::origin(),
        !v.pos.has_nan() ==> v.with_drawable_position() == v,
        v.with_drawable_position().uv == v.uv,
        v.with_drawable_position().color == v.color,
        !v.with_drawable_position().pos.has_nan(),
{
    let zero = Scalar { bits: ZERO_BITS };
    assert(!zero.nan());
}

/// The indices come in threes and each names one of `vertex_count` vertices.
pub open spec fn indices_fit(vertex_count: nat, indices: Seq<int>) -> bool {
    &&& indices.len() % 3 == 0
    &&& forall|i: int| 0 <= i < indices.len() ==> 0 <= #[trigger] indices[i] < vertex_count
}

/// The triangle that the indices at `3 * t`, `3 * t + 1` and `3 * t + 2`
/// name.
pub open spec fn triangle_at(vertices: Seq<Vertex>, indices: Seq<int>, t: int) -> Triangle {
    Triangle {
        a: vertices[indices[3 * t]],
        b: vertices[indices[3 * t + 1]],
        c: vertices[indices[3 * t + 2]],
    }
}

/// The vertex buffer for an indexed mesh, without indices: for each
/// triangle in turn its three drawn vertices.
pub open spec fn triangle_list(vertices: Seq<Vertex>, indices: Seq<int>) -> Seq<Vertex> {
    Seq::new(
        (3 * (indices.len() / 3)) as nat,
        |k: int| triangle_at(vertices, indices, k / 3).drawn()[k % 3],
    )
}

/// 32-bit indices as integers.
pub open spec fn wide(indices: Seq<u32>) -> Seq<int> {
    indices.map_values(|i: u32| i as int)
}

/// 16-bit indices as integers.
pub open spec fn narrow(indices: Seq<u16>) -> Seq<int> {
    indices.map_values(|i: u16| i as int)
}

/// Textured triangles with 32-bit indices.
#[derive(Debug, PartialEq, Eq)]
pub struct Mesh {
    /// Three for each triangle.
    pub indices: Vec<u32>,
    pub vertices: Vec<Vertex>,
    pub texture_id: TextureId,
}

/// Textured triangles with 16-bit indices: what one draw call takes.
#[derive(Debug, PartialEq, Eq)]
pub struct Mesh16 {
    /// Three for each triangle.
    pub indices: Vec<u16>,
    pub vertices: Vec<Vertex>,
    pub texture_id: TextureId,
}

impl Mesh16 {
    /// The indices come in threes and name vertices of this mesh, of which
    /// there are no more than 16 bits can tell apart.
    pub open spec fn wf(self) -> bool {
        &&& self.vertices@.len() <= 0xffff
        &&& indices_fit(self.vertices@.len(), narrow(self.indices@))
    }

    /// The vertex buffer that is drawn for this mesh.
    pub open spec fn buffer(self) -> Seq<Vertex> {
        triangle_list(self.vertices@, narrow(self.indices@))
    }

    /// Builds the vertex buffer: for each triangle its three vertices, with
    /// degenerate texture coordinates moved apart, positions made drawable
    /// and colors turned to straight alpha.
    pub fn vertex_buffer(&self) -> (result: Result<Vec<Vertex>, PaintError>)
        ensures
            result is Ok <==> indices_fit(self.vertices@.len(), narrow(self.indices@)),
            result matches Ok(buffer) ==> buffer@ == self.buffer(),
            result matches Err(e) ==> e == PaintError::MalformedMesh,
    {
        let n = self.indices.len();
        let ghost indices = narrow(self.indices@);
        if n % 3 != 0 {
            return Err(PaintError::MalformedMesh);
        }
        let mut buffer: Vec<Vertex> = Vec::new();
        let mut i: usize = 0;
        while i < n
            invariant
                n == self.indices.len(),
                n % 3 == 0,
                indices == narrow(self.indices@),
                i <= n,
                i % 3 == 0,
                buffer@.len() == i,
                forall|k: int| 0 <= k < i ==> 0 <= #[trigger] indices[k] < self.vertices@.len(),
                forall|k: int| 0 <= k < i ==> buffer@[k] == self.buffer()[k],
            decreases n - i,
        {
            let ia = self.indices[i] as usize;
            let ib = self.indices[i + 1] as usize;
            let ic = self.indices[i + 2] as usize;
            let count = self.vertices.len();
            if ia >= count || ib >= count || ic >= count {
                proof {
                    let bad: int = if ia >= count {
                        i as int
                    } else if ib >= count {
                        i + 1
                    } else {
                        i + 2
                    };
                    assert(!(indices[bad] < self.vertices@.len()));
                }
                return Err(PaintError::MalformedMesh);
            }
            let t = Triangle { a: self.vertices[ia], b: self.vertices[ib], c: self.vertices[ic] }.nudge_uv();
            proof {
                let at = triangle_at(self.vertices@, indices, i as int / 3);
                assert(3 * (i as int / 3) == i);
                assert(at.a == self.vertices@[ia as int]);
                assert(at.nudged() == t);
                assert((i as int) % 3 == 0 && (i + 1) % 3 == 1 && (i + 2) % 3 == 2);
                assert((i + 1) / 3 == i as int / 3 && (i + 2) / 3 == i as int / 3);
            }
            buffer.push(t.a.finish());
            buffer.push(t.b.finish());
            buffer.push(t.c.finish());
            i = i + 3;
        }
        proof {
            assert(3 * (n as int / 3) == n);
            assert(buffer@ =~= self.buffer());
        }
        Ok(buffer)
    }
}

/// One piece of a split mesh, told by indices alone.
#[derive(Debug, PartialEq, Eq)]
pub struct IndexPart {
    /// For each vertex of the piece, its index in the mesh that was split.
    pub origins: Vec<u32>,
    /// Indices into `origins`, three for each triangle.
    pub indices: Vec<u16>,
}

/// Pieces as pairs: the origins of the vertices, then the indices.
pub open spec fn parts_view(parts: Seq<IndexPart>) -> Seq<(Seq<u32>, Seq<u16>)> {
    parts.map_values(|p: IndexPart| (p.origins@, p.indices@))
}

/// The number of vertices between the least and the greatest index of
/// triangle `t`, both counted.
pub open spec fn triangle_span(indices: Seq<u32>, t: int) -> int {
    let a = indices[3 * t] as int;
    let b = indices[3 * t + 1] as int;
    let c = indices[3 * t + 2] as int;
    let least = if a <= b && a <= c {
        a
    } else if b <= c {
        b
    } else {
        c
    };
    let greatest = if a >= b && a >= c {
        a
    } else if b >= c {
        b
    } else {
        c
    };
    greatest - least + 1
}

/// No triangle spans more vertices than 16-bit indices reach.
pub open spec fn triangles_narrow(indices: Seq<u32>) -> bool {
    forall|t: int| 0 <= t < indices.len() / 3 ==> #[trigger] triangle_span(indices, t) <= 0xffff
}

/// A mesh of `vertex_count` vertices with these indices can be cut into
/// pieces with 16-bit indices: the indices come in threes and name
/// vertices, and where there are more vertices than 16 bits tell apart, no
/// single triangle is too wide for a piece.
pub open spec fn splittable(vertex_count: nat, indices: Seq<u32>) -> bool {
    &&& vertex_count <= u32::MAX
    &&& indices_fit(vertex_count, wide(indices))
    &&& vertex_count > 0xffff ==> triangles_narrow(indices)
}

/// A piece is sound within a mesh of `vertex_count` vertices: it has no
/// more vertices than 16 bits tell apart, each taken from the mesh, and
/// its indices come in threes and name vertices of the piece.
pub open spec fn part_fits(part: (Seq<u32>, Seq<u16>), vertex_count: nat) -> bool {
    &&& part.0.len() <= 0xffff
    &&& part.1.len() % 3 == 0
    &&& forall|i: int| 0 <= i < part.1.len() ==> (#[trigger] part.1[i]) < part.0.len()
    &&& forall|j: int| 0 <= j < part.0.len() ==> (#[trigger] part.0[j]) < vertex_count
}

/// Every piece is sound.
pub open spec fn parts_fit(parts: Seq<(Seq<u32>, Seq<u16>)>, vertex_count: nat) -> bool {
    forall|p: int| 0 <= p < parts.len() ==> part_fits(#[trigger] parts[p], vertex_count)
}

/// The indices of a piece, each replaced by the index that its vertex had
/// in the mesh that was split.
pub open spec fn part_referenced(part: (Seq<u32>, Seq<u16>)) -> Seq<u32> {
    part.1.map_values(|i: u16| part.0[i as int])
}

/// What the pieces reference in the mesh that was split, piece after piece.
pub open spec fn referenced(parts: Seq<(Seq<u32>, Seq<u16>)>) -> Seq<u32>
    decreases parts.len(),
{
    if parts.len() == 0 {
        Seq::empty()
    } else {
        referenced(parts.drop_last()) + part_referenced(parts.last())
    }
}

/// A whole mesh as one piece: every vertex at its own place, every index as
/// it is.
pub open spec fn whole_part(vertex_count: nat, indices: Seq<u32>) -> (Seq<u32>, Seq<u16>) {
    (Seq::new(vertex_count, |j: int| j as u32), indices.map_values(|i: u32| i as u16))
}

/// The number of different vertices that the indices name.
pub open spec fn vertices_named(indices: Seq<u32>) -> nat {
    indices.to_set().len()
}

/// The pieces into which `Mesh::split_to_u16` cuts a mesh of `vertex_count`
/// vertices with these indices: for each piece the origins of its vertices
/// and its indices.
pub uninterp spec fn split_parts(vertex_count: u32, indices: Seq<u32>) -> Seq<(Seq<u32>, Seq<u16>)>;

/// `epaint::Mesh::split_to_u16`, on the indices of a mesh.
///
/// The cut depends on the indices and on the number of vertices only, so
/// each vertex handed over stands for itself by its number, written into
/// its four color bytes; what comes back is read the same way. The
/// contract claims what the function's source shows: the pieces are a
/// function of the arguments; each piece has at most 65535 vertices, all
/// copied from the mesh, and indices in threes that stay within the piece;
/// the pieces together reference the vertices that the mesh referenced, in
/// the same order; and a mesh of at most 65535 vertices comes back as one
/// piece, with all its vertices in place and its indices as they were.
/// Inputs on which the function panics or reads past the end are left out.
#[verifier::external_body]
fn split_indices(vertex_count: u32, indices: &Vec<u32>) -> (parts: Vec<IndexPart>)
    requires
        splittable(vertex_count as nat, indices@),
    ensures
        parts_view(parts@) == split_parts(vertex_count, indices@),
        parts_fit(parts_view(parts@), vertex_count as nat),
        referenced(parts_view(parts@)) == indices@,
        vertex_count <= 0xffff ==> parts_view(parts@) == seq![whole_part(vertex_count as nat, indices@)],
{
    let vertices = (0..vertex_count).map(|i| {
        let [r, g, b, a] = i.to_le_bytes();
        egui::epaint::Vertex {
            color: egui::Color32::from_rgba_premultiplied(r, g, b, a),
            ..Default::default()
        }
    }).collect();
    let mesh = egui::Mesh { indices: indices.clone(), vertices, texture_id: Default::default() };
    mesh.split_to_u16().into_iter().map(|part| IndexPart {
        origins: part.vertices.iter().map(|v| u32::from_le_bytes(v.color.to_array())).collect(),
        indices: part.indices,
    }).collect()
}

/// The vertex buffers of the pieces, one after the other.
pub open spec fn buffers(parts: Seq<Mesh16>) -> Seq<Vertex>
    decreases parts.len(),
{
    if parts.len() == 0 {
        Seq::empty()
    } else {
        buffers(parts.drop_last()) + parts.last().buffer()
    }
}

/// The vertices of a piece: those of the mesh at the piece's origins.
pub open spec fn part_vertices(vertices: Seq<Vertex>, origins: Seq<u32>) -> Seq<Vertex> {
    origins.map_values(|o: u32| vertices[o as int])
}

/// `made` is what `parts` cut out of a mesh with these vertices and this
/// texture.
pub open spec fn assembled(
    vertices: Seq<Vertex>,
    texture_id: TextureId,
    parts: Seq<(Seq<u32>, Seq<u16>)>,
    made: Seq<Mesh16>,
) -> bool {
    &&& made.len() == parts.len()
    &&& forall|p: int|
        0 <= p < made.len() ==> {
            &&& (#[trigger] made[p]).vertices@ == part_vertices(vertices, parts[p].0)
            &&& made[p].indices@ == parts[p].1
            &&& made[p].texture_id == texture_id
        }
}

impl Mesh {
    /// The indices come in threes and name vertices, of which there are no
    /// more than a 32-bit index can name.
    pub open spec fn well_indexed(self) -> bool {
        &&& self.vertices@.len() <= u32::MAX
        &&& indices_fit(self.vertices@.len(), wide(self.indices@))
    }

    /// The vertex buffer that an unsplit draw of this mesh would take.
    pub open spec fn buffer(self) -> Seq<Vertex> {
        triangle_list(self.vertices@, wide(self.indices@))
    }

    /// Whether the indices come in threes and name vertices.
    pub fn is_well_indexed(&self) -> (ok: bool)
        ensures
            ok == self.well_indexed(),
    {
        let count = self.vertices.len();
        let n = self.indices.len();
        if count > u32::MAX as usize || n % 3 != 0 {
            return false;
        }
        let ghost indices = wide(self.indices@);
        let mut i: usize = 0;
        while i < n
            invariant
                n == self.indices.len(),
                count == self.vertices.len(),
                indices == wide(self.indices@),
                i <= n,
                forall|k: int| 0 <= k < i ==> 0 <= #[trigger] indices[k] < count,
            decreases n - i,
        {
            if self.indices[i] as usize >= count {
                assert(!(indices[i as int] < count));
                return false;
            }
            i = i + 1;
        }
        true
    }

    /// Whether no triangle spans more vertices than 16-bit indices reach.
    pub fn has_narrow_triangles(&self) -> (ok: bool)
        ensures
            ok == triangles_narrow(self.indices@),
    {
        let n = self.indices.len();
        let mut i: usize = 0;
        while n - i >= 3
            invariant
                n == self.indices.len(),
                i <= n,
                i % 3 == 0,
                forall|t: int| 0 <= t < i / 3 ==> #[trigger] triangle_span(self.indices@, t) <= 0xffff,
            decreases n - i,
        {
            let a = self.indices[i];
            let b = self.indices[i + 1];
            let c = self.indices[i + 2];
            let least = if a <= b && a <= c {
                a
            } else if b <= c {
                b
            } else {
                c
            };
            let greatest = if a >= b && a >= c {
                a
            } else if b >= c {
                b
            } else {
                c
            };
            assert(3 * (i as int / 3) == i);
            if greatest - least >= 0xffff {
                assert(triangle_span(self.indices@, i as int / 3) > 0xffff);
                return false;
            }
            assert(triangle_span(self.indices@, i as int / 3) <= 0xffff);
            i = i + 3;
        }
        assert(n as int / 3 == i as int / 3);
        true
    }

    /// Cuts the mesh into pieces with 16-bit indices.
    ///
    /// Each piece has at most 65535 vertices and indices that stay within
    /// it. Drawn one after the other, the pieces give what the unsplit mesh
    /// would have given: their vertex buffers, joined, are the vertex
    /// buffer of the mesh. A mesh of at most 65535 vertices stays in one
    /// piece, which is the mesh itself. A mesh whose indices name more than
    /// 65535 different vertices is cut into more than one piece.
    pub fn split_to_u16(&self) -> (result: Result<Vec<Mesh16>, PaintError>)
        ensures
            result is Ok <==> splittable(self.vertices@.len(), self.indices@),
            result matches Err(e) ==> e == if self.well_indexed() {
                PaintError::TriangleTooWide
            } else {
                PaintError::MalformedMesh
            },
            result matches Ok(made) ==> {
                let parts = split_parts(self.vertices@.len() as u32, self.indices@);
                &&& assembled(self.vertices@, self.texture_id, parts, made@)
                &&& parts_fit(parts, self.vertices@.len())
                &&& referenced(parts) == self.indices@
                &&& forall|p: int| 0 <= p < made@.len() ==> (#[trigger] made@[p]).wf()
                &&& buffers(made@) == self.buffer()
                &&& self.vertices@.len() <= 0xffff ==> {
                    &&& made@.len() == 1
                    &&& made@[0].vertices@ == self.vertices@
                    &&& narrow(made@[0].indices@) == wide(self.indices@)
                    &&& made@[0].buffer() == self.buffer()
                }
                &&& vertices_named(self.indices@) > 0xffff ==> made@.len() > 1
            },
    {
        if !self.is_well_indexed() {
            return Err(PaintError::MalformedMesh);
        }
        if self.vertices.len() > 0xffff && !self.has_narrow_triangles() {
            return Err(PaintError::TriangleTooWide);
        }
        let vertex_count = self.vertices.len() as u32;
        let parts = split_indices(vertex_count, &self.indices);
        match assemble(&self.vertices, self.texture_id, &parts) {
            Some(made) => {
                proof {
                    lemma_buffers_of_parts(self.vertices@, parts_view(parts@), made@);
                    lemma_pieces_needed(parts_view(parts@), self.vertices@.len());
                    if self.vertices@.len() <= 0xffff {
                        lemma_whole_part(self.vertices@, self.indices@);
                        assert(parts_view(parts@)[0] == whole_part(self.vertices@.len(), self.indices@));
                        assert(made@[0].buffer() == self.buffer());
                    }
                }
                Ok(made)
            },
            None => {
                assert(false);
                Err(PaintError::MalformedMesh)
            },
        }
    }
}

impl IndexPart {
    /// Origins and indices as a pair.
    pub open spec fn pair(self) -> (Seq<u32>, Seq<u16>) {
        (self.origins@, self.indices@)
    }

    /// Whether the piece is sound within a mesh of `vertex_count` vertices.
    pub fn fits(&self, vertex_count: usize) -> (ok: bool)
        ensures
            ok == part_fits(self.pair(), vertex_count as nat),
    {
        let count = self.origins.len();
        let n = self.indices.len();
        if count > 0xffff || n % 3 != 0 {
            return false;
        }
        let mut i: usize = 0;
        while i < n
            invariant
                n == self.indices.len(),
                count == self.origins.len(),
                i <= n,
                forall|k: int| 0 <= k < i ==> (#[trigger] self.indices@[k]) < count,
            decreases n - i,
        {
            if self.indices[i] as usize >= count {
                return false;
            }
            i = i + 1;
        }
        let mut j: usize = 0;
        while j < count
            invariant
                count == self.origins.len(),
                j <= count,
                forall|k: int| 0 <= k < j ==> (#[trigger] self.origins@[k]) < vertex_count,
            decreases count - j,
        {
            if self.origins[j] as usize >= vertex_count {
                return false;
            }
            j = j + 1;
        }
        true
    }

    /// The piece that these origins and indices cut out of `vertices`.
    fn cut(&self, vertices: &Vec<Vertex>, texture_id: TextureId) -> (piece: Mesh16)
        requires
            part_fits(self.pair(), vertices@.len()),
        ensures
            piece.vertices@ == part_vertices(vertices@, self.origins@),
            piece.indices@ == self.indices@,
            piece.texture_id == texture_id,
            piece.wf(),
    {
        let mut taken: Vec<Vertex> = Vec::new();
        let mut j: usize = 0;
        while j < self.origins.len()
            invariant
                j <= self.origins.len(),
                taken@.len() == j,
                forall|k: int| 0 <= k < self.origins@.len() ==> (#[trigger] self.origins@[k]) < vertices@.len(),
                forall|k: int| 0 <= k < j ==> taken@[k] == vertices@[self.origins@[k] as int],
            decreases self.origins.len() - j,
        {
            taken.push(vertices[self.origins[j] as usize]);
            j = j + 1;
        }
        let indices = self.indices.clone();
        assert(indices@ =~= self.indices@);
        assert(taken@ =~= part_vertices(vertices@, self.origins@));
        let piece = Mesh16 { indices, vertices: taken, texture_id };
        proof {
            assert(narrow(piece.indices@).len() == self.indices@.len());
            assert forall|i: int| 0 <= i < narrow(piece.indices@).len() implies 0 <= #[trigger] narrow(
                piece.indices@,
            )[i] < piece.vertices@.len() by {
                assert(self.indices@[i] < self.origins@.len());
            }
        }
        piece
    }
}

/// Builds the pieces of a mesh from their origins and indices. `None` where
/// a piece is not sound: too many vertices, indices not in threes, an index
/// that names no vertex of the piece, or an origin that names none of
/// `vertices`.
pub fn assemble(vertices: &Vec<Vertex>, texture_id: TextureId, parts: &Vec<IndexPart>) -> (result: Option<
    Vec<Mesh16>,
>)
    ensures
        result is Some <==> parts_fit(parts_view(parts@), vertices@.len()),
        result matches Some(made) ==> {
            &&& assembled(vertices@, texture_id, parts_view(parts@), made@)
            &&& forall|p: int| 0 <= p < made@.len() ==> (#[trigger] made@[p]).wf()
        },
{
    let ghost views = parts_view(parts@);
    let mut made: Vec<Mesh16> = Vec::new();
    let mut p: usize = 0;
    while p < parts.len()
        invariant
            views == parts_view(parts@),
            p <= parts.len(),
            parts_fit(views.take(p as int), vertices@.len()),
            assembled(vertices@, texture_id, views.take(p as int), made@),
            forall|q: int| 0 <= q < made@.len() ==> (#[trigger] made@[q]).wf(),
        decreases parts.len() - p,
    {
        let part = &parts[p];
        assert(views[p as int] == part.pair());
        if !part.fits(vertices.len()) {
            assert(!part_fits(views[p as int], vertices@.len()));
            return None;
        }
        made.push(part.cut(vertices, texture_id));
        p = p + 1;
        proof {
            let now = views.take(p as int);
            assert forall|q: int| 0 <= q < now.len() implies part_fits(#[trigger] now[q], vertices@.len()) by {
                if q < p - 1 {
                    assert(views.take(p - 1)[q] == now[q]);
                }
            }
            assert forall|q: int| 0 <= q < made@.len() implies {
                &&& (#[trigger] made@[q]).vertices@ == part_vertices(vertices@, now[q].0)
                &&& made@[q].indices@ == now[q].1
                &&& made@[q].texture_id == texture_id
            } by {
                if q < p - 1 {
                    assert(views.take(p - 1)[q] == now[q]);
                }
            }
        }
    }
    assert(views.take(p as int) =~= views);
    Some(made)
}

/// Indices in threes, followed by more indices, give the triangles of the
/// first followed by the triangles of the second.
pub proof fn lemma_triangle_list_concat(vertices: Seq<Vertex>, first: Seq<int>, second: Seq<int>)
    requires
        first.len() % 3 == 0,
    ensures
        triangle_list(vertices, first + second) == triangle_list(vertices, first) + triangle_list(
            vertices,
            second,
        ),
{
    let joined = first + second;
    let left = triangle_list(vertices, first);
    let right = triangle_list(vertices, second);
    let n = first.len() as int;
    assert(3 * (n / 3) == n);
    assert(3 * ((n + second.len()) / 3) == n + 3 * (second.len() as int / 3));
    assert(triangle_list(vertices, joined).len() == left.len() + right.len());
    assert forall|k: int| 0 <= k < left.len() + right.len() implies triangle_list(vertices, joined)[k] == (
    left + right)[k] by {
        if k < n {
            let t = k / 3;
            assert(3 * t + 2 < n);
            assert(triangle_at(vertices, joined, t) == triangle_at(vertices, first, t));
        } else {
            let m = k - n;
            let t = m / 3;
            assert(k / 3 == n / 3 + t);
            assert(k % 3 == m % 3);
            assert(3 * (k / 3) == n + 3 * t);
            assert(joined[3 * (k / 3)] == second[3 * t]);
            assert(joined[3 * (k / 3) + 1] == second[3 * t + 1]);
            assert(joined[3 * (k / 3) + 2] == second[3 * t + 2]);
            assert(triangle_at(vertices, joined, k / 3) == triangle_at(vertices, second, t));
        }
    }
    assert(triangle_list(vertices, joined) =~= left + right);
}

/// Sound pieces reference a whole number of triangles.
pub proof fn lemma_referenced_in_threes(parts: Seq<(Seq<u32>, Seq<u16>)>, vertex_count: nat)
    requires
        parts_fit(parts, vertex_count),
    ensures
        referenced(parts).len() % 3 == 0,
    decreases parts.len(),
{
    if parts.len() > 0 {
        assert(part_fits(parts[parts.len() - 1], vertex_count));
        assert forall|p: int| 0 <= p < parts.drop_last().len() implies part_fits(
            #[trigger] parts.drop_last()[p],
            vertex_count,
        ) by {
            assert(parts.drop_last()[p] == parts[p]);
        }
        lemma_referenced_in_threes(parts.drop_last(), vertex_count);
    }
}

/// A sound piece draws what it references: its vertex buffer is the
/// triangle list, over the vertices of the mesh, of the indices that its own
/// indices stand for.
pub proof fn lemma_piece_buffer(vertices: Seq<Vertex>, part: (Seq<u32>, Seq<u16>), piece: Mesh16)
    requires
        part_fits(part, vertices.len()),
        piece.vertices@ == part_vertices(vertices, part.0),
        piece.indices@ == part.1,
    ensures
        piece.buffer() == triangle_list(vertices, wide(part_referenced(part))),
{
    let own = narrow(piece.indices@);
    let named = wide(part_referenced(part));
    assert(own.len() == named.len());
    assert forall|k: int| 0 <= k < piece.buffer().len() implies piece.buffer()[k] == triangle_list(
        vertices,
        named,
    )[k] by {
        let t = k / 3;
        assert(3 * t + 2 < own.len());
        assert(part.1[3 * t] < part.0.len());
        assert(part.1[3 * t + 1] < part.0.len());
        assert(part.1[3 * t + 2] < part.0.len());
        assert(triangle_at(piece.vertices@, own, t) == triangle_at(vertices, named, t));
    }
    assert(piece.buffer() =~= triangle_list(vertices, named));
}

/// The pieces of a mesh, drawn one after the other, draw the mesh: their
/// vertex buffers, joined, are the triangle list of what they reference.
pub proof fn lemma_buffers_of_parts(vertices: Seq<Vertex>, parts: Seq<(Seq<u32>, Seq<u16>)>, made: Seq<Mesh16>)
    requires
        parts_fit(parts, vertices.len()),
        made.len() == parts.len(),
        forall|p: int|
            0 <= p < made.len() ==> {
                &&& (#[trigger] made[p]).vertices@ == part_vertices(vertices, parts[p].0)
                &&& made[p].indices@ == parts[p].1
            },
    ensures
        buffers(made) == triangle_list(vertices, wide(referenced(parts))),
    decreases parts.len(),
{
    if parts.len() == 0 {
        assert(triangle_list(vertices, wide(referenced(parts))) =~= Seq::<Vertex>::empty());
    } else {
        let before = parts.drop_last();
        assert(part_fits(parts[parts.len() - 1], vertices.len()));
        assert forall|p: int| 0 <= p < before.len() implies part_fits(#[trigger] before[p], vertices.len()) by {
            assert(before[p] == parts[p]);
        }
        assert forall|p: int| 0 <= p < made.drop_last().len() implies {
            &&& (#[trigger] made.drop_last()[p]).vertices@ == part_vertices(vertices, before[p].0)
            &&& made.drop_last()[p].indices@ == before[p].1
        } by {
            assert(made.drop_last()[p] == made[p]);
            assert(before[p] == parts[p]);
        }
        lemma_buffers_of_parts(vertices, before, made.drop_last());
        lemma_referenced_in_threes(before, vertices.len());
        let head = wide(referenced(before));
        let tail = wide(part_referenced(parts.last()));
        assert(wide(referenced(parts)) =~= head + tail);
        lemma_triangle_list_concat(vertices, head, tail);
        assert(made[made.len() - 1] == made.last());
        lemma_piece_buffer(vertices, parts.last(), made.last());
    }
}

/// A whole mesh as one piece has the vertices of the mesh, and indices
/// that name what the indices of the mesh name.
pub proof fn lemma_whole_part(vertices: Seq<Vertex>, indices: Seq<u32>)
    requires
        vertices.len() <= 0xffff,
        indices_fit(vertices.len(), wide(indices)),
    ensures
        part_vertices(vertices, whole_part(vertices.len(), indices).0) == vertices,
        narrow(whole_part(vertices.len(), indices).1) == wide(indices),
        part_referenced(whole_part(vertices.len(), indices)) == indices,
        part_fits(whole_part(vertices.len(), indices), vertices.len()),
{
    let part = whole_part(vertices.len(), indices);
    assert(part_vertices(vertices, part.0) =~= vertices);
    assert(wide(indices).len() == indices.len());
    assert forall|i: int| 0 <= i < indices.len() implies (#[trigger] part.1[i]) == indices[i]
        && part.1[i] < part.0.len() && part.0[part.1[i] as int] == indices[i] by {
        assert(0 <= wide(indices)[i] < vertices.len());
    }
    assert(narrow(part.1) =~= wide(indices));
    assert(part_referenced(part) =~= indices);
}

/// What a piece references are vertices of the piece: it names no more
/// different vertices than it has.
pub proof fn lemma_piece_names_its_own(part: (Seq<u32>, Seq<u16>), vertex_count: nat)
    requires
        part_fits(part, vertex_count),
    ensures
        vertices_named(part_referenced(part)) <= part.0.len() <= 0xffff,
{
    let named = part_referenced(part);
    seq_to_set_is_finite(part.0);
    assert forall|v: u32| named.to_set().contains(v) implies part.0.to_set().contains(v) by {
        let i = choose|i: int| 0 <= i < named.len() && named[i] == v;
        assert(part.1[i] < part.0.len());
        assert(part.0[part.1[i] as int] == v);
    }
    lemma_len_subset(named.to_set(), part.0.to_set());
    part.0.lemma_cardinality_of_set();
}

/// Sound pieces name, all together, at most 65535 different vertices for
/// each piece. So no piece or one piece names at most 65535, and indices
/// that name more are cut into more than one piece.
pub proof fn lemma_pieces_needed(parts: Seq<(Seq<u32>, Seq<u16>)>, vertex_count: nat)
    requires
        parts_fit(parts, vertex_count),
    ensures
        vertices_named(referenced(parts)) <= 0xffff * parts.len(),
        vertices_named(referenced(parts)) > 0xffff ==> parts.len() > 1,
    decreases parts.len(),
{
    if parts.len() == 0 {
        assert(referenced(parts).to_set() =~= Set::<u32>::empty());
    } else {
        let before = parts.drop_last();
        let last = parts.last();
        assert(part_fits(parts[parts.len() - 1], vertex_count));
        assert forall|p: int| 0 <= p < before.len() implies part_fits(#[trigger] before[p], vertex_count) by {
            assert(before[p] == parts[p]);
        }
        lemma_pieces_needed(before, vertex_count);
        lemma_piece_names_its_own(last, vertex_count);
        let head = referenced(before);
        let tail = part_referenced(last);
        seq_to_set_is_finite(head);
        seq_to_set_is_finite(tail);
        assert forall|v: u32| (head + tail).to_set().contains(v) implies head.to_set().union(
            tail.to_set(),
        ).contains(v) by {
            let i = choose|i: int| 0 <= i < (head + tail).len() && (head + tail)[i] == v;
            if i < head.len() {
                assert(head[i] == v);
            } else {
                assert(tail[i - head.len()] == v);
            }
        }
        lemma_len_union(head.to_set(), tail.to_set());
        lemma_len_subset((head + tail).to_set(), head.to_set().union(tail.to_set()));
    }
}

} // verus!
