use vstd::prelude::*;

use crate::math::{abs, add3, cross3, dot3, hadamard3, is_sign_vector, scale3, Int3, Vec3i};
use crate::render::{Vertex, VERTEX_UNIT};

verus! {

/// One of the six axis-aligned sides of a voxel.
#[derive(Clone, Copy, Debug, PartialEq, Eq, Structural)]
pub enum Face {
    NegativeX,
    PositiveX,
    NegativeY,
    PositiveY,
    NegativeZ,
    PositiveZ,
}

/// The unit normal of a face, pointing out of the voxel.
pub open spec fn face_normal(f: Face) -> Int3 {
    match f {
        Face::NegativeX => (-1, 0, 0),
        Face::PositiveX => (1, 0, 0),
        Face::NegativeY => (0, -1, 0),
        Face::PositiveY => (0, 1, 0),
        Face::NegativeZ => (0, 0, -1),
        Face::PositiveZ => (0, 0, 1),
    }
}

/// The first in-plane axis of a face: world up for the side faces, +X for
/// the top and bottom faces.
pub open spec fn face_orthogonal(f: Face) -> Int3 {
    match f {
        Face::NegativeY | Face::PositiveY => (1, 0, 0),
        _ => (0, 1, 0),
    }
}

/// The second in-plane axis of a face: normal × orthogonal.
pub open spec fn face_tangent(f: Face) -> Int3 {
    cross3(face_normal(f), face_orthogonal(f))
}

/// The faces in their fixed enumeration order.
pub open spec fn all_faces() -> Seq<Face> {
    seq![
        Face::NegativeX,
        Face::PositiveX,
        Face::NegativeY,
        Face::PositiveY,
        Face::NegativeZ,
        Face::PositiveZ,
    ]
}

/// The position of a face in `all_faces()`.
pub open spec fn face_index(f: Face) -> int {
    match f {
        Face::NegativeX => 0,
        Face::PositiveX => 1,
        Face::NegativeY => 2,
        Face::PositiveY => 3,
        Face::NegativeZ => 4,
        Face::PositiveZ => 5,
    }
}

/// Normal, orthogonal and tangent of every face are mutually orthogonal
/// unit vectors with components in {-1, 0, 1}.
pub proof fn lemma_face_basis_orthonormal(f: Face)
    ensures
        dot3(face_normal(f), face_normal(f)) == 1,
        dot3(face_orthogonal(f), face_orthogonal(f)) == 1,
        dot3(face_tangent(f), face_tangent(f)) == 1,
        dot3(face_normal(f), face_orthogonal(f)) == 0,
        dot3(face_normal(f), face_tangent(f)) == 0,
        dot3(face_orthogonal(f), face_tangent(f)) == 0,
        is_sign_vector(face_normal(f)),
        is_sign_vector(face_orthogonal(f)),
        is_sign_vector(face_tangent(f)),
        face_tangent(f) == match f {
            Face::NegativeX => (0int, 0int, -1int),
            Face::PositiveX => (0, 0, 1),
            Face::NegativeY => (0, 0, 1),
            Face::PositiveY => (0, 0, -1),
            Face::NegativeZ => (1, 0, 0),
            Face::PositiveZ => (-1, 0, 0),
        },
{
    match f {
        Face::NegativeX => lemma_axis_basis((-1, 0, 0), (0, 1, 0)),
        Face::PositiveX => lemma_axis_basis((1, 0, 0), (0, 1, 0)),
        Face::NegativeY => lemma_axis_basis((0, -1, 0), (1, 0, 0)),
        Face::PositiveY => lemma_axis_basis((0, 1, 0), (1, 0, 0)),
        Face::NegativeZ => lemma_axis_basis((0, 0, -1), (0, 1, 0)),
        Face::PositiveZ => lemma_axis_basis((0, 0, 1), (0, 1, 0)),
    }
}

/// A signed coordinate axis: one component is 1 or -1, the others are 0.
pub open spec fn is_axis(a: Int3) -> bool {
    ||| a.0 * a.0 == 1 && a.1 == 0 && a.2 == 0
    ||| a.0 == 0 && a.1 * a.1 == 1 && a.2 == 0
    ||| a.0 == 0 && a.1 == 0 && a.2 * a.2 == 1
}

/// Two perpendicular axes and their cross product form an orthonormal basis
/// of sign vectors.
proof fn lemma_axis_basis(n: Int3, o: Int3)
    requires
        -1 <= n.0 <= 1 && -1 <= n.1 <= 1 && -1 <= n.2 <= 1,
        -1 <= o.0 <= 1 && -1 <= o.1 <= 1 && -1 <= o.2 <= 1,
        is_axis(n),
        is_axis(o),
        dot3(n, o) == 0,
    ensures
        ({
            let t = cross3(n, o);
            &&& dot3(n, n) == 1 && dot3(o, o) == 1 && dot3(t, t) == 1
            &&& dot3(n, t) == 0 && dot3(o, t) == 0
            &&& is_sign_vector(n) && is_sign_vector(o) && is_sign_vector(t)
        }),
{
    assert({
        let t = cross3(n, o);
        &&& dot3(n, n) == 1 && dot3(o, o) == 1 && dot3(t, t) == 1
        &&& dot3(n, t) == 0 && dot3(o, t) == 0
        &&& is_sign_vector(t)
    }) by (nonlinear_arith)
        requires
            -1 <= n.0 <= 1 && -1 <= n.1 <= 1 && -1 <= n.2 <= 1,
            -1 <= o.0 <= 1 && -1 <= o.1 <= 1 && -1 <= o.2 <= 1,
            is_axis(n),
            is_axis(o),
            dot3(n, o) == 0,
    ;
}

/// `all_faces()` lists every face exactly once, at its `face_index`.
pub proof fn lemma_all_faces_enumerates(f: Face)
    ensures
        0 <= face_index(f) < 6,
        all_faces().len() == 6,
        all_faces()[face_index(f)] == f,
        all_faces().no_duplicates(),
{
}

/// Largest magnitude of a grid coordinate whose face corners fit in `i32`
/// vertex units.
pub const GRID_LIMIT: i32 = 50_000_000;

/// A grid position whose face corners fit in `i32` vertex units.
pub open spec fn fits_grid(p: Vec3i) -> bool {
    &&& -GRID_LIMIT <= p.x <= GRID_LIMIT
    &&& -GRID_LIMIT <= p.y <= GRID_LIMIT
    &&& -GRID_LIMIT <= p.z <= GRID_LIMIT
}

/// The machine vector with the components of `a`.
pub open spec fn to_vec3i(a: Int3) -> Vec3i {
    Vec3i { x: a.0 as i32, y: a.1 as i32, z: a.2 as i32 }
}

/// The corner of `f` on voxel `pos` at local coordinates (a, b) in {-1, 1}²,
/// where a runs along the tangent and b along the orthogonal axis:
/// `pos + 0.5 * (normal + a * tangent + b * orthogonal)`, in vertex units.
pub open spec fn face_corner(f: Face, pos: Vec3i, a: int, b: int) -> Vertex {
    Vertex {
        pos: to_vec3i(
            add3(
                add3(scale3(VERTEX_UNIT as int, pos@), scale3(VERTEX_UNIT / 2, face_normal(f))),
                add3(
                    scale3(a * (VERTEX_UNIT / 2), face_tangent(f)),
                    scale3(b * (VERTEX_UNIT / 2), face_orthogonal(f)),
                ),
            ),
        ),
        normal: to_vec3i(face_normal(f)),
        tex_u: ((a + 1) / 2) as i32,
        tex_v: ((b + 1) / 2) as i32,
        base_loc: pos,
    }
}

/// The two triangles of face `f` on voxel `pos`.
pub open spec fn face_vertices(f: Face, pos: Vec3i) -> Seq<Vertex> {
    seq![
        face_corner(f, pos, -1, 1),
        face_corner(f, pos, -1, -1),
        face_corner(f, pos, 1, -1),
        face_corner(f, pos, -1, 1),
        face_corner(f, pos, 1, -1),
        face_corner(f, pos, 1, 1),
    ]
}

impl Face {
    /// All faces, in enumeration order.
    pub fn faces() -> (r: [Face; 6])
        ensures
            r@ == all_faces(),
    {
        let r = [
            Face::NegativeX,
            Face::PositiveX,
            Face::NegativeY,
            Face::PositiveY,
            Face::NegativeZ,
            Face::PositiveZ,
        ];
        assert(r@ =~= all_faces());
        r
    }

    pub fn normal(&self) -> (r: Vec3i)
        ensures
            r@ == face_normal(*self),
    {
        self.neighbord_dir()
    }

    /// The offset from a voxel to the neighbour that this face touches.
    pub fn neighbord_dir(&self) -> (r: Vec3i)
        ensures
            r@ == face_normal(*self),
    {
        match *self {
            Face::NegativeX => Vec3i { x: -1, y: 0, z: 0 },
            Face::PositiveX => Vec3i { x: 1, y: 0, z: 0 },
            Face::NegativeY => Vec3i { x: 0, y: -1, z: 0 },
            Face::PositiveY => Vec3i { x: 0, y: 1, z: 0 },
            Face::NegativeZ => Vec3i { x: 0, y: 0, z: -1 },
            Face::PositiveZ => Vec3i { x: 0, y: 0, z: 1 },
        }
    }

    pub fn orthogonal(&self) -> (r: Vec3i)
        ensures
            r@ == face_orthogonal(*self),
    {
        match *self {
            Face::NegativeY | Face::PositiveY => Vec3i { x: 1, y: 0, z: 0 },
            _ => Vec3i { x: 0, y: 1, z: 0 },
        }
    }

    pub fn tangent(&self) -> (r: Vec3i)
        ensures
            r@ == face_tangent(*self),
    {
        proof {
            lemma_face_basis_orthonormal(*self);
        }
        match *self {
            Face::NegativeX => Vec3i { x: 0, y: 0, z: -1 },
            Face::PositiveX => Vec3i { x: 0, y: 0, z: 1 },
            Face::NegativeY => Vec3i { x: 0, y: 0, z: 1 },
            Face::PositiveY => Vec3i { x: 0, y: 0, z: -1 },
            Face::NegativeZ => Vec3i { x: 1, y: 0, z: 0 },
            Face::PositiveZ => Vec3i { x: -1, y: 0, z: 0 },
        }
    }
}

/// `s * v` for `s` in {-1, 1} and a sign vector `v`.
fn signed(s: i32, v: Vec3i) -> (r: Vec3i)
    requires
        s == 1 || s == -1,
        is_sign_vector(v@),
    ensures
        r@ == scale3(s as int, v@),
        is_sign_vector(r@),
{
    if s == 1 {
        v
    } else {
        Vec3i { x: -v.x, y: -v.y, z: -v.z }
    }
}

fn calc_corner(face: Face, pos: Vec3i, a: i32, b: i32) -> (r: Vertex)
    requires
        a == 1 || a == -1,
        b == 1 || b == -1,
        fits_grid(pos),
    ensures
        r == face_corner(face, pos, a as int, b as int),
{
    proof {
        lemma_face_basis_orthonormal(face);
    }
    let n = face.normal();
    let t = signed(a, face.tangent());
    let o = signed(b, face.orthogonal());
    assert(VERTEX_UNIT == 40);
    Vertex {
        pos: Vec3i {
            x: 40 * pos.x + 20 * (n.x + t.x + o.x),
            y: 40 * pos.y + 20 * (n.y + t.y + o.y),
            z: 40 * pos.z + 20 * (n.z + t.z + o.z),
        },
        normal: n,
        tex_u: (a + 1) / 2,
        tex_v: (b + 1) / 2,
        base_loc: pos,
    }
}

/// Appends the two triangles of `face` on voxel `pos` to `vertices`.
pub fn build_face(vertices: &mut Vec<Vertex>, face: &Face, pos: &Vec3i)
    requires
        fits_grid(*pos),
    ensures
        final(vertices)@ == old(vertices)@ + face_vertices(*face, *pos),
{
    let f = *face;
    let p = *pos;
    vertices.push(calc_corner(f, p, -1, 1));
    vertices.push(calc_corner(f, p, -1, -1));
    vertices.push(calc_corner(f, p, 1, -1));
    vertices.push(calc_corner(f, p, -1, 1));
    vertices.push(calc_corner(f, p, 1, -1));
    vertices.push(calc_corner(f, p, 1, 1));
    assert(final(vertices)@ =~= old(vertices)@ + face_vertices(f, p));
}

/// Edge lengths given to `cube` are in units of 1/`SCALE_UNIT` voxel, so
/// that half an edge is a whole number of vertex units.
pub const SCALE_UNIT: i32 = 20;

/// Largest edge length component accepted by `cube`, in scale units.
pub const SCALE_LIMIT: i32 = 0x2000_0000;

/// Thickness of the selection ring's bars, in scale units (0.15 voxel).
pub const RING_WIDTH: i32 = 3;

/// The order in which `cube` lists the faces of a box.
pub open spec fn cube_faces() -> Seq<Face> {
    seq![
        Face::PositiveX,
        Face::NegativeX,
        Face::PositiveZ,
        Face::NegativeZ,
        Face::PositiveY,
        Face::NegativeY,
    ]
}

/// The edge length of `s` along the axis of a face's normal.
pub open spec fn normal_extent(f: Face, s: Int3) -> int {
    match f {
        Face::NegativeX | Face::PositiveX => s.0,
        Face::NegativeY | Face::PositiveY => s.1,
        _ => s.2,
    }
}

/// The edge length of `s` along a face's orthogonal axis.
pub open spec fn orthogonal_extent(f: Face, s: Int3) -> int {
    match f {
        Face::NegativeY | Face::PositiveY => s.0,
        _ => s.1,
    }
}

/// Orientation of the first in-plane edge of face `f` of a box with edge
/// lengths `s`: the tangent direction of the scaled normal and orthogonal
/// axis, `(n∘s) × (o∘s)`, agrees with `n × o` unless exactly one of the two
/// edge lengths involved is negative.
pub open spec fn cube_sign(f: Face, s: Int3) -> int {
    let sn = normal_extent(f, s);
    let so = orthogonal_extent(f, s);
    if (sn < 0 && so > 0) || (sn > 0 && so < 0) {
        -1
    } else {
        1
    }
}

/// The corner of face `f` of a box centred at the origin with edge lengths
/// `s` (in scale units), at local coordinates (a, b) in {-1, 1}²:
/// `n∘s + (σ a t)∘s + (b o)∘s` in vertex units, which is half an edge
/// along each axis.
pub open spec fn cube_corner(f: Face, s: Int3, a: int, b: int) -> Vertex {
    Vertex {
        pos: to_vec3i(
            add3(
                hadamard3(face_normal(f), s),
                add3(
                    hadamard3(scale3(cube_sign(f, s) * a, face_tangent(f)), s),
                    hadamard3(scale3(b, face_orthogonal(f)), s),
                ),
            ),
        ),
        normal: to_vec3i(face_normal(f)),
        tex_u: ((a + 1) / 2) as i32,
        tex_v: ((b + 1) / 2) as i32,
        base_loc: Vec3i { x: 0, y: 0, z: 0 },
    }
}

/// The two triangles of face `f` of the box with edge lengths `s`.
pub open spec fn cube_face_vertices(f: Face, s: Int3) -> Seq<Vertex> {
    seq![
        cube_corner(f, s, -1, 1),
        cube_corner(f, s, -1, -1),
        cube_corner(f, s, 1, -1),
        cube_corner(f, s, -1, 1),
        cube_corner(f, s, 1, -1),
        cube_corner(f, s, 1, 1),
    ]
}

/// The triangles of the first `k` faces of the box, in `cube_faces` order.
pub open spec fn cube_prefix(s: Int3, k: int) -> Seq<Vertex>
    decreases k,
{
    if k <= 0 {
        seq![]
    } else {
        cube_prefix(s, k - 1) + cube_face_vertices(cube_faces()[k - 1], s)
    }
}

/// The box centred at the origin with edge lengths `s`.
pub open spec fn spec_cube(s: Int3) -> Seq<Vertex> {
    cube_prefix(s, 6)
}

/// Every coordinate of `v` is at most three half edges of `s` away from the
/// origin.
pub open spec fn within_box(v: Vertex, s: Vec3i) -> bool {
    &&& abs(v.pos.x as int) <= 3 * abs(s.x as int)
    &&& abs(v.pos.y as int) <= 3 * abs(s.y as int)
    &&& abs(v.pos.z as int) <= 3 * abs(s.z as int)
}

/// Edge lengths small enough for `cube`.
pub open spec fn fits_scale(s: Vec3i) -> bool {
    &&& -SCALE_LIMIT <= s.x <= SCALE_LIMIT
    &&& -SCALE_LIMIT <= s.y <= SCALE_LIMIT
    &&& -SCALE_LIMIT <= s.z <= SCALE_LIMIT
}

/// `v * s` for `v` in {-1, 0, 1}.
fn sign_mul(v: i32, s: i32) -> (r: i32)
    requires
        -1 <= v <= 1,
        -SCALE_LIMIT <= s <= SCALE_LIMIT,
    ensures
        r == v * s,
        abs(r as int) <= abs(s as int),
{
    if v == 1 {
        s
    } else if v == -1 {
        assert(-1 * s == -s) by (nonlinear_arith);
        -s
    } else {
        0
    }
}

/// `v∘s` for a sign vector `v`.
fn hadamard_sign(v: Vec3i, s: Vec3i) -> (r: Vec3i)
    requires
        is_sign_vector(v@),
        fits_scale(s),
    ensures
        r@ == hadamard3(v@, s@),
        fits_scale(r),
        abs(r.x as int) <= abs(s.x as int),
        abs(r.y as int) <= abs(s.y as int),
        abs(r.z as int) <= abs(s.z as int),
{
    Vec3i { x: sign_mul(v.x, s.x), y: sign_mul(v.y, s.y), z: sign_mul(v.z, s.z) }
}

fn cube_sign_exec(face: Face, s: Vec3i) -> (r: i32)
    ensures
        r == cube_sign(face, s@),
{
    let sn = match face {
        Face::NegativeX | Face::PositiveX => s.x,
        Face::NegativeY | Face::PositiveY => s.y,
        _ => s.z,
    };
    let so = match face {
        Face::NegativeY | Face::PositiveY => s.x,
        _ => s.y,
    };
    if (sn < 0 && so > 0) || (sn > 0 && so < 0) {
        -1
    } else {
        1
    }
}

fn calc_cube_corner(face: Face, s: Vec3i, a: i32, b: i32) -> (r: Vertex)
    requires
        a == 1 || a == -1,
        b == 1 || b == -1,
        fits_scale(s),
    ensures
        r == cube_corner(face, s@, a as int, b as int),
        within_box(r, s),
{
    proof {
        lemma_face_basis_orthonormal(face);
    }
    let sigma = cube_sign_exec(face, s);
    let n = hadamard_sign(face.normal(), s);
    let t = hadamard_sign(signed(sigma * a, face.tangent()), s);
    let o = hadamard_sign(signed(b, face.orthogonal()), s);
    Vertex {
        pos: Vec3i { x: n.x + (t.x + o.x), y: n.y + (t.y + o.y), z: n.z + (t.z + o.z) },
        normal: face.normal(),
        tex_u: (a + 1) / 2,
        tex_v: (b + 1) / 2,
        base_loc: Vec3i { x: 0, y: 0, z: 0 },
    }
}

/// A box centred at the origin whose edge lengths are `scale`, in units of
/// 1/`SCALE_UNIT` voxel: two triangles for each face, in `cube_faces` order,
/// with texture coordinates spanning each face. A zero edge length gives
/// flat triangles.
pub fn cube(scale: Vec3i) -> (r: Vec<Vertex>)
    requires
        fits_scale(scale),
    ensures
        r@ == spec_cube(scale@),
        forall|i: int| 0 <= i < r@.len() ==> within_box(#[trigger] r@[i], scale),
{
    let faces = [
        Face::PositiveX,
        Face::NegativeX,
        Face::PositiveZ,
        Face::NegativeZ,
        Face::PositiveY,
        Face::NegativeY,
    ];
    assert(faces@ =~= cube_faces());
    let mut vertices: Vec<Vertex> = Vec::new();
    let mut i: usize = 0;
    while i < 6
        invariant
            i <= 6,
            faces@ == cube_faces(),
            fits_scale(scale),
            vertices@ == cube_prefix(scale@, i as int),
            forall|j: int| 0 <= j < vertices@.len() ==> within_box(#[trigger] vertices@[j], scale),
        decreases 6 - i,
    {
        let f = faces[i];
        vertices.push(calc_cube_corner(f, scale, -1, 1));
        vertices.push(calc_cube_corner(f, scale, -1, -1));
        vertices.push(calc_cube_corner(f, scale, 1, -1));
        vertices.push(calc_cube_corner(f, scale, -1, 1));
        vertices.push(calc_cube_corner(f, scale, 1, -1));
        vertices.push(calc_cube_corner(f, scale, 1, 1));
        assert(vertices@ =~= cube_prefix(scale@, i + 1));
        i += 1;
    }
    vertices
}

/// Each vertex of `vs` moved by `offset`.
pub open spec fn shifted(vs: Seq<Vertex>, offset: Int3) -> Seq<Vertex> {
    vs.map_values(
        |v: Vertex|
            Vertex {
                pos: to_vec3i(add3(v.pos@, offset)),
                normal: v.normal,
                tex_u: v.tex_u,
                tex_v: v.tex_v,
                base_loc: v.base_loc,
            },
    )
}

/// The world up direction, +Y.
pub open spec fn world_up() -> Int3 {
    (0, 1, 0)
}

/// Where a bar of the selection ring sits: half a voxel from the centre
/// along `dir`, on the `sign` side, in vertex units.
pub open spec fn ring_bar_offset(dir: Int3, sign: int) -> Int3 {
    scale3(sign * SCALE_UNIT, dir)
}

/// The edge lengths of a bar of the selection ring, in scale units: along
/// the ring it is a voxel long, lengthened or shortened by the bar width so
/// that the bars overlap at the corners; across and upward it is one bar
/// width thick.
pub open spec fn ring_bar_extent(dir: Int3, sign: int, lengthen: bool) -> Int3 {
    let side = scale3(sign, cross3(dir, world_up()));
    let length = if lengthen {
        SCALE_UNIT + RING_WIDTH
    } else {
        SCALE_UNIT - RING_WIDTH
    };
    add3(add3(scale3(length, side), scale3(RING_WIDTH as int, dir)), scale3(RING_WIDTH as int, world_up()))
}

/// One bar of the selection ring: a box of `ring_bar_extent` moved to
/// `ring_bar_offset`.
pub open spec fn ring_bar(dir: Int3, sign: int, lengthen: bool) -> Seq<Vertex> {
    shifted(spec_cube(ring_bar_extent(dir, sign, lengthen)), ring_bar_offset(dir, sign))
}

/// The selection ring: four bars around a unit square in the XZ plane, the
/// two on the X sides lengthened and the two on the Z sides shortened.
pub open spec fn spec_selection_ring() -> Seq<Vertex> {
    ring_bar((1, 0, 0), -1, true) + ring_bar((1, 0, 0), 1, true) + ring_bar((0, 0, 1), -1, false)
        + ring_bar((0, 0, 1), 1, false)
}

fn append_shifted_cube(out: &mut Vec<Vertex>, extent: Vec3i, offset: Vec3i)
    requires
        -100 <= extent.x <= 100 && -100 <= extent.y <= 100 && -100 <= extent.z <= 100,
        -100 <= offset.x <= 100 && -100 <= offset.y <= 100 && -100 <= offset.z <= 100,
    ensures
        final(out)@ == old(out)@ + shifted(spec_cube(extent@), offset@),
{
    let vs = cube(extent);
    let ghost start = out@;
    let mut i: usize = 0;
    while i < vs.len()
        invariant
            i <= vs@.len(),
            vs@ == spec_cube(extent@),
            forall|j: int| 0 <= j < vs@.len() ==> within_box(#[trigger] vs@[j], extent),
            -100 <= offset.x <= 100 && -100 <= offset.y <= 100 && -100 <= offset.z <= 100,
            -100 <= extent.x <= 100 && -100 <= extent.y <= 100 && -100 <= extent.z <= 100,
            out@ == start + shifted(vs@.take(i as int), offset@),
        decreases vs@.len() - i,
    {
        let v = vs[i];
        assert(within_box(vs@[i as int], extent));
        out.push(
            Vertex {
                pos: Vec3i { x: v.pos.x + offset.x, y: v.pos.y + offset.y, z: v.pos.z + offset.z },
                normal: v.normal,
                tex_u: v.tex_u,
                tex_v: v.tex_v,
                base_loc: v.base_loc,
            },
        );
        assert(shifted(vs@.take(i + 1), offset@) =~= shifted(vs@.take(i as int), offset@).push(
            shifted(vs@, offset@)[i as int],
        ));
        i += 1;
    }
    assert(vs@.take(vs@.len() as int) =~= vs@);
}

/// The highlight drawn over a picked face: four thin bars around the unit
/// square of the XZ plane centred at the origin (`spec_selection_ring`).
pub fn build_selection_ring() -> (r: Vec<Vertex>)
    ensures
        r@ == spec_selection_ring(),
{
    assert(ring_bar_extent((1, 0, 0), -1, true) == (3int, 3int, -23int));
    assert(ring_bar_extent((1, 0, 0), 1, true) == (3int, 3int, 23int));
    assert(ring_bar_extent((0, 0, 1), -1, false) == (17int, 3int, 3int));
    assert(ring_bar_extent((0, 0, 1), 1, false) == (-17int, 3int, 3int));
    assert(ring_bar_offset((1, 0, 0), -1) == (-20int, 0int, 0int));
    assert(ring_bar_offset((1, 0, 0), 1) == (20int, 0int, 0int));
    assert(ring_bar_offset((0, 0, 1), -1) == (0int, 0int, -20int));
    assert(ring_bar_offset((0, 0, 1), 1) == (0int, 0int, 20int));
    let mut result: Vec<Vertex> = Vec::new();
    append_shifted_cube(&mut result, Vec3i::new(3, 3, -23), Vec3i::new(-20, 0, 0));
    append_shifted_cube(&mut result, Vec3i::new(3, 3, 23), Vec3i::new(20, 0, 0));
    append_shifted_cube(&mut result, Vec3i::new(17, 3, 3), Vec3i::new(0, 0, -20));
    append_shifted_cube(&mut result, Vec3i::new(-17, 3, 3), Vec3i::new(0, 0, 20));
    assert(result@ =~= spec_selection_ring());
    result
}

} // verus!
