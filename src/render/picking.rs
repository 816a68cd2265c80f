use vstd::prelude::*;

use crate::math::{abs, add3, dot3, is_sign_vector, scale3, sub3, Int3, Vec3i};
use crate::render::mesh::{
    all_faces, face_index, face_normal, face_orthogonal, face_tangent, lemma_all_faces_enumerates,
    lemma_face_basis_orthonormal, Face,
};
use crate::world::chunk::{Chunk, CHUNK_SIZE};

verus! {

/// The colour channel that encodes grid coordinate `p` of a chunk of edge
/// `size`: `round(p / (size - 1) * 255)`, halves rounded up.
pub open spec fn spec_encode_channel(p: int, size: int) -> int {
    (510 * p + (size - 1)) / (2 * (size - 1))
}

/// The grid coordinate nearest to `c * (size - 1) / 255`, halves rounded up.
pub open spec fn spec_decode_channel(c: int, size: int) -> int {
    (2 * c * (size - 1) + 255) / 510
}

/// Channel `c` is the exact encoding of a grid coordinate of a chunk of edge
/// `size`: `c * (size - 1) / 255` is a whole number.
pub open spec fn spec_exact_channel(c: int, size: int) -> bool {
    (c * (size - 1)) % 255 == 0
}

/// The voxel that a picking pixel names: none where alpha is zero (nothing
/// drawn there) or where a colour channel is not the exact encoding of a
/// grid coordinate; otherwise `(r, g, b) * (CHUNK_SIZE - 1) / 255`.
pub open spec fn spec_decode_pixel(px: Seq<u8>) -> Option<Int3> {
    let m = CHUNK_SIZE - 1;
    if px[3] == 0 {
        None
    } else if !spec_exact_channel(px[0] as int, CHUNK_SIZE as int) || !spec_exact_channel(
        px[1] as int,
        CHUNK_SIZE as int,
    ) || !spec_exact_channel(px[2] as int, CHUNK_SIZE as int) {
        None
    } else {
        Some((px[0] * m / 255, px[1] * m / 255, px[2] * m / 255))
    }
}

/// Encodes one coordinate of a voxel position into a colour channel, as the
/// picking shader does.
pub fn encode_channel(coord: u32, size: u32) -> (r: u8)
    requires
        2 <= size <= 256,
        coord < size,
    ensures
        r as int == spec_encode_channel(coord as int, size as int),
{
    let m: u32 = size - 1;
    let e: u32 = (510 * coord + m) / (2 * m);
    proof {
        let p = coord as int;
        let mi = m as int;
        assert(510 * p + mi <= 511 * mi) by (nonlinear_arith)
            requires
                p <= mi,
        ;
        assert((510 * p + mi) / (2 * mi) <= 255) by (nonlinear_arith)
            requires
                510 * p + mi <= 511 * mi,
                mi >= 1,
        ;
    }
    e as u8
}

/// Decodes one colour channel of a picking pixel into a grid coordinate.
pub fn decode_channel(c: u8, size: u32) -> (r: u32)
    requires
        2 <= size <= 256,
    ensures
        r as int == spec_decode_channel(c as int, size as int),
        r < size,
{
    let m: u32 = size - 1;
    proof {
        assert(2 * (c as int) * (m as int) <= 510 * (m as int)) by (nonlinear_arith)
            requires
                c <= 255,
                m >= 0,
        ;
        assert((2 * (c as int) * (m as int) + 255) / 510 <= m as int) by (nonlinear_arith)
            requires
                2 * (c as int) * (m as int) <= 510 * (m as int),
        ;
    }
    (2 * (c as u32) * m + 255) / 510
}

/// Encoding a grid coordinate into a colour channel and decoding it again
/// gives the coordinate back, for every chunk edge up to 256.
pub proof fn lemma_channel_round_trip(p: int, size: int)
    requires
        2 <= size <= 256,
        0 <= p < size,
    ensures
        0 <= spec_encode_channel(p, size) <= 255,
        spec_decode_channel(spec_encode_channel(p, size), size) == p,
{
    let m = size - 1;
    let e = spec_encode_channel(p, size);
    assert(2 * m * e <= 510 * p + m < 2 * m * e + 2 * m) by (nonlinear_arith)
        requires
            m >= 1,
            e == (510 * p + m) / (2 * m),
    ;
    assert(0 <= e <= 255) by (nonlinear_arith)
        requires
            m >= 1,
            p <= m,
            p >= 0,
            e == (510 * p + m) / (2 * m),
    ;
    assert(2 * e * m + 255 > 510 * p) by (nonlinear_arith)
        requires
            510 * p + m < 2 * m * e + 2 * m,
            m <= 255,
    ;
    if m == 255 {
        assert(e <= p) by (nonlinear_arith)
            requires
                510 * e <= 510 * p + 255,
        ;
        assert(2 * e * m <= 510 * p) by (nonlinear_arith)
            requires
                m == 255,
                e <= p,
        ;
    } else {
        assert(2 * e * m < 510 * p + 255) by (nonlinear_arith)
            requires
                2 * m * e <= 510 * p + m,
                m < 255,
        ;
    }
    assert((2 * e * m + 255) / 510 == p) by (nonlinear_arith)
        requires
            510 * p < 2 * e * m + 255 < 510 * p + 510,
    ;
}

/// The grid coordinate that channel `c` encodes exactly, or `None` when it
/// is not an exact encoding.
pub fn decode_exact_channel(c: u8, size: u32) -> (r: Option<u32>)
    requires
        2 <= size <= 256,
    ensures
        spec_exact_channel(c as int, size as int) ==> r == Some(
            ((c as int * (size as int - 1)) / 255) as u32,
        ),
        !spec_exact_channel(c as int, size as int) ==> r is None,
        r matches Some(v) ==> v < size,
{
    let m: u32 = size - 1;
    proof {
        assert(0 <= (c as int) * (m as int) <= 255 * (m as int)) by (nonlinear_arith)
            requires
                0 <= c <= 255,
                0 <= m <= 255,
        ;
        assert((c as int) * (m as int) / 255 <= m as int) by (nonlinear_arith)
            requires
                0 <= (c as int) * (m as int) <= 255 * (m as int),
        ;
    }
    let scaled: u32 = (c as u32) * m;
    if scaled % 255 == 0 {
        Some(scaled / 255)
    } else {
        None
    }
}

/// Decodes a picking pixel (red, green, blue, alpha) read back from the
/// picking target: `None` where alpha is zero (nothing under the pixel) or
/// where a channel is not the exact encoding of a grid coordinate,
/// otherwise the voxel position that the colour encodes.
pub fn decode_pixel(pixel: [u8; 4]) -> (r: Option<Vec3i>)
    ensures
        match spec_decode_pixel(pixel@) {
            None => r is None,
            Some(v) => r matches Some(w) && w@ == v,
        },
{
    if pixel[3] == 0 {
        return None;
    }
    let x = decode_exact_channel(pixel[0], CHUNK_SIZE as u32);
    let y = decode_exact_channel(pixel[1], CHUNK_SIZE as u32);
    let z = decode_exact_channel(pixel[2], CHUNK_SIZE as u32);
    match (x, y, z) {
        (Some(x), Some(y), Some(z)) => Some(Vec3i { x: x as i32, y: y as i32, z: z as i32 }),
        _ => None,
    }
}

/// Where `size - 1` divides 255, the channel encoding of every grid
/// coordinate is exact and decodes back to that coordinate.
pub proof fn lemma_exact_round_trip(p: int, size: int)
    requires
        2 <= size <= 256,
        255int % (size - 1) == 0,
        0 <= p < size,
    ensures
        spec_exact_channel(spec_encode_channel(p, size), size),
        spec_encode_channel(p, size) * (size - 1) / 255 == p,
        0 <= spec_encode_channel(p, size) <= 255,
{
    let m = size - 1;
    let k = 255int / m;
    assert(k * m == 255) by (nonlinear_arith)
        requires
            m >= 1,
            255int % m == 0,
            k == 255int / m,
    ;
    assert(510 * p + m == (2 * m) * (k * p) + m) by (nonlinear_arith)
        requires
            k * m == 255,
    ;
    assert((510 * p + m) / (2 * m) == k * p) by (nonlinear_arith)
        requires
            510 * p + m == (2 * m) * (k * p) + m,
            m >= 1,
    ;
    let e = spec_encode_channel(p, size);
    assert(e * m == 255 * p) by (nonlinear_arith)
        requires
            e == k * p,
            k * m == 255,
    ;
    assert((255 * p) % 255 == 0 && (255 * p) / 255 == p) by (nonlinear_arith)
        requires
            p >= 0,
    ;
    lemma_channel_round_trip(p, size);
}

/// Every decoded voxel position lies inside the chunk, and every position
/// inside the chunk survives encoding into a pixel and decoding.
pub proof fn lemma_pixel_round_trip(p: Int3)
    requires
        0 <= p.0 < CHUNK_SIZE,
        0 <= p.1 < CHUNK_SIZE,
        0 <= p.2 < CHUNK_SIZE,
    ensures
        ({
            let px = seq![
                spec_encode_channel(p.0, CHUNK_SIZE as int) as u8,
                spec_encode_channel(p.1, CHUNK_SIZE as int) as u8,
                spec_encode_channel(p.2, CHUNK_SIZE as int) as u8,
                255u8,
            ];
            spec_decode_pixel(px) == Some(p)
        }),
{
    lemma_exact_round_trip(p.0, CHUNK_SIZE as int);
    lemma_exact_round_trip(p.1, CHUNK_SIZE as int);
    lemma_exact_round_trip(p.2, CHUNK_SIZE as int);
}

/// The picking colour of any vertex of a chunk's mesh, made from its voxel
/// origin, decodes to the solid cell that the vertex was built for.
pub proof fn lemma_mesh_vertex_picks_its_cell(c: &Chunk, i: int)
    requires
        c.wf(),
        0 <= i < c.spec_mesh().len(),
    ensures
        ({
            let b = c.spec_mesh()[i].base_loc@;
            let px = seq![
                spec_encode_channel(b.0, CHUNK_SIZE as int) as u8,
                spec_encode_channel(b.1, CHUNK_SIZE as int) as u8,
                spec_encode_channel(b.2, CHUNK_SIZE as int) as u8,
                255u8,
            ];
            &&& spec_decode_pixel(px) == Some(b)
            &&& c.sample_at(b) matches Some(block) && block.solid()
        }),
{
    c.lemma_mesh_shape();
    let v = c.spec_mesh()[i];
    assert(c.vertex_of_visible_face(v));
    lemma_pixel_round_trip(v.base_loc@);
}

/// Camera coordinates are fixed point: one voxel edge is `FIXED_ONE` units.
pub const FIXED_ONE: i32 = 65536;

/// Half a voxel edge, in fixed-point units.
pub const FIXED_HALF: i32 = 32768;

/// The camera's view ray in fixed-point units: it starts at `origin` and
/// runs along `dir`, which need not be of unit length.
#[derive(Clone, Copy, Debug, PartialEq, Eq, Structural)]
pub struct Ray {
    pub origin: Vec3i,
    pub dir: Vec3i,
}

/// Where a ray meets a face plane: at parameter `t_num / t_den` along the
/// ray, so the point is `origin + (t_num / t_den) * dir`.
#[derive(Clone, Copy, Debug, PartialEq, Eq, Structural)]
pub struct FaceHit {
    pub t_num: i128,
    pub t_den: i128,
}

/// The centre of face `f` of the voxel at grid position `voxel`, in
/// fixed-point units: the point `d` of the face plane.
pub open spec fn plane_point(voxel: Int3, f: Face) -> Int3 {
    add3(scale3(FIXED_ONE as int, voxel), scale3(FIXED_HALF as int, face_normal(f)))
}

/// The ray meets the plane `x · n = d · n` at `t = ((d - o) · n) / (dir · n)`:
/// this is the denominator.
pub open spec fn hit_den(ray: Ray, f: Face) -> int {
    dot3(ray.dir@, face_normal(f))
}

/// The numerator of the ray parameter at which `ray` meets the plane of `f`.
pub open spec fn hit_num(ray: Ray, voxel: Int3, f: Face) -> int {
    dot3(sub3(plane_point(voxel, f), ray.origin@), face_normal(f))
}

/// The in-plane coordinate of the hit point along axis `e`, relative to
/// the face centre and multiplied by the denominator:
/// `((o + t * dir) - d) · e * den = ((o - d) · e) * den + num * (dir · e)`.
pub open spec fn scaled_offset(ray: Ray, voxel: Int3, f: Face, e: Int3) -> int {
    dot3(sub3(ray.origin@, plane_point(voxel, f)), e) * hit_den(ray, f) + hit_num(ray, voxel, f)
        * dot3(ray.dir@, e)
}

/// The face may face the camera: its normal does not point along the view.
pub open spec fn faces_camera(ray: Ray, f: Face) -> bool {
    dot3(face_normal(f), ray.dir@) <= 0
}

/// The ray crosses face `f` of `voxel` inside its unit square: the face
/// may face the camera, the ray is not parallel to its plane, and both
/// in-plane coordinates of the hit point lie in [-1/2, 1/2] voxel.
pub open spec fn quad_hit(ray: Ray, voxel: Int3, f: Face) -> bool {
    &&& faces_camera(ray, f)
    &&& hit_den(ray, f) != 0
    &&& 2 * abs(scaled_offset(ray, voxel, f, face_orthogonal(f))) <= FIXED_ONE * abs(
        hit_den(ray, f),
    )
    &&& 2 * abs(scaled_offset(ray, voxel, f, face_tangent(f))) <= FIXED_ONE * abs(
        hit_den(ray, f),
    )
}

/// The hit point on the plane of `f` is no farther from the camera than the
/// one on the plane of `g`: `|t_f| <= |t_g|`, since the distance is
/// `|t| * |dir|`.
pub open spec fn not_farther(ray: Ray, voxel: Int3, f: Face, g: Face) -> bool {
    abs(hit_num(ray, voxel, f)) * abs(hit_den(ray, g)) <= abs(hit_num(ray, voxel, g)) * abs(
        hit_den(ray, f),
    )
}

/// `r` is the face of `voxel` that `ray` strikes: none when no face passes
/// the square test, otherwise the nearest that passes, the first in face
/// order among equally near ones.
pub open spec fn is_picked_face(ray: Ray, voxel: Int3, r: Option<Face>) -> bool {
    match r {
        None => forall|g: Face| !quad_hit(ray, voxel, g),
        Some(f) => {
            &&& quad_hit(ray, voxel, f)
            &&& forall|g: Face| quad_hit(ray, voxel, g) ==> not_farther(ray, voxel, f, g)
            &&& forall|g: Face|
                quad_hit(ray, voxel, g) && face_index(g) < face_index(f) ==> !not_farther(
                    ray,
                    voxel,
                    g,
                    f,
                )
        },
    }
}

/// At most one face answers `is_picked_face`.
pub proof fn lemma_picked_face_unique(ray: Ray, voxel: Int3, a: Option<Face>, b: Option<Face>)
    requires
        is_picked_face(ray, voxel, a),
        is_picked_face(ray, voxel, b),
    ensures
        a == b,
{
    if let (Some(f), Some(g)) = (a, b) {
        lemma_all_faces_enumerates(f);
        lemma_all_faces_enumerates(g);
        if face_index(f) < face_index(g) {
        } else if face_index(g) < face_index(f) {
        } else {
            assert(all_faces()[face_index(f)] == all_faces()[face_index(g)]);
        }
    }
}

pub open spec fn wide_view(a: (i128, i128, i128)) -> Int3 {
    (a.0 as int, a.1 as int, a.2 as int)
}

fn widen(v: Vec3i) -> (r: (i128, i128, i128))
    ensures
        wide_view(r) == v@,
{
    (v.x as i128, v.y as i128, v.z as i128)
}

/// `a * e` for `e` in {-1, 0, 1}.
fn mul_sign(a: i128, e: i32) -> (r: i128)
    requires
        -1 <= e <= 1,
        a > i128::MIN,
    ensures
        r == a * e,
        abs(r as int) <= abs(a as int),
{
    if e == 1 {
        a
    } else if e == -1 {
        assert(a * -1 == -a) by (nonlinear_arith);
        -a
    } else {
        0
    }
}

/// `a · e` for a sign vector `e`.
fn dot_sign(a: (i128, i128, i128), e: Vec3i) -> (r: i128)
    requires
        is_sign_vector(e@),
        abs(a.0 as int) < 0x1_0000_0000_0000_0000_0000_0000,
        abs(a.1 as int) < 0x1_0000_0000_0000_0000_0000_0000,
        abs(a.2 as int) < 0x1_0000_0000_0000_0000_0000_0000,
    ensures
        r == dot3(wide_view(a), e@),
        abs(r as int) <= abs(a.0 as int) + abs(a.1 as int) + abs(a.2 as int),
{
    let x = mul_sign(a.0, e.x);
    let y = mul_sign(a.1, e.y);
    let z = mul_sign(a.2, e.z);
    x + y + z
}

/// `a * b` for factors small enough that the product fits with room to spare.
fn mul_bounded(a: i128, b: i128) -> (r: i128)
    requires
        abs(a as int) < 0x4_0000_0000_0000,
        abs(b as int) < 0x4_0000_0000,
    ensures
        r == a * b,
        abs(r as int) < 0x10_0000_0000_0000_0000_0000,
{
    proof {
        let x = abs(a as int);
        let y = abs(b as int);
        assert(x * y < 0x4_0000_0000_0000 * 0x4_0000_0000) by (nonlinear_arith)
            requires
                0 <= x < 0x4_0000_0000_0000,
                0 <= y < 0x4_0000_0000,
        ;
        assert(abs(a as int * b as int) == x * y) by (nonlinear_arith)
            requires
                x == abs(a as int),
                y == abs(b as int),
        ;
    }
    a * b
}

fn abs_wide(a: i128) -> (r: i128)
    requires
        a > i128::MIN,
    ensures
        r == abs(a as int),
{
    if a < 0 {
        -a
    } else {
        a
    }
}

/// A grid coordinate in fixed-point units, plus half a voxel along one
/// component of a normal, stays far inside `i128`.
proof fn lemma_plane_component_bound(v: int, w: int)
    requires
        i32::MIN <= v <= i32::MAX,
        -1 <= w <= 1,
    ensures
        abs(FIXED_ONE * v) <= 0x8000_0000_0000,
        abs(FIXED_HALF * w) <= FIXED_HALF,
{
    assert(abs(65536 * v) <= 0x8000_0000_0000 && abs(32768 * w) <= 32768) by (nonlinear_arith)
        requires
            i32::MIN <= v <= i32::MAX,
            -1 <= w <= 1,
    ;
}

/// The centre of a face, in fixed-point units.
fn plane_point_wide(voxel: Vec3i, face: Face) -> (r: (i128, i128, i128))
    ensures
        wide_view(r) == plane_point(voxel@, face),
        abs(r.0 as int) < 0x1_0000_0000_0000,
        abs(r.1 as int) < 0x1_0000_0000_0000,
        abs(r.2 as int) < 0x1_0000_0000_0000,
{
    proof {
        lemma_face_basis_orthonormal(face);
    }
    let v = widen(voxel);
    let w = widen(face.normal());
    proof {
        lemma_plane_component_bound(v.0 as int, w.0 as int);
        lemma_plane_component_bound(v.1 as int, w.1 as int);
        lemma_plane_component_bound(v.2 as int, w.2 as int);
    }
    (
        FIXED_ONE as i128 * v.0 + FIXED_HALF as i128 * w.0,
        FIXED_ONE as i128 * v.1 + FIXED_HALF as i128 * w.1,
        FIXED_ONE as i128 * v.2 + FIXED_HALF as i128 * w.2,
    )
}

/// `scaled_offset` along the in-plane axis `e`.
fn scaled_offset_wide(
    ray: &Ray,
    voxel: Vec3i,
    face: Face,
    d: (i128, i128, i128),
    e: Vec3i,
    num: i128,
    den: i128,
) -> (r: i128)
    requires
        wide_view(d) == plane_point(voxel@, face),
        abs(d.0 as int) < 0x1_0000_0000_0000,
        abs(d.1 as int) < 0x1_0000_0000_0000,
        abs(d.2 as int) < 0x1_0000_0000_0000,
        is_sign_vector(e@),
        num == hit_num(*ray, voxel@, face),
        abs(num as int) < 0x4_0000_0000_0000,
        den == hit_den(*ray, face),
        abs(den as int) < 0x4_0000_0000,
    ensures
        r == scaled_offset(*ray, voxel@, face, e@),
        abs(r as int) < 0x20_0000_0000_0000_0000_0000,
{
    let o = widen(ray.origin);
    let dir = widen(ray.dir);
    let from_plane = (o.0 - d.0, o.1 - d.1, o.2 - d.2);
    let a = dot_sign(from_plane, e);
    let b = dot_sign(dir, e);
    mul_bounded(a, den) + mul_bounded(num, b)
}

/// Where `ray` meets the plane of face `face` of the voxel at `voxel`, when
/// it crosses the face's unit square from the side the face looks at; `None`
/// when it does not.
pub fn face_hit(ray: &Ray, voxel: Vec3i, face: Face) -> (r: Option<FaceHit>)
    ensures
        match r {
            None => !quad_hit(*ray, voxel@, face),
            Some(h) => {
                &&& quad_hit(*ray, voxel@, face)
                &&& h.t_num == hit_num(*ray, voxel@, face)
                &&& h.t_den == hit_den(*ray, face)
                &&& abs(h.t_num as int) < 0x4_0000_0000_0000
                &&& -0x4_0000_0000 < h.t_den < 0
            },
        },
{
    proof {
        lemma_face_basis_orthonormal(face);
    }
    let n = face.normal();
    let dir = widen(ray.dir);
    let o = widen(ray.origin);
    let d = plane_point_wide(voxel, face);
    let den = dot_sign(dir, n);
    assert(dot3(face_normal(face), ray.dir@) == den);
    if den >= 0 {
        return None;
    }
    let to_plane = (d.0 - o.0, d.1 - o.1, d.2 - o.2);
    let num = dot_sign(to_plane, n);
    let u = scaled_offset_wide(ray, voxel, face, d, face.orthogonal(), num, den);
    let t = scaled_offset_wide(ray, voxel, face, d, face.tangent(), num, den);
    let span = FIXED_ONE as i128 * abs_wide(den);
    if 2 * abs_wide(u) <= span && 2 * abs_wide(t) <= span {
        Some(FaceHit { t_num: num, t_den: den })
    } else {
        None
    }
}

/// A strict comparison followed by a weak one is strict.
proof fn lemma_ratio_lt_le_trans(n1: int, d1: int, n2: int, d2: int, n3: int, d3: int)
    requires
        n1 >= 0,
        n2 >= 0,
        n3 >= 0,
        d1 > 0,
        d2 > 0,
        d3 > 0,
        n1 * d2 < n2 * d1,
        n2 * d3 <= n3 * d2,
    ensures
        n1 * d3 < n3 * d1,
{
    assert(n1 * d2 * d3 < n2 * d1 * d3) by (nonlinear_arith)
        requires
            n1 * d2 < n2 * d1,
            d3 > 0,
    ;
    assert(n2 * d3 * d1 <= n3 * d2 * d1) by (nonlinear_arith)
        requires
            n2 * d3 <= n3 * d2,
            d1 > 0,
    ;
    assert(d2 * (n1 * d3) < d2 * (n3 * d1)) by (nonlinear_arith)
        requires
            n1 * d2 * d3 < n2 * d1 * d3,
            n2 * d3 * d1 <= n3 * d2 * d1,
    ;
    assert(n1 * d3 < n3 * d1) by (nonlinear_arith)
        requires
            d2 * (n1 * d3) < d2 * (n3 * d1),
            d2 > 0,
    ;
}

/// The invariant of the search in `pick_face` after the first `i` faces.
pub open spec fn best_of_prefix(ray: Ray, voxel: Int3, i: int, best: Option<(Face, FaceHit)>) -> bool {
    match best {
        None => forall|g: Face| face_index(g) < i ==> !quad_hit(ray, voxel, g),
        Some((f, h)) => {
            &&& face_index(f) < i
            &&& quad_hit(ray, voxel, f)
            &&& h.t_num == hit_num(ray, voxel, f)
            &&& h.t_den == hit_den(ray, f)
            &&& abs(h.t_num as int) < 0x4_0000_0000_0000
            &&& -0x4_0000_0000 < h.t_den < 0
            &&& forall|g: Face|
                face_index(g) < i && quad_hit(ray, voxel, g) ==> not_farther(ray, voxel, f, g)
            &&& forall|g: Face|
                quad_hit(ray, voxel, g) && face_index(g) < face_index(f) ==> !not_farther(
                    ray,
                    voxel,
                    g,
                    f,
                )
        },
    }
}

/// The face of `voxel` that `ray` strikes: among the faces whose unit square
/// the ray crosses from the front, the one whose hit point is nearest to the
/// camera, the first in face order among equally near ones; `None` when the
/// ray crosses no face.
pub fn pick_face(ray: &Ray, voxel: Vec3i) -> (r: Option<Face>)
    ensures
        is_picked_face(*ray, voxel@, r),
{
    let faces = Face::faces();
    let mut best: Option<(Face, FaceHit)> = None;
    let mut i: usize = 0;
    while i < 6
        invariant
            i <= 6,
            faces@ == all_faces(),
            best_of_prefix(*ray, voxel@, i as int, best),
        decreases 6 - i,
    {
        let face = faces[i];
        proof {
            lemma_all_faces_enumerates(face);
            assert forall|g: Face| face_index(g) == i implies g == face by {
                lemma_all_faces_enumerates(g);
            }
        }
        let hit = face_hit(ray, voxel, face);
        match hit {
            None => {},
            Some(h) => {
                match best {
                    None => {
                        best = Some((face, h));
                    },
                    Some((f, b)) => {
                        let nearer = mul_bounded(abs_wide(h.t_num), abs_wide(b.t_den));
                        let farther = mul_bounded(abs_wide(b.t_num), abs_wide(h.t_den));
                        if nearer < farther {
                            best = Some((face, h));
                            proof {
                                assert forall|g: Face|
                                    face_index(g) < i && quad_hit(*ray, voxel@, g) implies !not_farther(
                                    *ray,
                                    voxel@,
                                    g,
                                    face,
                                ) && not_farther(*ray, voxel@, face, g) by {
                                    lemma_ratio_lt_le_trans(
                                        abs(hit_num(*ray, voxel@, face)),
                                        abs(hit_den(*ray, face)),
                                        abs(hit_num(*ray, voxel@, f)),
                                        abs(hit_den(*ray, f)),
                                        abs(hit_num(*ray, voxel@, g)),
                                        abs(hit_den(*ray, g)),
                                    );
                                }
                            }
                        }
                    },
                }
            },
        }
        i += 1;
    }
    match best {
        None => None,
        Some((f, _)) => Some(f),
    }
}

/// The decision of a pick once the picking pixel under the crosshair has
/// been read back: nothing when the pixel is empty or its colour is not the
/// exact encoding of a voxel position; otherwise the voxel that the pixel
/// encodes together with the face of it that the view ray strikes, or
/// nothing when the ray crosses none of its faces.
pub fn pick_from_pixel(pixel: [u8; 4], ray: &Ray) -> (r: Option<(Vec3i, Face)>)
    ensures
        match spec_decode_pixel(pixel@) {
            None => r is None,
            Some(v) => match r {
                None => is_picked_face(*ray, v, None),
                Some((w, f)) => w@ == v && is_picked_face(*ray, v, Some(f)),
            },
        },
{
    match decode_pixel(pixel) {
        None => None,
        Some(voxel) => match pick_face(ray, voxel) {
            None => None,
            Some(face) => Some((voxel, face)),
        },
    }
}

} // verus!
