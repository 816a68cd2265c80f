use rust_404::math::Vec3i;
use rust_404::render::mesh::{build_face, build_selection_ring, cube, Face, SCALE_UNIT};
use rust_404::render::{vertex_layout, vertex_stride, AttributeLayout, Vertex, VERTEX_UNIT};
use rust_404::world::block::{BlockTexture, BlockTextures, BlockType};

fn v(x: i32, y: i32, z: i32) -> Vec3i {
    Vec3i::new(x, y, z)
}

fn dot(a: Vec3i, b: Vec3i) -> i32 {
    a.x * b.x + a.y * b.y + a.z * b.z
}

#[test]
fn face_bases_are_orthonormal() {
    for f in Face::faces() {
        let n = f.normal();
        let o = f.orthogonal();
        let t = f.tangent();
        assert_eq!(n, f.neighbord_dir());
        assert_eq!(dot(n, n), 1);
        assert_eq!(dot(o, o), 1);
        assert_eq!(dot(t, t), 1);
        assert_eq!(dot(n, o), 0);
        assert_eq!(dot(n, t), 0);
        assert_eq!(dot(o, t), 0);
        // t = n x o
        assert_eq!(
            t,
            v(n.y * o.z - n.z * o.y, n.z * o.x - n.x * o.z, n.x * o.y - n.y * o.x)
        );
    }
}

#[test]
fn face_directions() {
    assert_eq!(Face::NegativeX.neighbord_dir(), v(-1, 0, 0));
    assert_eq!(Face::PositiveY.normal(), v(0, 1, 0));
    assert_eq!(Face::PositiveZ.orthogonal(), v(0, 1, 0));
    assert_eq!(Face::NegativeY.orthogonal(), v(1, 0, 0));
    assert_eq!(Face::PositiveZ.tangent(), v(-1, 0, 0));
}

#[test]
fn build_face_emits_two_triangles_at_the_face() {
    let mut out: Vec<Vertex> = vec![];
    build_face(&mut out, &Face::PositiveZ, &v(0, 0, 0));
    assert_eq!(out.len(), 6);
    // corners at (0, 0, 1/2) + a * (-1/2, 0, 0) + b * (0, 1/2, 0)
    let corner = |a: i32, b: i32| Vertex {
        pos: v(-20 * a, 20 * b, 20),
        normal: v(0, 0, 1),
        tex_u: (a + 1) / 2,
        tex_v: (b + 1) / 2,
        base_loc: v(0, 0, 0),
    };
    assert_eq!(
        out,
        vec![
            corner(-1, 1),
            corner(-1, -1),
            corner(1, -1),
            corner(-1, 1),
            corner(1, -1),
            corner(1, 1)
        ]
    );
}

#[test]
fn build_face_appends_and_offsets_by_position() {
    let mut out: Vec<Vertex> = vec![];
    build_face(&mut out, &Face::NegativeY, &v(2, 3, 1));
    build_face(&mut out, &Face::PositiveX, &v(2, 3, 1));
    assert_eq!(out.len(), 12);
    let u = VERTEX_UNIT;
    for vert in &out[..6] {
        assert_eq!(vert.pos.y, 3 * u - u / 2);
        assert_eq!(vert.base_loc, v(2, 3, 1));
        assert_eq!(vert.normal, v(0, -1, 0));
        assert!((vert.pos.x - 2 * u).abs() == u / 2 && (vert.pos.z - u).abs() == u / 2);
    }
    for vert in &out[6..] {
        assert_eq!(vert.pos.x, 2 * u + u / 2);
    }
    assert_eq!(out[6].tex_u, 0);
    assert_eq!(out[6].tex_v, 1);
}

#[test]
fn block_textures_per_face() {
    let grass = BlockType::Grass.textures().unwrap();
    assert_eq!(grass.for_face(&Face::PositiveY), BlockTexture::GrassTop);
    assert_eq!(grass.for_face(&Face::NegativeY), BlockTexture::Dirt);
    assert_eq!(grass.for_face(&Face::NegativeX), BlockTexture::DirtGrass);
    assert_eq!(grass.for_face(&Face::PositiveZ), BlockTexture::DirtGrass);
    let stone = BlockType::Stone.textures().unwrap();
    assert_eq!(stone, BlockTextures::Uniform(BlockTexture::Stone));
    assert_eq!(stone.for_face(&Face::PositiveY), BlockTexture::Stone);
    assert_eq!(
        BlockType::Dirt.textures(),
        Some(BlockTextures::Uniform(BlockTexture::Dirt))
    );
    assert_eq!(BlockType::Air.textures(), None);
}

#[test]
fn block_kinds() {
    assert!(!BlockType::Air.is_solid());
    assert!(BlockType::Dirt.is_solid());
    assert!(BlockType::Grass.is_solid());
    assert_eq!(BlockType::from_index(0), BlockType::Grass);
    assert_eq!(BlockType::from_index(1), BlockType::Stone);
    assert_eq!(BlockType::from_index(2), BlockType::Dirt);
    assert_eq!(BlockType::from_index(3), BlockType::Air);
    assert_eq!(BlockType::from_index(99), BlockType::Air);
    assert_eq!(
        BlockType::placeable(),
        vec![BlockType::Grass, BlockType::Stone, BlockType::Dirt]
    );
    for _ in 0..20 {
        let _ = BlockType::random();
    }
}

#[test]
fn vertex_attributes_are_packed() {
    assert_eq!(
        vertex_layout(),
        vec![
            AttributeLayout { index: 0, size: 3, offset: 0 },
            AttributeLayout { index: 1, size: 3, offset: 12 },
            AttributeLayout { index: 2, size: 2, offset: 24 },
            AttributeLayout { index: 3, size: 3, offset: 32 },
        ]
    );
    assert_eq!(vertex_stride(), 44);
}

#[test]
fn unit_cube_has_six_faces_at_half_a_voxel() {
    let one = SCALE_UNIT;
    let m = cube(v(one, one, one));
    assert_eq!(m.len(), 36);
    let half = VERTEX_UNIT / 2;
    let normals = [v(1, 0, 0), v(-1, 0, 0), v(0, 0, 1), v(0, 0, -1), v(0, 1, 0), v(0, -1, 0)];
    for (i, vert) in m.iter().enumerate() {
        let n = normals[i / 6];
        assert_eq!(vert.normal, n);
        assert_eq!(vert.base_loc, v(0, 0, 0));
        for c in [vert.pos.x, vert.pos.y, vert.pos.z] {
            assert_eq!(c.abs(), half);
        }
        assert_eq!(dot(vert.pos, n), half);
        assert!(vert.tex_u == 0 || vert.tex_u == 1);
    }
    // first triangle of +X: (a, b) = (-1, 1), (-1, -1), (1, -1) along
    // tangent (0, 0, 1) and orthogonal (0, 1, 0)
    assert_eq!(m[0].pos, v(half, half, -half));
    assert_eq!(m[1].pos, v(half, -half, -half));
    assert_eq!(m[2].pos, v(half, -half, half));
    assert_eq!(m[5].pos, v(half, half, half));
}

#[test]
fn cube_scales_per_axis() {
    // 2 x 1 x 0.5 voxels
    let m = cube(v(2 * SCALE_UNIT, SCALE_UNIT, SCALE_UNIT / 2));
    let max = |f: fn(&Vertex) -> i32| m.iter().map(f).max().unwrap();
    assert_eq!(max(|w| w.pos.x), VERTEX_UNIT);
    assert_eq!(max(|w| w.pos.y), VERTEX_UNIT / 2);
    assert_eq!(max(|w| w.pos.z), VERTEX_UNIT / 4);
}

#[test]
fn zero_cube_is_flat() {
    let m = cube(v(0, 0, 0));
    assert_eq!(m.len(), 36);
    assert!(m.iter().all(|w| w.pos == v(0, 0, 0)));
}

#[test]
fn negative_scale_mirrors_the_faces() {
    let a = cube(v(3, 3, 23));
    let b = cube(v(3, 3, -23));
    // +X: the tangent keeps its direction, z is mirrored
    assert_eq!(a[0].pos, v(3, 3, -23));
    assert_eq!(b[0].pos, v(3, 3, 23));
    // +Z: the face moves to -z and its first edge turns around
    assert_eq!(a[12].pos, v(3, 3, 23));
    assert_eq!(b[12].pos, v(-3, 3, -23));
    assert_eq!(a[12].normal, v(0, 0, 1));
    assert_eq!(b[12].normal, v(0, 0, 1));
}

#[test]
fn selection_ring_surrounds_the_unit_square() {
    let ring = build_selection_ring();
    assert_eq!(ring.len(), 4 * 36);
    let u = VERTEX_UNIT as f64;
    let xs: Vec<f64> = ring.iter().map(|w| w.pos.x as f64 / u).collect();
    let ys: Vec<f64> = ring.iter().map(|w| w.pos.y as f64 / u).collect();
    let zs: Vec<f64> = ring.iter().map(|w| w.pos.z as f64 / u).collect();
    let max = |s: &Vec<f64>| s.iter().cloned().fold(f64::MIN, f64::max);
    let min = |s: &Vec<f64>| s.iter().cloned().fold(f64::MAX, f64::min);
    // bars 0.15 thick centred on the square's sides at +-0.5, the X-side
    // bars 1.15 long
    assert!((max(&xs) - 0.575).abs() < 1e-9);
    assert!((min(&xs) + 0.575).abs() < 1e-9);
    assert!((max(&zs) - 0.575).abs() < 1e-9);
    assert!((max(&ys) - 0.075).abs() < 1e-9);
    assert!((min(&ys) + 0.075).abs() < 1e-9);
    // first bar: centred at (-0.5, 0, 0), 0.15 x 0.15 x 1.15
    let first = &ring[..36];
    assert!(first.iter().all(|w| (w.pos.x as f64 / u + 0.5).abs() <= 0.075 + 1e-9));
    assert!(first.iter().any(|w| (w.pos.z as f64 / u - 0.575).abs() < 1e-9));
}
