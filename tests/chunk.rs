use rust_404::math::Vec3i;
use rust_404::render::mesh::Face;
use rust_404::render::VERTEX_UNIT;
use rust_404::world::block::BlockType;
use rust_404::world::chunk::{Chunk, ChunkError, CHUNK_SIZE, CHUNK_VOLUME};

fn v(x: i32, y: i32, z: i32) -> Vec3i {
    Vec3i::new(x, y, z)
}

fn air_chunk_with(cells: &[(i32, i32, i32)]) -> Chunk {
    let mut c = Chunk::new_filled(BlockType::Air);
    for &(x, y, z) in cells {
        assert_eq!(c.set(v(x, y, z), BlockType::Dirt), Ok(()));
    }
    c
}

#[test]
fn sample_outside_is_absent() {
    let c = Chunk::new_filled(BlockType::Stone);
    let n = CHUNK_SIZE as i32;
    for p in [
        v(-1, 0, 0),
        v(0, -1, 0),
        v(0, 0, -1),
        v(n, 0, 0),
        v(0, n, 0),
        v(0, 0, n),
        v(i32::MIN, i32::MAX, 0),
        v(n, n, n),
    ] {
        assert_eq!(c.sample_vec(p), None);
    }
    assert_eq!(c.sample_vec(v(n - 1, n - 1, n - 1)), Some(BlockType::Stone));
    assert_eq!(c.sample_vec(v(0, 0, 0)), Some(BlockType::Stone));
}

#[test]
fn set_outside_fails_and_changes_nothing() {
    let mut c = Chunk::new_filled(BlockType::Dirt);
    let before = c.chunk_vertices();
    let n = CHUNK_SIZE as i32;
    for p in [v(-1, 0, 0), v(0, n, 0), v(0, 0, 7), v(i32::MAX, 0, 0)] {
        assert_eq!(c.set(p, BlockType::Air), Err(ChunkError::OutOfBounds));
    }
    assert_eq!(c.chunk_vertices(), before);
}

#[test]
fn set_inside_overwrites_one_cell() {
    let mut c = Chunk::new_filled(BlockType::Dirt);
    assert_eq!(c.set(v(1, 2, 3), BlockType::Grass), Ok(()));
    assert_eq!(c.sample_vec(v(1, 2, 3)), Some(BlockType::Grass));
    assert_eq!(c.sample_vec(v(3, 2, 1)), Some(BlockType::Dirt));
}

#[test]
fn random_chunk_holds_only_air_and_dirt() {
    let c = Chunk::new();
    let n = CHUNK_SIZE as i32;
    for x in 0..n {
        for y in 0..n {
            for z in 0..n {
                let b = c.sample_vec(v(x, y, z)).unwrap();
                assert!(b == BlockType::Air || b == BlockType::Dirt);
            }
        }
    }
}

#[test]
fn air_flags_follow_storage_order() {
    let mut flags = vec![false; CHUNK_VOLUME];
    flags[0] = true;
    flags[1] = true;
    flags[16 + 4 + 1] = true;
    let c = Chunk::from_air_flags(&flags);
    assert_eq!(c.sample_vec(v(0, 0, 0)), Some(BlockType::Air));
    assert_eq!(c.sample_vec(v(0, 0, 1)), Some(BlockType::Air));
    assert_eq!(c.sample_vec(v(1, 1, 1)), Some(BlockType::Air));
    assert_eq!(c.sample_vec(v(1, 0, 0)), Some(BlockType::Dirt));
    assert_eq!(c.sample_vec(v(0, 1, 0)), Some(BlockType::Dirt));
}

#[test]
fn lone_block_shows_all_faces_once() {
    let c = air_chunk_with(&[(1, 1, 1)]);
    assert_eq!(
        c.visible_faces(v(1, 1, 1)),
        vec![
            Face::NegativeX,
            Face::PositiveX,
            Face::NegativeY,
            Face::PositiveY,
            Face::NegativeZ,
            Face::PositiveZ
        ]
    );
}

#[test]
fn enclosed_block_shows_no_face() {
    let c = Chunk::new_filled(BlockType::Dirt);
    assert!(c.visible_faces(v(1, 1, 1)).is_empty());
    assert!(c.visible_faces(v(2, 1, 2)).is_empty());
}

#[test]
fn boundary_faces_are_visible() {
    let c = Chunk::new_filled(BlockType::Dirt);
    assert_eq!(
        c.visible_faces(v(0, 0, 0)),
        vec![Face::NegativeX, Face::NegativeY, Face::NegativeZ]
    );
    assert_eq!(
        c.visible_faces(v(3, 3, 3)),
        vec![Face::PositiveX, Face::PositiveY, Face::PositiveZ]
    );
    assert_eq!(c.visible_faces(v(0, 1, 2)), vec![Face::NegativeX]);
}

#[test]
fn face_toward_air_neighbour_is_visible() {
    let mut c = Chunk::new_filled(BlockType::Stone);
    c.set(v(2, 1, 1), BlockType::Air).unwrap();
    assert_eq!(c.visible_faces(v(1, 1, 1)), vec![Face::PositiveX]);
    assert_eq!(c.visible_faces(v(3, 1, 1)), vec![Face::NegativeX, Face::PositiveX]);
}

#[test]
fn air_and_outside_cells_show_no_face() {
    let c = air_chunk_with(&[(0, 0, 0)]);
    assert!(c.visible_faces(v(1, 0, 0)).is_empty());
    assert!(c.visible_faces(v(-1, 0, 0)).is_empty());
    assert!(c.visible_faces(v(9, 9, 9)).is_empty());
}

#[test]
fn all_dirt_chunk_meshes_only_its_boundary() {
    let c = Chunk::new_filled(BlockType::Dirt);
    let m = c.chunk_vertices();
    let n = CHUNK_SIZE as i32;
    // 6 sides of n * n faces, two triangles each
    assert_eq!(m.len(), 6 * (CHUNK_SIZE * CHUNK_SIZE) * 6);
    assert_eq!(m.len() % 6, 0);
    for (i, vert) in m.iter().enumerate() {
        let b = vert.base_loc;
        assert!(0 <= b.x && b.x < n && 0 <= b.y && b.y < n && 0 <= b.z && b.z < n);
        // the vertex lies on the outer surface of the chunk: one coordinate
        // at -1/2 or n - 1/2 voxel
        let hp = vert.pos;
        let u = VERTEX_UNIT;
        let on_surface = [hp.x, hp.y, hp.z]
            .iter()
            .any(|&c| c == -u / 2 || c == n * u - u / 2);
        assert!(on_surface, "vertex {} at {:?}", i, hp);
        // a face's six vertices share a voxel origin
        assert_eq!(m[i - i % 6].base_loc, b);
    }
    // the first cell in order is (0, 0, 0), with faces -X, -Y, -Z
    assert_eq!(m[0].base_loc, v(0, 0, 0));
    assert_eq!(m[0].normal, v(-1, 0, 0));
    assert_eq!(m[6].normal, v(0, -1, 0));
    assert_eq!(m[12].normal, v(0, 0, -1));
    assert_eq!(m[18].base_loc, v(0, 0, 1));
}

#[test]
fn interior_faces_appear_next_to_air() {
    let mut c = Chunk::new_filled(BlockType::Dirt);
    let full = c.chunk_vertices().len();
    c.set(v(1, 1, 1), BlockType::Air).unwrap();
    // six inner faces around the hole appear
    assert_eq!(c.chunk_vertices().len(), full + 6 * 6);
    let m = c.chunk_vertices();
    assert!(m
        .iter()
        .any(|vert| vert.base_loc == v(0, 1, 1) && vert.normal == v(1, 0, 0)));
}

#[test]
fn empty_chunk_has_empty_mesh() {
    let c = Chunk::new_filled(BlockType::Air);
    assert!(c.chunk_vertices().is_empty());
}

#[test]
fn meshing_twice_gives_same_vertices() {
    let c = Chunk::new();
    let a = c.chunk_vertices();
    let b = c.chunk_vertices();
    assert_eq!(a, b);
    let d = Chunk::new_filled(BlockType::Grass);
    assert_eq!(d.chunk_vertices(), d.chunk_vertices());
}

#[test]
fn visible_faces_match_neighbours_on_random_chunks() {
    let n = CHUNK_SIZE as i32;
    for _ in 0..20 {
        let c = Chunk::new();
        let mut expected_mesh_len = 0;
        for x in 0..n {
            for y in 0..n {
                for z in 0..n {
                    let p = v(x, y, z);
                    let faces = c.visible_faces(p);
                    let solid = c.sample_vec(p).unwrap().is_solid();
                    for f in Face::faces() {
                        let d = f.neighbord_dir();
                        let open = match c.sample_vec(v(x + d.x, y + d.y, z + d.z)) {
                            None | Some(BlockType::Air) => true,
                            Some(_) => false,
                        };
                        let count = faces.iter().filter(|g| **g == f).count();
                        assert_eq!(count, if solid && open { 1 } else { 0 });
                    }
                    expected_mesh_len += 6 * faces.len();
                }
            }
        }
        let m = c.chunk_vertices();
        assert_eq!(m.len(), expected_mesh_len);
        for vert in &m {
            assert!(c.sample_vec(vert.base_loc).unwrap().is_solid());
        }
    }
}

#[test]
fn every_quad_sits_on_its_cell_corners() {
    let u = VERTEX_UNIT;
    for _ in 0..10 {
        let c = Chunk::new();
        let m = c.chunk_vertices();
        let mut seen = std::collections::HashSet::new();
        for quad in m.chunks(6) {
            let b = quad[0].base_loc;
            let n = quad[0].normal;
            assert!(seen.insert((b.x, b.y, b.z, n.x, n.y, n.z)), "quad repeated");
            for vert in quad {
                assert_eq!(vert.base_loc, b);
                assert_eq!(vert.normal, n);
                for (p, q) in [(vert.pos.x, b.x), (vert.pos.y, b.y), (vert.pos.z, b.z)] {
                    assert_eq!((p - u * q).abs(), u / 2);
                }
            }
        }
    }
}
