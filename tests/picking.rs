use rust_404::math::Vec3i;
use rust_404::render::mesh::Face;
use rust_404::render::picking::{
    decode_channel, decode_exact_channel, decode_pixel, encode_channel, face_hit, pick_face, pick_from_pixel, Ray,
    FIXED_ONE,
};
use rust_404::world::chunk::CHUNK_SIZE;

fn v(x: i32, y: i32, z: i32) -> Vec3i {
    Vec3i::new(x, y, z)
}

const S: i32 = FIXED_ONE;

#[test]
fn channel_round_trip_for_every_size() {
    for size in 2u32..=256 {
        for p in 0..size {
            let c = encode_channel(p, size);
            assert_eq!(decode_channel(c, size), p, "size {} coordinate {}", size, p);
        }
    }
}

#[test]
fn channel_encoding_values() {
    // four cells: steps of 255 / 3 = 85
    assert_eq!(encode_channel(0, 4), 0);
    assert_eq!(encode_channel(1, 4), 85);
    assert_eq!(encode_channel(2, 4), 170);
    assert_eq!(encode_channel(3, 4), 255);
    // 255 / 2 = 127.5 rounds up
    assert_eq!(encode_channel(1, 3), 128);
    assert_eq!(encode_channel(255, 256), 255);
    assert_eq!(decode_channel(86, 4), 1);
    assert_eq!(decode_channel(127, 4), 1);
    assert_eq!(decode_channel(128, 4), 2);
    assert_eq!(decode_channel(255, 4), 3);
}

#[test]
fn pixel_round_trip_for_every_cell() {
    let n = CHUNK_SIZE as u32;
    for x in 0..n {
        for y in 0..n {
            for z in 0..n {
                let px = [
                    encode_channel(x, n),
                    encode_channel(y, n),
                    encode_channel(z, n),
                    255,
                ];
                assert_eq!(decode_pixel(px), Some(v(x as i32, y as i32, z as i32)));
            }
        }
    }
}

#[test]
fn transparent_pixel_picks_nothing() {
    assert_eq!(decode_pixel([85, 170, 255, 0]), None);
    let ray = Ray { origin: v(0, 0, 5 * S), dir: v(0, 0, -S) };
    assert_eq!(pick_from_pixel([0, 0, 0, 0], &ray), None);
}

#[test]
fn camera_in_front_of_voxel_picks_positive_z() {
    let ray = Ray { origin: v(0, 0, 5 * S), dir: v(0, 0, -S) };
    assert_eq!(
        pick_from_pixel([0, 0, 0, 255], &ray),
        Some((v(0, 0, 0), Face::PositiveZ))
    );
    let h = face_hit(&ray, v(0, 0, 0), Face::PositiveZ).unwrap();
    let t = h.t_num as f64 / h.t_den as f64;
    let point = [
        (ray.origin.x as f64 + t * ray.dir.x as f64) / S as f64,
        (ray.origin.y as f64 + t * ray.dir.y as f64) / S as f64,
        (ray.origin.z as f64 + t * ray.dir.z as f64) / S as f64,
    ];
    assert!((point[0] - 0.0).abs() < 1e-4);
    assert!((point[1] - 0.0).abs() < 1e-4);
    assert!((point[2] - 0.5).abs() < 1e-4);
    // faces that look away from the camera or lie along the ray are skipped
    assert_eq!(face_hit(&ray, v(0, 0, 0), Face::NegativeZ), None);
    assert_eq!(face_hit(&ray, v(0, 0, 0), Face::PositiveX), None);
}

#[test]
fn ray_beside_voxel_picks_nothing() {
    let ray = Ray { origin: v(2 * S, 0, 5 * S), dir: v(0, 0, -S) };
    assert_eq!(pick_face(&ray, v(0, 0, 0)), None);
    assert_eq!(pick_from_pixel([0, 0, 0, 255], &ray), None);
}

#[test]
fn oblique_ray_picks_entry_face() {
    // from (2, 0.3, 0) toward -X and slightly down: enters through +X
    let ray = Ray { origin: v(2 * S, 3 * S / 10, 0), dir: v(-S, -S / 10, 0) };
    assert_eq!(pick_face(&ray, v(0, 0, 0)), Some(Face::PositiveX));
    assert_eq!(face_hit(&ray, v(0, 0, 0), Face::PositiveY), None);
    // the decoded voxel is used: voxel (1, 2, 3) seen from above
    let ray = Ray { origin: v(S, 6 * S, 3 * S), dir: v(0, -S, 0) };
    assert_eq!(
        pick_from_pixel([85, 170, 255, 255], &ray),
        Some((v(1, 2, 3), Face::PositiveY))
    );
}

#[test]
fn equally_near_faces_pick_first_in_order() {
    // through the edge shared by +X and +Y at (0.5, 0.5, 0)
    let ray = Ray { origin: v(S, S, 0), dir: v(-S, -S, 0) };
    assert!(face_hit(&ray, v(0, 0, 0), Face::PositiveX).is_some());
    assert!(face_hit(&ray, v(0, 0, 0), Face::PositiveY).is_some());
    assert_eq!(pick_face(&ray, v(0, 0, 0)), Some(Face::PositiveX));
}

#[test]
fn extreme_coordinates_do_not_overflow() {
    let ray = Ray { origin: v(i32::MAX, i32::MIN, i32::MAX), dir: v(i32::MIN, i32::MAX, i32::MIN) };
    let _ = pick_face(&ray, v(i32::MIN, i32::MAX, i32::MIN));
    let _ = pick_face(&ray, v(0, 0, 0));
}

#[test]
fn inexact_colours_pick_nothing() {
    let ray = Ray { origin: v(0, 0, 5 * S), dir: v(0, 0, -S) };
    // 1 * 3 / 255 is no grid coordinate
    assert_eq!(decode_pixel([1, 0, 0, 255]), None);
    assert_eq!(pick_from_pixel([1, 0, 0, 255], &ray), None);
    assert_eq!(pick_from_pixel([0, 86, 0, 255], &ray), None);
    assert_eq!(pick_from_pixel([0, 0, 254, 1], &ray), None);
    assert_eq!(decode_exact_channel(85, 4), Some(1));
    assert_eq!(decode_exact_channel(84, 4), None);
    assert_eq!(decode_exact_channel(255, 256), Some(255));
    assert_eq!(decode_exact_channel(128, 3), None);
}

#[test]
fn exact_encodings_decode_back_where_the_edge_divides() {
    for size in 2u32..=256 {
        if 255 % (size - 1) != 0 {
            continue;
        }
        for p in 0..size {
            assert_eq!(decode_exact_channel(encode_channel(p, size), size), Some(p));
        }
    }
}
