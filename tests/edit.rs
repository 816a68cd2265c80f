use rust_404::input::Button;
use rust_404::math::Vec3i;
use rust_404::render::mesh::Face;
use rust_404::world::block::BlockType;
use rust_404::world::chunk::Chunk;
use rust_404::world::edit::{apply_click, next_block_index};

fn v(x: i32, y: i32, z: i32) -> Vec3i {
    Vec3i::new(x, y, z)
}

#[test]
fn primary_click_clears_the_picked_voxel() {
    let mut c = Chunk::new_filled(BlockType::Dirt);
    assert!(apply_click(&mut c, Some((v(3, 3, 3), Face::PositiveY)), Button::Primary, BlockType::Stone));
    assert_eq!(c.sample_vec(v(3, 3, 3)), Some(BlockType::Air));
}

#[test]
fn secondary_click_places_across_the_face() {
    let mut c = Chunk::new_filled(BlockType::Air);
    c.set(v(1, 1, 1), BlockType::Dirt).unwrap();
    assert!(apply_click(&mut c, Some((v(1, 1, 1), Face::NegativeZ)), Button::Secondary, BlockType::Grass));
    assert_eq!(c.sample_vec(v(1, 1, 0)), Some(BlockType::Grass));
    assert_eq!(c.sample_vec(v(1, 1, 1)), Some(BlockType::Dirt));
}

#[test]
fn placing_outside_the_chunk_is_ignored() {
    let mut c = Chunk::new_filled(BlockType::Dirt);
    let before = c.chunk_vertices();
    assert!(!apply_click(&mut c, Some((v(3, 0, 0), Face::PositiveX)), Button::Secondary, BlockType::Stone));
    assert_eq!(c.chunk_vertices(), before);
}

#[test]
fn clicks_without_pick_or_with_other_button_do_nothing() {
    let mut c = Chunk::new_filled(BlockType::Dirt);
    assert!(!apply_click(&mut c, None, Button::Primary, BlockType::Stone));
    assert!(!apply_click(&mut c, Some((v(0, 0, 0), Face::NegativeX)), Button::Other, BlockType::Stone));
    assert_eq!(c.sample_vec(v(0, 0, 0)), Some(BlockType::Dirt));
}

#[test]
fn active_block_cycles() {
    assert_eq!(next_block_index(0, 3), 1);
    assert_eq!(next_block_index(1, 3), 2);
    assert_eq!(next_block_index(2, 3), 0);
    assert_eq!(next_block_index(0, 1), 0);
}
