use vstd::prelude::*;

use crate::input::Button;
use crate::math::{add3, Int3, Vec3i};
use crate::render::mesh::{face_normal, Face};
use crate::world::block::BlockType;
use crate::world::chunk::{cell_index, in_bounds, Chunk};

verus! {

/// The cell that a click on the picked face `face` of the voxel at `pos`
/// changes, and what it becomes: the primary button clears the voxel to
/// air; the secondary button places `placing` in the neighbour across the
/// face; other buttons change nothing.
pub open spec fn click_target(pos: Int3, face: Face, button: Button, placing: BlockType) -> Option<
    (Int3, BlockType),
> {
    match button {
        Button::Primary => Some((pos, BlockType::Air)),
        Button::Secondary => Some((add3(pos, face_normal(face)), placing)),
        Button::Other => None,
    }
}

/// Applies a mouse click to the chunk, given what was picked in the last
/// frame, and says whether the chunk changed so that its mesh must be
/// rebuilt. Nothing happens when nothing was picked, for a button other than
/// the primary and secondary ones, or when the target cell lies outside the
/// chunk.
pub fn apply_click(
    chunk: &mut Chunk,
    picked: Option<(Vec3i, Face)>,
    button: Button,
    placing: BlockType,
) -> (rebuild: bool)
    requires
        old(chunk).wf(),
        picked matches Some((p, _)) ==> -i32::MAX <= p.x < i32::MAX && -i32::MAX <= p.y
            < i32::MAX && -i32::MAX <= p.z < i32::MAX,
    ensures
        final(chunk).wf(),
        match picked {
            None => !rebuild && final(chunk)@ == old(chunk)@,
            Some((p, f)) => match click_target(p@, f, button, placing) {
                Some((q, b)) => if in_bounds(q) {
                    rebuild && final(chunk)@ == old(chunk)@.update(cell_index(q), b)
                } else {
                    !rebuild && final(chunk)@ == old(chunk)@
                },
                None => !rebuild && final(chunk)@ == old(chunk)@,
            },
        },
{
    match picked {
        None => false,
        Some((pos, face)) => match button {
            Button::Primary => chunk.set(pos, BlockType::Air).is_ok(),
            Button::Secondary => {
                let target = pos.add(face.neighbord_dir());
                chunk.set(target, placing).is_ok()
            },
            Button::Other => false,
        },
    }
}

/// The block type that becomes active after `active` when the player cycles
/// through `count` placeable types: the next one, wrapping to the first.
pub fn next_block_index(active: usize, count: usize) -> (r: usize)
    requires
        active < count,
    ensures
        r == (active + 1) % (count as int),
        r < count,
{
    (active + 1) % count
}

} // verus!
