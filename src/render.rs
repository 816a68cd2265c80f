use vstd::prelude::*;

pub mod camera;
pub mod mesh;
pub mod picking;

use crate::math::Vec3i;

verus! {

/// Vertex positions are fixed point: one voxel edge is `VERTEX_UNIT` units.
pub const VERTEX_UNIT: i32 = 40;

/// One mesh vertex, in exact units: `pos` is the position in vertex units,
/// `tex_u` and `tex_v` are texture coordinates in {0, 1}, and `base_loc` is
/// the grid position of the voxel the vertex belongs to.
#[derive(Clone, Copy, Debug, PartialEq, Eq, Structural)]
pub struct Vertex {
    pub pos: Vec3i,
    pub normal: Vec3i,
    pub tex_u: i32,
    pub tex_v: i32,
    pub base_loc: Vec3i,
}

/// Number of float components of the vertex attributes, in order: position,
/// normal, texture coordinate and voxel origin.
pub open spec fn attribute_size(i: int) -> int {
    if i == 2 {
        2
    } else {
        3
    }
}

/// Components of the attributes before attribute `i`.
pub open spec fn components_before(i: int) -> int
    decreases i,
{
    if i <= 0 {
        0
    } else {
        components_before(i - 1) + attribute_size(i - 1)
    }
}

/// Bytes of one float component.
pub const FLOAT_SIZE: i32 = 4;

/// Where one vertex attribute lies within a tightly packed vertex.
#[derive(Clone, Copy, Debug, PartialEq, Eq, Structural)]
pub struct AttributeLayout {
    pub index: u32,
    pub size: i32,
    pub offset: i32,
}

/// The layout of the four vertex attributes: attribute `i` has
/// `attribute_size(i)` float components and starts right after the
/// attributes before it.
pub fn vertex_layout() -> (r: Vec<AttributeLayout>)
    ensures
        r@.len() == 4,
        forall|i: int|
            0 <= i < 4 ==> (#[trigger] r@[i]).index == i && r@[i].size == attribute_size(i)
                && r@[i].offset == FLOAT_SIZE * components_before(i),
{
    let sizes: [i32; 4] = [3, 3, 2, 3];
    let mut r: Vec<AttributeLayout> = Vec::new();
    let mut offset: i32 = 0;
    let mut i: usize = 0;
    while i < 4
        invariant
            i <= 4,
            sizes@ == seq![3i32, 3, 2, 3],
            offset == components_before(i as int),
            0 <= offset <= 3 * i,
            r@.len() == i,
            forall|j: int|
                0 <= j < i ==> (#[trigger] r@[j]).index == j && r@[j].size == attribute_size(j)
                    && r@[j].offset == FLOAT_SIZE * components_before(j),
        decreases 4 - i,
    {
        let size = sizes[i];
        assert(size == attribute_size(i as int));
        r.push(AttributeLayout { index: i as u32, size, offset: FLOAT_SIZE * offset });
        offset = offset + size;
        i += 1;
    }
    r
}

/// Bytes of one vertex.
pub fn vertex_stride() -> (r: i32)
    ensures
        r == FLOAT_SIZE * components_before(4),
{
    assert(components_before(0) == 0);
    assert(components_before(1) == 3);
    assert(components_before(2) == 6);
    assert(components_before(3) == 8);
    assert(components_before(4) == 11);
    FLOAT_SIZE * 11
}

} // verus!
