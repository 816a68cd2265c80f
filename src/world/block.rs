use vstd::prelude::*;

use crate::random::random_below;
use crate::render::mesh::Face;

verus! {

/// What a voxel cell holds.
#[derive(Clone, Copy, Debug, PartialEq, Eq, Structural)]
pub enum BlockType {
    Grass,
    Stone,
    Dirt,
    Air,
}

/// A sub-image of the texture atlas.
#[derive(Clone, Copy, Debug, PartialEq, Eq, Structural)]
pub enum BlockTexture {
    Dirt,
    DirtGrass,
    GrassTop,
    Stone,
}

/// How a block type is textured: the same image on every face, or one image
/// for the sides, one for the top and one for the bottom.
#[derive(Clone, Copy, Debug, PartialEq, Eq, Structural)]
pub enum BlockTextures {
    Uniform(BlockTexture),
    SideTopBottom { side: BlockTexture, top: BlockTexture, bottom: BlockTexture },
}

pub open spec fn spec_for_face(t: BlockTextures, face: Face) -> BlockTexture {
    match t {
        BlockTextures::Uniform(u) => u,
        BlockTextures::SideTopBottom { side, top, bottom } => match face {
            Face::NegativeY => bottom,
            Face::PositiveY => top,
            _ => side,
        },
    }
}

impl BlockTextures {
    /// The image shown on `face`.
    pub fn for_face(&self, face: &Face) -> (r: BlockTexture)
        ensures
            r == spec_for_face(*self, *face),
    {
        match self {
            BlockTextures::Uniform(t) => *t,
            BlockTextures::SideTopBottom { side, top, bottom } => match face {
                Face::NegativeY => *bottom,
                Face::PositiveY => *top,
                Face::NegativeX | Face::PositiveX | Face::NegativeZ | Face::PositiveZ => *side,
            },
        }
    }
}

fn uniform(t: BlockTexture) -> (r: Option<BlockTextures>)
    ensures
        r == Some(BlockTextures::Uniform(t)),
{
    Some(BlockTextures::Uniform(t))
}

fn side_top_bottom(side: BlockTexture, top: BlockTexture, bottom: BlockTexture) -> (r: Option<
    BlockTextures,
>)
    ensures
        r == Some(BlockTextures::SideTopBottom { side, top, bottom }),
{
    Some(BlockTextures::SideTopBottom { side, top, bottom })
}

impl BlockType {
    /// A block is solid unless it is air.
    pub open spec fn solid(self) -> bool {
        self != BlockType::Air
    }

    /// The textures of a block type; air has none.
    pub open spec fn spec_textures(self) -> Option<BlockTextures> {
        match self {
            BlockType::Dirt => Some(BlockTextures::Uniform(BlockTexture::Dirt)),
            BlockType::Air => None,
            BlockType::Grass => Some(
                BlockTextures::SideTopBottom {
                    side: BlockTexture::DirtGrass,
                    top: BlockTexture::GrassTop,
                    bottom: BlockTexture::Dirt,
                },
            ),
            BlockType::Stone => Some(BlockTextures::Uniform(BlockTexture::Stone)),
        }
    }

    /// The block type drawn for a number in `0..4`; any larger number gives air.
    pub open spec fn spec_from_index(n: u32) -> BlockType {
        if n == 0 {
            BlockType::Grass
        } else if n == 1 {
            BlockType::Stone
        } else if n == 2 {
            BlockType::Dirt
        } else {
            BlockType::Air
        }
    }

    /// All block types, in declaration order.
    pub open spec fn all_types() -> Seq<BlockType> {
        seq![BlockType::Grass, BlockType::Stone, BlockType::Dirt, BlockType::Air]
    }

    pub fn is_solid(&self) -> (r: bool)
        ensures
            r == self.solid(),
    {
        match self {
            BlockType::Air => false,
            _ => true,
        }
    }

    pub fn textures(&self) -> (r: Option<BlockTextures>)
        ensures
            r == self.spec_textures(),
    {
        match self {
            BlockType::Dirt => uniform(BlockTexture::Dirt),
            BlockType::Air => None,
            BlockType::Grass => side_top_bottom(
                BlockTexture::DirtGrass,
                BlockTexture::GrassTop,
                BlockTexture::Dirt,
            ),
            BlockType::Stone => uniform(BlockTexture::Stone),
        }
    }

    pub fn from_index(n: u32) -> (r: BlockType)
        ensures
            r == Self::spec_from_index(n),
    {
        match n {
            0 => BlockType::Grass,
            1 => BlockType::Stone,
            2 => BlockType::Dirt,
            _ => BlockType::Air,
        }
    }

    /// A block type drawn uniformly from the four kinds.
    pub fn random() -> (r: BlockType)
        ensures
            exists|n: u32| n < 4 && r == Self::spec_from_index(n),
    {
        let n = random_below(4);
        Self::from_index(n)
    }

    /// The block types that have textures, in declaration order: those a
    /// player can place.
    pub fn placeable() -> (r: Vec<BlockType>)
        ensures
            r@ == Self::all_types().filter(|t: BlockType| t.spec_textures() is Some),
    {
        let all = [BlockType::Grass, BlockType::Stone, BlockType::Dirt, BlockType::Air];
        let mut r: Vec<BlockType> = Vec::new();
        let mut i: usize = 0;
        while i < 4
            invariant
                0 <= i <= 4,
                all@ == Self::all_types(),
                r@ == Self::all_types().take(i as int).filter(
                    |t: BlockType| t.spec_textures() is Some,
                ),
            decreases 4 - i,
        {
            let t = all[i];
            proof {
                reveal(Seq::filter);
                assert(Self::all_types().take(i + 1).drop_last() =~= Self::all_types().take(
                    i as int,
                ));
            }
            if t.textures().is_some() {
                r.push(t);
            }
            i += 1;
        }
        assert(Self::all_types().take(4) =~= Self::all_types());
        r
    }
}

} // verus!
