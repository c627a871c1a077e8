//! Block kinds and their static metadata: solidity, transparency class,
//! break time, raycast hitbox shape and drop table. The metadata is a pure
//! function of the kind — an immutable registry, never mutated at run time.

use vstd::prelude::*;
use crate::fixed::{Aabb3Fx, FxVec3};

verus! {

/// Every kind of block the world can hold.
#[derive(Clone, Copy, Debug, PartialEq, Eq, Structural, Hash)]
pub enum BlockId {
    Dirt,
    Debug,
    Grass,
    Stone,
    OakLog,
    OakPlanks,
    OakLeaves,
    Sand,
    Cactus,
    Ice,
    Glass,
    Bedrock,
    Dandelion,
    Poppy,
    TallGrass,
    Cobblestone,
    Snow,
    SpruceLeaves,
    SpruceLog,
}

impl Default for BlockId {
    fn default() -> (r: Self)
        ensures
            r == BlockId::Dirt,
    {
        BlockId::Dirt
    }
}

/// Horizontal orientation a block was placed with.
#[derive(Clone, Copy, Debug, PartialEq, Eq, Structural)]
pub enum BlockDirection {
    Front,
    Right,
    Back,
    Left,
}

/// One block as stored in a chunk: its kind, placement orientation, and how
/// far along it is toward being broken.
#[derive(Clone, Copy, Debug, PartialEq, Eq, Structural)]
pub struct BlockData {
    pub id: BlockId,
    pub flipped: bool,
    pub direction: BlockDirection,
    pub breaking_progress: i32,
}

impl BlockData {
    /// A freshly created block: no breaking progress yet.
    pub fn new(id: BlockId, flipped: bool, direction: BlockDirection) -> (b: Self)
        ensures
            b == (BlockData { id, flipped, direction, breaking_progress: 0 }),
    {
        BlockData { id, flipped, direction, breaking_progress: 0 }
    }
}

/// Gameplay tags attached to a block kind.
#[derive(Clone, Copy, Debug, PartialEq, Eq, Structural)]
pub enum BlockTags {
    Solid,
    Stone,
}

/// Rendering/visibility classification of a block kind.
#[derive(Clone, Copy, Debug, PartialEq, Eq, Structural)]
pub enum BlockTransparency {
    Transparent,
    Liquid,
    Solid,
    Decoration,
}

/// Raycast hitbox class of a block kind: a full voxel cube, a sub-box within
/// the voxel, or fully passable (a decoration a ray travels through).
#[derive(Clone, Copy, Debug, PartialEq, Eq, Structural)]
pub enum BlockHitbox {
    FullBlock,
    Aabb(Aabb3Fx),
    Passable,
}

/// Whether this kind takes part in collision: flora does not.
pub open spec fn spec_has_hitbox(id: BlockId) -> bool {
    !(id == BlockId::Dandelion || id == BlockId::Poppy || id == BlockId::TallGrass)
}

impl BlockId {
    /// Whether an entity collides with a block of this kind.
    pub fn has_hitbox(&self) -> (r: bool)
        ensures
            r == spec_has_hitbox(*self),
    {
        !matches!(*self, BlockId::Dandelion | BlockId::Poppy | BlockId::TallGrass)
    }

    /// Whether this kind is tinted by the biome it stands in.
    pub fn is_biome_colored() -> (r: bool)
        ensures
            r == false,
    {
        false
    }

    /// Number of break actions needed to destroy a block of this kind.
    pub fn get_break_time(&self) -> (t: i32)
        ensures
            t == spec_break_time(*self),
    {
        match *self {
            BlockId::Bedrock => -1,
            _ => 5,
        }
    }

    /// The hitbox a ray is tested against for this kind: flowers occupy a
    /// small box inside their voxel, tall grass is fully passable, and every
    /// other kind fills its voxel.
    pub fn get_ray_hitbox(&self) -> (h: BlockHitbox)
        ensures
            h == spec_ray_hitbox(*self),
    {
        match *self {
            BlockId::Dandelion | BlockId::Poppy => BlockHitbox::Aabb(
                Aabb3Fx {
                    min: FxVec3 { x: 300, y: 0, z: 300 },
                    max: FxVec3 { x: 700, y: 600, z: 700 },
                },
            ),
            BlockId::TallGrass => BlockHitbox::Passable,
            _ => BlockHitbox::FullBlock,
        }
    }

    /// Gameplay tags of this kind.
    pub fn get_tags(&self) -> (tags: Vec<BlockTags>)
        ensures
            tags@ == spec_tags(*self),
    {
        let mut tags: Vec<BlockTags> = Vec::new();
        if matches!(*self, BlockId::Stone) {
            tags.push(BlockTags::Stone);
        }
        tags.push(BlockTags::Solid);
        proof {
            assert(tags@ =~= spec_tags(*self));
        }
        tags
    }

    /// Visibility class of this kind.
    pub fn get_visibility(&self) -> (v: BlockTransparency)
        ensures
            v == spec_visibility(*self),
    {
        match *self {
            BlockId::Dandelion | BlockId::Poppy | BlockId::TallGrass => {
                BlockTransparency::Decoration
            },
            BlockId::Glass | BlockId::OakLeaves | BlockId::SpruceLeaves => {
                BlockTransparency::Transparent
            },
            _ => BlockTransparency::Solid,
        }
    }
}

/// Break actions needed per kind; bedrock's negative entry makes the very
/// first break action reach it.
pub open spec fn spec_break_time(id: BlockId) -> int {
    if id == BlockId::Bedrock {
        -1
    } else {
        5
    }
}

pub open spec fn spec_ray_hitbox(id: BlockId) -> BlockHitbox {
    if id == BlockId::Dandelion || id == BlockId::Poppy {
        BlockHitbox::Aabb(
            Aabb3Fx {
                min: FxVec3 { x: 300, y: 0, z: 300 },
                max: FxVec3 { x: 700, y: 600, z: 700 },
            },
        )
    } else if id == BlockId::TallGrass {
        BlockHitbox::Passable
    } else {
        BlockHitbox::FullBlock
    }
}

pub open spec fn spec_tags(id: BlockId) -> Seq<BlockTags> {
    if id == BlockId::Stone {
        seq![BlockTags::Stone, BlockTags::Solid]
    } else {
        seq![BlockTags::Solid]
    }
}

pub open spec fn spec_visibility(id: BlockId) -> BlockTransparency {
    if id == BlockId::Dandelion || id == BlockId::Poppy || id == BlockId::TallGrass {
        BlockTransparency::Decoration
    } else if id == BlockId::Glass || id == BlockId::OakLeaves || id == BlockId::SpruceLeaves {
        BlockTransparency::Transparent
    } else {
        BlockTransparency::Solid
    }
}

} // verus!
