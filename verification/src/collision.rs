//! AABB-vs-voxel-grid collision: enumerates every voxel whose cell overlaps
//! the box (half-up rounding of the bounds, as movement resolution expects)
//! and reports whether any of them holds a block that collides. Deliberately
//! conservative: whole-voxel granularity, re-queried per movement candidate.

use vstd::prelude::*;
use crate::blocks::{spec_has_hitbox, BlockData};
use crate::coords::IVec3;
use crate::fixed::{fx_round_block, spec_round_block, Aabb3Fx, FxVec3, FX_COORD_LIMIT};
use crate::world_map::WorldMap;

verus! {

/// A solid (collidable) block stands at `p`.
pub open spec fn spec_solid_at(blocks: Map<IVec3, BlockData>, p: IVec3) -> bool {
    blocks.contains_key(p) && spec_has_hitbox(blocks[p].id)
}

/// The voxel cells enumerated for a box: per axis, from the rounded minimum
/// (inclusive) to the rounded maximum (exclusive).
pub open spec fn spec_in_rounded_box(aabb: Aabb3Fx, p: IVec3) -> bool {
    &&& spec_round_block(aabb.min.x as int) <= p.x as int
    &&& (p.x as int) < spec_round_block(aabb.max.x as int)
    &&& spec_round_block(aabb.min.y as int) <= p.y as int
    &&& (p.y as int) < spec_round_block(aabb.max.y as int)
    &&& spec_round_block(aabb.min.z as int) <= p.z as int
    &&& (p.z as int) < spec_round_block(aabb.max.z as int)
}

/// Whether the box overlaps any solid voxel.
pub open spec fn spec_box_collides(blocks: Map<IVec3, BlockData>, aabb: Aabb3Fx) -> bool {
    exists|p: IVec3| #[trigger] spec_in_rounded_box(aabb, p) && spec_solid_at(blocks, p)
}

/// Coordinates the collision scan can enumerate without leaving `i32` block
/// space.
pub open spec fn spec_fx_vec_in_range(v: FxVec3) -> bool {
    &&& -FX_COORD_LIMIT <= v.x <= FX_COORD_LIMIT
    &&& -FX_COORD_LIMIT <= v.y <= FX_COORD_LIMIT
    &&& -FX_COORD_LIMIT <= v.z <= FX_COORD_LIMIT
}

/// Collision conservativeness, stated both ways: a box whose every
/// enumerated voxel is free of solid blocks never collides, and a box
/// overlapping any solid voxel always does.
pub proof fn lemma_collision_conservative(
    blocks: Map<IVec3, BlockData>,
    aabb: Aabb3Fx,
    witness: IVec3,
)
    ensures
        (forall|q: IVec3| #[trigger] spec_in_rounded_box(aabb, q) ==> !spec_solid_at(blocks, q))
            ==> !spec_box_collides(blocks, aabb),
        spec_in_rounded_box(aabb, witness) && spec_solid_at(blocks, witness)
            ==> spec_box_collides(blocks, aabb),
{
}

/// True exactly when some voxel overlapping the box holds a solid block.
pub fn check_collision_box<W: WorldMap>(world: &W, hitbox: &Aabb3Fx) -> (r: bool)
    requires
        spec_fx_vec_in_range(hitbox.min),
        spec_fx_vec_in_range(hitbox.max),
    ensures
        r == spec_box_collides(world.blocks(), *hitbox),
{
    let x0 = fx_round_block(hitbox.min.x);
    let x1 = fx_round_block(hitbox.max.x);
    let y0 = fx_round_block(hitbox.min.y);
    let y1 = fx_round_block(hitbox.max.y);
    let z0 = fx_round_block(hitbox.min.z);
    let z1 = fx_round_block(hitbox.max.z);
    let mut x = x0;
    while x < x1
        invariant
            x0 <= x,
            x <= x1 || x == x0,
            x1 as int == spec_round_block(hitbox.max.x as int),
            y0 as int == spec_round_block(hitbox.min.y as int),
            y1 as int == spec_round_block(hitbox.max.y as int),
            z0 as int == spec_round_block(hitbox.min.z as int),
            z1 as int == spec_round_block(hitbox.max.z as int),
            x0 as int == spec_round_block(hitbox.min.x as int),
            forall|p: IVec3| #[trigger]
                spec_in_rounded_box(*hitbox, p) && p.x < x ==> !spec_solid_at(world.blocks(), p),
        decreases x1 - x,
    {
        let mut y = y0;
        while y < y1
            invariant
                x0 <= x < x1,
                y0 <= y,
                y <= y1 || y == y0,
                x1 as int == spec_round_block(hitbox.max.x as int),
                y0 as int == spec_round_block(hitbox.min.y as int),
                y1 as int == spec_round_block(hitbox.max.y as int),
                z0 as int == spec_round_block(hitbox.min.z as int),
                z1 as int == spec_round_block(hitbox.max.z as int),
                x0 as int == spec_round_block(hitbox.min.x as int),
                forall|p: IVec3| #[trigger]
                    spec_in_rounded_box(*hitbox, p) && p.x < x ==> !spec_solid_at(
                        world.blocks(),
                        p,
                    ),
                forall|p: IVec3| #[trigger]
                    spec_in_rounded_box(*hitbox, p) && p.x == x && p.y < y ==> !spec_solid_at(
                        world.blocks(),
                        p,
                    ),
            decreases y1 - y,
        {
            let mut z = z0;
            while z < z1
                invariant
                    x0 <= x < x1,
                    y0 <= y < y1,
                    z0 <= z,
                    z <= z1 || z == z0,
                    x1 as int == spec_round_block(hitbox.max.x as int),
                    y0 as int == spec_round_block(hitbox.min.y as int),
                    y1 as int == spec_round_block(hitbox.max.y as int),
                    z0 as int == spec_round_block(hitbox.min.z as int),
                    z1 as int == spec_round_block(hitbox.max.z as int),
                    x0 as int == spec_round_block(hitbox.min.x as int),
                    forall|p: IVec3| #[trigger]
                        spec_in_rounded_box(*hitbox, p) && p.x < x ==> !spec_solid_at(
                            world.blocks(),
                            p,
                        ),
                    forall|p: IVec3| #[trigger]
                        spec_in_rounded_box(*hitbox, p) && p.x == x && p.y < y ==> !spec_solid_at(
                            world.blocks(),
                            p,
                        ),
                    forall|p: IVec3| #[trigger]
                        spec_in_rounded_box(*hitbox, p) && p.x == x && p.y == y && p.z < z
                            ==> !spec_solid_at(world.blocks(), p),
                decreases z1 - z,
            {
                let cell = IVec3::new(x, y, z);
                if let Some(block) = world.get_block_by_coordinates(&cell) {
                    if block.id.has_hitbox() {
                        proof {
                            assert(spec_in_rounded_box(*hitbox, cell));
                        }
                        return true;
                    }
                }
                z = z + 1;
            }
            y = y + 1;
        }
        x = x + 1;
    }
    proof {
        assert forall|p: IVec3| #[trigger] spec_in_rounded_box(*hitbox, p) implies !spec_solid_at(
            world.blocks(),
            p,
        ) by {}
    }
    false
}

/// The voxel a single point occupies (the degenerate box case).
pub fn check_collision_point<W: WorldMap>(world: &W, point: &FxVec3) -> (r: bool)
    requires
        spec_fx_vec_in_range(*point),
    ensures
        r == spec_solid_at(
            world.blocks(),
            IVec3 {
                x: spec_round_block(point.x as int) as i32,
                y: spec_round_block(point.y as int) as i32,
                z: spec_round_block(point.z as int) as i32,
            },
        ),
{
    let cell = IVec3::new(
        fx_round_block(point.x),
        fx_round_block(point.y),
        fx_round_block(point.z),
    );
    if let Some(block) = world.get_block_by_coordinates(&cell) {
        block.id.has_hitbox()
    } else {
        false
    }
}

} // verus!
