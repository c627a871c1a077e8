//! Coordinate algebra: pure, total functions mapping a global block position
//! to a (chunk coordinate, local-in-chunk coordinate) pair and back.
//!
//! Chunking uses floored division so that it is seamless across the origin:
//! for every global coordinate the local coordinate lies in `[0, CHUNK_SIZE)`.

use vstd::prelude::*;
use vstd::arithmetic::div_mod::{
    lemma_fundamental_div_mod, lemma_fundamental_div_mod_converse_div,
};
use crate::CHUNK_SIZE;

verus! {

/// A three-component integer vector: a global block position, a chunk
/// coordinate, or a local position within a chunk.
#[derive(Clone, Copy, Debug, PartialEq, Eq, Structural)]
pub struct IVec3 {
    pub x: i32,
    pub y: i32,
    pub z: i32,
}

impl IVec3 {
    pub fn new(x: i32, y: i32, z: i32) -> (v: IVec3)
        ensures
            v == (IVec3 { x, y, z }),
    {
        IVec3 { x, y, z }
    }
}

/// Chunk coordinate owning global coordinate `x`: floored division by the
/// chunk side length (the mathematical `/` on `int` is Euclidean, which for a
/// positive divisor coincides with flooring).
pub open spec fn spec_chunk_coord(x: int) -> int {
    x / (CHUNK_SIZE as int)
}

/// Local coordinate of global coordinate `x` within its chunk; always in
/// `[0, CHUNK_SIZE)`.
pub open spec fn spec_local_coord(x: int) -> int {
    x % (CHUNK_SIZE as int)
}

/// Chunk position owning a global block position, per axis.
pub open spec fn spec_chunk_pos(p: IVec3) -> IVec3 {
    IVec3 {
        x: spec_chunk_coord(p.x as int) as i32,
        y: spec_chunk_coord(p.y as int) as i32,
        z: spec_chunk_coord(p.z as int) as i32,
    }
}

/// Local position of a global block position within its chunk, per axis.
pub open spec fn spec_local_pos(p: IVec3) -> IVec3 {
    IVec3 {
        x: spec_local_coord(p.x as int) as i32,
        y: spec_local_coord(p.y as int) as i32,
        z: spec_local_coord(p.z as int) as i32,
    }
}

/// The chunk coordinate of an `i32` block coordinate fits in `i32`, and the
/// local coordinate lies in `[0, CHUNK_SIZE)`.
pub proof fn lemma_split_in_range(x: int)
    requires
        i32::MIN <= x <= i32::MAX,
    ensures
        i32::MIN <= spec_chunk_coord(x) <= i32::MAX,
        0 <= spec_local_coord(x) < CHUNK_SIZE as int,
        spec_chunk_coord(x) * (CHUNK_SIZE as int) + spec_local_coord(x) == x,
{
    lemma_fundamental_div_mod(x, CHUNK_SIZE as int);
}

/// Splitting a global block position into (chunk, local) loses nothing: two
/// positions with the same chunk position and the same local position are the
/// same position.
pub proof fn lemma_split_injective(p: IVec3, q: IVec3)
    requires
        spec_chunk_pos(p) == spec_chunk_pos(q),
        spec_local_pos(p) == spec_local_pos(q),
    ensures
        p == q,
{
    lemma_split_in_range(p.x as int);
    lemma_split_in_range(p.y as int);
    lemma_split_in_range(p.z as int);
    lemma_split_in_range(q.x as int);
    lemma_split_in_range(q.y as int);
    lemma_split_in_range(q.z as int);
}

/// Coordinate round-trip law: splitting a global coordinate into a chunk
/// coordinate and a local coordinate and recombining them restores the
/// original coordinate, and the local coordinate always lies in
/// `[0, CHUNK_SIZE)` — for every integer, negatives included.
pub proof fn lemma_coordinate_round_trip(x: int)
    ensures
        spec_chunk_coord(x) * (CHUNK_SIZE as int) + spec_local_coord(x) == x,
        0 <= spec_local_coord(x) < (CHUNK_SIZE as int),
{
    lemma_fundamental_div_mod(x, CHUNK_SIZE as int);
}

/// Maps a global block coordinate to the coordinate of the chunk that owns
/// it, flooring toward negative infinity (not truncating toward zero).
pub fn block_to_chunk_coord(x: i32) -> (c: i32)
    ensures
        c as int == spec_chunk_coord(x as int),
{
    if x >= 0 {
        let q: u32 = (x as u32) / 16;
        proof {
            lemma_fundamental_div_mod(x as int, 16);
        }
        q as i32
    } else {
        let m: u64 = (-(x as i64)) as u64;
        let q: u64 = (m + 15) / 16;
        proof {
            lemma_fundamental_div_mod(m as int + 15, 16);
            let r = (m as int + 15) % 16;
            // x == 16 * (-q) + (15 - r), with 15 - r in [0, 16)
            lemma_fundamental_div_mod_converse_div(x as int, 16, -(q as int), 15 - r);
        }
        (-(q as i64)) as i32
    }
}

/// Chunk coordinate of a global block position.
pub fn global_block_to_chunk_pos(global_block_pos: &IVec3) -> (c: IVec3)
    ensures
        c.x as int == spec_chunk_coord(global_block_pos.x as int),
        c.y as int == spec_chunk_coord(global_block_pos.y as int),
        c.z as int == spec_chunk_coord(global_block_pos.z as int),
        c == spec_chunk_pos(*global_block_pos),
{
    proof {
        lemma_split_in_range(global_block_pos.x as int);
        lemma_split_in_range(global_block_pos.y as int);
        lemma_split_in_range(global_block_pos.z as int);
    }
    IVec3::new(
        block_to_chunk_coord(global_block_pos.x),
        block_to_chunk_coord(global_block_pos.y),
        block_to_chunk_coord(global_block_pos.z),
    )
}

/// Local coordinate within the owning chunk, always in `[0, CHUNK_SIZE)`.
fn local_coord(x: i32) -> (l: i32)
    ensures
        l as int == spec_local_coord(x as int),
        0 <= l < CHUNK_SIZE,
{
    let c = block_to_chunk_coord(x);
    proof {
        lemma_fundamental_div_mod(x as int, 16);
    }
    x - c * 16
}

/// Local position of a global block position within its chunk.
pub fn to_local_pos(global_block_pos: &IVec3) -> (l: IVec3)
    ensures
        l.x as int == spec_local_coord(global_block_pos.x as int),
        l.y as int == spec_local_coord(global_block_pos.y as int),
        l.z as int == spec_local_coord(global_block_pos.z as int),
        0 <= l.x < CHUNK_SIZE && 0 <= l.y < CHUNK_SIZE && 0 <= l.z < CHUNK_SIZE,
        l == spec_local_pos(*global_block_pos),
{
    proof {
        lemma_split_in_range(global_block_pos.x as int);
        lemma_split_in_range(global_block_pos.y as int);
        lemma_split_in_range(global_block_pos.z as int);
    }
    IVec3::new(
        local_coord(global_block_pos.x),
        local_coord(global_block_pos.y),
        local_coord(global_block_pos.z),
    )
}

/// Recombines a chunk coordinate and a local position into the global block
/// position. Total but for the machine limit that the result fit in `i32`.
pub fn to_global_pos(chunk_pos: &IVec3, local_block_pos: &IVec3) -> (g: IVec3)
    requires
        i32::MIN <= chunk_pos.x * CHUNK_SIZE + local_block_pos.x <= i32::MAX,
        i32::MIN <= chunk_pos.y * CHUNK_SIZE + local_block_pos.y <= i32::MAX,
        i32::MIN <= chunk_pos.z * CHUNK_SIZE + local_block_pos.z <= i32::MAX,
    ensures
        g.x as int == chunk_pos.x * CHUNK_SIZE + local_block_pos.x,
        g.y as int == chunk_pos.y * CHUNK_SIZE + local_block_pos.y,
        g.z as int == chunk_pos.z * CHUNK_SIZE + local_block_pos.z,
{
    let gx = ((chunk_pos.x as i64) * 16 + local_block_pos.x as i64) as i32;
    let gy = ((chunk_pos.y as i64) * 16 + local_block_pos.y as i64) as i32;
    let gz = ((chunk_pos.z as i64) * 16 + local_block_pos.z as i64) as i32;
    IVec3::new(gx, gy, gz)
}

/// Whether `chunk_pos` lies within the box of side `2 * radius + 1` centered
/// on `player_pos`, on the horizontal axes (a Chebyshev box test on x and z;
/// the vertical axis is not filtered).
pub open spec fn spec_chunk_in_radius(player_pos: IVec3, chunk_pos: IVec3, radius: int) -> bool {
    -radius <= player_pos.x - chunk_pos.x <= radius && -radius <= player_pos.z - chunk_pos.z
        <= radius
}

/// Chebyshev box test used by the replication radius filter.
pub fn chunk_in_radius(player_pos: &IVec3, chunk_pos: &IVec3, radius: i32) -> (r: bool)
    ensures
        r == spec_chunk_in_radius(*player_pos, *chunk_pos, radius as int),
{
    let dx: i64 = player_pos.x as i64 - chunk_pos.x as i64;
    let dz: i64 = player_pos.z as i64 - chunk_pos.z as i64;
    let r64 = radius as i64;
    -r64 <= dx && dx <= r64 && -r64 <= dz && dz <= r64
}

} // verus!
