//! Fixed-point world coordinates.
//!
//! Continuous positions, velocities and bounding boxes are held in
//! milli-block units: an `i64` counts thousandths of a block edge. All
//! spatial arithmetic is exact integer arithmetic, so the simulation step
//! produces identical results wherever it runs.

use vstd::prelude::*;
use vstd::arithmetic::div_mod::{
    lemma_fundamental_div_mod, lemma_fundamental_div_mod_converse_div,
};
use crate::coords::IVec3;

verus! {

/// Number of fixed-point units per block edge.
pub const FX_SCALE: i64 = 1000;

/// A point or displacement in continuous world space, in milli-blocks.
#[derive(Clone, Copy, Debug, PartialEq, Eq, Structural)]
pub struct FxVec3 {
    pub x: i64,
    pub y: i64,
    pub z: i64,
}

impl FxVec3 {
    pub fn new(x: i64, y: i64, z: i64) -> (v: FxVec3)
        ensures
            v == (FxVec3 { x, y, z }),
    {
        FxVec3 { x, y, z }
    }
}

/// An axis-aligned bounding box in continuous world space.
#[derive(Clone, Copy, Debug, PartialEq, Eq, Structural)]
pub struct Aabb3Fx {
    pub min: FxVec3,
    pub max: FxVec3,
}

/// Floored division on `i64`, total for every dividend and positive divisor:
/// rounds toward negative infinity, matching `int` division by a positive
/// divisor.
pub fn floor_div(v: i64, d: i64) -> (q: i64)
    requires
        1 <= d,
    ensures
        q as int == (v as int) / (d as int),
{
    if v >= 0 {
        let q: u64 = (v as u64) / (d as u64);
        proof {
            lemma_fundamental_div_mod(v as int, d as int);
        }
        q as i64
    } else {
        let m: u128 = (-(v as i128)) as u128;
        let dd: u128 = d as u128;
        let q: u128 = (m + (dd - 1)) / dd;
        proof {
            let mi = m as int;
            let di = d as int;
            let qi = q as int;
            lemma_fundamental_div_mod(mi + (di - 1), di);
            let r = (mi + (di - 1)) % di;
            assert(v as int == (-qi) * di + (di - 1 - r)) by (nonlinear_arith)
                requires
                    mi + (di - 1) == di * qi + r,
                    v as int == -mi,
            ;
            // v == d * (-q) + (d - 1 - r), with d - 1 - r in [0, d)
            lemma_fundamental_div_mod_converse_div(v as int, di, -qi, di - 1 - r);
            assert(qi <= mi) by (nonlinear_arith)
                requires
                    1 <= di,
                    1 <= mi,
                    di * qi == mi + di - 1 - r,
                    0 <= r < di,
            ;
        }
        (-(q as i128)) as i64
    }
}

/// The block (voxel) coordinate containing fixed-point coordinate `v`.
pub open spec fn spec_block_of_fx(v: int) -> int {
    v / (FX_SCALE as int)
}

/// The block coordinate nearest to fixed-point coordinate `v` (half-up
/// rounding, as used by the conservative collision test).
pub open spec fn spec_round_block(v: int) -> int {
    (v + 500) / (FX_SCALE as int)
}

/// Bound on coordinates far beyond any playable world, used only so that
/// block indices derived from fixed-point coordinates fit in `i32`.
pub const FX_COORD_LIMIT: i64 = 2_000_000_000_000;

/// Floors a fixed-point coordinate to the block coordinate containing it.
pub fn fx_to_block(v: i64) -> (b: i32)
    requires
        -FX_COORD_LIMIT <= v <= FX_COORD_LIMIT,
    ensures
        b as int == spec_block_of_fx(v as int),
{
    proof {
        lemma_fundamental_div_mod(v as int, FX_SCALE as int);
    }
    floor_div(v, FX_SCALE) as i32
}

/// Rounds a fixed-point coordinate to the nearest block coordinate.
pub fn fx_round_block(v: i64) -> (b: i32)
    requires
        -FX_COORD_LIMIT <= v <= FX_COORD_LIMIT,
    ensures
        b as int == spec_round_block(v as int),
{
    proof {
        lemma_fundamental_div_mod(v as int + 500, FX_SCALE as int);
    }
    floor_div(v + 500, FX_SCALE) as i32
}

/// The global block position containing a continuous world position.
pub fn fx_to_block_pos(v: &FxVec3) -> (b: IVec3)
    requires
        -FX_COORD_LIMIT <= v.x <= FX_COORD_LIMIT,
        -FX_COORD_LIMIT <= v.y <= FX_COORD_LIMIT,
        -FX_COORD_LIMIT <= v.z <= FX_COORD_LIMIT,
    ensures
        b.x as int == spec_block_of_fx(v.x as int),
        b.y as int == spec_block_of_fx(v.y as int),
        b.z as int == spec_block_of_fx(v.z as int),
{
    IVec3::new(fx_to_block(v.x), fx_to_block(v.y), fx_to_block(v.z))
}

/// The chunk position containing a continuous world position.
pub fn world_position_to_chunk_position(v: &FxVec3) -> (c: IVec3)
    requires
        -FX_COORD_LIMIT <= v.x <= FX_COORD_LIMIT,
        -FX_COORD_LIMIT <= v.y <= FX_COORD_LIMIT,
        -FX_COORD_LIMIT <= v.z <= FX_COORD_LIMIT,
    ensures
        c.x as int == crate::coords::spec_chunk_coord(spec_block_of_fx(v.x as int)),
        c.y as int == crate::coords::spec_chunk_coord(spec_block_of_fx(v.y as int)),
        c.z as int == crate::coords::spec_chunk_coord(spec_block_of_fx(v.z as int)),
{
    let b = fx_to_block_pos(v);
    crate::coords::global_block_to_chunk_pos(&b)
}

/// Integer square root by bisection: the greatest `r` with `r * r <= n`.
pub fn isqrt(n: u64) -> (r: u64)
    ensures
        (r as int) * (r as int) <= n as int,
        ((r as int) + 1) * ((r as int) + 1) > n as int,
{
    if n == 0 {
        proof {
            assert((0 as int) * (0 as int) <= 0 && (1 as int) * (1 as int) > 0) by (nonlinear_arith);
        }
        return 0;
    }
    let mut lo: u64 = 0;
    let mut hi: u64 = 4_294_967_296;
    proof {
        assert((4_294_967_296 as int) * (4_294_967_296 as int) > u64::MAX as int) by (nonlinear_arith);
    }
    while lo + 1 < hi
        invariant
            lo < hi <= 4_294_967_296,
            (lo as int) * (lo as int) <= n as int,
            (hi as int) * (hi as int) > n as int,
        decreases hi - lo,
    {
        let mid: u64 = lo + (hi - lo) / 2;
        proof {
            assert((mid as int) * (mid as int) == ((mid as u128) as int) * ((mid as u128) as int));
            assert((mid as u128) * (mid as u128) <= u128::MAX) by (nonlinear_arith)
                requires
                    mid <= 4_294_967_296u64,
            ;
        }
        if (mid as u128) * (mid as u128) <= n as u128 {
            lo = mid;
        } else {
            hi = mid;
        }
    }
    proof {
        assert(((lo as int) + 1) * ((lo as int) + 1) > n as int);
    }
    lo
}

} // verus!