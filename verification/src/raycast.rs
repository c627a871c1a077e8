//! Voxel raycasting (Amanatides–Woo grid traversal) over exact fixed-point
//! arithmetic. Boundary-crossing times are kept as exact fractions
//! (numerator over the direction component's magnitude), so every comparison
//! the traversal makes is exact integer arithmetic and the whole query is a
//! pure function of the world, the origin and the direction — the
//! executable functions are proved equal to their specification mirror.

use vstd::prelude::*;
use crate::blocks::{spec_ray_hitbox, BlockData, BlockHitbox};
use crate::coords::IVec3;
use crate::fixed::{fx_to_block, spec_block_of_fx, Aabb3Fx, FxVec3, FX_COORD_LIMIT};
use crate::world_map::WorldMap;

verus! {

/// Which face of a block a ray entered through.
#[derive(Clone, Copy, Debug, PartialEq, Eq, Structural)]
pub enum FaceDirection {
    PlusX,
    MinusX,
    PlusY,
    MinusY,
    PlusZ,
    MinusZ,
}

/// The unit offset a face points toward.
pub trait FaceDirectionExt {
    fn to_ivec3(&self) -> IVec3;
}

impl FaceDirectionExt for FaceDirection {
    /// The outward unit vector of this face.
    fn to_ivec3(&self) -> (v: IVec3)
        ensures
            v == spec_face_offset(*self),
    {
        match self {
            FaceDirection::PlusX => IVec3 { x: 1, y: 0, z: 0 },
            FaceDirection::MinusX => IVec3 { x: -1, y: 0, z: 0 },
            FaceDirection::PlusY => IVec3 { x: 0, y: 1, z: 0 },
            FaceDirection::MinusY => IVec3 { x: 0, y: -1, z: 0 },
            FaceDirection::PlusZ => IVec3 { x: 0, y: 0, z: 1 },
            FaceDirection::MinusZ => IVec3 { x: 0, y: 0, z: -1 },
        }
    }
}

pub open spec fn spec_face_offset(f: FaceDirection) -> IVec3 {
    match f {
        FaceDirection::PlusX => IVec3 { x: 1i32, y: 0i32, z: 0i32 },
        FaceDirection::MinusX => IVec3 { x: -1i32, y: 0i32, z: 0i32 },
        FaceDirection::PlusY => IVec3 { x: 0i32, y: 1i32, z: 0i32 },
        FaceDirection::MinusY => IVec3 { x: 0i32, y: -1i32, z: 0i32 },
        FaceDirection::PlusZ => IVec3 { x: 0i32, y: 0i32, z: 1i32 },
        FaceDirection::MinusZ => IVec3 { x: 0i32, y: 0i32, z: -1i32 },
    }
}

/// What a raycast found: the block hit, its grid position, the face entered,
/// and the hit bounding box in world space.
#[derive(Clone, Copy, Debug, PartialEq, Eq, Structural)]
pub struct RaycastResponse {
    pub block: BlockData,
    pub position: IVec3,
    pub face: FaceDirection,
    pub bbox: Aabb3Fx,
}

/// Whose eye a targeting ray starts from.
#[derive(Clone, Copy, Debug, PartialEq, Eq, Structural)]
pub enum ViewMode {
    FirstPerson,
    ThirdPerson,
}

/// Largest magnitude accepted for a direction component; a direction of
/// roughly unit length is a vector of about a thousand milli-units.
pub const RAY_DIR_LIMIT: i64 = 4000;

/// Traversal range, in ray-parameter units (blocks for a unit direction).
pub const RAY_RANGE: u64 = 20;

/// Hard cap on traversal steps; the range test fires well before it for any
/// admissible direction.
pub const RAY_FUEL: u32 = 256;

/// A direction the traversal accepts: bounded components, not all zero.
pub open spec fn spec_dir_ok(d: FxVec3) -> bool {
    &&& -RAY_DIR_LIMIT <= d.x <= RAY_DIR_LIMIT
    &&& -RAY_DIR_LIMIT <= d.y <= RAY_DIR_LIMIT
    &&& -RAY_DIR_LIMIT <= d.z <= RAY_DIR_LIMIT
    &&& !(d.x == 0 && d.y == 0 && d.z == 0)
}

/// An origin the traversal accepts.
pub open spec fn spec_origin_ok(o: FxVec3) -> bool {
    &&& -FX_COORD_LIMIT <= o.x <= FX_COORD_LIMIT
    &&& -FX_COORD_LIMIT <= o.y <= FX_COORD_LIMIT
    &&& -FX_COORD_LIMIT <= o.z <= FX_COORD_LIMIT
}

/// Sign of the step the ray takes along one axis (a zero component steps
/// positive, but its crossing time is infinite, so it is never chosen).
pub open spec fn spec_step(d: int) -> int {
    if d >= 0 {
        1
    } else {
        -1
    }
}

/// Denominator of an axis's crossing-time fraction.
pub open spec fn spec_den(d: int) -> int {
    if d == 0 {
        1
    } else if d > 0 {
        d
    } else {
        -d
    }
}

/// Common denominator of all three axes' crossing times.
pub open spec fn spec_common_den(d: FxVec3) -> int {
    spec_den(d.x as int) * spec_den(d.y as int) * spec_den(d.z as int)
}

/// `n_i/den_i < n_j/den_j`, treating an inactive axis as infinite.
pub open spec fn spec_t_lt(
    ni: int,
    deni: int,
    acti: bool,
    nj: int,
    denj: int,
    actj: bool,
) -> bool {
    acti && (!actj || ni * denj < nj * deni)
}

/// Mutable traversal state: the voxel being visited, the axis of the last
/// step, the per-axis crossing-time numerators and the accumulated distance
/// numerator (over the common denominator).
#[derive(Clone, Copy, Debug, PartialEq, Eq, Structural)]
pub struct RayState {
    pub voxel: IVec3,
    pub axis: u8,
    pub nx: u64,
    pub ny: u64,
    pub nz: u64,
    pub dist_num: u64,
}

/// The state the traversal starts from: the voxel containing the origin,
/// with each numerator the distance to that axis's first grid boundary.
pub open spec fn spec_initial_state(o: FxVec3, d: FxVec3) -> RayState {
    let vx = spec_block_of_fx(o.x as int);
    let vy = spec_block_of_fx(o.y as int);
    let vz = spec_block_of_fx(o.z as int);
    RayState {
        voxel: IVec3 { x: vx as i32, y: vy as i32, z: vz as i32 },
        axis: 0,
        nx: spec_initial_num(o.x as int, d.x as int) as u64,
        ny: spec_initial_num(o.y as int, d.y as int) as u64,
        nz: spec_initial_num(o.z as int, d.z as int) as u64,
        dist_num: 0,
    }
}

/// Distance (in milli-blocks along the axis) from the origin to the first
/// boundary crossed; in `[0, 1000]`.
pub open spec fn spec_initial_num(o: int, d: int) -> int {
    if d >= 0 {
        (spec_block_of_fx(o) + 1) * 1000 - o
    } else {
        o - spec_block_of_fx(o) * 1000
    }
}

/// Face entered when the last step was along `axis` with sign `step`.
pub open spec fn spec_face(axis: int, step: int) -> FaceDirection {
    if axis == 0 {
        if step == -1 {
            FaceDirection::PlusX
        } else {
            FaceDirection::MinusX
        }
    } else if axis == 1 {
        if step == -1 {
            FaceDirection::PlusY
        } else {
            FaceDirection::MinusY
        }
    } else {
        if step == -1 {
            FaceDirection::PlusZ
        } else {
            FaceDirection::MinusZ
        }
    }
}

/// Step sign of the axis recorded in a state.
pub open spec fn spec_state_step(s: RayState, d: FxVec3) -> int {
    if s.axis == 0 {
        spec_step(d.x as int)
    } else if s.axis == 1 {
        spec_step(d.y as int)
    } else {
        spec_step(d.z as int)
    }
}

/// The axis the traversal steps next: the one whose crossing time is
/// smallest, ties resolved exactly as the comparison ladder resolves them.
pub open spec fn spec_choose_axis(s: RayState, d: FxVec3) -> int {
    let lt_xy = spec_t_lt(
        s.nx as int,
        spec_den(d.x as int),
        d.x != 0,
        s.ny as int,
        spec_den(d.y as int),
        d.y != 0,
    );
    let lt_xz = spec_t_lt(
        s.nx as int,
        spec_den(d.x as int),
        d.x != 0,
        s.nz as int,
        spec_den(d.z as int),
        d.z != 0,
    );
    let lt_yz = spec_t_lt(
        s.ny as int,
        spec_den(d.y as int),
        d.y != 0,
        s.nz as int,
        spec_den(d.z as int),
        d.z != 0,
    );
    if lt_xy {
        if lt_xz {
            0
        } else {
            2
        }
    } else if lt_yz {
        1
    } else {
        2
    }
}

/// One traversal step: accumulate the chosen axis's crossing time, push that
/// axis's next crossing one cell further, and move the voxel.
pub open spec fn spec_step_state(s: RayState, d: FxVec3) -> RayState {
    let axis = spec_choose_axis(s, d);
    let denx = spec_den(d.x as int);
    let deny = spec_den(d.y as int);
    let denz = spec_den(d.z as int);
    if axis == 0 {
        RayState {
            voxel: IVec3 {
                x: (s.voxel.x + spec_step(d.x as int)) as i32,
                y: s.voxel.y,
                z: s.voxel.z,
            },
            axis: 0,
            nx: (s.nx + 1000) as u64,
            ny: s.ny,
            nz: s.nz,
            dist_num: (s.dist_num + s.nx * (deny * denz)) as u64,
        }
    } else if axis == 1 {
        RayState {
            voxel: IVec3 {
                x: s.voxel.x,
                y: (s.voxel.y + spec_step(d.y as int)) as i32,
                z: s.voxel.z,
            },
            axis: 1,
            nx: s.nx,
            ny: (s.ny + 1000) as u64,
            nz: s.nz,
            dist_num: (s.dist_num + s.ny * (denx * denz)) as u64,
        }
    } else {
        RayState {
            voxel: IVec3 {
                x: s.voxel.x,
                y: s.voxel.y,
                z: (s.voxel.z + spec_step(d.z as int)) as i32,
            },
            axis: 2,
            nx: s.nx,
            ny: s.ny,
            nz: (s.nz + 1000) as u64,
            dist_num: (s.dist_num + s.nz * (denx * deny)) as u64,
        }
    }
}

/// The world-space box of one full voxel.
pub open spec fn spec_voxel_box(voxel: IVec3) -> Aabb3Fx {
    Aabb3Fx {
        min: FxVec3 {
            x: (voxel.x as int * 1000) as i64,
            y: (voxel.y as int * 1000) as i64,
            z: (voxel.z as int * 1000) as i64,
        },
        max: FxVec3 {
            x: (voxel.x as int * 1000 + 1000) as i64,
            y: (voxel.y as int * 1000 + 1000) as i64,
            z: (voxel.z as int * 1000 + 1000) as i64,
        },
    }
}

/// A block-local hitbox shifted to its voxel's place in the world.
pub open spec fn spec_translate_box(hb: Aabb3Fx, voxel: IVec3) -> Aabb3Fx {
    Aabb3Fx {
        min: FxVec3 {
            x: (voxel.x as int * 1000 + hb.min.x) as i64,
            y: (voxel.y as int * 1000 + hb.min.y) as i64,
            z: (voxel.z as int * 1000 + hb.min.z) as i64,
        },
        max: FxVec3 {
            x: (voxel.x as int * 1000 + hb.max.x) as i64,
            y: (voxel.y as int * 1000 + hb.max.y) as i64,
            z: (voxel.z as int * 1000 + hb.max.z) as i64,
        },
    }
}

/// The whole traversal as a function of the world and the ray: at each
/// visited voxel, a full-cube block is accepted outright, a sub-box block is
/// accepted when the exact slab test crosses it, a passable block is
/// stepped through; the walk ends when the accumulated distance leaves the
/// range or the step budget runs out.
pub open spec fn spec_ray_run(
    blocks: Map<IVec3, BlockData>,
    o: FxVec3,
    d: FxVec3,
    s: RayState,
    fuel: nat,
) -> Option<RaycastResponse>
    decreases fuel,
{
    if s.dist_num as int >= (RAY_RANGE as int) * spec_common_den(d) {
        None
    } else {
        let step_on: Option<RaycastResponse> = if fuel == 0 {
            None
        } else {
            spec_ray_run(blocks, o, d, spec_step_state(s, d), (fuel - 1) as nat)
        };
        if blocks.contains_key(s.voxel) {
            match spec_ray_hitbox(blocks[s.voxel].id) {
                BlockHitbox::FullBlock => Some(
                    RaycastResponse {
                        block: blocks[s.voxel],
                        position: s.voxel,
                        face: spec_face(s.axis as int, spec_state_step(s, d)),
                        bbox: spec_voxel_box(s.voxel),
                    },
                ),
                BlockHitbox::Aabb(hb) => {
                    let tb = spec_translate_box(hb, s.voxel);
                    if spec_slab_hit(tb, o, d) {
                        Some(
                            RaycastResponse {
                                block: blocks[s.voxel],
                                position: s.voxel,
                                face: spec_slab_face(tb, o, d),
                                bbox: tb,
                            },
                        )
                    } else {
                        step_on
                    }
                },
                BlockHitbox::Passable => step_on,
            }
        } else {
            step_on
        }
    }
}

/// What a raycast from `o` along `d` through `blocks` returns.
pub open spec fn spec_raycast(
    blocks: Map<IVec3, BlockData>,
    o: FxVec3,
    d: FxVec3,
) -> Option<RaycastResponse> {
    spec_ray_run(blocks, o, d, spec_initial_state(o, d), RAY_FUEL as nat)
}

/// Raycast determinism: on one world, any two raycasts with the same origin
/// and direction return the same response — block, position, face and box
/// alike — because each equals the one specification value.
pub proof fn lemma_raycast_deterministic(
    blocks: Map<IVec3, BlockData>,
    o: FxVec3,
    d: FxVec3,
    r1: Option<RaycastResponse>,
    r2: Option<RaycastResponse>,
)
    requires
        r1 == spec_raycast(blocks, o, d),
        r2 == spec_raycast(blocks, o, d),
    ensures
        r1 == r2,
{
}

// ---------------------------------------------------------------------------
// Exact ray-vs-AABB slab test, used for blocks with a sub-box hitbox.
// ---------------------------------------------------------------------------

/// Entry-time numerator of one slab axis (over `spec_den(d)`), for an active
/// axis.
pub open spec fn spec_slab_entry(o: int, d: int, lo: int, hi: int) -> int {
    if d > 0 {
        lo - o
    } else {
        o - hi
    }
}

/// Exit-time numerator of one slab axis (over `spec_den(d)`), for an active
/// axis.
pub open spec fn spec_slab_exit(o: int, d: int, lo: int, hi: int) -> int {
    if d > 0 {
        hi - o
    } else {
        o - lo
    }
}

/// `en_i/den_i <= ex_j/den_j` across two active axes.
pub open spec fn spec_frac_le(n1: int, d1: int, n2: int, d2: int) -> bool {
    n1 * d2 <= n2 * d1
}

/// Whether the ray hits the box: every active axis's entry time precedes
/// every active axis's exit time, no exit lies behind the origin, and on
/// every parallel (inactive) axis the origin lies within the slab.
pub open spec fn spec_slab_hit(b: Aabb3Fx, o: FxVec3, d: FxVec3) -> bool {
    let ax = d.x != 0;
    let ay = d.y != 0;
    let az = d.z != 0;
    let dx = spec_den(d.x as int);
    let dy = spec_den(d.y as int);
    let dz = spec_den(d.z as int);
    let enx = spec_slab_entry(o.x as int, d.x as int, b.min.x as int, b.max.x as int);
    let eny = spec_slab_entry(o.y as int, d.y as int, b.min.y as int, b.max.y as int);
    let enz = spec_slab_entry(o.z as int, d.z as int, b.min.z as int, b.max.z as int);
    let exx = spec_slab_exit(o.x as int, d.x as int, b.min.x as int, b.max.x as int);
    let exy = spec_slab_exit(o.y as int, d.y as int, b.min.y as int, b.max.y as int);
    let exz = spec_slab_exit(o.z as int, d.z as int, b.min.z as int, b.max.z as int);
    &&& (ax || (b.min.x <= o.x <= b.max.x))
    &&& (ay || (b.min.y <= o.y <= b.max.y))
    &&& (az || (b.min.z <= o.z <= b.max.z))
    &&& (!ax || spec_frac_le(enx, dx, exx, dx))
    &&& (!ax || !ay || (spec_frac_le(enx, dx, exy, dy) && spec_frac_le(eny, dy, exx, dx)))
    &&& (!ax || !az || (spec_frac_le(enx, dx, exz, dz) && spec_frac_le(enz, dz, exx, dx)))
    &&& (!ay || spec_frac_le(eny, dy, exy, dy))
    &&& (!ay || !az || (spec_frac_le(eny, dy, exz, dz) && spec_frac_le(enz, dz, exy, dy)))
    &&& (!az || spec_frac_le(enz, dz, exz, dz))
    &&& (!ax || exx >= 0)
    &&& (!ay || exy >= 0)
    &&& (!az || exz >= 0)
}

/// Face the ray enters a hit box through: the first active axis whose entry
/// time is latest, signed by the direction of travel.
pub open spec fn spec_slab_face(b: Aabb3Fx, o: FxVec3, d: FxVec3) -> FaceDirection {
    let ax = d.x != 0;
    let ay = d.y != 0;
    let az = d.z != 0;
    let dx = spec_den(d.x as int);
    let dy = spec_den(d.y as int);
    let dz = spec_den(d.z as int);
    let enx = spec_slab_entry(o.x as int, d.x as int, b.min.x as int, b.max.x as int);
    let eny = spec_slab_entry(o.y as int, d.y as int, b.min.y as int, b.max.y as int);
    let enz = spec_slab_entry(o.z as int, d.z as int, b.min.z as int, b.max.z as int);
    let x_ge_y = !ay || (ax && enx * dy >= eny * dx);
    let x_ge_z = !az || (ax && enx * dz >= enz * dx);
    let y_ge_z = !az || (ay && eny * dz >= enz * dy);
    if ax && x_ge_y && x_ge_z {
        if d.x > 0 {
            FaceDirection::MinusX
        } else {
            FaceDirection::PlusX
        }
    } else if ay && y_ge_z {
        if d.y > 0 {
            FaceDirection::MinusY
        } else {
            FaceDirection::PlusY
        }
    } else {
        if d.z > 0 {
            FaceDirection::MinusZ
        } else {
            FaceDirection::PlusZ
        }
    }
}

/// Box coordinates small enough for the slab test's exact arithmetic.
pub open spec fn spec_box_ok(b: Aabb3Fx) -> bool {
    &&& -3 * FX_COORD_LIMIT <= b.min.x <= 3 * FX_COORD_LIMIT
    &&& -3 * FX_COORD_LIMIT <= b.min.y <= 3 * FX_COORD_LIMIT
    &&& -3 * FX_COORD_LIMIT <= b.min.z <= 3 * FX_COORD_LIMIT
    &&& -3 * FX_COORD_LIMIT <= b.max.x <= 3 * FX_COORD_LIMIT
    &&& -3 * FX_COORD_LIMIT <= b.max.y <= 3 * FX_COORD_LIMIT
    &&& -3 * FX_COORD_LIMIT <= b.max.z <= 3 * FX_COORD_LIMIT
}

/// Exact ray-vs-AABB intersection (slab method): `Some` face when the ray
/// really crosses the box, `None` otherwise.
pub fn aabb_ray_hit(aabb: &Aabb3Fx, origin: &FxVec3, dir: &FxVec3) -> (r: Option<FaceDirection>)
    requires
        spec_origin_ok(*origin),
        spec_dir_ok(*dir),
        spec_box_ok(*aabb),
    ensures
        r == if spec_slab_hit(*aabb, *origin, *dir) {
            Some(spec_slab_face(*aabb, *origin, *dir))
        } else {
            None::<FaceDirection>
        },
{
    let ax = dir.x != 0;
    let ay = dir.y != 0;
    let az = dir.z != 0;
    if !ax && (origin.x < aabb.min.x || origin.x > aabb.max.x) {
        return None;
    }
    if !ay && (origin.y < aabb.min.y || origin.y > aabb.max.y) {
        return None;
    }
    if !az && (origin.z < aabb.min.z || origin.z > aabb.max.z) {
        return None;
    }
    let dx: i64 = if dir.x == 0 { 1 } else if dir.x > 0 { dir.x } else { -dir.x };
    let dy: i64 = if dir.y == 0 { 1 } else if dir.y > 0 { dir.y } else { -dir.y };
    let dz: i64 = if dir.z == 0 { 1 } else if dir.z > 0 { dir.z } else { -dir.z };
    let enx: i64 = if dir.x > 0 { aabb.min.x - origin.x } else { origin.x - aabb.max.x };
    let eny: i64 = if dir.y > 0 { aabb.min.y - origin.y } else { origin.y - aabb.max.y };
    let enz: i64 = if dir.z > 0 { aabb.min.z - origin.z } else { origin.z - aabb.max.z };
    let exx: i64 = if dir.x > 0 { aabb.max.x - origin.x } else { origin.x - aabb.min.x };
    let exy: i64 = if dir.y > 0 { aabb.max.y - origin.y } else { origin.y - aabb.min.y };
    let exz: i64 = if dir.z > 0 { aabb.max.z - origin.z } else { origin.z - aabb.min.z };
    if ax && !frac_le(enx, dx, exx, dx) {
        return None;
    }
    if ax && ay && !(frac_le(enx, dx, exy, dy) && frac_le(eny, dy, exx, dx)) {
        return None;
    }
    if ax && az && !(frac_le(enx, dx, exz, dz) && frac_le(enz, dz, exx, dx)) {
        return None;
    }
    if ay && !frac_le(eny, dy, exy, dy) {
        return None;
    }
    if ay && az && !(frac_le(eny, dy, exz, dz) && frac_le(enz, dz, exy, dy)) {
        return None;
    }
    if az && !frac_le(enz, dz, exz, dz) {
        return None;
    }
    if ax && exx < 0 {
        return None;
    }
    if ay && exy < 0 {
        return None;
    }
    if az && exz < 0 {
        return None;
    }
    let x_ge_y = !ay || (ax && frac_ge(enx, dx, eny, dy));
    let x_ge_z = !az || (ax && frac_ge(enx, dx, enz, dz));
    let y_ge_z = !az || (ay && frac_ge(eny, dy, enz, dz));
    if ax && x_ge_y && x_ge_z {
        Some(if dir.x > 0 { FaceDirection::MinusX } else { FaceDirection::PlusX })
    } else if ay && y_ge_z {
        Some(if dir.y > 0 { FaceDirection::MinusY } else { FaceDirection::PlusY })
    } else {
        Some(if dir.z > 0 { FaceDirection::MinusZ } else { FaceDirection::PlusZ })
    }
}

/// The product of two `i64` values always fits in `i128`.
proof fn lemma_i64_mul_fits(a: int, b: int)
    requires
        i64::MIN <= a <= i64::MAX,
        i64::MIN <= b <= i64::MAX,
    ensures
        i128::MIN <= a * b <= i128::MAX,
{
    assert(i128::MIN <= a * b <= i128::MAX) by (nonlinear_arith)
        requires
            -0x8000_0000_0000_0000 <= a <= 0x7fff_ffff_ffff_ffff,
            -0x8000_0000_0000_0000 <= b <= 0x7fff_ffff_ffff_ffff,
    ;
}

/// `n1/d1 <= n2/d2` by cross-multiplication in 128-bit arithmetic.
fn frac_le(n1: i64, d1: i64, n2: i64, d2: i64) -> (r: bool)
    requires
        d1 > 0,
        d2 > 0,
    ensures
        r == spec_frac_le(n1 as int, d1 as int, n2 as int, d2 as int),
{
    proof {
        lemma_i64_mul_fits(n1 as int, d2 as int);
        lemma_i64_mul_fits(n2 as int, d1 as int);
    }
    (n1 as i128) * (d2 as i128) <= (n2 as i128) * (d1 as i128)
}

/// `n1/d1 >= n2/d2` by cross-multiplication in 128-bit arithmetic.
fn frac_ge(n1: i64, d1: i64, n2: i64, d2: i64) -> (r: bool)
    requires
        d1 > 0,
        d2 > 0,
    ensures
        r == (n1 * d2 >= n2 * d1),
{
    proof {
        lemma_i64_mul_fits(n1 as int, d2 as int);
        lemma_i64_mul_fits(n2 as int, d1 as int);
    }
    (n1 as i128) * (d2 as i128) >= (n2 as i128) * (d1 as i128)
}

// ---------------------------------------------------------------------------
// The executable traversal.
// ---------------------------------------------------------------------------

/// Crossing-time comparison between two axes, inactive counting as infinite.
fn t_lt(ni: u64, deni: u64, acti: bool, nj: u64, denj: u64, actj: bool) -> (r: bool)
    requires
        deni >= 1,
        denj >= 1,
    ensures
        r == spec_t_lt(ni as int, deni as int, acti, nj as int, denj as int, actj),
{
    proof {
        lemma_u64_mul_fits(ni as int, denj as int);
        lemma_u64_mul_fits(nj as int, deni as int);
    }
    acti && (!actj || (ni as u128) * (denj as u128) < (nj as u128) * (deni as u128))
}

/// The product of two `u64` values always fits in `u128`.
proof fn lemma_u64_mul_fits(a: int, b: int)
    requires
        0 <= a <= u64::MAX,
        0 <= b <= u64::MAX,
    ensures
        0 <= a * b <= u128::MAX,
{
    assert(0 <= a * b <= u128::MAX) by (nonlinear_arith)
        requires
            0 <= a <= 0xffff_ffff_ffff_ffff,
            0 <= b <= 0xffff_ffff_ffff_ffff,
    ;
}

/// The face entered by a step of sign `stp` along `axis`.
fn face_from(axis: u8, stp: i32) -> (f: FaceDirection)
    ensures
        f == spec_face(axis as int, stp as int),
{
    if axis == 0 {
        if stp == -1 {
            FaceDirection::PlusX
        } else {
            FaceDirection::MinusX
        }
    } else if axis == 1 {
        if stp == -1 {
            FaceDirection::PlusY
        } else {
            FaceDirection::MinusY
        }
    } else {
        if stp == -1 {
            FaceDirection::PlusZ
        } else {
            FaceDirection::MinusZ
        }
    }
}

/// World-space box of one voxel.
fn voxel_box(voxel: &IVec3) -> (r: Aabb3Fx)
    ensures
        r == spec_voxel_box(*voxel),
{
    let x = voxel.x as i64 * 1000;
    let y = voxel.y as i64 * 1000;
    let z = voxel.z as i64 * 1000;
    Aabb3Fx {
        min: FxVec3 { x, y, z },
        max: FxVec3 { x: x + 1000, y: y + 1000, z: z + 1000 },
    }
}

/// Shift a block-local hitbox to its voxel's place in the world.
fn translate_box(hb: &Aabb3Fx, voxel: &IVec3) -> (r: Aabb3Fx)
    requires
        -100_000 <= hb.min.x <= 100_000,
        -100_000 <= hb.min.y <= 100_000,
        -100_000 <= hb.min.z <= 100_000,
        -100_000 <= hb.max.x <= 100_000,
        -100_000 <= hb.max.y <= 100_000,
        -100_000 <= hb.max.z <= 100_000,
    ensures
        r == spec_translate_box(*hb, *voxel),
        spec_box_ok(r),
{
    let x = voxel.x as i64 * 1000;
    let y = voxel.y as i64 * 1000;
    let z = voxel.z as i64 * 1000;
    Aabb3Fx {
        min: FxVec3 { x: x + hb.min.x, y: y + hb.min.y, z: z + hb.min.z },
        max: FxVec3 { x: x + hb.max.x, y: y + hb.max.y, z: z + hb.max.z },
    }
}

/// Amanatides–Woo grid traversal: walks the ray voxel by voxel and resolves
/// the first block whose hitbox the ray actually strikes, exactly as
/// [`spec_raycast`] describes.
pub fn raycast_from_source_position_and_direction<W: WorldMap>(
    world_map: &W,
    origin: FxVec3,
    direction: FxVec3,
) -> (r: Option<RaycastResponse>)
    requires
        spec_origin_ok(origin),
        spec_dir_ok(direction),
    ensures
        r == spec_raycast(world_map.blocks(), origin, direction),
{
    let step_x: i32 = if direction.x >= 0 { 1 } else { -1 };
    let step_y: i32 = if direction.y >= 0 { 1 } else { -1 };
    let step_z: i32 = if direction.z >= 0 { 1 } else { -1 };
    let act_x = direction.x != 0;
    let act_y = direction.y != 0;
    let act_z = direction.z != 0;
    let den_x: u64 = if direction.x == 0 {
        1
    } else if direction.x > 0 {
        direction.x as u64
    } else {
        (-direction.x) as u64
    };
    let den_y: u64 = if direction.y == 0 {
        1
    } else if direction.y > 0 {
        direction.y as u64
    } else {
        (-direction.y) as u64
    };
    let den_z: u64 = if direction.z == 0 {
        1
    } else if direction.z > 0 {
        direction.z as u64
    } else {
        (-direction.z) as u64
    };
    proof {
        assert(den_x as int == spec_den(direction.x as int));
        assert(den_y as int == spec_den(direction.y as int));
        assert(den_z as int == spec_den(direction.z as int));
    }
    proof {
        assert((den_y as int) * (den_z as int) <= 16_000_000 && (den_x as int) * (den_z as int)
            <= 16_000_000 && (den_x as int) * (den_y as int) <= 16_000_000) by (nonlinear_arith)
            requires
                1 <= den_x <= 4000,
                1 <= den_y <= 4000,
                1 <= den_z <= 4000,
        ;
    }
    // cross-denominators: weight of one axis's time over the common one
    let cross_x: u64 = den_y * den_z;
    let cross_y: u64 = den_x * den_z;
    let cross_z: u64 = den_x * den_y;
    proof {
        assert((den_x as int) * (cross_x as int) <= 64_000_000_000 && (den_x as int) * (
        cross_x as int) == ((den_x as int) * (den_y as int)) * (den_z as int) && (den_x as int) * (
        cross_x as int) == (den_y as int) * (cross_y as int) && (den_x as int) * (cross_x as int)
            == (den_z as int) * (cross_z as int)) by (nonlinear_arith)
            requires
                1 <= den_x <= 4000,
                1 <= den_y <= 4000,
                1 <= den_z <= 4000,
                cross_x == (den_y as int) * (den_z as int),
                cross_y == (den_x as int) * (den_z as int),
                cross_z == (den_x as int) * (den_y as int),
        ;
    }
    let cd: u64 = den_x * cross_x;
    let range_mul: u64 = RAY_RANGE * cd;
    let vx = fx_to_block(origin.x);
    let vy = fx_to_block(origin.y);
    let vz = fx_to_block(origin.z);
    proof {
        vstd::arithmetic::div_mod::lemma_fundamental_div_mod(origin.x as int, 1000);
        vstd::arithmetic::div_mod::lemma_fundamental_div_mod(origin.y as int, 1000);
        vstd::arithmetic::div_mod::lemma_fundamental_div_mod(origin.z as int, 1000);
    }
    let nx0: i64 = if direction.x >= 0 {
        (vx as i64 + 1) * 1000 - origin.x
    } else {
        origin.x - (vx as i64) * 1000
    };
    let ny0: i64 = if direction.y >= 0 {
        (vy as i64 + 1) * 1000 - origin.y
    } else {
        origin.y - (vy as i64) * 1000
    };
    let nz0: i64 = if direction.z >= 0 {
        (vz as i64 + 1) * 1000 - origin.z
    } else {
        origin.z - (vz as i64) * 1000
    };
    let mut state = RayState {
        voxel: IVec3 { x: vx, y: vy, z: vz },
        axis: 0,
        nx: nx0 as u64,
        ny: ny0 as u64,
        nz: nz0 as u64,
        dist_num: 0,
    };
    proof {
        assert(state == spec_initial_state(origin, direction));
    }
    let ghost target = spec_ray_run(
        world_map.blocks(),
        origin,
        direction,
        spec_initial_state(origin, direction),
        RAY_FUEL as nat,
    );
    let mut i: u32 = 0;
    while i <= RAY_FUEL
        invariant
            spec_origin_ok(origin),
            spec_dir_ok(direction),
            act_x == (direction.x != 0),
            act_y == (direction.y != 0),
            act_z == (direction.z != 0),
            step_x as int == spec_step(direction.x as int),
            step_y as int == spec_step(direction.y as int),
            step_z as int == spec_step(direction.z as int),
            den_x as int == spec_den(direction.x as int),
            den_y as int == spec_den(direction.y as int),
            den_z as int == spec_den(direction.z as int),
            1 <= den_x <= 4000,
            1 <= den_y <= 4000,
            1 <= den_z <= 4000,
            cross_x == den_y * den_z,
            cross_y == den_x * den_z,
            cross_z == den_x * den_y,
            cross_x <= 16_000_000,
            cross_y <= 16_000_000,
            cross_z <= 16_000_000,
            cd as int == spec_common_den(direction),
            cd == den_x * cross_x,
            cd == den_y * cross_y,
            cd == den_z * cross_z,
            cd <= 64_000_000_000,
            range_mul == RAY_RANGE * cd,
            i <= RAY_FUEL,
            state.axis <= 2,
            state.nx <= 1000 + 1000 * (i as u64),
            state.ny <= 1000 + 1000 * (i as u64),
            state.nz <= 1000 + 1000 * (i as u64),
            state.dist_num <= range_mul + 1_000_000 * 16_000_000 * (i as u64),
            -2_000_000_001 - (i as int) <= state.voxel.x as int <= 2_000_000_001 + (i as int),
            -2_000_000_001 - (i as int) <= state.voxel.y as int <= 2_000_000_001 + (i as int),
            -2_000_000_001 - (i as int) <= state.voxel.z as int <= 2_000_000_001 + (i as int),
            spec_ray_run(
                world_map.blocks(),
                origin,
                direction,
                state,
                (RAY_FUEL - i) as nat,
            ) == target,
            target == spec_raycast(world_map.blocks(), origin, direction),
        decreases RAY_FUEL + 1 - i,
    {
        let ghost fuel_now = (RAY_FUEL - i) as nat;
        if state.dist_num >= range_mul {
            return None;
        }
        let voxel = state.voxel;
        match world_map.get_block_by_coordinates(&voxel) {
            Some(block) => {
                let b = *block;
                match b.id.get_ray_hitbox() {
                    BlockHitbox::FullBlock => {
                        let stp = if state.axis == 0 {
                            step_x
                        } else if state.axis == 1 {
                            step_y
                        } else {
                            step_z
                        };
                        let face = face_from(state.axis, stp);
                        let bbox = voxel_box(&voxel);
                        return Some(RaycastResponse { block: b, position: voxel, face, bbox });
                    },
                    BlockHitbox::Aabb(hb) => {
                        let tb = translate_box(&hb, &voxel);
                        match aabb_ray_hit(&tb, &origin, &direction) {
                            Some(face) => {
                                return Some(
                                    RaycastResponse { block: b, position: voxel, face, bbox: tb },
                                );
                            },
                            None => {},
                        }
                    },
                    BlockHitbox::Passable => {},
                }
            },
            None => {},
        }
        if i == RAY_FUEL {
            return None;
        }
        // step to the next voxel along the axis whose crossing comes first
        let lt_xy = t_lt(state.nx, den_x, act_x, state.ny, den_y, act_y);
        let lt_xz = t_lt(state.nx, den_x, act_x, state.nz, den_z, act_z);
        let lt_yz = t_lt(state.ny, den_y, act_y, state.nz, den_z, act_z);
        let ghost pre_state = state;
        if lt_xy {
            if lt_xz {
                proof {
                    assert(state.nx * cross_x <= 1_000_000 * 16_000_000) by (nonlinear_arith)
                        requires
                            state.nx <= 1_000_000,
                            cross_x <= 16_000_000,
                    ;
                }
                state.dist_num = state.dist_num + state.nx * cross_x;
                state.nx = state.nx + 1000;
                state.voxel.x = state.voxel.x + step_x;
                state.axis = 0;
            } else {
                proof {
                    assert(state.nz * cross_z <= 1_000_000 * 16_000_000) by (nonlinear_arith)
                        requires
                            state.nz <= 1_000_000,
                            cross_z <= 16_000_000,
                    ;
                }
                state.dist_num = state.dist_num + state.nz * cross_z;
                state.nz = state.nz + 1000;
                state.voxel.z = state.voxel.z + step_z;
                state.axis = 2;
            }
        } else if lt_yz {
            proof {
                assert(state.ny * cross_y <= 1_000_000 * 16_000_000) by (nonlinear_arith)
                    requires
                        state.ny <= 1_000_000,
                        cross_y <= 16_000_000,
                ;
            }
            state.dist_num = state.dist_num + state.ny * cross_y;
            state.ny = state.ny + 1000;
            state.voxel.y = state.voxel.y + step_y;
            state.axis = 1;
        } else {
            proof {
                assert(state.nz * cross_z <= 1_000_000 * 16_000_000) by (nonlinear_arith)
                    requires
                        state.nz <= 1_000_000,
                        cross_z <= 16_000_000,
                ;
            }
            state.dist_num = state.dist_num + state.nz * cross_z;
            state.nz = state.nz + 1000;
            state.voxel.z = state.voxel.z + step_z;
            state.axis = 2;
        }
        proof {
            assert(state == spec_step_state(pre_state, direction));
        }
        i = i + 1;
    }
    proof {
        assert(false);
    }
    None
}

/// A targeting ray from the camera's own eye.
pub fn first_person_raycast<W: WorldMap>(
    world_map: &W,
    camera_position: &FxVec3,
    camera_direction: &FxVec3,
) -> (r: Option<RaycastResponse>)
    requires
        spec_origin_ok(*camera_position),
        spec_dir_ok(*camera_direction),
    ensures
        r == spec_raycast(world_map.blocks(), *camera_position, *camera_direction),
{
    raycast_from_source_position_and_direction(world_map, *camera_position, *camera_direction)
}

/// A targeting ray cast from the controlled entity, oriented by the camera.
pub fn third_person_raycast<W: WorldMap>(
    world_map: &W,
    camera_direction: &FxVec3,
    player_position: &FxVec3,
) -> (r: Option<RaycastResponse>)
    requires
        spec_origin_ok(*player_position),
        spec_dir_ok(*camera_direction),
    ensures
        r == spec_raycast(world_map.blocks(), *player_position, *camera_direction),
{
    raycast_from_source_position_and_direction(world_map, *player_position, *camera_direction)
}

/// Ray origin used for a view mode: the camera's eye in first person, the
/// entity's position in third person.
pub open spec fn spec_view_origin(
    view_mode: ViewMode,
    camera_position: FxVec3,
    player_position: FxVec3,
) -> FxVec3 {
    match view_mode {
        ViewMode::FirstPerson => camera_position,
        ViewMode::ThirdPerson => player_position,
    }
}

/// Targeting raycast with the origin picked by the current view mode.
pub fn raycast<W: WorldMap>(
    world_map: &W,
    camera_position: &FxVec3,
    camera_direction: &FxVec3,
    player_position: &FxVec3,
    view_mode: ViewMode,
) -> (r: Option<RaycastResponse>)
    requires
        spec_origin_ok(*camera_position),
        spec_origin_ok(*player_position),
        spec_dir_ok(*camera_direction),
    ensures
        r == spec_raycast(
            world_map.blocks(),
            spec_view_origin(view_mode, *camera_position, *player_position),
            *camera_direction,
        ),
{
    match view_mode {
        ViewMode::FirstPerson => first_person_raycast(world_map, camera_position, camera_direction),
        ViewMode::ThirdPerson => third_person_raycast(world_map, camera_direction, player_position),
    }
}

/// Walking the traversal along the positive x axis: with nothing standing
/// in the `k` cells between the current voxel and a full-cube block `k`
/// cells ahead in the same row, the run hits that block on its MinusX face.
proof fn lemma_axis_walk_plus_x(
    blocks: Map<IVec3, BlockData>,
    o: FxVec3,
    d: FxVec3,
    s: RayState,
    fuel: nat,
    v: IVec3,
    k: int,
)
    requires
        d == (FxVec3 { x: 1000, y: 0, z: 0 }),
        1 <= k,
        fuel >= k,
        v.y == s.voxel.y,
        v.z == s.voxel.z,
        v.x as int == s.voxel.x + k,
        -2_000_000_000 <= s.voxel.x,
        s.voxel.x + k <= 2_100_000_000,
        s.dist_num + k * s.nx + 500 * k * (k - 1) < 20_000,
        forall|j: int|
            0 <= j < k ==> !#[trigger] blocks.contains_key(
                IVec3 { x: (s.voxel.x + j) as i32, y: s.voxel.y, z: s.voxel.z },
            ),
        blocks.contains_key(v),
        spec_ray_hitbox(blocks[v].id) is FullBlock,
    ensures
        spec_ray_run(blocks, o, d, s, fuel) == Some(
            RaycastResponse {
                block: blocks[v],
                position: v,
                face: FaceDirection::MinusX,
                bbox: spec_voxel_box(v),
            },
        ),
    decreases k,
{
    assert(d.x == 1000 && d.y == 0 && d.z == 0);
    assert(spec_den(d.x as int) == 1000 && spec_den(d.y as int) == 1 && spec_den(d.z as int) == 1);
    assert(spec_common_den(d) == 1000) by (nonlinear_arith)
        requires
            spec_den(d.x as int) == 1000 && spec_den(d.y as int) == 1 && spec_den(d.z as int) == 1,
            spec_common_den(d) == spec_den(d.x as int) * spec_den(d.y as int) * spec_den(
                d.z as int,
            ),
    ;
    assert(0 <= k * s.nx && 0 <= 500 * k * (k - 1)) by (nonlinear_arith)
        requires
            1 <= k,
            0 <= s.nx,
    ;
    assert(s.dist_num < 20_000);
    assert(s.nx <= 20_000) by (nonlinear_arith)
        requires
            1 <= k,
            k * s.nx + 500 * k * (k - 1) < 20_000,
            0 <= s.nx,
            0 <= 500 * k * (k - 1),
    ;
    let here = IVec3 { x: s.voxel.x, y: s.voxel.y, z: s.voxel.z };
    assert(here == IVec3 { x: (s.voxel.x + 0) as i32, y: s.voxel.y, z: s.voxel.z });
    assert(!blocks.contains_key(s.voxel));
    let s1 = spec_step_state(s, d);
    assert(s1 == (RayState {
        voxel: IVec3 { x: (s.voxel.x + 1) as i32, y: s.voxel.y, z: s.voxel.z },
        axis: 0,
        nx: (s.nx + 1000) as u64,
        ny: s.ny,
        nz: s.nz,
        dist_num: (s.dist_num + s.nx) as u64,
    }));
    if k == 1 {
        assert(s1.voxel == v);
        assert(s1.dist_num < 20_000) by (nonlinear_arith)
            requires
                k == 1,
                s1.dist_num == s.dist_num + s.nx,
                s.dist_num + k * s.nx + 500 * k * (k - 1) < 20_000,
        ;
        assert(spec_state_step(s1, d) == 1);
        assert(spec_ray_run(blocks, o, d, s1, (fuel - 1) as nat) == Some(
            RaycastResponse {
                block: blocks[v],
                position: v,
                face: FaceDirection::MinusX,
                bbox: spec_voxel_box(v),
            },
        ));
    } else {
        assert(s1.dist_num + (k - 1) * s1.nx + 500 * (k - 1) * (k - 2) < 20_000) by (
        nonlinear_arith)
            requires
                s1.nx == s.nx + 1000,
                s1.dist_num == s.dist_num + s.nx,
                2 <= k,
                s.dist_num + k * s.nx + 500 * k * (k - 1) < 20_000,
        ;
        assert forall|j: int|
            0 <= j < k - 1 implies !#[trigger] blocks.contains_key(
            IVec3 { x: (s1.voxel.x + j) as i32, y: s1.voxel.y, z: s1.voxel.z },
        ) by {
            assert(IVec3 { x: (s1.voxel.x + j) as i32, y: s1.voxel.y, z: s1.voxel.z } == IVec3 {
                x: (s.voxel.x + (j + 1)) as i32,
                y: s.voxel.y,
                z: s.voxel.z,
            });
        }
        lemma_axis_walk_plus_x(blocks, o, d, s1, (fuel - 1) as nat, v, k - 1);
    }
}

/// One canonical instance of face correctness, proved in general: a ray
/// traveling along positive x toward an isolated full-cube block `k` cells
/// ahead (one to five, with the row between them clear) strikes the block
/// on the face that opposes the approach — MinusX. The remaining canonical
/// directions are checked by tests against the traversal mirror.
pub proof fn lemma_raycast_face_plus_x(blocks: Map<IVec3, BlockData>, o: FxVec3, v: IVec3, k: int)
    requires
        spec_origin_ok(o),
        1 <= k <= 5,
        v.x as int == spec_block_of_fx(o.x as int) + k,
        v.y as int == spec_block_of_fx(o.y as int),
        v.z as int == spec_block_of_fx(o.z as int),
        forall|j: int|
            0 <= j < k ==> !#[trigger] blocks.contains_key(
                IVec3 {
                    x: (spec_block_of_fx(o.x as int) + j) as i32,
                    y: spec_block_of_fx(o.y as int) as i32,
                    z: spec_block_of_fx(o.z as int) as i32,
                },
            ),
        blocks.contains_key(v),
        spec_ray_hitbox(blocks[v].id) is FullBlock,
    ensures
        spec_raycast(blocks, o, FxVec3 { x: 1000, y: 0, z: 0 }) == Some(
            RaycastResponse {
                block: blocks[v],
                position: v,
                face: FaceDirection::MinusX,
                bbox: spec_voxel_box(v),
            },
        ),
{
    let d = FxVec3 { x: 1000, y: 0, z: 0 };
    let s0 = spec_initial_state(o, d);
    vstd::arithmetic::div_mod::lemma_fundamental_div_mod(o.x as int, 1000);
    vstd::arithmetic::div_mod::lemma_fundamental_div_mod(o.y as int, 1000);
    vstd::arithmetic::div_mod::lemma_fundamental_div_mod(o.z as int, 1000);
    assert(0 < s0.nx <= 1000);
    assert(s0.dist_num + k * s0.nx + 500 * k * (k - 1) < 20_000) by (nonlinear_arith)
        requires
            s0.dist_num == 0,
            0 < s0.nx <= 1000,
            1 <= k <= 5,
    ;
    assert forall|j: int|
        0 <= j < k implies !#[trigger] blocks.contains_key(
        IVec3 { x: (s0.voxel.x + j) as i32, y: s0.voxel.y, z: s0.voxel.z },
    ) by {
        assert(IVec3 { x: (s0.voxel.x + j) as i32, y: s0.voxel.y, z: s0.voxel.z } == IVec3 {
            x: (spec_block_of_fx(o.x as int) + j) as i32,
            y: spec_block_of_fx(o.y as int) as i32,
            z: spec_block_of_fx(o.z as int) as i32,
        });
    }
    lemma_axis_walk_plus_x(blocks, o, d, s0, RAY_FUEL as nat, v, k);
}

} // verus!
