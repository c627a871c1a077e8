//! Mob behavior: one tick of target-seeking for one mob. The mob resolves
//! its target (a fixed point, a tracked player or a tracked mob — a
//! dangling id falls back to the mob's own position, so it stays in place
//! rather than erroring), falls and lands with the same gravity and
//! collision handling as players, walks toward the target with a reactive
//! try-alternate-axis-else-jump unstick heuristic, and backs away once the
//! target comes close.

use vstd::prelude::*;
use crate::blocks::BlockData;
use crate::collision::{check_collision_box, spec_box_collides};
use crate::coords::IVec3;
use crate::fixed::{floor_div, isqrt, Aabb3Fx, FxVec3};
use crate::movement::{spec_entity_pos_ok, spec_entity_vel_ok, GRAVITY, JUMP_VELOCITY, MAX_VERTICAL_VELOCITY, SPEED};
use crate::world_map::{MobAction, MobTarget, PlayerId, ServerMob, ServerWorldMap, WorldMap};

verus! {

/// A mob walks until it is this close (squared milli-blocks) to its
/// target, then switches to fleeing.
pub const MOB_ARRIVAL_DISTANCE_SQ: u64 = 250_000;

/// A fleeing mob backs away while the target is within this distance
/// (squared milli-blocks).
pub const MOB_FLEE_DISTANCE_SQ: u64 = 225_000_000;

/// Bounds under which one mob tick cannot overflow.
pub open spec fn spec_mob_ok(mob: ServerMob) -> bool {
    &&& spec_entity_pos_ok(mob.position)
    &&& spec_entity_vel_ok(mob.velocity)
    &&& 0 <= mob.width <= 10_000
    &&& 0 <= mob.height <= 10_000
    &&& 0 <= mob.deepth <= 10_000
}

/// The nonnegative integer square root (the value the bisection computes).
pub open spec fn spec_isqrt(n: int) -> int {
    choose|r: int| r >= 0 && #[trigger] (r * r) <= n && (r + 1) * (r + 1) > n
}

/// An integer root found by bisection is the unique value of [`spec_isqrt`].
pub proof fn lemma_isqrt_value(n: int, r: int)
    requires
        0 <= r,
        r * r <= n,
        (r + 1) * (r + 1) > n,
    ensures
        spec_isqrt(n) == r,
{
    assert(exists|q: int| q >= 0 && #[trigger] (q * q) <= n && (q + 1) * (q + 1) > n) by {
        assert(r >= 0 && r * r <= n && (r + 1) * (r + 1) > n);
    }
    let c = spec_isqrt(n);
    assert(c >= 0 && c * c <= n && (c + 1) * (c + 1) > n);
    assert(c == r) by (nonlinear_arith)
        requires
            c >= 0,
            c * c <= n,
            (c + 1) * (c + 1) > n,
            r >= 0,
            r * r <= n,
            (r + 1) * (r + 1) > n,
    ;
}

/// First position registered under an id, scanning front to back.
pub open spec fn spec_lookup_player(players: Seq<(PlayerId, FxVec3)>, id: PlayerId) -> Option<
    FxVec3,
>
    decreases players.len(),
{
    if players.len() == 0 {
        None
    } else if players[0].0 == id {
        Some(players[0].1)
    } else {
        spec_lookup_player(players.skip(1), id)
    }
}

/// First position registered under a mob id, scanning front to back.
pub open spec fn spec_lookup_mob_pos(mobs: Seq<(u128, FxVec3)>, id: u128) -> Option<FxVec3>
    decreases mobs.len(),
{
    if mobs.len() == 0 {
        None
    } else if mobs[0].0 == id {
        Some(mobs[0].1)
    } else {
        spec_lookup_mob_pos(mobs.skip(1), id)
    }
}

/// Where a mob is steering: nowhere when idle; a dangling id resolves to the
/// mob's own position, so it stays in place rather than erroring.
pub open spec fn spec_mob_target(
    mob: ServerMob,
    players: Seq<(PlayerId, FxVec3)>,
    mob_positions: Seq<(u128, FxVec3)>,
) -> Option<FxVec3> {
    match mob.target {
        MobTarget::Idle => None,
        MobTarget::Fixed(pos) => Some(pos),
        MobTarget::Player(id) => Some(
            match spec_lookup_player(players, id) {
                Some(p) => p,
                None => mob.position,
            },
        ),
        MobTarget::Mob(id) => Some(
            match spec_lookup_mob_pos(mob_positions, id) {
                Some(p) => p,
                None => mob.position,
            },
        ),
    }
}

/// The box a mob occupies at `pos`.
pub open spec fn spec_mob_aabb(pos: FxVec3, width: i64, height: i64, deepth: i64) -> Aabb3Fx {
    Aabb3Fx {
        min: FxVec3 {
            x: (pos.x - width / 2) as i64,
            y: (pos.y - height / 2) as i64,
            z: (pos.z - deepth / 2) as i64,
        },
        max: FxVec3 {
            x: (pos.x + width / 2) as i64,
            y: (pos.y + height / 2) as i64,
            z: (pos.z + deepth / 2) as i64,
        },
    }
}

/// Gravity stage of a mob tick: exactly the players' vertical handling.
#[verifier::opaque]
pub open spec fn spec_mob_vertical(
    mob: ServerMob,
    blocks: Map<IVec3, BlockData>,
    delta: int,
) -> ServerMob {
    let m1 = if !mob.on_ground {
        ServerMob {
            velocity: FxVec3 {
                y: (mob.velocity.y + GRAVITY * delta / 1000) as i64,
                ..mob.velocity
            },
            ..mob
        }
    } else {
        mob
    };
    let new_y = m1.position.y + m1.velocity.y;
    let m2 = if m1.velocity.y > MAX_VERTICAL_VELOCITY {
        ServerMob { velocity: FxVec3 { y: MAX_VERTICAL_VELOCITY, ..m1.velocity }, ..m1 }
    } else {
        m1
    };
    let probe = FxVec3 { x: m2.position.x, y: new_y as i64, z: m2.position.z };
    if spec_box_collides(blocks, spec_mob_aabb(probe, m2.width, m2.height, m2.deepth)) {
        ServerMob { on_ground: true, velocity: FxVec3 { y: 0, ..m2.velocity }, ..m2 }
    } else {
        ServerMob { position: FxVec3 { y: new_y as i64, ..m2.position }, on_ground: false, ..m2 }
    }
}

/// Walking stage: step toward the target when free; when blocked after
/// having moved, jump; when blocked while grounded, try each horizontal axis
/// alone, else jump. Arriving within the arrival distance switches to
/// fleeing.
#[verifier::opaque]
pub open spec fn spec_mob_walk(
    m: ServerMob,
    blocks: Map<IVec3, BlockData>,
    target: FxVec3,
    dx: int,
    dz: int,
    sx: int,
    sz: int,
    delta: int,
) -> ServerMob {
    let cand = FxVec3 {
        x: (m.position.x + sx) as i64,
        y: m.position.y,
        z: (m.position.z + sz) as i64,
    };
    let m1 = if !spec_box_collides(blocks, spec_mob_aabb(cand, m.width, m.height, m.deepth)) {
        ServerMob {
            position: FxVec3 { x: cand.x, z: cand.z, ..m.position },
            velocity: FxVec3 { x: sx as i64, z: sz as i64, ..m.velocity },
            ..m
        }
    } else if m.on_ground && m.velocity.x != 0 && m.velocity.z != 0 {
        ServerMob {
            velocity: FxVec3 {
                x: 0,
                y: (m.velocity.y + JUMP_VELOCITY * delta / 1000) as i64,
                z: 0,
            },
            on_ground: false,
            ..m
        }
    } else if m.on_ground {
        let cand_x = FxVec3 { x: (m.position.x + sx) as i64, ..m.position };
        if !spec_box_collides(blocks, spec_mob_aabb(cand_x, m.width, m.height, m.deepth)) {
            ServerMob {
                position: FxVec3 { x: cand_x.x, ..m.position },
                velocity: FxVec3 { x: sx as i64, ..m.velocity },
                ..m
            }
        } else {
            let cand_z = FxVec3 { z: (m.position.z + sz) as i64, ..m.position };
            if !spec_box_collides(blocks, spec_mob_aabb(cand_z, m.width, m.height, m.deepth)) {
                ServerMob {
                    position: FxVec3 { z: cand_z.z, ..m.position },
                    velocity: FxVec3 { z: sz as i64, ..m.velocity },
                    ..m
                }
            } else {
                ServerMob {
                    velocity: FxVec3 {
                        x: 0,
                        y: (m.velocity.y + JUMP_VELOCITY * delta / 1000) as i64,
                        z: 0,
                    },
                    on_ground: false,
                    ..m
                }
            }
        }
    } else {
        m
    };
    let m2 = ServerMob { facing: FxVec3 { x: dx as i64, y: 0, z: dz as i64 }, ..m1 };
    let ndx = target.x - m2.position.x;
    let ndy = target.y - m2.position.y;
    let ndz = target.z - m2.position.z;
    let nd2 = ndx * ndx + ndy * ndy + ndz * ndz;
    if nd2 < MOB_ARRIVAL_DISTANCE_SQ {
        ServerMob { action: MobAction::Flee, ..m2 }
    } else {
        m2
    }
}

/// Fleeing stage: while the target is within the flee distance, back away
/// along the normalized direction.
#[verifier::opaque]
pub open spec fn spec_mob_flee(
    m: ServerMob,
    dx: int,
    dy: int,
    dz: int,
    d2: int,
    norm: int,
    delta: int,
) -> ServerMob {
    if d2 < MOB_FLEE_DISTANCE_SQ {
        let den = norm * 1000;
        ServerMob {
            position: FxVec3 {
                x: (m.position.x - dx * delta / den) as i64,
                y: (m.position.y - dy * delta / den) as i64,
                z: (m.position.z - dz * delta / den) as i64,
            },
            facing: FxVec3 { x: (-dx) as i64, y: 0, z: (-dz) as i64 },
            ..m
        }
    } else {
        m
    }
}

/// One whole mob tick as a pure function of the mob, the world's blocks,
/// the position tables and the frame time.
pub open spec fn spec_mob_step(
    mob: ServerMob,
    blocks: Map<IVec3, BlockData>,
    players: Seq<(PlayerId, FxVec3)>,
    mob_positions: Seq<(u128, FxVec3)>,
    delta_ms: u64,
) -> ServerMob {
    match spec_mob_target(mob, players, mob_positions) {
        None => mob,
        Some(target) => {
            let dx = target.x - mob.position.x;
            let dy = target.y - mob.position.y;
            let dz = target.z - mob.position.z;
            if dx > 2_000_000_000 || dx < -2_000_000_000 || dy > 2_000_000_000 || dy
                < -2_000_000_000 || dz > 2_000_000_000 || dz < -2_000_000_000 {
                mob
            } else {
                let delta = delta_ms as int;
                let m1 = spec_mob_vertical(mob, blocks, delta);
                let d2 = dx * dx + dy * dy + dz * dz;
                let norm = spec_isqrt(d2);
                if norm == 0 {
                    m1
                } else {
                    let speed = SPEED * delta / 1000;
                    let sx = (dx * speed) / norm;
                    let sz = (dz * speed) / norm;
                    match m1.action {
                        MobAction::Walk | MobAction::Attack => spec_mob_walk(
                            m1,
                            blocks,
                            target,
                            dx,
                            dz,
                            sx,
                            sz,
                            delta,
                        ),
                        MobAction::Flee => spec_mob_flee(m1, dx, dy, dz, d2, norm, delta),
                        _ => m1,
                    }
                }
            }
        },
    }
}

/// First position registered under a player id, if any.
fn lookup_player(players: &Vec<(PlayerId, FxVec3)>, id: PlayerId) -> (r: Option<FxVec3>)
    ensures
        r == spec_lookup_player(players@, id),
{
    let n = players.len();
    let mut i: usize = 0;
    proof {
        assert(players@.skip(0) =~= players@);
    }
    while i < n
        invariant
            i <= n,
            n == players@.len(),
            spec_lookup_player(players@.skip(i as int), id) == spec_lookup_player(players@, id),
        decreases n - i,
    {
        proof {
            assert(players@.skip(i as int)[0] == players@[i as int]);
            assert(players@.skip(i as int).skip(1) =~= players@.skip(i as int + 1));
        }
        if players[i].0 == id {
            return Some(players[i].1);
        }
        i = i + 1;
    }
    proof {
        assert(players@.skip(n as int) =~= Seq::<(PlayerId, FxVec3)>::empty());
    }
    None
}

/// First position registered under a mob id, if any.
fn lookup_mob(mobs: &Vec<(u128, FxVec3)>, id: u128) -> (r: Option<FxVec3>)
    ensures
        r == spec_lookup_mob_pos(mobs@, id),
{
    let n = mobs.len();
    let mut i: usize = 0;
    proof {
        assert(mobs@.skip(0) =~= mobs@);
    }
    while i < n
        invariant
            i <= n,
            n == mobs@.len(),
            spec_lookup_mob_pos(mobs@.skip(i as int), id) == spec_lookup_mob_pos(mobs@, id),
        decreases n - i,
    {
        proof {
            assert(mobs@.skip(i as int)[0] == mobs@[i as int]);
            assert(mobs@.skip(i as int).skip(1) =~= mobs@.skip(i as int + 1));
        }
        if mobs[i].0 == id {
            return Some(mobs[i].1);
        }
        i = i + 1;
    }
    proof {
        assert(mobs@.skip(n as int) =~= Seq::<(u128, FxVec3)>::empty());
    }
    None
}

/// Executable form of [`spec_mob_aabb`].
fn mob_aabb(pos: &FxVec3, width: i64, height: i64, deepth: i64) -> (r: Aabb3Fx)
    requires
        -1_500_000_000_000 <= pos.x <= 1_500_000_000_000,
        -1_500_000_000_000 <= pos.y <= 1_500_000_000_000,
        -1_500_000_000_000 <= pos.z <= 1_500_000_000_000,
        0 <= width <= 10_000,
        0 <= height <= 10_000,
        0 <= deepth <= 10_000,
    ensures
        r == spec_mob_aabb(*pos, width, height, deepth),
{
    Aabb3Fx {
        min: FxVec3 { x: pos.x - width / 2, y: pos.y - height / 2, z: pos.z - deepth / 2 },
        max: FxVec3 { x: pos.x + width / 2, y: pos.y + height / 2, z: pos.z + deepth / 2 },
    }
}

/// One behavior tick for one mob. The mob's identity, shape and target
/// never change; a mob with no target (or an unreachable one) is left
/// exactly as it was, and a walking mob that reaches its target switches
/// to fleeing.
#[verifier::rlimit(100)]
#[verifier::spinoff_prover]
pub fn mob_behavior_step<W: WorldMap>(
    mob: &mut ServerMob,
    world_map: &W,
    players: &Vec<(PlayerId, FxVec3)>,
    mob_positions: &Vec<(u128, FxVec3)>,
    delta_ms: u64,
)
    requires
        spec_mob_ok(*old(mob)),
        delta_ms <= 10_000,
    ensures
        final(mob).id == old(mob).id,
        final(mob).width == old(mob).width,
        final(mob).height == old(mob).height,
        final(mob).deepth == old(mob).deepth,
        final(mob).target == old(mob).target,
        old(mob).target is Idle ==> *final(mob) == *old(mob),
        // the only behavior transition a tick makes is arriving: walking or
        // attacking turns into fleeing
        final(mob).action == old(mob).action || ((old(mob).action is Walk || old(
            mob,
        ).action is Attack) && final(mob).action is Flee),
        *final(mob) == spec_mob_step(
            *old(mob),
            world_map.blocks(),
            players@,
            mob_positions@,
            delta_ms,
        ),
{
    // resolve the target by id; a dangling id keeps the mob in place
    let target: FxVec3 = match mob.target {
        MobTarget::Idle => {
            return ;
        },
        MobTarget::Fixed(pos) => pos,
        MobTarget::Player(id) => match lookup_player(players, id) {
            Some(p) => p,
            None => mob.position,
        },
        MobTarget::Mob(id) => match lookup_mob(mob_positions, id) {
            Some(p) => p,
            None => mob.position,
        },
    };
    proof {
        assert(spec_mob_target(*old(mob), players@, mob_positions@) == Some(target));
    }
    let dx128 = target.x as i128 - mob.position.x as i128;
    let dy128 = target.y as i128 - mob.position.y as i128;
    let dz128 = target.z as i128 - mob.position.z as i128;
    // a target beyond any plausible chase range is ignored this tick; this
    // also contains a corrupt far-away table entry to the mob it concerns
    if dx128 > 2_000_000_000 || dx128 < -2_000_000_000 || dy128 > 2_000_000_000 || dy128
        < -2_000_000_000 || dz128 > 2_000_000_000 || dz128 < -2_000_000_000 {
        return ;
    }
    let dx = dx128 as i64;
    let dy = dy128 as i64;
    let dz = dz128 as i64;
    let delta = delta_ms as i64;

    // gravity, exactly as for players
    if !mob.on_ground {
        proof {
            vstd::arithmetic::div_mod::lemma_fundamental_div_mod((GRAVITY * delta) as int, 1000);
        }
        mob.velocity.y = mob.velocity.y + floor_div(GRAVITY * delta, 1000);
    }
    let new_y = mob.position.y + mob.velocity.y;
    if mob.velocity.y > MAX_VERTICAL_VELOCITY {
        mob.velocity.y = MAX_VERTICAL_VELOCITY;
    }
    let probe = FxVec3 { x: mob.position.x, y: new_y, z: mob.position.z };
    let vertical_box = mob_aabb(&probe, mob.width, mob.height, mob.deepth);
    if check_collision_box(world_map, &vertical_box) {
        mob.on_ground = true;
        mob.velocity.y = 0;
    } else {
        mob.position.y = new_y;
        mob.on_ground = false;
    }
    let ghost mv = *mob;
    proof {
        reveal(spec_mob_vertical);
        assert(mv == spec_mob_vertical(*old(mob), world_map.blocks(), delta as int));
    }

    // normalized walk step toward the target
    proof {
        assert(0 <= (dx as int) * (dx as int) <= 0x4000_0000_0000_0000 && 0 <= (dy as int) * (
        dy as int) <= 0x4000_0000_0000_0000 && 0 <= (dz as int) * (dz as int)
            <= 0x4000_0000_0000_0000) by (nonlinear_arith)
            requires
                -2_000_000_000 <= dx <= 2_000_000_000,
                -2_000_000_000 <= dy <= 2_000_000_000,
                -2_000_000_000 <= dz <= 2_000_000_000,
        ;
    }
    let d2: u64 = (dx * dx) as u64 + (dy * dy) as u64 + (dz * dz) as u64;
    let norm: u64 = isqrt(d2);
    proof {
        lemma_isqrt_value(d2 as int, norm as int);
    }
    if norm == 0 {
        // the mob stands on its target: nothing to steer toward
        return ;
    }
    proof {
        assert((norm as int) * (norm as int) <= d2 as int);
        assert(norm <= 4_000_000_000) by (nonlinear_arith)
            requires
                (norm as int) * (norm as int) <= 0xC000_0000_0000_0000,
        ;
    }
    let speed = floor_div(SPEED * delta, 1000);
    proof {
        vstd::arithmetic::div_mod::lemma_fundamental_div_mod((SPEED * delta) as int, 1000);
        assert(0 <= speed <= 40_000);
        assert(-80_000_000_000_000 <= (dx as int) * (speed as int) <= 80_000_000_000_000
            && -80_000_000_000_000 <= (dz as int) * (speed as int) <= 80_000_000_000_000) by (
        nonlinear_arith)
            requires
                -2_000_000_000 <= dx <= 2_000_000_000,
                -2_000_000_000 <= dz <= 2_000_000_000,
                0 <= speed <= 40_000,
        ;
        vstd::arithmetic::div_mod::lemma_fundamental_div_mod(
            (dx as int) * (speed as int),
            norm as int,
        );
        vstd::arithmetic::div_mod::lemma_fundamental_div_mod(
            (dz as int) * (speed as int),
            norm as int,
        );
    }
    proof {
        assert(-(norm as int) <= dx as int <= norm as int && -(norm as int) <= dz as int
            <= norm as int) by (nonlinear_arith)
            requires
                (dx as int) * (dx as int) <= d2 as int,
                (dz as int) * (dz as int) <= d2 as int,
                (d2 as int) < ((norm as int) + 1) * ((norm as int) + 1),
                norm >= 1,
        ;
        assert(-(norm as int) * (speed as int) <= (dx as int) * (speed as int) <= (norm as int) * (
        speed as int) && -(norm as int) * (speed as int) <= (dz as int) * (speed as int) <= (
        norm as int) * (speed as int)) by (nonlinear_arith)
            requires
                -(norm as int) <= dx as int <= norm as int,
                -(norm as int) <= dz as int <= norm as int,
                0 <= speed,
        ;
        assert(-(speed as int) - 1 <= ((dx as int) * (speed as int)) / (norm as int)
            <= speed as int && -(speed as int) - 1 <= ((dz as int) * (speed as int)) / (norm as int)
            <= speed as int) by (nonlinear_arith)
            requires
                norm >= 1,
                -(norm as int) * (speed as int) <= (dx as int) * (speed as int) <= (norm as int) * (
                speed as int),
                -(norm as int) * (speed as int) <= (dz as int) * (speed as int) <= (norm as int) * (
                speed as int),
                (norm as int) * (((dx as int) * (speed as int)) / (norm as int)) <= (dx as int) * (
                speed as int),
                (dx as int) * (speed as int) < (norm as int) * (((dx as int) * (speed as int)) / (
                norm as int)) + (norm as int),
                (norm as int) * (((dz as int) * (speed as int)) / (norm as int)) <= (dz as int) * (
                speed as int),
                (dz as int) * (speed as int) < (norm as int) * (((dz as int) * (speed as int)) / (
                norm as int)) + (norm as int),
        ;
    }
    let sx = floor_div(dx * speed, norm as i64);
    let sz = floor_div(dz * speed, norm as i64);

    match mob.action {
        MobAction::Walk | MobAction::Attack => {
            let cand = FxVec3 { x: mob.position.x + sx, y: mob.position.y, z: mob.position.z + sz };
            let cand_box = mob_aabb(&cand, mob.width, mob.height, mob.deepth);
            if !check_collision_box(world_map, &cand_box) {
                mob.position.x = cand.x;
                mob.position.z = cand.z;
                mob.velocity.x = sx;
                mob.velocity.z = sz;
            } else if mob.on_ground && mob.velocity.x != 0 && mob.velocity.z != 0 {
                // stuck after having moved: try a jump
                proof {
                    vstd::arithmetic::div_mod::lemma_fundamental_div_mod(
                        (JUMP_VELOCITY * delta) as int,
                        1000,
                    );
                }
                mob.velocity.y = mob.velocity.y + floor_div(JUMP_VELOCITY * delta, 1000);
                mob.on_ground = false;
                mob.velocity.x = 0;
                mob.velocity.z = 0;
            } else if mob.on_ground {
                // try each horizontal axis alone, else jump
                let cand_x = FxVec3 {
                    x: mob.position.x + sx,
                    y: mob.position.y,
                    z: mob.position.z,
                };
                let box_x = mob_aabb(&cand_x, mob.width, mob.height, mob.deepth);
                if !check_collision_box(world_map, &box_x) {
                    mob.position.x = cand_x.x;
                    mob.velocity.x = sx;
                } else {
                    let cand_z = FxVec3 {
                        x: mob.position.x,
                        y: mob.position.y,
                        z: mob.position.z + sz,
                    };
                    let box_z = mob_aabb(&cand_z, mob.width, mob.height, mob.deepth);
                    if !check_collision_box(world_map, &box_z) {
                        mob.position.z = cand_z.z;
                        mob.velocity.z = sz;
                    } else {
                        proof {
                            vstd::arithmetic::div_mod::lemma_fundamental_div_mod(
                                (JUMP_VELOCITY * delta) as int,
                                1000,
                            );
                        }
                        mob.velocity.y = mob.velocity.y + floor_div(JUMP_VELOCITY * delta, 1000);
                        mob.on_ground = false;
                        mob.velocity.x = 0;
                        mob.velocity.z = 0;
                    }
                }
            }
            mob.facing = FxVec3 { x: dx, y: 0, z: dz };
            // reached the destination: start keeping distance instead
            let ndx = target.x - mob.position.x;
            let ndy = target.y - mob.position.y;
            let ndz = target.z - mob.position.z;
            proof {
                assert(0 <= (ndx as int) * (ndx as int) <= 4_840_000_000_000_000_000 && 0 <= (
                ndy as int) * (ndy as int) <= 4_840_000_000_000_000_000 && 0 <= (ndz as int) * (
                ndz as int) <= 4_840_000_000_000_000_000) by (nonlinear_arith)
                    requires
                        -2_200_000_000 <= ndx <= 2_200_000_000,
                        -2_200_000_000 <= ndy <= 2_200_000_000,
                        -2_200_000_000 <= ndz <= 2_200_000_000,
                ;
            }
            let nd2: u64 = (ndx * ndx) as u64 + (ndy * ndy) as u64 + (ndz * ndz) as u64;
            if nd2 < MOB_ARRIVAL_DISTANCE_SQ {
                mob.action = MobAction::Flee;
            }
            proof {
                reveal(spec_mob_walk);
                assert(*mob == spec_mob_walk(
                    mv,
                    world_map.blocks(),
                    target,
                    dx as int,
                    dz as int,
                    sx as int,
                    sz as int,
                    delta as int,
                ));
            }
        },
        MobAction::Flee => {
            if d2 < MOB_FLEE_DISTANCE_SQ {
                proof {
                    assert(-20_000_000_000_000 <= (dx as int) * (delta as int)
                        <= 20_000_000_000_000 && -20_000_000_000_000 <= (dy as int) * (delta as int)
                        <= 20_000_000_000_000 && -20_000_000_000_000 <= (dz as int) * (delta as int)
                        <= 20_000_000_000_000) by (nonlinear_arith)
                        requires
                            -2_000_000_000 <= dx <= 2_000_000_000,
                            -2_000_000_000 <= dy <= 2_000_000_000,
                            -2_000_000_000 <= dz <= 2_000_000_000,
                            0 <= delta <= 10_000,
                    ;
                    assert(1000 <= (norm as i64) * 1000 <= 4_000_000_000_000) by (nonlinear_arith)
                        requires
                            1 <= norm <= 4_000_000_000,
                    ;
                    vstd::arithmetic::div_mod::lemma_fundamental_div_mod(
                        (dx as int) * (delta as int),
                        (norm as int) * 1000,
                    );
                    vstd::arithmetic::div_mod::lemma_fundamental_div_mod(
                        (dy as int) * (delta as int),
                        (norm as int) * 1000,
                    );
                    vstd::arithmetic::div_mod::lemma_fundamental_div_mod(
                        (dz as int) * (delta as int),
                        (norm as int) * 1000,
                    );
                }
                let den: i64 = (norm as i64) * 1000;
                proof {
                    assert(-(norm as int) <= dx as int <= norm as int && -(norm as int)
                        <= dy as int <= norm as int && -(norm as int) <= dz as int
                        <= norm as int) by (nonlinear_arith)
                        requires
                            (dx as int) * (dx as int) <= d2 as int,
                            (dy as int) * (dy as int) <= d2 as int,
                            (dz as int) * (dz as int) <= d2 as int,
                            (d2 as int) < ((norm as int) + 1) * ((norm as int) + 1),
                            norm >= 1,
                    ;
                    assert(-11 <= ((dx as int) * (delta as int)) / ((norm as int) * 1000) <= 10
                        && -11 <= ((dy as int) * (delta as int)) / ((norm as int) * 1000) <= 10
                        && -11 <= ((dz as int) * (delta as int)) / ((norm as int) * 1000)
                        <= 10) by (nonlinear_arith)
                        requires
                            norm >= 1,
                            0 <= delta <= 10_000,
                            -(norm as int) <= dx as int <= norm as int,
                            -(norm as int) <= dy as int <= norm as int,
                            -(norm as int) <= dz as int <= norm as int,
                            ((norm as int) * 1000) * (((dx as int) * (delta as int)) / ((
                            norm as int) * 1000)) <= (dx as int) * (delta as int),
                            (dx as int) * (delta as int) < ((norm as int) * 1000) * (((dx as int)
                                * (delta as int)) / ((norm as int) * 1000)) + ((norm as int)
                                * 1000),
                            ((norm as int) * 1000) * (((dy as int) * (delta as int)) / ((
                            norm as int) * 1000)) <= (dy as int) * (delta as int),
                            (dy as int) * (delta as int) < ((norm as int) * 1000) * (((dy as int)
                                * (delta as int)) / ((norm as int) * 1000)) + ((norm as int)
                                * 1000),
                            ((norm as int) * 1000) * (((dz as int) * (delta as int)) / ((
                            norm as int) * 1000)) <= (dz as int) * (delta as int),
                            (dz as int) * (delta as int) < ((norm as int) * 1000) * (((dz as int)
                                * (delta as int)) / ((norm as int) * 1000)) + ((norm as int)
                                * 1000),
                    ;
                }
                mob.position.x = mob.position.x - floor_div(dx * delta, den);
                mob.position.y = mob.position.y - floor_div(dy * delta, den);
                mob.position.z = mob.position.z - floor_div(dz * delta, den);
                mob.facing = FxVec3 { x: -dx, y: 0, z: -dz };
            }
            proof {
                reveal(spec_mob_flee);
                assert(*mob == spec_mob_flee(
                    mv,
                    dx as int,
                    dy as int,
                    dz as int,
                    d2 as int,
                    norm as int,
                    delta as int,
                ));
            }
        },
        _ => {},
    }
    proof {
        assert(*mob == spec_mob_step(
            *old(mob),
            world_map.blocks(),
            players@,
            mob_positions@,
            delta_ms,
        ));
    }
}

/// Snapshot of every mob's id and position; targets resolve against it, so
/// all mobs of one tick see the same pre-tick world.
pub open spec fn spec_mob_snapshot(mobs: Seq<ServerMob>) -> Seq<(u128, FxVec3)> {
    Seq::new(mobs.len(), |i: int| (mobs[i].id, mobs[i].position))
}

/// One behavior tick for every mob of the authoritative world: each mob in
/// a sane state steps by [`spec_mob_step`] against the same pre-tick
/// snapshot of player and mob positions; a mob whose state fails the
/// fatal-state guard is skipped, untouched, without aborting the tick for
/// the others. Nothing else in the world moves.
pub fn mob_behavior_tick(world: &mut ServerWorldMap, delta_ms: u64)
    requires
        delta_ms <= 10_000,
    ensures
        final(world).mobs@.len() == old(world).mobs@.len(),
        forall|i: int|
            0 <= i < old(world).mobs@.len() ==> final(world).mobs@[i] == if spec_mob_ok(
                #[trigger] old(world).mobs@[i],
            ) {
                spec_mob_step(
                    old(world).mobs@[i],
                    old(world).blocks(),
                    old(world).player_positions@,
                    spec_mob_snapshot(old(world).mobs@),
                    delta_ms,
                )
            } else {
                old(world).mobs@[i]
            },
        final(world).map@ == old(world).map@,
        final(world).blocks() == old(world).blocks(),
        final(world).name == old(world).name,
        final(world).chunks_to_update@ == old(world).chunks_to_update@,
        final(world).player_positions@ == old(world).player_positions@,
        final(world).item_stacks@ == old(world).item_stacks@,
        final(world).time == old(world).time,
{
    let n = world.mobs.len();
    let mut snapshot: Vec<(u128, FxVec3)> = Vec::new();
    let mut i: usize = 0;
    while i < n
        invariant
            i <= n,
            n == world.mobs@.len(),
            *world == *old(world),
            snapshot@ =~= spec_mob_snapshot(world.mobs@).take(i as int),
        decreases n - i,
    {
        let m = world.mobs[i];
        snapshot.push((m.id, m.position));
        proof {
            assert(snapshot@ =~= spec_mob_snapshot(world.mobs@).take(i as int + 1));
        }
        i = i + 1;
    }
    proof {
        assert(snapshot@ =~= spec_mob_snapshot(world.mobs@));
    }
    let mut j: usize = 0;
    while j < n
        invariant
            j <= n,
            n == old(world).mobs@.len(),
            world.mobs@.len() == n,
            snapshot@ == spec_mob_snapshot(old(world).mobs@),
            world.map@ == old(world).map@,
            world.blocks() == old(world).blocks(),
            world.name == old(world).name,
            world.chunks_to_update@ == old(world).chunks_to_update@,
            world.player_positions@ == old(world).player_positions@,
            world.item_stacks@ == old(world).item_stacks@,
            world.time == old(world).time,
            forall|k: int|
                0 <= k < j ==> world.mobs@[k] == if spec_mob_ok(#[trigger] old(world).mobs@[k]) {
                    spec_mob_step(
                        old(world).mobs@[k],
                        old(world).blocks(),
                        old(world).player_positions@,
                        snapshot@,
                        delta_ms,
                    )
                } else {
                    old(world).mobs@[k]
                },
            forall|k: int| j <= k < n ==> #[trigger] world.mobs@[k] == old(world).mobs@[k],
            delta_ms <= 10_000,
        decreases n - j,
    {
        let mut m = world.mobs[j];
        if mob_state_ok(&m) {
            mob_behavior_step(&mut m, world, &world.player_positions, &snapshot, delta_ms);
            world.mobs[j] = m;
        }
        j = j + 1;
    }
}

/// The fatal-state guard on one mob: bounds under which its tick cannot
/// overflow.
fn mob_state_ok(m: &ServerMob) -> (r: bool)
    ensures
        r == spec_mob_ok(*m),
{
    let p = m.position;
    let v = m.velocity;
    -1_000_000_000_000 <= p.x && p.x <= 1_000_000_000_000 && -1_000_000_000_000 <= p.y && p.y
        <= 1_000_000_000_000 && -1_000_000_000_000 <= p.z && p.z <= 1_000_000_000_000
        && -100_000_000 <= v.x && v.x <= 100_000_000 && -100_000_000 <= v.y && v.y <= 100_000_000
        && -100_000_000 <= v.z && v.z <= 100_000_000 && 0 <= m.width && m.width <= 10_000 && 0
        <= m.height && m.height <= 10_000 && 0 <= m.deepth && m.deepth <= 10_000
}

} // verus!
