//! The per-tick player movement step: orientation snap, gravity and
//! jumping, vertical then horizontal collision resolution, and the
//! fall-limit recovery that teleports an entity back to the safe respawn
//! point. The executable step is proved equal to its specification mirror,
//! so client prediction and server authority cannot diverge.

use vstd::prelude::*;
use crate::blocks::BlockData;
use crate::collision::{check_collision_box, spec_box_collides};
use crate::coords::IVec3;
use crate::fixed::{floor_div, Aabb3Fx, FxVec3};
use crate::player::{NetworkAction, Player, PlayerFrameInput};
use crate::world_map::WorldMap;

verus! {

/// Gravity acceleration, milli-blocks per second per second of velocity.
pub const GRAVITY: i64 = -9810;

/// Vertical velocity granted by a jump, milli-blocks per second.
pub const JUMP_VELOCITY: i64 = 10_000;

/// Walking speed, milli-blocks per second; flying multiplies it by five.
pub const SPEED: i64 = 4_000;

/// Upward velocity cap per tick, milli-blocks.
pub const MAX_VERTICAL_VELOCITY: i64 = 900;

/// Below this height an entity is considered fallen out of the world.
pub const FALL_LIMIT: i64 = -50_000;

/// Height an entity is teleported back to after falling out.
pub const RESPAWN_Y: i64 = 100_000;

/// Coordinates a simulated entity may occupy (well inside the collision
/// scan's own range, leaving headroom for one tick of movement).
pub open spec fn spec_entity_pos_ok(v: FxVec3) -> bool {
    &&& -1_000_000_000_000 <= v.x <= 1_000_000_000_000
    &&& -1_000_000_000_000 <= v.y <= 1_000_000_000_000
    &&& -1_000_000_000_000 <= v.z <= 1_000_000_000_000
}

/// Velocities the step accepts without overflowing.
pub open spec fn spec_entity_vel_ok(v: FxVec3) -> bool {
    &&& -100_000_000 <= v.x <= 100_000_000
    &&& -100_000_000 <= v.y <= 100_000_000
    &&& -100_000_000 <= v.z <= 100_000_000
}

/// A flattened camera-basis vector: bounded like a unit direction.
pub open spec fn spec_basis_ok(v: FxVec3) -> bool {
    &&& -2000 <= v.x <= 2000
    &&& -2000 <= v.y <= 2000
    &&& -2000 <= v.z <= 2000
}

/// The axis-aligned box an entity occupies, centered on its position.
pub open spec fn spec_entity_aabb(pos: FxVec3, width: int, height: int) -> Aabb3Fx {
    Aabb3Fx {
        min: FxVec3 {
            x: (pos.x - width / 2) as i64,
            y: (pos.y - height / 2) as i64,
            z: (pos.z - width / 2) as i64,
        },
        max: FxVec3 {
            x: (pos.x + width / 2) as i64,
            y: (pos.y + height / 2) as i64,
            z: (pos.z + width / 2) as i64,
        },
    }
}

/// Positions a collision probe may use: one tick of drift past the entity
/// range, still well inside the collision scan's own bounds.
pub open spec fn spec_probe_pos_ok(v: FxVec3) -> bool {
    &&& -1_500_000_000_000 <= v.x <= 1_500_000_000_000
    &&& -1_500_000_000_000 <= v.y <= 1_500_000_000_000
    &&& -1_500_000_000_000 <= v.z <= 1_500_000_000_000
}

/// Executable form of [`spec_entity_aabb`].
pub fn entity_aabb(pos: &FxVec3, width: i64, height: i64) -> (r: Aabb3Fx)
    requires
        spec_probe_pos_ok(*pos),
        0 <= width <= 10_000,
        0 <= height <= 10_000,
    ensures
        r == spec_entity_aabb(*pos, width as int, height as int),
{
    let hw = width / 2;
    let hh = height / 2;
    Aabb3Fx {
        min: FxVec3 { x: pos.x - hw, y: pos.y - hh, z: pos.z - hw },
        max: FxVec3 { x: pos.x + hw, y: pos.y + hh, z: pos.z + hw },
    }
}

/// Whether the entity's box, moved to `position`, overlaps a solid voxel.
pub fn check_player_collision<W: WorldMap>(
    position: &FxVec3,
    player: &Player,
    world_map: &W,
) -> (r: bool)
    requires
        spec_probe_pos_ok(*position),
        0 <= player.width <= 10_000,
        0 <= player.height <= 10_000,
    ensures
        r == spec_box_collides(
            world_map.blocks(),
            spec_entity_aabb(*position, player.width as int, player.height as int),
        ),
{
    let aabb = entity_aabb(position, player.width, player.height);
    check_collision_box(world_map, &aabb)
}

/// The kinematic state one movement tick reads and writes; everything else
/// on a player (name, inventory, shape, bookkeeping) passes through
/// untouched.
#[derive(Clone, Copy, Debug, PartialEq, Eq, Structural)]
pub struct MoveState {
    pub position: FxVec3,
    pub camera_direction: FxVec3,
    pub velocity: FxVec3,
    pub on_ground: bool,
    pub is_flying: bool,
}

/// The kinematic state of a player.
pub open spec fn spec_move_state(p: Player) -> MoveState {
    MoveState {
        position: p.position,
        camera_direction: p.camera_direction,
        velocity: p.velocity,
        on_ground: p.on_ground,
        is_flying: p.is_flying,
    }
}

/// Movement direction summed from the held actions, on the camera's
/// flattened basis; jumping and sneaking add the vertical unit.
#[verifier::opaque]
pub open spec fn spec_movement_dir(
    inputs: Seq<NetworkAction>,
    forward: FxVec3,
    right: FxVec3,
) -> (int, int, int) {
    let x0: int = 0;
    let y0: int = 0;
    let z0: int = 0;
    let (x1, y1, z1): (int, int, int) = if inputs.contains(NetworkAction::MoveBackward) {
        (x0 - forward.x, y0 - forward.y, z0 - forward.z)
    } else {
        (x0, y0, z0)
    };
    let (x2, y2, z2): (int, int, int) = if inputs.contains(NetworkAction::MoveForward) {
        (x1 + forward.x, y1 + forward.y, z1 + forward.z)
    } else {
        (x1, y1, z1)
    };
    let (x3, y3, z3): (int, int, int) = if inputs.contains(NetworkAction::MoveLeft) {
        (x2 - right.x, y2 - right.y, z2 - right.z)
    } else {
        (x2, y2, z2)
    };
    let (x4, y4, z4): (int, int, int) = if inputs.contains(NetworkAction::MoveRight) {
        (x3 + right.x, y3 + right.y, z3 + right.z)
    } else {
        (x3, y3, z3)
    };
    let (x5, y5, z5): (int, int, int) = if inputs.contains(NetworkAction::JumpOrFlyUp) {
        (x4, y4 + 1000, z4)
    } else {
        (x4, y4, z4)
    };
    if inputs.contains(NetworkAction::SneakOrFlyDown) {
        (x5, y5 - 1000, z5)
    } else {
        (x5, y5, z5)
    }
}

/// Orientation stage: fly-mode toggle and the authoritative camera snap.
#[verifier::opaque]
pub open spec fn spec_stage_orient(s0: MoveState, action: PlayerFrameInput) -> MoveState {
    let s1 = if action.inputs@.contains(NetworkAction::ToggleFlyMode) {
        MoveState { is_flying: !s0.is_flying, ..s0 }
    } else {
        s0
    };
    MoveState { camera_direction: action.camera_direction, ..s1 }
}

/// Vertical-velocity stage: jump impulse when grounded, gravity when
/// airborne; flying entities coast.
#[verifier::opaque]
pub open spec fn spec_stage_vertical_velocity(
    s2: MoveState,
    action: PlayerFrameInput,
    delta: int,
) -> MoveState {
    let jumping = action.inputs@.contains(NetworkAction::JumpOrFlyUp);
    if !s2.is_flying {
        if s2.on_ground && jumping {
            MoveState {
                velocity: FxVec3 { y: (JUMP_VELOCITY * delta / 1000) as i64, ..s2.velocity },
                on_ground: false,
                ..s2
            }
        } else if !s2.on_ground {
            MoveState {
                velocity: FxVec3 {
                    y: (s2.velocity.y + GRAVITY * delta / 1000) as i64,
                    ..s2.velocity
                },
                ..s2
            }
        } else {
            s2
        }
    } else {
        s2
    }
}

/// Vertical-resolution stage: cap the climb rate, then either land on the
/// obstruction (grounded, no vertical momentum) or commit the new height.
#[verifier::opaque]
pub open spec fn spec_stage_vertical_resolve(
    s3: MoveState,
    blocks: Map<IVec3, BlockData>,
    width: int,
    height: int,
) -> MoveState {
    let new_y = s3.position.y + s3.velocity.y;
    let s4 = if s3.velocity.y > MAX_VERTICAL_VELOCITY {
        MoveState { velocity: FxVec3 { y: MAX_VERTICAL_VELOCITY, ..s3.velocity }, ..s3 }
    } else {
        s3
    };
    let vertical_probe = FxVec3 { x: s4.position.x, y: new_y as i64, z: s4.position.z };
    if !s4.is_flying {
        if spec_box_collides(blocks, spec_entity_aabb(vertical_probe, width, height)) {
            MoveState { on_ground: true, velocity: FxVec3 { y: 0, ..s4.velocity }, ..s4 }
        } else {
            MoveState {
                position: FxVec3 { y: new_y as i64, ..s4.position },
                on_ground: false,
                ..s4
            }
        }
    } else {
        s4
    }
}

/// Horizontal stage: the candidate displacement on the camera basis is
/// committed only when unobstructed; flying entities skip the obstruction
/// test.
#[verifier::opaque]
pub open spec fn spec_stage_horizontal(
    s5: MoveState,
    blocks: Map<IVec3, BlockData>,
    action: PlayerFrameInput,
    delta: int,
    width: int,
    height: int,
) -> MoveState {
    let dir = spec_movement_dir(action.inputs@, action.camera_forward, action.camera_right);
    let speed = (if s5.is_flying {
        SPEED * 5
    } else {
        SPEED as int
    }) * delta / 1000;
    let candidate = FxVec3 {
        x: (s5.position.x + dir.0 * speed / 1000) as i64,
        y: (s5.position.y + dir.1 * speed / 1000) as i64,
        z: (s5.position.z + dir.2 * speed / 1000) as i64,
    };
    if spec_box_collides(blocks, spec_entity_aabb(candidate, width, height)) && !s5.is_flying {
        s5
    } else {
        MoveState { position: candidate, ..s5 }
    }
}

/// Fall-limit stage: an entity below the limit is back at the safe respawn
/// point with no vertical momentum — a recovery, never an error.
#[verifier::opaque]
pub open spec fn spec_stage_fall_limit(s6: MoveState) -> MoveState {
    if s6.position.y < FALL_LIMIT {
        MoveState {
            position: FxVec3 { x: 0, y: RESPAWN_Y, z: 0 },
            velocity: FxVec3 { y: 0, ..s6.velocity },
            ..s6
        }
    } else {
        s6
    }
}

/// Specification mirror of one movement tick: the kinematic state after the
/// tick, and whether anything observable moved or rotated (so peers must
/// hear).
pub open spec fn spec_simulate_player_movement(
    s0: MoveState,
    blocks: Map<IVec3, BlockData>,
    action: PlayerFrameInput,
    delta_ms: u64,
    width: int,
    height: int,
) -> (MoveState, bool) {
    let delta = delta_ms as int;
    let s2 = spec_stage_orient(s0, action);
    let s3 = spec_stage_vertical_velocity(s2, action, delta);
    let s5 = spec_stage_vertical_resolve(s3, blocks, width, height);
    let s6 = spec_stage_horizontal(s5, blocks, action, delta, width, height);
    let s7 = spec_stage_fall_limit(s6);
    let moved = s7.position != s0.position;
    let rotated = s7.camera_direction != s0.camera_direction;
    (s7, moved || rotated)
}

/// After a movement tick the entity never rests below the fall limit.
pub proof fn lemma_fall_limit_recovered(
    s0: MoveState,
    blocks: Map<IVec3, BlockData>,
    action: PlayerFrameInput,
    delta_ms: u64,
    width: int,
    height: int,
)
    ensures
        spec_simulate_player_movement(s0, blocks, action, delta_ms, width, height).0.position.y
            >= FALL_LIMIT,
{
    reveal(spec_stage_fall_limit);
}

/// One movement tick: authoritative on the server, predictive on the
/// client, and bit-identical in both places. Returns whether peers must be
/// told. Only the kinematic state changes — name, inventory, shape and
/// bookkeeping pass through — and after the tick the entity never rests
/// below the fall limit: a fallen entity is back at the safe respawn point
/// with no vertical velocity.
#[verifier::rlimit(100)]
pub fn simulate_player_movement<W: WorldMap>(
    player: &mut Player,
    world_map: &W,
    action: &PlayerFrameInput,
    delta_ms: u64,
) -> (broadcast: bool)
    requires
        spec_entity_pos_ok(old(player).position),
        spec_entity_vel_ok(old(player).velocity),
        0 <= old(player).width <= 10_000,
        0 <= old(player).height <= 10_000,
        spec_basis_ok(action.camera_forward),
        spec_basis_ok(action.camera_right),
        delta_ms <= 10_000,
    ensures
        spec_move_state(*final(player)) == spec_simulate_player_movement(
            spec_move_state(*old(player)),
            world_map.blocks(),
            *action,
            delta_ms,
            old(player).width as int,
            old(player).height as int,
        ).0,
        broadcast == spec_simulate_player_movement(
            spec_move_state(*old(player)),
            world_map.blocks(),
            *action,
            delta_ms,
            old(player).width as int,
            old(player).height as int,
        ).1,
        final(player).position.y >= FALL_LIMIT,
        final(player).id == old(player).id,
        final(player).name == old(player).name,
        final(player).inventory@ == old(player).inventory@,
        final(player).width == old(player).width,
        final(player).height == old(player).height,
        final(player).last_input_processed == old(player).last_input_processed,
{
    let ghost s0 = spec_move_state(*player);
    let delta = delta_ms as i64;
    let initial_pos = player.position;
    let initial_cam = player.camera_direction;

    if action.is_pressed(NetworkAction::ToggleFlyMode) {
        player.is_flying = !player.is_flying;
    }
    player.camera_direction = action.camera_direction;
    let ghost s2 = spec_move_state(*player);
    proof {
        reveal(spec_stage_orient);
        assert(s2 == spec_stage_orient(s0, *action));
    }
    let jumping = action.is_pressed(NetworkAction::JumpOrFlyUp);

    // movement direction on the flattened camera basis
    let mut dx: i64 = 0;
    let mut dy: i64 = 0;
    let mut dz: i64 = 0;
    if action.is_pressed(NetworkAction::MoveBackward) {
        dx = dx - action.camera_forward.x;
        dy = dy - action.camera_forward.y;
        dz = dz - action.camera_forward.z;
    }
    if action.is_pressed(NetworkAction::MoveForward) {
        dx = dx + action.camera_forward.x;
        dy = dy + action.camera_forward.y;
        dz = dz + action.camera_forward.z;
    }
    if action.is_pressed(NetworkAction::MoveLeft) {
        dx = dx - action.camera_right.x;
        dy = dy - action.camera_right.y;
        dz = dz - action.camera_right.z;
    }
    if action.is_pressed(NetworkAction::MoveRight) {
        dx = dx + action.camera_right.x;
        dy = dy + action.camera_right.y;
        dz = dz + action.camera_right.z;
    }
    if action.is_pressed(NetworkAction::JumpOrFlyUp) {
        dy = dy + 1000;
    }
    if action.is_pressed(NetworkAction::SneakOrFlyDown) {
        dy = dy - 1000;
    }
    proof {
        reveal(spec_movement_dir);
        assert((dx as int, dy as int, dz as int) == spec_movement_dir(
            action.inputs@,
            action.camera_forward,
            action.camera_right,
        ));
    }

    // gravity and jumping (only when not flying)
    if !player.is_flying {
        if player.on_ground && jumping {
            player.velocity.y = floor_div(JUMP_VELOCITY * delta, 1000);
            player.on_ground = false;
        } else if !player.on_ground {
            player.velocity.y = player.velocity.y + floor_div(GRAVITY * delta, 1000);
        }
    }
    let ghost s3 = spec_move_state(*player);
    proof {
        reveal(spec_stage_vertical_velocity);
        assert(s3 == spec_stage_vertical_velocity(s2, *action, delta_ms as int));
    }

    // vertical resolution: candidate height first, then the velocity cap
    let new_y = player.position.y + player.velocity.y;
    if player.velocity.y > MAX_VERTICAL_VELOCITY {
        player.velocity.y = MAX_VERTICAL_VELOCITY;
    }
    if !player.is_flying {
        let probe = FxVec3 { x: player.position.x, y: new_y, z: player.position.z };
        if check_player_collision(&probe, player, world_map) {
            player.on_ground = true;
            player.velocity.y = 0;
        } else {
            player.position.y = new_y;
            player.on_ground = false;
        }
    }
    let ghost s5 = spec_move_state(*player);
    proof {
        reveal(spec_stage_vertical_resolve);
        assert(s5 == spec_stage_vertical_resolve(
            s3,
            world_map.blocks(),
            player.width as int,
            player.height as int,
        ));
    }

    // horizontal (and flying vertical) movement
    let base_speed: i64 = if player.is_flying {
        SPEED * 5
    } else {
        SPEED
    };
    proof {
        assert(0 <= (base_speed as int) * (delta as int) <= 200_000_000) by (nonlinear_arith)
            requires
                0 <= base_speed <= 20_000,
                0 <= delta <= 10_000,
        ;
    }
    let bd = base_speed * delta;
    let speed = floor_div(bd, 1000);
    proof {
        vstd::arithmetic::div_mod::lemma_fundamental_div_mod(bd as int, 1000);
        assert(0 <= speed <= 200_000);
        assert(-5000 <= dx <= 5000 && -5000 <= dy <= 5000 && -5000 <= dz <= 5000);
        assert(-1_000_000_000 <= (dx as int) * (speed as int) <= 1_000_000_000 && -1_000_000_000
            <= (dy as int) * (speed as int) <= 1_000_000_000 && -1_000_000_000 <= (dz as int) * (
        speed as int) <= 1_000_000_000) by (nonlinear_arith)
            requires
                -5000 <= dx <= 5000,
                -5000 <= dy <= 5000,
                -5000 <= dz <= 5000,
                0 <= speed <= 200_000,
        ;
        vstd::arithmetic::div_mod::lemma_fundamental_div_mod((dx as int) * (speed as int), 1000);
        vstd::arithmetic::div_mod::lemma_fundamental_div_mod((dy as int) * (speed as int), 1000);
        vstd::arithmetic::div_mod::lemma_fundamental_div_mod((dz as int) * (speed as int), 1000);
    }
    let candidate = FxVec3 {
        x: player.position.x + floor_div(dx * speed, 1000),
        y: player.position.y + floor_div(dy * speed, 1000),
        z: player.position.z + floor_div(dz * speed, 1000),
    };
    if check_player_collision(&candidate, player, world_map) && !player.is_flying {
        // blocked: stay in place
    } else {
        player.position = candidate;
    }
    let ghost s6 = spec_move_state(*player);
    proof {
        reveal(spec_stage_horizontal);
        assert(s6 == spec_stage_horizontal(
            s5,
            world_map.blocks(),
            *action,
            delta_ms as int,
            player.width as int,
            player.height as int,
        ));
    }

    // fall-limit recovery: never leave an entity unrecoverable
    if player.position.y < FALL_LIMIT {
        player.position = FxVec3 { x: 0, y: RESPAWN_Y, z: 0 };
        player.velocity.y = 0;
    }

    let moved = player.position != initial_pos;
    let rotated = player.camera_direction != initial_cam;
    proof {
        reveal(spec_stage_fall_limit);
        assert(spec_move_state(*player) == spec_stage_fall_limit(s6));
    }
    moved || rotated
}

} // verus!
