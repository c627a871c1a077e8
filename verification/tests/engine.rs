//! End-to-end checks of the spatial engine: coordinates, raycasting,
//! collision, movement, block interaction and input replay.

use voxelworld::blocks::{BlockData, BlockDirection, BlockId};
use voxelworld::coords::{block_to_chunk_coord, chunk_in_radius, to_global_pos, to_local_pos, IVec3};
use voxelworld::collision::{check_collision_box, check_collision_point};
use voxelworld::fixed::{floor_div, fx_round_block, fx_to_block, isqrt, Aabb3Fx, FxVec3};
use voxelworld::inventory::MAX_INVENTORY_SLOTS;
use voxelworld::items::{ItemId, ItemType};
use voxelworld::movement::{simulate_player_movement, FALL_LIMIT, RESPAWN_Y};
use voxelworld::player::{NetworkAction, Player, PlayerFrameInput};
use voxelworld::player_blocks::{
    handle_block_breaking, handle_block_placement, CallerType,
};
use voxelworld::raycast::{raycast, FaceDirection, FaceDirectionExt, ViewMode};
use voxelworld::simulation::apply_player_inputs;
use voxelworld::world_map::{ClientWorldMap, ServerWorldMap, WorldMap};

fn vec3(x: i64, y: i64, z: i64) -> FxVec3 {
    FxVec3 { x, y, z }
}

fn empty_world() -> ServerWorldMap {
    ServerWorldMap::empty("test".to_string())
}

fn dirt() -> BlockData {
    BlockData::new(BlockId::Dirt, false, BlockDirection::Front)
}

fn input(actions: Vec<NetworkAction>, pos: FxVec3, dir: FxVec3, time_ms: u64) -> PlayerFrameInput {
    PlayerFrameInput {
        time_ms,
        delta_ms: 1000,
        inputs: actions,
        camera_forward: vec3(1000, 0, 0),
        camera_right: vec3(0, 0, 1000),
        camera_direction: dir,
        camera_position: pos,
        view_mode: ViewMode::FirstPerson,
        hotbar_slot: 0,
        position: pos,
    }
}

#[test]
fn coordinate_round_trip_wide_range() {
    let mut x: i32 = -1000;
    while x <= 1000 {
        let c = block_to_chunk_coord(x);
        let p = IVec3 { x, y: x, z: x };
        let l = to_local_pos(&p);
        assert!(l.x >= 0 && l.x < 16);
        let g = to_global_pos(&IVec3 { x: c, y: c, z: c }, &l);
        assert_eq!(g.x, x);
        x += 1;
    }
    assert_eq!(block_to_chunk_coord(-1), -1);
    assert_eq!(block_to_chunk_coord(-16), -1);
    assert_eq!(block_to_chunk_coord(-17), -2);
    assert_eq!(block_to_chunk_coord(15), 0);
    assert_eq!(block_to_chunk_coord(16), 1);
}

#[test]
fn floored_division_and_rounding() {
    assert_eq!(floor_div(-1, 1000), -1);
    assert_eq!(floor_div(-1000, 1000), -1);
    assert_eq!(floor_div(-1001, 1000), -2);
    assert_eq!(floor_div(999, 1000), 0);
    assert_eq!(fx_to_block(-1), -1);
    assert_eq!(fx_to_block(999), 0);
    assert_eq!(fx_round_block(499), 0);
    assert_eq!(fx_round_block(500), 1);
    assert_eq!(isqrt(0), 0);
    assert_eq!(isqrt(1), 1);
    assert_eq!(isqrt(24), 4);
    assert_eq!(isqrt(25), 5);
}

#[test]
fn chunk_store_set_get_remove_across_origin() {
    let mut world = empty_world();
    let positions = [
        IVec3 { x: 0, y: 0, z: 0 },
        IVec3 { x: -1, y: -1, z: -1 },
        IVec3 { x: -17, y: 5, z: 31 },
        IVec3 { x: 100, y: -33, z: -100 },
    ];
    for p in positions.iter() {
        assert!(world.get_block_by_coordinates(p).is_none());
        world.set_block(p, dirt());
        let b = world.get_block_by_coordinates(p).expect("block just set");
        assert_eq!(b.id, BlockId::Dirt);
    }
    let removed = world.remove_block_by_coordinates(&positions[2]);
    assert!(removed.is_some());
    assert!(world.get_block_by_coordinates(&positions[2]).is_none());
    assert!(world.get_block_by_coordinates(&positions[3]).is_some());
    assert!(world
        .remove_block_by_coordinates(&IVec3 { x: 7, y: 7, z: 7 })
        .is_none());
}

#[test]
fn raycast_determinism() {
    let mut world = empty_world();
    world.set_block(&IVec3 { x: 2, y: 0, z: 0 }, dirt());
    let origin = vec3(500, 500, 500);
    let dir = vec3(1000, 0, 0);
    let r1 = raycast(&world, &origin, &dir, &origin, ViewMode::FirstPerson);
    let r2 = raycast(&world, &origin, &dir, &origin, ViewMode::FirstPerson);
    assert_eq!(r1, r2);
    let hit = r1.expect("the ray points straight at the block");
    assert_eq!(hit.position, IVec3 { x: 2, y: 0, z: 0 });
    assert_eq!(hit.block.id, BlockId::Dirt);
}

#[test]
fn raycast_face_six_directions() {
    let mut world = empty_world();
    let target = IVec3 { x: 0, y: 0, z: 0 };
    world.set_block(&target, dirt());
    let cases = [
        (vec3(4500, 500, 500), vec3(-1000, 0, 0), FaceDirection::PlusX),
        (vec3(-3500, 500, 500), vec3(1000, 0, 0), FaceDirection::MinusX),
        (vec3(500, 4500, 500), vec3(0, -1000, 0), FaceDirection::PlusY),
        (vec3(500, -3500, 500), vec3(0, 1000, 0), FaceDirection::MinusY),
        (vec3(500, 500, 4500), vec3(0, 0, -1000), FaceDirection::PlusZ),
        (vec3(500, 500, -3500), vec3(0, 0, 1000), FaceDirection::MinusZ),
    ];
    for (origin, dir, expected_face) in cases.iter() {
        let hit = raycast(&world, origin, dir, origin, ViewMode::FirstPerson)
            .expect("each canonical ray reaches the block");
        assert_eq!(hit.position, target);
        assert_eq!(hit.face, *expected_face);
    }
}

#[test]
fn raycast_misses_out_of_range() {
    let mut world = empty_world();
    world.set_block(&IVec3 { x: 30, y: 0, z: 0 }, dirt());
    let origin = vec3(500, 500, 500);
    let dir = vec3(1000, 0, 0);
    assert!(raycast(&world, &origin, &dir, &origin, ViewMode::FirstPerson).is_none());
}

#[test]
fn face_offsets() {
    assert_eq!(FaceDirection::PlusX.to_ivec3(), IVec3 { x: 1, y: 0, z: 0 });
    assert_eq!(FaceDirection::MinusY.to_ivec3(), IVec3 { x: 0, y: -1, z: 0 });
    assert_eq!(FaceDirection::PlusZ.to_ivec3(), IVec3 { x: 0, y: 0, z: 1 });
}

#[test]
fn collision_conservativeness() {
    let mut world = empty_world();
    // an AABB fully inside an empty region never reports a collision
    let empty_box = Aabb3Fx { min: vec3(100, 100, 100), max: vec3(900, 900, 900) };
    assert!(!check_collision_box(&world, &empty_box));
    // an AABB overlapping a solid voxel always reports one
    world.set_block(&IVec3 { x: 0, y: 0, z: 0 }, dirt());
    let overlapping = Aabb3Fx { min: vec3(-200, -200, -200), max: vec3(700, 700, 700) };
    assert!(check_collision_box(&world, &overlapping));
    assert!(check_collision_point(&world, &vec3(400, 400, 400)));
    // flora has no collision hitbox
    let mut flora_world = empty_world();
    flora_world.set_block(
        &IVec3 { x: 0, y: 0, z: 0 },
        BlockData::new(BlockId::TallGrass, false, BlockDirection::Front),
    );
    assert!(!check_collision_box(&flora_world, &overlapping));
}

#[test]
fn breaking_progress_and_removal() {
    let mut world = empty_world();
    let target = IVec3 { x: 2, y: 0, z: 0 };
    world.set_block(&target, dirt());
    let pos = vec3(500, 500, 500);
    let dir = vec3(1000, 0, 0);
    let mut player = Player::new(1, "miner".to_string(), pos, dir);
    let action = input(vec![NetworkAction::LeftClick], pos, dir, 1);
    // dirt takes five break actions; progress rises by exactly one per action
    for expected in 1..5 {
        handle_block_breaking(&mut player, &mut world, &action, CallerType::Server);
        let b = world.get_block_by_coordinates(&target).expect("still there");
        assert_eq!(b.breaking_progress, expected);
    }
    handle_block_breaking(&mut player, &mut world, &action, CallerType::Server);
    // removed exactly once progress reaches the break time, drops collected
    assert!(world.get_block_by_coordinates(&target).is_none());
    let slot = player.inventory.get_slot(0).expect("the drop went to slot 0");
    assert_eq!(slot.item_id, ItemId::Dirt);
    assert_eq!(slot.nb, 1);
    // breaking an already-removed block is a no-op
    handle_block_breaking(&mut player, &mut world, &action, CallerType::Server);
    assert!(world.get_block_by_coordinates(&target).is_none());
    assert_eq!(player.inventory.get_slot(0).unwrap().nb, 1);
}

#[test]
fn breaking_out_of_reach_is_rejected() {
    let mut world = empty_world();
    let target = IVec3 { x: 12, y: 0, z: 0 };
    world.set_block(&target, dirt());
    let pos = vec3(500, 500, 500);
    let dir = vec3(1000, 0, 0);
    let mut player = Player::new(1, "miner".to_string(), pos, dir);
    let action = input(vec![NetworkAction::LeftClick], pos, dir, 1);
    handle_block_breaking(&mut player, &mut world, &action, CallerType::Server);
    let b = world.get_block_by_coordinates(&target).expect("untouched");
    assert_eq!(b.breaking_progress, 0);
}

#[test]
fn placement_commits_and_consumes() {
    let mut world = empty_world();
    world.set_block(&IVec3 { x: 2, y: 0, z: 0 }, dirt());
    let pos = vec3(500, 500, 500);
    let dir = vec3(1000, 0, 0);
    let mut player = Player::new(1, "builder".to_string(), pos, dir);
    player
        .inventory
        .add_item_to_stack(0, 10, ItemId::Cobblestone, ItemType::Block(BlockId::Cobblestone));
    let action = input(vec![NetworkAction::RightClick], pos, dir, 1);
    handle_block_placement(&mut player, &mut world, &action, CallerType::Server);
    let placed = world
        .get_block_by_coordinates(&IVec3 { x: 1, y: 0, z: 0 })
        .expect("placed on the face toward the player");
    assert_eq!(placed.id, BlockId::Cobblestone);
    assert_eq!(player.inventory.get_slot(0).unwrap().nb, 9);
}

#[test]
fn placement_rejected_when_cell_occupied() {
    let mut world = empty_world();
    // the player is embedded in a block, so the ray hits its own cell and
    // the face-adjacent target cell is the occupied one behind it
    world.set_block(&IVec3 { x: 0, y: 0, z: 0 }, dirt());
    world.set_block(&IVec3 { x: -1, y: 0, z: 0 }, dirt());
    let pos = vec3(500, 500, 500);
    let dir = vec3(1000, 0, 0);
    let mut player = Player::new(1, "builder".to_string(), pos, dir);
    player
        .inventory
        .add_item_to_stack(0, 10, ItemId::Cobblestone, ItemType::Block(BlockId::Cobblestone));
    let action = input(vec![NetworkAction::RightClick], pos, dir, 1);
    handle_block_placement(&mut player, &mut world, &action, CallerType::Server);
    // rejected: the occupied cell keeps its block and the inventory is unchanged
    let unchanged = world
        .get_block_by_coordinates(&IVec3 { x: -1, y: 0, z: 0 })
        .expect("cell still occupied");
    assert_eq!(unchanged.id, BlockId::Dirt);
    assert_eq!(player.inventory.get_slot(0).unwrap().nb, 10);
}

#[test]
fn placement_rejected_for_empty_slot() {
    let mut world = empty_world();
    world.set_block(&IVec3 { x: 2, y: 0, z: 0 }, dirt());
    let pos = vec3(500, 500, 500);
    let dir = vec3(1000, 0, 0);
    let mut player = Player::new(1, "builder".to_string(), pos, dir);
    let action = input(vec![NetworkAction::RightClick], pos, dir, 1);
    handle_block_placement(&mut player, &mut world, &action, CallerType::Server);
    assert!(world
        .get_block_by_coordinates(&IVec3 { x: 1, y: 0, z: 0 })
        .is_none());
}

#[test]
fn fall_limit_recovery() {
    let world = empty_world();
    let start = vec3(7000, FALL_LIMIT - 1000, 7000);
    let mut player = Player::new(1, "faller".to_string(), start, vec3(1000, 0, 0));
    let action = input(vec![], start, vec3(1000, 0, 0), 1);
    simulate_player_movement(&mut player, &world, &action, 1000);
    // repositioned to the safe spawn with zero vertical velocity
    assert_eq!(player.position, FxVec3 { x: 0, y: RESPAWN_Y, z: 0 });
    assert_eq!(player.velocity.y, 0);
}

#[test]
fn gravity_pulls_airborne_player_down() {
    let world = empty_world();
    let start = vec3(0, 100_000, 0);
    let mut player = Player::new(1, "drifter".to_string(), start, vec3(1000, 0, 0));
    player.on_ground = false;
    let action = input(vec![], start, vec3(1000, 0, 0), 1);
    simulate_player_movement(&mut player, &world, &action, 1000);
    assert!(player.position.y < 100_000);
    assert!(player.velocity.y < 0);
}

#[test]
fn movement_blocked_by_wall() {
    let mut world = empty_world();
    // a thick wall ahead, spanning the whole stride of one tick
    for x in 1..6 {
        for y in 0..4 {
            for z in -2..3 {
                world.set_block(&IVec3 { x, y, z }, dirt());
            }
        }
    }
    let start = vec3(500, 1500, 500);
    let mut player = Player::new(1, "walker".to_string(), start, vec3(1000, 0, 0));
    let action = input(vec![NetworkAction::MoveForward], start, vec3(1000, 0, 0), 1);
    simulate_player_movement(&mut player, &world, &action, 1000);
    // the four-block stride into the wall is refused outright
    assert_eq!(player.position.x, 500);
}

#[test]
fn input_replay_rejects_stale_frames() {
    let mut world = empty_world();
    let start = vec3(500, 500, 500);
    let mut player = Player::new(1, "replayer".to_string(), start, vec3(1000, 0, 0));
    player.is_flying = true;
    let frame1 = input(vec![NetworkAction::MoveForward], start, vec3(1000, 0, 0), 10);
    let duplicate = input(vec![NetworkAction::MoveForward], start, vec3(1000, 0, 0), 10);
    let frames = vec![frame1, duplicate];
    apply_player_inputs(&mut player, &mut world, &frames, CallerType::Server);
    assert_eq!(player.last_input_processed, 10);
    // flying speed is five times walking speed: one frame moves 20 blocks;
    // the duplicate frame was rejected, so exactly one frame applied
    assert_eq!(player.position.x, 500 + 20_000);
}

#[test]
fn chunk_radius_box_test() {
    let center = IVec3 { x: 0, y: 0, z: 0 };
    assert!(chunk_in_radius(&center, &IVec3 { x: 2, y: 0, z: -2 }, 2));
    assert!(!chunk_in_radius(&center, &IVec3 { x: 3, y: 0, z: 0 }, 2));
    assert!(!chunk_in_radius(&center, &IVec3 { x: 5, y: 0, z: 0 }, 2));
    // the vertical axis is not filtered
    assert!(chunk_in_radius(&center, &IVec3 { x: 0, y: 9, z: 0 }, 2));
}

#[test]
fn player_defaults_and_fly_toggle() {
    let mut p = Player::default();
    assert!(p.on_ground);
    assert!(!p.is_flying);
    assert_eq!(p.height, 1800);
    assert_eq!(p.width, 800);
    p.velocity = FxVec3 { x: 5, y: 5, z: 5 };
    p.toggle_fly_mode();
    assert!(p.is_flying);
    assert_eq!(p.velocity, FxVec3 { x: 0, y: 0, z: 0 });
    assert!(MAX_INVENTORY_SLOTS == 36);
}

#[test]
fn caller_type_tags() {
    assert_eq!(CallerType::Client.as_str(), "[CLIENT]");
    assert_eq!(CallerType::Server.as_str(), "[SERVER]");
}

#[test]
fn simulation_is_call_identical_across_stores() {
    // the same frames replayed over the authoritative store and over a
    // client mirror holding the same blocks end in the same player state
    let mut server = empty_world();
    let mut mirror = ClientWorldMap::empty("mirror".to_string());
    let target = IVec3 { x: 2, y: 0, z: 0 };
    server.set_block(&target, dirt());
    mirror.set_block(&target, dirt());
    let pos = vec3(500, 500, 500);
    let dir = vec3(1000, 0, 0);
    let mut on_server = Player::new(1, "dual".to_string(), pos, dir);
    let mut on_client = Player::new(1, "dual".to_string(), pos, dir);
    // flying keeps both hovering in place through all six frames
    on_server.is_flying = true;
    on_client.is_flying = true;
    let mut frames = Vec::new();
    for i in 0..6u64 {
        frames.push(input(vec![NetworkAction::LeftClick], pos, dir, i + 1));
    }
    apply_player_inputs(&mut on_server, &mut server, &frames, CallerType::Server);
    apply_player_inputs(&mut on_client, &mut mirror, &frames, CallerType::Client);
    assert_eq!(on_server.position, on_client.position);
    assert_eq!(on_server.velocity, on_client.velocity);
    assert_eq!(on_server.last_input_processed, on_client.last_input_processed);
    assert_eq!(on_server.inventory.get_slot(0), on_client.inventory.get_slot(0));
    // the deterministic drop draw landed the same dirt on both sides
    assert_eq!(on_server.inventory.get_slot(0).unwrap().item_id, ItemId::Dirt);
    assert!(server.get_block_by_coordinates(&target).is_none());
    assert!(mirror.get_block_by_coordinates(&target).is_none());
}
