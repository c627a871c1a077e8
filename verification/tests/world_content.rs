//! Checks of the world's content systems: block metadata, drop tables,
//! inventories, chunk generation, mob behavior and replication.

use noise::{NoiseFn, Perlin};
use voxelworld::blocks::{BlockData, BlockDirection, BlockHitbox, BlockId, BlockTransparency};
use voxelworld::channels::{get_customized_default_channels, ChannelSendType};
use voxelworld::coords::IVec3;
use voxelworld::drops::{drops_from_draws, pick_drop, total_weight};
use voxelworld::fixed::FxVec3;
use voxelworld::generation::{
    decor_rand, determine_biome, generate_chunk, get_biome_data, BiomeType, WorldSeed,
};
use voxelworld::inventory::Inventory;
use voxelworld::items::{ItemId, ItemType};
use voxelworld::mob::{mob_behavior_step, mob_behavior_tick};
use voxelworld::posmap::PosMap;
use voxelworld::replication::{apply_world_update, compute_world_update};
use voxelworld::server_events::{handle_block_interactions, BlockInteractionEvent};
use voxelworld::world_map::{
    ClientWorldMap, MobAction, MobTarget, ServerChunk, ServerMob, ServerWorldMap, WorldMap,
};

fn dirt() -> BlockData {
    BlockData::new(BlockId::Dirt, false, BlockDirection::Front)
}

#[test]
fn block_metadata_tables() {
    assert!(BlockId::Stone.has_hitbox());
    assert!(!BlockId::Dandelion.has_hitbox());
    assert!(!BlockId::TallGrass.has_hitbox());
    assert_eq!(BlockId::Bedrock.get_break_time(), -1);
    assert_eq!(BlockId::Dirt.get_break_time(), 5);
    assert_eq!(BlockId::Glass.get_visibility(), BlockTransparency::Transparent);
    assert_eq!(BlockId::Poppy.get_visibility(), BlockTransparency::Decoration);
    assert_eq!(BlockId::Stone.get_visibility(), BlockTransparency::Solid);
    assert!(matches!(BlockId::Stone.get_ray_hitbox(), BlockHitbox::FullBlock));
    assert!(matches!(BlockId::Dandelion.get_ray_hitbox(), BlockHitbox::Aabb(_)));
    assert!(matches!(BlockId::TallGrass.get_ray_hitbox(), BlockHitbox::Passable));
    assert_eq!(BlockId::Stone.get_tags().len(), 2);
    assert_eq!(BlockId::Dirt.get_tags().len(), 1);
    assert!(!BlockId::is_biome_colored());
}

#[test]
fn drop_tables_and_conservation() {
    let table = BlockId::Snow.get_drop_table();
    assert_eq!(table.len(), 1);
    assert_eq!(table[0], (1, ItemId::Snowball, 4));
    assert_eq!(BlockId::Debug.get_drop_table().len(), 0);
    assert_eq!(BlockId::Debug.get_drops(5).len(), 0);

    // requesting N drops yields exactly N picks, each a row of the table
    let stone_table = BlockId::Stone.get_drop_table();
    assert_eq!(total_weight(&stone_table), 1);
    let draws = vec![0, 0, 0, 0, 0, 0, 0];
    let picked = drops_from_draws(&stone_table, &draws);
    assert_eq!(picked.len(), draws.len());
    for p in picked.iter() {
        assert_eq!(*p, (ItemId::Cobblestone, 1));
    }
    let random_picks = BlockId::Grass.get_drops(12);
    assert_eq!(random_picks.len(), 12);
    for p in random_picks.iter() {
        assert_eq!(*p, (ItemId::Dirt, 1));
    }
    assert_eq!(pick_drop(&stone_table, 0), 0);
}

#[test]
fn drop_scan_follows_cumulative_weights() {
    // a two-row table: draws below the first weight pick row zero, the rest
    // fall through to row one
    let table = vec![(3u32, ItemId::Sand, 1u32), (2u32, ItemId::Cactus, 2u32)];
    assert_eq!(total_weight(&table), 5);
    assert_eq!(pick_drop(&table, 0), 0);
    assert_eq!(pick_drop(&table, 2), 0);
    assert_eq!(pick_drop(&table, 3), 1);
    assert_eq!(pick_drop(&table, 4), 1);
    let picked = drops_from_draws(&table, &vec![0, 3, 4, 1]);
    assert_eq!(
        picked,
        vec![
            (ItemId::Sand, 1),
            (ItemId::Cactus, 2),
            (ItemId::Cactus, 2),
            (ItemId::Sand, 1)
        ]
    );
}

#[test]
fn inventory_stacking_never_exceeds_max() {
    let mut inv = Inventory::new();
    // pour 100 dirt in: 64 fill slot zero, the rest opens a new slot
    inv.add_item_to_inventory(voxelworld::items::ItemStack {
        item_id: ItemId::Dirt,
        item_type: ItemType::Block(BlockId::Dirt),
        nb: 100,
    });
    let s0 = inv.get_slot(0).expect("first slot filled");
    let s1 = inv.get_slot(1).expect("overflow opened a second slot");
    assert_eq!(s0.nb, 64);
    assert_eq!(s1.nb, 36);
    assert!(inv.get_slot(2).is_none());
    // merging tops off the partial slot first
    inv.add_item_to_inventory(voxelworld::items::ItemStack {
        item_id: ItemId::Dirt,
        item_type: ItemType::Block(BlockId::Dirt),
        nb: 30,
    });
    assert_eq!(inv.get_slot(1).unwrap().nb, 64);
    assert_eq!(inv.get_slot(2).unwrap().nb, 2);
}

#[test]
fn inventory_slot_arithmetic() {
    let mut inv = Inventory::new();
    let added = inv.add_item_to_stack(3, 70, ItemId::Sand, ItemType::Block(BlockId::Sand));
    assert_eq!(added, 64);
    assert_eq!(inv.get_slot(3).unwrap().nb, 64);
    let removed = inv.remove_item_from_stack(3, 60);
    assert_eq!(removed, 60);
    assert_eq!(inv.get_slot(3).unwrap().nb, 4);
    // removing more than the stack holds empties the slot entirely
    let removed_rest = inv.remove_item_from_stack(3, 10);
    assert_eq!(removed_rest, 4);
    assert!(inv.get_slot(3).is_none());
    assert_eq!(inv.remove_item_from_stack(3, 1), 0);
    assert_eq!(inv.len(), 36);
}

#[test]
fn biome_classification_thresholds() {
    assert_eq!(determine_biome(700, 600), BiomeType::Forest);
    assert_eq!(determine_biome(700, 400), BiomeType::Desert);
    assert_eq!(determine_biome(500, 800), BiomeType::FlowerPlains);
    assert_eq!(determine_biome(500, 600), BiomeType::Plains);
    assert_eq!(determine_biome(500, 300), BiomeType::MediumMountain);
    assert_eq!(determine_biome(100, 600), BiomeType::IcePlain);
    assert_eq!(determine_biome(100, 300), BiomeType::HighMountainGrass);
    let plains = get_biome_data(BiomeType::Plains);
    assert_eq!(plains.base_height, 64);
    assert_eq!(plains.surface_block, BlockId::Grass);
    let desert = get_biome_data(BiomeType::Desert);
    assert_eq!(desert.sub_surface_block, BlockId::Sand);
    assert_eq!(WorldSeed(42).0, 42);
}

#[test]
fn decoration_draws_are_deterministic() {
    let a = decor_rand(42, 10, -7, 3);
    let b = decor_rand(42, 10, -7, 3);
    assert_eq!(a, b);
    assert!(a < 1000);
    assert_eq!(decor_rand(7, 0, 0, 1), decor_rand(7, 0, 0, 1));
}

fn flat_climate() -> Vec<Vec<(i64, i64)>> {
    let mut grid = Vec::new();
    for _ in 0..24 {
        let mut row = Vec::new();
        for _ in 0..24 {
            row.push((500i64, 600i64));
        }
        grid.push(row);
    }
    grid
}

fn flat_terrain() -> Vec<Vec<i64>> {
    let mut grid = Vec::new();
    for _ in 0..16 {
        let mut row = Vec::new();
        for _ in 0..16 {
            row.push(0i64);
        }
        grid.push(row);
    }
    grid
}

fn chunks_equal(a: &ServerChunk, b: &ServerChunk) -> bool {
    if a.ts != b.ts || a.map.len() != b.map.len() {
        return false;
    }
    for k in a.map.keys() {
        match (a.map.get(&k), b.map.get(&k)) {
            (Some(x), Some(y)) => {
                if x != y {
                    return false;
                }
            }
            _ => return false,
        }
    }
    true
}

#[test]
fn generation_determinism() {
    let pos = IVec3 { x: 0, y: 0, z: 0 };
    let climate = flat_climate();
    let terrain = flat_terrain();
    let c1 = generate_chunk(pos, 42, &climate, &terrain);
    let c2 = generate_chunk(pos, 42, &climate, &terrain);
    assert!(chunks_equal(&c1, &c2));
    // the whole chunk is below the plains surface: every cell is filled
    assert_eq!(c1.map.len(), 16 * 16 * 16);
    let floor = c1.map.get(&IVec3 { x: 3, y: 0, z: 3 }).expect("world floor");
    assert_eq!(floor.id, BlockId::Bedrock);
    let deep = c1.map.get(&IVec3 { x: 3, y: 8, z: 3 }).expect("deep cell");
    assert_eq!(deep.id, BlockId::Stone);
}

#[test]
fn generation_surface_layers() {
    // plains ground height is 64: the chunk holding it gets the surface
    let pos = IVec3 { x: 0, y: 4, z: 0 };
    let climate = flat_climate();
    let terrain = flat_terrain();
    let c = generate_chunk(pos, 42, &climate, &terrain);
    let surface = c.map.get(&IVec3 { x: 5, y: 0, z: 5 }).expect("surface cell at y = 64");
    assert_eq!(surface.id, BlockId::Grass);
    assert!(c.map.get(&IVec3 { x: 5, y: 2, z: 5 }).is_none());
}

#[test]
fn generation_determinism_with_sampled_noise() {
    let seed = 42u32;
    let perlin = Perlin::new(seed);
    let temp = Perlin::new(seed + 1);
    let humid = Perlin::new(seed + 2);
    let mut climate = Vec::new();
    for gi in 0..24 {
        let mut row = Vec::new();
        for gj in 0..24 {
            let x = (gi - 4) as f64 * 0.01;
            let z = (gj - 4) as f64 * 0.01;
            let t = (((temp.get([x, z]) + 1.0) / 2.0) * 1000.0) as i64;
            let h = (((humid.get([x, z]) + 1.0) / 2.0) * 1000.0) as i64;
            row.push((t.clamp(0, 1000), h.clamp(0, 1000)));
        }
        climate.push(row);
    }
    let mut terrain = Vec::new();
    for gi in 0..16 {
        let mut row = Vec::new();
        for gj in 0..16 {
            let v = (perlin.get([gi as f64 * 0.1, gj as f64 * 0.1]) * 1000.0) as i64;
            row.push(v.clamp(-2000, 2000));
        }
        terrain.push(row);
    }
    let pos = IVec3 { x: 0, y: 0, z: 0 };
    let c1 = generate_chunk(pos, seed, &climate, &terrain);
    let c2 = generate_chunk(pos, seed, &climate, &terrain);
    assert!(chunks_equal(&c1, &c2));
    assert!(c1.map.len() > 0);
}

#[test]
fn replication_radius_filter() {
    let mut world = ServerWorldMap::empty("server".to_string());
    world.set_block(&IVec3 { x: 1, y: 1, z: 1 }, dirt());
    world.set_block(&IVec3 { x: 85, y: 1, z: 1 }, dirt());
    // the two blocks live in chunks (0,0,0) and (5,0,0)
    let client_chunk = IVec3 { x: 0, y: 0, z: 0 };
    let last_sent: PosMap<u64> = PosMap::new();
    let update = compute_world_update(&world, &client_chunk, 2, &last_sent);
    assert_eq!(update.new_map.len(), 1);
    let (pos, chunk) = &update.new_map[0];
    assert_eq!(*pos, IVec3 { x: 0, y: 0, z: 0 });
    assert!(chunk.map.get(&IVec3 { x: 1, y: 1, z: 1 }).is_some());
    for (p, _) in update.new_map.iter() {
        assert!(p.x.abs() <= 2 && p.z.abs() <= 2);
        assert!(*p != IVec3 { x: 5, y: 0, z: 0 });
    }
}

#[test]
fn replication_version_filter() {
    let mut world = ServerWorldMap::empty("server".to_string());
    world.set_block(&IVec3 { x: 1, y: 1, z: 1 }, dirt());
    let client_chunk = IVec3 { x: 0, y: 0, z: 0 };
    let mut last_sent: PosMap<u64> = PosMap::new();
    // already sent at the chunk's current version: nothing new to push
    last_sent.insert(IVec3 { x: 0, y: 0, z: 0 }, 7);
    let update = compute_world_update(&world, &client_chunk, 2, &last_sent);
    assert_eq!(update.new_map.len(), 0);
}

#[test]
fn client_merge_discards_out_of_radius_and_keeps_attachment() {
    let mut server = ServerWorldMap::empty("server".to_string());
    server.set_block(&IVec3 { x: 1, y: 1, z: 1 }, dirt());
    server.set_block(&IVec3 { x: 85, y: 1, z: 1 }, dirt());
    let mut client = ClientWorldMap::empty("client".to_string());
    // the client already mirrors chunk (0,0,0) with a render attachment
    client.set_block(&IVec3 { x: 2, y: 2, z: 2 }, dirt());
    if let Some(existing) = client.map.remove(&IVec3 { x: 0, y: 0, z: 0 }) {
        client.map.insert(
            IVec3 { x: 0, y: 0, z: 0 },
            voxelworld::world_map::ClientChunk { map: existing.map, entity: Some(99) },
        );
    }
    let all_chunks = compute_world_update(&server, &IVec3 { x: 0, y: 0, z: 0 }, 10, &PosMap::new());
    assert_eq!(all_chunks.new_map.len(), 2);
    let requests = apply_world_update(&mut client, all_chunks, &IVec3 { x: 0, y: 0, z: 0 }, 2);
    // only the in-radius chunk was merged and re-render requested
    assert_eq!(requests.len(), 1);
    assert_eq!(requests[0], IVec3 { x: 0, y: 0, z: 0 });
    assert!(client
        .get_block_by_coordinates(&IVec3 { x: 85, y: 1, z: 1 })
        .is_none());
    let merged = client.map.get(&IVec3 { x: 0, y: 0, z: 0 }).expect("merged chunk");
    assert_eq!(merged.entity, Some(99));
    assert!(merged.map.get(&IVec3 { x: 1, y: 1, z: 1 }).is_some());
}

#[test]
fn mob_walks_toward_fixed_target() {
    let world = ServerWorldMap::empty("server".to_string());
    let mut mob = ServerMob {
        id: 1,
        position: FxVec3 { x: 500, y: 500, z: 500 },
        velocity: FxVec3 { x: 0, y: 0, z: 0 },
        facing: FxVec3 { x: 0, y: 0, z: 1000 },
        target: MobTarget::Fixed(FxVec3 { x: 5500, y: 500, z: 500 }),
        action: MobAction::Walk,
        on_ground: true,
        width: 800,
        height: 1800,
        deepth: 800,
    };
    mob_behavior_step(&mut mob, &world, &Vec::new(), &Vec::new(), 1000);
    // one second of walking covers four blocks straight toward the target
    assert_eq!(mob.position.x, 4500);
    assert_eq!(mob.position.z, 500);
    assert_eq!(mob.action, MobAction::Walk);
}

#[test]
fn mob_with_no_target_stays_idle() {
    let world = ServerWorldMap::empty("server".to_string());
    let mut mob = ServerMob {
        id: 1,
        position: FxVec3 { x: 500, y: 500, z: 500 },
        velocity: FxVec3 { x: 0, y: 0, z: 0 },
        facing: FxVec3 { x: 0, y: 0, z: 1000 },
        target: MobTarget::Idle,
        action: MobAction::Walk,
        on_ground: true,
        width: 800,
        height: 1800,
        deepth: 800,
    };
    let before = mob;
    mob_behavior_step(&mut mob, &world, &Vec::new(), &Vec::new(), 1000);
    assert_eq!(mob, before);
}

#[test]
fn mob_tracks_player_by_id() {
    let world = ServerWorldMap::empty("server".to_string());
    let players = vec![(7u64, FxVec3 { x: 10_500, y: 500, z: 500 })];
    let mut mob = ServerMob {
        id: 1,
        position: FxVec3 { x: 500, y: 500, z: 500 },
        velocity: FxVec3 { x: 0, y: 0, z: 0 },
        facing: FxVec3 { x: 0, y: 0, z: 1000 },
        target: MobTarget::Player(7),
        action: MobAction::Walk,
        on_ground: true,
        width: 800,
        height: 1800,
        deepth: 800,
    };
    mob_behavior_step(&mut mob, &world, &players, &Vec::new(), 1000);
    assert!(mob.position.x > 500);
    // a dangling id keeps the mob where it stands
    let mut lost = mob;
    lost.target = MobTarget::Player(8);
    let before = lost.position;
    mob_behavior_step(&mut lost, &world, &players, &Vec::new(), 1000);
    assert_eq!(lost.position.x, before.x);
    assert_eq!(lost.position.z, before.z);
}

#[test]
fn channel_reliability_classes() {
    let channels = get_customized_default_channels();
    assert_eq!(channels.len(), 3);
    assert_eq!(channels[0].channel_id, 0);
    assert!(matches!(channels[0].send_type, ChannelSendType::Unreliable));
    assert!(matches!(
        channels[1].send_type,
        ChannelSendType::ReliableUnordered { resend_time_ms: 300 }
    ));
    assert!(matches!(
        channels[2].send_type,
        ChannelSendType::ReliableOrdered { resend_time_ms: 300 }
    ));
}

#[test]
fn posmap_basic_operations() {
    let mut m: PosMap<u64> = PosMap::new();
    assert!(m.is_empty());
    m.insert(IVec3 { x: 1, y: 2, z: 3 }, 10);
    m.insert(IVec3 { x: -1, y: -2, z: -3 }, 20);
    m.insert(IVec3 { x: 1, y: 2, z: 3 }, 11);
    assert_eq!(m.len(), 2);
    assert_eq!(m.get(&IVec3 { x: 1, y: 2, z: 3 }), Some(&11));
    assert!(m.contains_key(&IVec3 { x: -1, y: -2, z: -3 }));
    assert_eq!(m.remove(&IVec3 { x: 1, y: 2, z: 3 }), Some(11));
    assert!(m.get(&IVec3 { x: 1, y: 2, z: 3 }).is_none());
    assert_eq!(m.keys().len(), 1);
}

#[test]
fn server_events_apply_in_order() {
    let mut world = ServerWorldMap::empty("server".to_string());
    let p = IVec3 { x: 3, y: 4, z: 5 };
    let events = vec![
        BlockInteractionEvent { position: p, block_type: Some(dirt()) },
        BlockInteractionEvent {
            position: IVec3 { x: 3, y: 5, z: 5 },
            block_type: Some(dirt()),
        },
        BlockInteractionEvent { position: p, block_type: None },
    ];
    handle_block_interactions(&mut world, &events);
    assert!(world.get_block_by_coordinates(&p).is_none());
    assert!(world
        .get_block_by_coordinates(&IVec3 { x: 3, y: 5, z: 5 })
        .is_some());
    // the deleted dirt block spilled its drop into the world
    assert_eq!(world.item_stacks.len(), 1);
    assert_eq!(world.item_stacks[0].stack.item_id, ItemId::Dirt);
}

#[test]
fn writes_stamp_versions_and_flag_chunks() {
    let mut world = ServerWorldMap::empty("server".to_string());
    world.time = 5;
    world.set_block(&IVec3 { x: 1, y: 1, z: 1 }, dirt());
    // the write flagged the owning chunk and stamped it with the world time
    assert_eq!(world.chunks_to_update, vec![IVec3 { x: 0, y: 0, z: 0 }]);
    let mut last_sent: PosMap<u64> = PosMap::new();
    last_sent.insert(IVec3 { x: 0, y: 0, z: 0 }, 0);
    let update = compute_world_update(&world, &IVec3 { x: 0, y: 0, z: 0 }, 2, &last_sent);
    assert_eq!(update.new_map.len(), 1);
    assert_eq!(update.new_map[0].1.ts, 5);
    // a removal flags and stamps again
    world.time = 9;
    assert!(world
        .remove_block_by_coordinates(&IVec3 { x: 1, y: 1, z: 1 })
        .is_some());
    assert_eq!(world.chunks_to_update.len(), 2);
    // a failed removal leaves the store exactly as it was
    assert!(world
        .remove_block_by_coordinates(&IVec3 { x: 1, y: 1, z: 1 })
        .is_none());
    assert_eq!(world.chunks_to_update.len(), 2);
}

#[test]
fn mob_tick_steps_every_mob() {
    let mut world = ServerWorldMap::empty("server".to_string());
    let walker = ServerMob {
        id: 1,
        position: FxVec3 { x: 500, y: 500, z: 500 },
        velocity: FxVec3 { x: 0, y: 0, z: 0 },
        facing: FxVec3 { x: 0, y: 0, z: 1000 },
        target: MobTarget::Fixed(FxVec3 { x: 5500, y: 500, z: 500 }),
        action: MobAction::Walk,
        on_ground: true,
        width: 800,
        height: 1800,
        deepth: 800,
    };
    let idler = ServerMob { id: 2, target: MobTarget::Idle, ..walker };
    world.mobs.push(walker);
    world.mobs.push(idler);
    mob_behavior_tick(&mut world, 1000);
    assert_eq!(world.mobs.len(), 2);
    assert_eq!(world.mobs[0].position.x, 4500);
    assert_eq!(world.mobs[1], idler);
    assert_eq!(world.chunks_to_update.len(), 0);
}
