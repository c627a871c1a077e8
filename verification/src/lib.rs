//! Core engine for a multiplayer voxel-world sandbox: chunked block storage
//! and its coordinate algebra, voxel raycasting and collision queries, the
//! deterministic per-tick entity simulation, and the replication logic that
//! decides which chunks and entities each client receives.

use vstd::prelude::*;

pub mod blocks;
pub mod channels;
pub mod config;
pub mod coords;
pub mod drops;
pub mod fixed;
pub mod generation;
pub mod inventory;
pub mod items;
pub mod mob;
pub mod movement;
pub mod player;
pub mod player_blocks;
pub mod posmap;
pub mod raycast;
pub mod replication;
pub mod server_events;
pub mod simulation;
pub mod world_map;
pub mod collision;

verus! {

/// Side length of a cubic chunk, in blocks.
pub const CHUNK_SIZE: i32 = 16;

} // verus!
