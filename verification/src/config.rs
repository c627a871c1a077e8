//! Startup configuration data and the marker trait shared by the game's
//! id-like enums.

use vstd::prelude::*;
use crate::world_map::PlayerId;

verus! {

/// Where a game's folders live on disk (the paths themselves; all file
/// handling happens outside this crate).
#[derive(Clone, Debug)]
pub struct GameFolderPaths {
    pub game_folder_path: String,
    pub assets_folder_path: String,
}

/// A free-form switch handed through from the command line.
#[derive(Clone, Debug)]
pub struct SpecialFlag {
    pub special_flag: bool,
}

/// What a server was started with.
#[derive(Debug)]
pub struct GameServerConfig {
    pub world_name: String,
    pub is_solo: bool,
}

/// A player known to the server lobby, who may not have joined the world.
#[derive(Debug)]
pub struct LobbyPlayer {
    pub name: String,
}

impl LobbyPlayer {
    pub fn new(name: String) -> (p: Self)
        ensures
            p.name == name,
    {
        Self { name }
    }
}

/// Players connected to the server, in or out of the game world.
#[derive(Debug)]
pub struct ServerLobby {
    pub players: Vec<(PlayerId, LobbyPlayer)>,
}

impl Default for ServerLobby {
    fn default() -> (l: Self)
        ensures
            l.players@.len() == 0,
    {
        ServerLobby { players: Vec::new() }
    }
}

/// Fixed number of authoritative simulation ticks per second.
pub const TICKS_PER_SECOND: u64 = 20;

/// Marker trait of the numerical enums serving as unique ids for game
/// elements, as item and block kinds do.
pub trait GameElementId: core::hash::Hash + Eq + PartialEq + Copy + Clone + core::default::Default + core::fmt::Debug {

}

impl GameElementId for crate::blocks::BlockId {

}

impl GameElementId for crate::items::ItemId {

}

} // verus!
