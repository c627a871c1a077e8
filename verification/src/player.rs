//! Player state and per-frame input.

use vstd::prelude::*;
use crate::fixed::FxVec3;
use crate::inventory::Inventory;
use crate::raycast::ViewMode;
use crate::world_map::PlayerId;

verus! {

/// One action a client can hold pressed during a frame.
#[derive(Clone, Copy, Debug, PartialEq, Eq, Structural)]
pub enum NetworkAction {
    MoveForward,
    MoveRight,
    MoveBackward,
    MoveLeft,
    JumpOrFlyUp,
    SneakOrFlyDown,
    ToggleFlyMode,
    LeftClick,
    RightClick,
}

/// One frame of buffered player input, replayed identically on client and
/// server: the client's clock, the frame's duration, the held actions, the
/// camera's basis, and the client-predicted position (informational only).
#[derive(Clone, Debug)]
pub struct PlayerFrameInput {
    pub time_ms: u64,
    pub delta_ms: u64,
    pub inputs: Vec<NetworkAction>,
    /// Camera forward projected onto the ground plane.
    pub camera_forward: FxVec3,
    /// Camera right projected onto the ground plane.
    pub camera_right: FxVec3,
    /// Full camera look direction, for targeting rays.
    pub camera_direction: FxVec3,
    /// Camera eye position, the first-person ray origin.
    pub camera_position: FxVec3,
    pub view_mode: ViewMode,
    pub hotbar_slot: u32,
    pub position: FxVec3,
}

impl PlayerFrameInput {
    /// Whether this frame holds `action` pressed.
    pub fn is_pressed(&self, action: NetworkAction) -> (r: bool)
        ensures
            r == self.inputs@.contains(action),
    {
        let n = self.inputs.len();
        let mut i: usize = 0;
        while i < n
            invariant
                i <= n,
                n == self.inputs@.len(),
                forall|j: int| 0 <= j < i ==> self.inputs@[j] != action,
            decreases n - i,
        {
            if self.inputs[i] == action {
                return true;
            }
            i = i + 1;
        }
        false
    }
}

/// A player entity: authoritative on the server, predicted on the client.
#[derive(Clone, Debug)]
pub struct Player {
    pub id: PlayerId,
    pub name: String,
    pub position: FxVec3,
    /// Current camera look direction (authoritative snap from input).
    pub camera_direction: FxVec3,
    pub velocity: FxVec3,
    pub on_ground: bool,
    pub is_flying: bool,
    pub inventory: Inventory,
    pub height: i64,
    pub width: i64,
    /// Timestamp of the newest input frame already applied, to reject
    /// stale or duplicate frames on replay.
    pub last_input_processed: u64,
}

impl Player {
    /// A freshly joined player standing on the ground.
    pub fn new(id: PlayerId, name: String, position: FxVec3, camera_direction: FxVec3) -> (p: Self)
        ensures
            p.id == id,
            p.name == name,
            p.position == position,
            p.camera_direction == camera_direction,
            p.velocity == (FxVec3 { x: 0, y: 0, z: 0 }),
            p.on_ground,
            !p.is_flying,
            p.inventory@.len() == crate::inventory::MAX_INVENTORY_SLOTS,
            forall|i: int| 0 <= i < p.inventory@.len() ==> #[trigger] p.inventory@[i] is None,
            p.height == 1800,
            p.width == 800,
            p.last_input_processed == 0,
    {
        Player {
            id,
            name,
            position,
            camera_direction,
            velocity: FxVec3 { x: 0, y: 0, z: 0 },
            on_ground: true,
            is_flying: false,
            inventory: Inventory::new(),
            height: 1800,
            width: 800,
            last_input_processed: 0,
        }
    }

    /// Flip flying mode and drop all momentum.
    pub fn toggle_fly_mode(&mut self)
        ensures
            *final(self) == (Player {
                is_flying: !old(self).is_flying,
                velocity: FxVec3 { x: 0, y: 0, z: 0 },
                ..*old(self)
            }),
    {
        self.is_flying = !self.is_flying;
        self.velocity = FxVec3 { x: 0, y: 0, z: 0 };
    }
}

impl Default for Player {
    /// The placeholder player used before a spawn event fills in real data.
    fn default() -> (p: Self)
        ensures
            p.id == 0 && p.position == (FxVec3 { x: 0, y: 0, z: 0 }) && p.on_ground && !p.is_flying
                && p.velocity == (FxVec3 { x: 0, y: 0, z: 0 }) && p.height == 1800 && p.width == 800
                && p.last_input_processed == 0,
    {
        Player::new(
            0,
            "Default".to_string(),
            FxVec3 { x: 0, y: 0, z: 0 },
            FxVec3 { x: 0, y: 0, z: -1000 },
        )
    }
}

} // verus!
