//! Block interaction: breaking (progress accumulates until the kind's break
//! time, then the block is removed and its drops go to the inventory) and
//! placement (on the targeted face's neighbor cell, rejected when the cell
//! is occupied, out of reach, colliding with the actor, or the selected
//! hotbar slot holds nothing placeable). A rejected action changes nothing.

use vstd::prelude::*;
use crate::blocks::{spec_break_time, BlockData, BlockDirection, BlockId};
use crate::coords::IVec3;
use crate::drops::{
    break_draw, drops_from_draws, spec_break_drops, spec_drop_table, spec_total_weight,
    total_weight,
};
use crate::fixed::FxVec3;
use crate::inventory::{spec_pour_all, MAX_INVENTORY_SLOTS};
use crate::items::{ItemId, ItemStack, ItemType};
use crate::movement::spec_entity_pos_ok;
use crate::player::{NetworkAction, Player, PlayerFrameInput};
use crate::raycast::{
    raycast, spec_dir_ok, spec_face_offset, spec_origin_ok, spec_raycast, spec_view_origin,
    FaceDirectionExt,
};
use crate::world_map::WorldMap;

verus! {

/// Which side of the connection runs the interaction, for diagnostics.
#[derive(Clone, Copy, Debug, PartialEq, Eq, Structural)]
pub enum CallerType {
    Client,
    Server,
}

impl CallerType {
    /// Diagnostic tag of this side.
    pub fn as_str(&self) -> (r: &'static str)
        ensures
            r@ == if *self is Client {
                "[CLIENT]"@
            } else {
                "[SERVER]"@
            },
    {
        match self {
            CallerType::Client => "[CLIENT]",
            CallerType::Server => "[SERVER]",
        }
    }
}

/// Farthest distance (squared, in milli-blocks) at which a player may
/// interact with a block: five blocks.
pub const INTERACTION_DISTANCE_SQ: i128 = 25_000_000;

/// Squared distance from a player to the center of a block cell.
pub open spec fn spec_dist2_to_block_center(block_pos: IVec3, p: FxVec3) -> int {
    let dx = block_pos.x * 1000 + 500 - p.x;
    let dy = block_pos.y * 1000 + 500 - p.y;
    let dz = block_pos.z * 1000 + 500 - p.z;
    dx * dx + dy * dy + dz * dz
}

/// Breaking progress after one more break action (saturating at the top of
/// the counter).
pub open spec fn spec_next_progress(b: BlockData) -> int {
    if b.breaking_progress == i32::MAX {
        i32::MAX as int
    } else {
        b.breaking_progress + 1
    }
}

/// The block a break action lands on: the first block the view ray hits,
/// if it lies within interaction distance and is really present.
pub open spec fn spec_break_target(
    blocks: Map<IVec3, BlockData>,
    action: PlayerFrameInput,
    player_pos: FxVec3,
) -> Option<IVec3> {
    match spec_raycast(
        blocks,
        spec_view_origin(action.view_mode, action.camera_position, player_pos),
        action.camera_direction,
    ) {
        Some(r) => {
            if spec_dist2_to_block_center(r.position, player_pos) > INTERACTION_DISTANCE_SQ
                as int {
                None
            } else if !blocks.contains_key(r.position) {
                None
            } else {
                Some(r.position)
            }
        },
        None => None,
    }
}

/// One break action's world and inventory transition: a miss or an
/// out-of-reach or absent target changes nothing; short of the break time
/// the target's progress rises by exactly one; at the break time the block
/// is removed exactly once and its deterministically drawn drop — a pure
/// function of the frame's timestamp and the block position, identical on
/// server and client — is poured into the inventory.
pub open spec fn spec_break_transition(
    blocks0: Map<IVec3, BlockData>,
    inv0: Seq<Option<ItemStack>>,
    blocks1: Map<IVec3, BlockData>,
    inv1: Seq<Option<ItemStack>>,
    action: PlayerFrameInput,
    player_pos: FxVec3,
) -> bool {
    match spec_break_target(blocks0, action, player_pos) {
        None => blocks1 == blocks0 && inv1 == inv0,
        Some(pos) => {
            let b = blocks0[pos];
            if spec_next_progress(b) >= spec_break_time(b.id) {
                &&& blocks1 == blocks0.remove(pos)
                &&& inv1 == spec_pour_all(inv0, spec_break_drops(b.id, action.time_ms, pos))
            } else {
                &&& blocks1 == blocks0.insert(
                    pos,
                    BlockData { breaking_progress: spec_next_progress(b) as i32, ..b },
                )
                &&& inv1 == inv0
            }
        },
    }
}

/// Exact squared distance from the player to a block's center.
fn dist2_to_block_center(block_pos: &IVec3, p: &FxVec3) -> (d2: i128)
    requires
        spec_entity_pos_ok(*p),
    ensures
        d2 as int == spec_dist2_to_block_center(*block_pos, *p),
{
    let dx: i128 = (block_pos.x as i128) * 1000 + 500 - (p.x as i128);
    let dy: i128 = (block_pos.y as i128) * 1000 + 500 - (p.y as i128);
    let dz: i128 = (block_pos.z as i128) * 1000 + 500 - (p.z as i128);
    proof {
        assert(0 <= dx * dx <= 0x1000_0000_0000_0000_0000_0000_0000 && 0 <= dy * dy
            <= 0x1000_0000_0000_0000_0000_0000_0000 && 0 <= dz * dz
            <= 0x1000_0000_0000_0000_0000_0000_0000) by (nonlinear_arith)
            requires
                -4_000_000_000_000 <= dx <= 4_000_000_000_000,
                -4_000_000_000_000 <= dy <= 4_000_000_000_000,
                -4_000_000_000_000 <= dz <= 4_000_000_000_000,
        ;
    }
    dx * dx + dy * dy + dz * dz
}

/// One break action: advance the targeted block's breaking progress; at the
/// kind's break time the block is removed — exactly once — and its
/// deterministically drawn drops are poured into the actor's inventory, the
/// same on server and client. A miss, an out-of-reach target or an
/// already-removed block changes nothing. Progress rises by one per action,
/// never more.
#[verifier::loop_isolation(false)]
pub fn handle_block_breaking<W: WorldMap>(
    player: &mut Player,
    world_map: &mut W,
    action: &PlayerFrameInput,
    _caller_type: CallerType,
)
    requires
        spec_entity_pos_ok(old(player).position),
        spec_origin_ok(action.camera_position),
        spec_dir_ok(action.camera_direction),
    ensures
        final(player).position == old(player).position,
        final(player).velocity == old(player).velocity,
        final(player).camera_direction == old(player).camera_direction,
        final(player).inventory@.len() == old(player).inventory@.len(),
        final(player).width == old(player).width,
        final(player).height == old(player).height,
        final(player).on_ground == old(player).on_ground,
        final(player).is_flying == old(player).is_flying,
        final(player).id == old(player).id,
        final(player).name == old(player).name,
        final(player).last_input_processed == old(player).last_input_processed,
        spec_break_transition(
            old(world_map).blocks(),
            old(player).inventory@,
            final(world_map).blocks(),
            final(player).inventory@,
            *action,
            old(player).position,
        ),
        // a break action flags the touched chunk for replication; a no-op
        // leaves the queue alone
        match spec_break_target(old(world_map).blocks(), *action, old(player).position) {
            None => final(world_map).update_queue() == old(world_map).update_queue(),
            Some(pos) => W::tracks_updates() ==> final(world_map).update_queue() == old(world_map).update_queue().push(crate::coords::spec_chunk_pos(pos)),
        },
{
    let ray = raycast(
        world_map,
        &action.camera_position,
        &action.camera_direction,
        &player.position,
        action.view_mode,
    );
    let response = match ray {
        Some(r) => r,
        None => {
            return ;
        },
    };
    let block_pos = response.position;
    let d2 = dist2_to_block_center(&block_pos, &player.position);
    if d2 > INTERACTION_DISTANCE_SQ {
        return ;
    }
    let block = match world_map.get_block_by_coordinates(&block_pos) {
        Some(b) => *b,
        None => {
            return ;
        },
    };
    let progress: i32 = if block.breaking_progress == i32::MAX {
        i32::MAX
    } else {
        block.breaking_progress + 1
    };
    let destroyed = {
        let break_time = block.id.get_break_time();
        progress >= break_time
    };
    if destroyed {
        world_map.remove_block_by_coordinates(&block_pos);
        let table = block.id.get_drop_table();
        proof {
            let t = spec_drop_table(block.id);
            assert(t.len() <= 1);
            if t.len() == 1 {
                assert(t.skip(1) =~= Seq::<crate::drops::DropRow>::empty());
                assert(spec_total_weight(t.skip(1)) == 0);
                assert(spec_total_weight(t) == t[0].0);
            } else {
                assert(spec_total_weight(t) == 0);
            }
            assert(0 <= spec_total_weight(t) <= u32::MAX);
        }
        let total = total_weight(&table);
        let drops: Vec<(ItemId, u32)> = if total == 0 {
            Vec::new()
        } else {
            let draw = (break_draw(action.time_ms, &block_pos) % (total as u64)) as u32;
            let draws = vec![draw];
            drops_from_draws(&table, &draws)
        };
        proof {
            assert(drops@ =~= spec_break_drops(block.id, action.time_ms, block_pos));
        }
        let ghost inv0 = player.inventory@;
        let n = drops.len();
        let mut i: usize = 0;
        proof {
            assert(drops@.skip(0) =~= drops@);
        }
        while i < n
            invariant
                i <= n,
                n == drops@.len(),
                player.position == old(player).position,
                player.velocity == old(player).velocity,
                player.camera_direction == old(player).camera_direction,
                player.inventory@.len() == old(player).inventory@.len(),
                player.width == old(player).width,
                player.height == old(player).height,
                player.on_ground == old(player).on_ground,
                player.is_flying == old(player).is_flying,
                player.id == old(player).id,
                player.name == old(player).name,
                player.last_input_processed == old(player).last_input_processed,
                spec_pour_all(player.inventory@, drops@.skip(i as int)) == spec_pour_all(
                    inv0,
                    drops@,
                ),
            decreases n - i,
        {
            let (item_id, nb) = drops[i];
            let item_type = item_id.get_default_type();
            proof {
                assert(drops@.skip(i as int)[0] == drops@[i as int]);
                assert(drops@.skip(i as int).skip(1) =~= drops@.skip(i as int + 1));
            }
            player.inventory.add_item_to_inventory(ItemStack { item_id, item_type, nb });
            i = i + 1;
        }
        proof {
            assert(drops@.skip(n as int) =~= Seq::<(ItemId, u32)>::empty());
            assert(player.inventory@ == spec_pour_all(inv0, drops@));
        }
    } else {
        world_map.set_block(
            &block_pos,
            BlockData {
                id: block.id,
                flipped: block.flipped,
                direction: block.direction,
                breaking_progress: progress,
            },
        );
    }
}

/// What a place action would commit: the neighbor cell of the targeted
/// face, and the block the selected hotbar slot places — or nothing, when
/// any rejection fires (no target, out of reach, cell occupied, the new
/// block would overlap the actor, bad slot, or nothing placeable held).
pub open spec fn spec_place_decision(
    blocks: Map<IVec3, BlockData>,
    action: PlayerFrameInput,
    player_pos: FxVec3,
    width: i64,
    height: i64,
    inv: Seq<Option<ItemStack>>,
) -> Option<(IVec3, BlockId)> {
    match spec_raycast(
        blocks,
        spec_view_origin(action.view_mode, action.camera_position, player_pos),
        action.camera_direction,
    ) {
        None => None,
        Some(r) => {
            let face = spec_face_offset(r.face);
            let tx = r.position.x + face.x;
            let ty = r.position.y + face.y;
            let tz = r.position.z + face.z;
            if !(i32::MIN <= tx <= i32::MAX && i32::MIN <= ty <= i32::MAX && i32::MIN <= tz
                <= i32::MAX) {
                None
            } else {
                let target = IVec3 { x: tx as i32, y: ty as i32, z: tz as i32 };
                if spec_dist2_to_block_center(r.position, player_pos)
                    > INTERACTION_DISTANCE_SQ as int {
                    None
                } else if blocks.contains_key(target) {
                    None
                } else if spec_placement_overlaps_player(target, player_pos, width, height) {
                    None
                } else if action.hotbar_slot >= MAX_INVENTORY_SLOTS || action.hotbar_slot as int
                    >= inv.len() {
                    None
                } else {
                    match inv[action.hotbar_slot as int] {
                        Some(item) => match item.item_type {
                            ItemType::Block(block_id) => Some((target, block_id)),
                            ItemType::Miscellaneous => None,
                        },
                        None => None,
                    }
                }
            }
        },
    }
}

/// One place action's allowed world and inventory transition: a rejection
/// changes nothing; a commit writes the placed block and consumes one item
/// from the selected hotbar slot.
pub open spec fn spec_place_transition(
    blocks0: Map<IVec3, BlockData>,
    inv0: Seq<Option<ItemStack>>,
    blocks1: Map<IVec3, BlockData>,
    inv1: Seq<Option<ItemStack>>,
    action: PlayerFrameInput,
    player_pos: FxVec3,
    width: i64,
    height: i64,
) -> bool {
    match spec_place_decision(blocks0, action, player_pos, width, height, inv0) {
        None => blocks1 == blocks0 && inv1 == inv0,
        Some((target, block_id)) => {
            &&& blocks1 == blocks0.insert(
                target,
                BlockData {
                    id: block_id,
                    flipped: false,
                    direction: BlockDirection::Front,
                    breaking_progress: 0,
                },
            )
            &&& inv1.len() == inv0.len()
            &&& (forall|j: int|
                0 <= j < inv0.len() && j != action.hotbar_slot as int ==> inv1[j] == #[trigger] inv0[j])
            &&& inv1[action.hotbar_slot as int] == match inv0[action.hotbar_slot as int] {
                Some(item) => if item.nb <= 1 {
                    None::<ItemStack>
                } else {
                    Some(ItemStack { nb: (item.nb - 1) as u32, ..item })
                },
                None => None::<ItemStack>,
            }
        },
    }
}

/// Whether a block filling `target` would overlap the actor's own box.
pub open spec fn spec_placement_overlaps_player(
    target: IVec3,
    player_pos: FxVec3,
    width: i64,
    height: i64,
) -> bool {
    let cx = target.x * 1000 + 500;
    let cy = target.y * 1000 + 500;
    let cz = target.z * 1000 + 500;
    let adx = if player_pos.x - cx >= 0 {
        player_pos.x - cx
    } else {
        cx - player_pos.x
    };
    let ady = if player_pos.y - cy >= 0 {
        player_pos.y - cy
    } else {
        cy - player_pos.y
    };
    let adz = if player_pos.z - cz >= 0 {
        player_pos.z - cz
    } else {
        cz - player_pos.z
    };
    !(adx > (1000 + width) / 2 || adz > (1000 + width) / 2 || ady > (1000 + height) / 2)
}

/// One place action: the selected hotbar item, if it places a block, is
/// consumed and written to the cell adjacent to the targeted face — unless
/// the cell is occupied, out of reach, would overlap the actor, or the slot
/// holds nothing placeable; every rejection leaves world and inventory
/// exactly as they were.
pub fn handle_block_placement<W: WorldMap>(
    player: &mut Player,
    world_map: &mut W,
    action: &PlayerFrameInput,
    _caller_type: CallerType,
)
    requires
        spec_entity_pos_ok(old(player).position),
        spec_origin_ok(action.camera_position),
        spec_dir_ok(action.camera_direction),
        0 <= old(player).width <= 10_000,
        0 <= old(player).height <= 10_000,
    ensures
        final(player).position == old(player).position,
        final(player).velocity == old(player).velocity,
        final(player).camera_direction == old(player).camera_direction,
        final(player).inventory@.len() == old(player).inventory@.len(),
        final(player).width == old(player).width,
        final(player).height == old(player).height,
        final(player).on_ground == old(player).on_ground,
        final(player).is_flying == old(player).is_flying,
        final(player).id == old(player).id,
        final(player).name == old(player).name,
        final(player).last_input_processed == old(player).last_input_processed,
        spec_place_transition(
            old(world_map).blocks(),
            old(player).inventory@,
            final(world_map).blocks(),
            final(player).inventory@,
            *action,
            old(player).position,
            old(player).width,
            old(player).height,
        ),
        // a committed placement flags the touched chunk for replication; a
        // rejection leaves the queue alone
        match spec_place_decision(
            old(world_map).blocks(),
            *action,
            old(player).position,
            old(player).width,
            old(player).height,
            old(player).inventory@,
        ) {
            None => final(world_map).update_queue() == old(world_map).update_queue(),
            Some((target, block_id)) => W::tracks_updates() ==> final(world_map).update_queue()
                == old(world_map).update_queue().push(crate::coords::spec_chunk_pos(target)),
        },
{
    let ray = raycast(
        world_map,
        &action.camera_position,
        &action.camera_direction,
        &player.position,
        action.view_mode,
    );
    let response = match ray {
        Some(r) => r,
        None => {
            return ;
        },
    };
    let collision_pos = response.position;
    let face = response.face.to_ivec3();
    let tx: i64 = collision_pos.x as i64 + face.x as i64;
    let ty: i64 = collision_pos.y as i64 + face.y as i64;
    let tz: i64 = collision_pos.z as i64 + face.z as i64;
    if tx < i32::MIN as i64 || tx > i32::MAX as i64 || ty < i32::MIN as i64 || ty > i32::MAX as i64
        || tz < i32::MIN as i64 || tz > i32::MAX as i64 {
        return ;
    }
    let target = IVec3::new(tx as i32, ty as i32, tz as i32);
    let d2 = dist2_to_block_center(&collision_pos, &player.position);
    if d2 > INTERACTION_DISTANCE_SQ {
        return ;
    }
    if matches!(world_map.get_block_by_coordinates(&target), Some(_)) {
        return ;
    }
    if placement_overlaps_player(&target, player) {
        return ;
    }
    let inventory_slot = action.hotbar_slot;
    if inventory_slot >= MAX_INVENTORY_SLOTS {
        return ;
    }
    if (inventory_slot as usize) >= player.inventory.len() {
        return ;
    }
    let item = match player.inventory.get_slot(inventory_slot) {
        Some(item) => item,
        None => {
            return ;
        },
    };
    match item.item_type {
        ItemType::Block(block_id) => {
            player.inventory.remove_item_from_stack(inventory_slot, 1);
            let block = BlockData::new(block_id, false, BlockDirection::Front);
            world_map.set_block(&target, block);
        },
        ItemType::Miscellaneous => {},
    }
}

/// Executable form of [`spec_placement_overlaps_player`].
fn placement_overlaps_player(target: &IVec3, player: &Player) -> (r: bool)
    requires
        spec_entity_pos_ok(player.position),
        0 <= player.width <= 10_000,
        0 <= player.height <= 10_000,
    ensures
        r == spec_placement_overlaps_player(
            *target,
            player.position,
            player.width,
            player.height,
        ),
{
    let cx: i64 = target.x as i64 * 1000 + 500;
    let cy: i64 = target.y as i64 * 1000 + 500;
    let cz: i64 = target.z as i64 * 1000 + 500;
    let adx: i64 = if player.position.x - cx >= 0 {
        player.position.x - cx
    } else {
        cx - player.position.x
    };
    let ady: i64 = if player.position.y - cy >= 0 {
        player.position.y - cy
    } else {
        cy - player.position.y
    };
    let adz: i64 = if player.position.z - cz >= 0 {
        player.position.z - cz
    } else {
        cz - player.position.z
    };
    !(adx > (1000 + player.width) / 2 || adz > (1000 + player.width) / 2 || ady > (1000
        + player.height) / 2)
}

/// One input action's allowed world and inventory transition at the click
/// dispatcher: a left click breaks, a right click places, anything else
/// changes nothing.
pub open spec fn spec_click_transition(
    blocks0: Map<IVec3, BlockData>,
    inv0: Seq<Option<ItemStack>>,
    blocks1: Map<IVec3, BlockData>,
    inv1: Seq<Option<ItemStack>>,
    action: PlayerFrameInput,
    act: NetworkAction,
    player_pos: FxVec3,
    width: i64,
    height: i64,
) -> bool {
    match act {
        NetworkAction::LeftClick => spec_break_transition(
            blocks0,
            inv0,
            blocks1,
            inv1,
            action,
            player_pos,
        ),
        NetworkAction::RightClick => spec_place_transition(
            blocks0,
            inv0,
            blocks1,
            inv1,
            action,
            player_pos,
            width,
            height,
        ),
        _ => blocks1 == blocks0 && inv1 == inv0,
    }
}

/// The composed effect of a frame's click actions, in order: a chain of
/// states, each pair linked by one action's transition.
pub open spec fn spec_clicks_chain(
    blocks0: Map<IVec3, BlockData>,
    inv0: Seq<Option<ItemStack>>,
    blocks1: Map<IVec3, BlockData>,
    inv1: Seq<Option<ItemStack>>,
    action: PlayerFrameInput,
    inputs: Seq<NetworkAction>,
    player_pos: FxVec3,
    width: i64,
    height: i64,
) -> bool
    decreases inputs.len(),
{
    if inputs.len() == 0 {
        blocks1 == blocks0 && inv1 == inv0
    } else {
        exists|bm: Map<IVec3, BlockData>, im: Seq<Option<ItemStack>>|
            spec_click_transition(blocks0, inv0, bm, im, action, inputs[0], player_pos, width, height)
                && spec_clicks_chain(
                bm,
                im,
                blocks1,
                inv1,
                action,
                inputs.skip(1),
                player_pos,
                width,
                height,
            )
    }
}

/// A chain followed by one more transition is a chain over the extended
/// action sequence.
proof fn lemma_clicks_chain_snoc(
    blocks0: Map<IVec3, BlockData>,
    inv0: Seq<Option<ItemStack>>,
    blocks1: Map<IVec3, BlockData>,
    inv1: Seq<Option<ItemStack>>,
    blocks2: Map<IVec3, BlockData>,
    inv2: Seq<Option<ItemStack>>,
    action: PlayerFrameInput,
    inputs: Seq<NetworkAction>,
    act: NetworkAction,
    player_pos: FxVec3,
    width: i64,
    height: i64,
)
    requires
        spec_clicks_chain(blocks0, inv0, blocks1, inv1, action, inputs, player_pos, width, height),
        spec_click_transition(blocks1, inv1, blocks2, inv2, action, act, player_pos, width, height),
    ensures
        spec_clicks_chain(
            blocks0,
            inv0,
            blocks2,
            inv2,
            action,
            inputs.push(act),
            player_pos,
            width,
            height,
        ),
    decreases inputs.len(),
{
    if inputs.len() == 0 {
        assert(inputs.push(act)[0] == act);
        assert(inputs.push(act).skip(1) =~= Seq::<NetworkAction>::empty());
        assert(spec_click_transition(
            blocks0,
            inv0,
            blocks2,
            inv2,
            action,
            act,
            player_pos,
            width,
            height,
        ));
        assert(spec_clicks_chain(
            blocks2,
            inv2,
            blocks2,
            inv2,
            action,
            inputs.push(act).skip(1),
            player_pos,
            width,
            height,
        ));
    } else {
        let (bm, im): (Map<IVec3, BlockData>, Seq<Option<ItemStack>>) = choose|
            bm: Map<IVec3, BlockData>,
            im: Seq<Option<ItemStack>>,
        |
            spec_click_transition(blocks0, inv0, bm, im, action, inputs[0], player_pos, width, height)
                && spec_clicks_chain(
                bm,
                im,
                blocks1,
                inv1,
                action,
                inputs.skip(1),
                player_pos,
                width,
                height,
            );
        lemma_clicks_chain_snoc(
            bm,
            im,
            blocks1,
            inv1,
            blocks2,
            inv2,
            action,
            inputs.skip(1),
            act,
            player_pos,
            width,
            height,
        );
        assert(inputs.push(act)[0] == inputs[0]);
        assert(inputs.push(act).skip(1) =~= inputs.skip(1).push(act));
        assert(spec_click_transition(
            blocks0,
            inv0,
            bm,
            im,
            action,
            inputs.push(act)[0],
            player_pos,
            width,
            height,
        ));
        assert(spec_clicks_chain(
            bm,
            im,
            blocks2,
            inv2,
            action,
            inputs.push(act).skip(1),
            player_pos,
            width,
            height,
        ));
    }
}

/// Click transitions are functional: from one starting world and inventory,
/// an action admits exactly one outcome.
pub proof fn lemma_click_transition_functional(
    blocks0: Map<IVec3, BlockData>,
    inv0: Seq<Option<ItemStack>>,
    blocks1: Map<IVec3, BlockData>,
    inv1: Seq<Option<ItemStack>>,
    blocks2: Map<IVec3, BlockData>,
    inv2: Seq<Option<ItemStack>>,
    action: PlayerFrameInput,
    act: NetworkAction,
    player_pos: FxVec3,
    width: i64,
    height: i64,
)
    requires
        spec_click_transition(blocks0, inv0, blocks1, inv1, action, act, player_pos, width, height),
        spec_click_transition(blocks0, inv0, blocks2, inv2, action, act, player_pos, width, height),
    ensures
        blocks1 == blocks2,
        inv1 == inv2,
{
    if act == NetworkAction::RightClick {
        match spec_place_decision(blocks0, action, player_pos, width, height, inv0) {
            None => {},
            Some((target, block_id)) => {
                assert forall|j: int| 0 <= j < inv1.len() implies inv1[j] == inv2[j] by {
                    if j != action.hotbar_slot as int {
                        assert(inv1[j] == inv0[j]);
                        assert(inv2[j] == inv0[j]);
                    }
                }
                assert(inv1 =~= inv2);
            },
        }
    }
}

/// Click chains are functional: one input frame admits exactly one final
/// world and inventory from a given start.
pub proof fn lemma_clicks_chain_functional(
    blocks0: Map<IVec3, BlockData>,
    inv0: Seq<Option<ItemStack>>,
    blocks1: Map<IVec3, BlockData>,
    inv1: Seq<Option<ItemStack>>,
    blocks2: Map<IVec3, BlockData>,
    inv2: Seq<Option<ItemStack>>,
    action: PlayerFrameInput,
    inputs: Seq<NetworkAction>,
    player_pos: FxVec3,
    width: i64,
    height: i64,
)
    requires
        spec_clicks_chain(blocks0, inv0, blocks1, inv1, action, inputs, player_pos, width, height),
        spec_clicks_chain(blocks0, inv0, blocks2, inv2, action, inputs, player_pos, width, height),
    ensures
        blocks1 == blocks2,
        inv1 == inv2,
    decreases inputs.len(),
{
    if inputs.len() > 0 {
        let (bm1, im1): (Map<IVec3, BlockData>, Seq<Option<ItemStack>>) = choose|
            bm: Map<IVec3, BlockData>,
            im: Seq<Option<ItemStack>>,
        |
            spec_click_transition(blocks0, inv0, bm, im, action, inputs[0], player_pos, width, height)
                && spec_clicks_chain(
                bm,
                im,
                blocks1,
                inv1,
                action,
                inputs.skip(1),
                player_pos,
                width,
                height,
            );
        let (bm2, im2): (Map<IVec3, BlockData>, Seq<Option<ItemStack>>) = choose|
            bm: Map<IVec3, BlockData>,
            im: Seq<Option<ItemStack>>,
        |
            spec_click_transition(blocks0, inv0, bm, im, action, inputs[0], player_pos, width, height)
                && spec_clicks_chain(
                bm,
                im,
                blocks2,
                inv2,
                action,
                inputs.skip(1),
                player_pos,
                width,
                height,
            );
        lemma_click_transition_functional(
            blocks0,
            inv0,
            bm1,
            im1,
            bm2,
            im2,
            action,
            inputs[0],
            player_pos,
            width,
            height,
        );
        lemma_clicks_chain_functional(
            bm1,
            im1,
            blocks1,
            inv1,
            blocks2,
            inv2,
            action,
            inputs.skip(1),
            player_pos,
            width,
            height,
        );
    }
}

/// Dispatch the click actions of one input frame: a left click breaks, a
/// right click places. A frame with neither click changes nothing.
#[verifier::loop_isolation(false)]
pub fn simulate_player_block_interactions<W: WorldMap>(
    player: &mut Player,
    world_map: &mut W,
    action: &PlayerFrameInput,
    caller_type: CallerType,
)
    requires
        spec_entity_pos_ok(old(player).position),
        spec_origin_ok(action.camera_position),
        spec_dir_ok(action.camera_direction),
        0 <= old(player).width <= 10_000,
        0 <= old(player).height <= 10_000,
    ensures
        final(player).position == old(player).position,
        final(player).velocity == old(player).velocity,
        final(player).camera_direction == old(player).camera_direction,
        final(player).width == old(player).width,
        final(player).height == old(player).height,
        final(player).on_ground == old(player).on_ground,
        final(player).is_flying == old(player).is_flying,
        final(player).id == old(player).id,
        final(player).name == old(player).name,
        final(player).last_input_processed == old(player).last_input_processed,
        spec_clicks_chain(
            old(world_map).blocks(),
            old(player).inventory@,
            final(world_map).blocks(),
            final(player).inventory@,
            *action,
            action.inputs@,
            old(player).position,
            old(player).width,
            old(player).height,
        ),
        !action.inputs@.contains(NetworkAction::LeftClick) && !action.inputs@.contains(
            NetworkAction::RightClick,
        ) ==> final(world_map).blocks() == old(world_map).blocks() && final(player).inventory@
            == old(player).inventory@,
{
    let ghost blocks0 = world_map.blocks();
    let ghost inv0 = player.inventory@;
    let n = action.inputs.len();
    let mut i: usize = 0;
    proof {
        assert(action.inputs@.take(0) =~= Seq::<NetworkAction>::empty());
    }
    while i < n
        invariant
            i <= n,
            n == action.inputs@.len(),
            spec_origin_ok(action.camera_position),
            spec_dir_ok(action.camera_direction),
            player.position == old(player).position,
            player.velocity == old(player).velocity,
            player.camera_direction == old(player).camera_direction,
            player.on_ground == old(player).on_ground,
            player.is_flying == old(player).is_flying,
            player.id == old(player).id,
            player.name == old(player).name,
            player.last_input_processed == old(player).last_input_processed,
            spec_entity_pos_ok(player.position),
            0 <= player.width <= 10_000,
            0 <= player.height <= 10_000,
            player.width == old(player).width,
            player.height == old(player).height,
            spec_clicks_chain(
                blocks0,
                inv0,
                world_map.blocks(),
                player.inventory@,
                *action,
                action.inputs@.take(i as int),
                old(player).position,
                old(player).width,
                old(player).height,
            ),
            (forall|j: int|
                0 <= j < i ==> action.inputs@[j] != NetworkAction::LeftClick && action.inputs@[j]
                    != NetworkAction::RightClick) ==> world_map.blocks() == old(world_map).blocks()
                && player.inventory@ == old(player).inventory@,
        decreases n - i,
    {
        let act = action.inputs[i];
        let ghost bpre = world_map.blocks();
        let ghost ipre = player.inventory@;
        match act {
            NetworkAction::LeftClick => {
                handle_block_breaking(player, world_map, action, caller_type);
            },
            NetworkAction::RightClick => {
                handle_block_placement(player, world_map, action, caller_type);
            },
            _ => {},
        }
        proof {
            assert(spec_click_transition(
                bpre,
                ipre,
                world_map.blocks(),
                player.inventory@,
                *action,
                action.inputs@[i as int],
                old(player).position,
                old(player).width,
                old(player).height,
            ));
            lemma_clicks_chain_snoc(
                blocks0,
                inv0,
                bpre,
                ipre,
                world_map.blocks(),
                player.inventory@,
                *action,
                action.inputs@.take(i as int),
                action.inputs@[i as int],
                old(player).position,
                old(player).width,
                old(player).height,
            );
            assert(action.inputs@.take(i as int + 1) =~= action.inputs@.take(i as int).push(
                action.inputs@[i as int],
            ));
        }
        i = i + 1;
    }
    proof {
        assert(action.inputs@.take(n as int) =~= action.inputs@);
        if !action.inputs@.contains(NetworkAction::LeftClick) && !action.inputs@.contains(
            NetworkAction::RightClick,
        ) {
            assert(forall|j: int|
                0 <= j < n ==> action.inputs@[j] != NetworkAction::LeftClick && action.inputs@[j]
                    != NetworkAction::RightClick);
        }
    }
}

} // verus!
