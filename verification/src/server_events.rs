//! Server-side block interaction events: adding or deleting one block of
//! the authoritative world. Deleting a block spills its drops into the
//! world as item stacks before removing it.

use vstd::prelude::*;
use crate::blocks::BlockData;
use crate::coords::IVec3;
use crate::drops::{spec_drop_table, spec_is_table_drop, spec_total_weight};
use crate::items::{spec_default_type, ItemId, ItemStack};
use crate::world_map::{ServerItemStack, ServerWorldMap, WorldMap};
use crate::fixed::FxVec3;

verus! {

/// One world mutation decided by gameplay: place a block (`Some`) or
/// delete whatever stands at the position (`None`).
#[derive(Clone, Copy, Debug, PartialEq, Eq, Structural)]
pub struct BlockInteractionEvent {
    pub position: IVec3,
    pub block_type: Option<BlockData>,
}

/// Relies on `ulid::Ulid::generate`: a fresh identifier drawn from the
/// clock and randomness. Nothing is assumed of its value.
#[verifier::external_body]
fn new_stack_id() -> u128 {
    ulid::Ulid::generate().0
}

/// What the block map looks like after one event: a placement writes the
/// block, a deletion removes the position (a no-op when nothing is there).
pub open spec fn spec_apply_block_event(
    blocks: Map<IVec3, BlockData>,
    event: BlockInteractionEvent,
) -> Map<IVec3, BlockData> {
    match event.block_type {
        Some(b) => blocks.insert(event.position, b),
        None => blocks.remove(event.position),
    }
}

/// The block map after a whole batch of events, applied in order.
pub open spec fn spec_apply_block_events(
    blocks: Map<IVec3, BlockData>,
    events: Seq<BlockInteractionEvent>,
) -> Map<IVec3, BlockData>
    decreases events.len(),
{
    if events.len() == 0 {
        blocks
    } else {
        spec_apply_block_events(spec_apply_block_event(blocks, events[0]), events.skip(1))
    }
}

/// Applying one more event to a batch extends the fold at its tail.
proof fn lemma_apply_block_events_snoc(
    blocks: Map<IVec3, BlockData>,
    events: Seq<BlockInteractionEvent>,
    event: BlockInteractionEvent,
)
    ensures
        spec_apply_block_events(blocks, events.push(event)) == spec_apply_block_event(
            spec_apply_block_events(blocks, events),
            event,
        ),
    decreases events.len(),
{
    if events.len() == 0 {
        assert(events.push(event)[0] == event);
        assert(events.push(event).skip(1) =~= Seq::<BlockInteractionEvent>::empty());
        assert(spec_apply_block_events(blocks, events) == blocks);
        assert(spec_apply_block_events(blocks, events.push(event)) == spec_apply_block_events(
            spec_apply_block_event(blocks, event),
            events.push(event).skip(1),
        ));
    } else {
        assert(events.push(event)[0] == events[0]);
        assert(events.push(event).skip(1) =~= events.skip(1).push(event));
        lemma_apply_block_events_snoc(
            spec_apply_block_event(blocks, events[0]),
            events.skip(1),
            event,
        );
        assert(spec_apply_block_events(blocks, events.push(event)) == spec_apply_block_events(
            spec_apply_block_event(blocks, events[0]),
            events.skip(1).push(event),
        ));
        assert(spec_apply_block_events(blocks, events) == spec_apply_block_events(
            spec_apply_block_event(blocks, events[0]),
            events.skip(1),
        ));
    }
}

/// One stack a deletion spills: not despawned, lying at the deleted cell
/// scaled to milli-blocks, clock zero, holding the drawn item with its
/// default type and count. Only the fresh id, which comes from the trusted
/// identifier generator, is unconstrained.
pub open spec fn spec_spilled_stack(
    stack: ServerItemStack,
    pos: IVec3,
    drop: (ItemId, u32),
) -> bool {
    &&& stack.despawned == false
    &&& stack.pos == (FxVec3 {
        x: (pos.x * 1000) as i64,
        y: (pos.y * 1000) as i64,
        z: (pos.z * 1000) as i64,
    })
    &&& stack.timestamp == 0
    &&& stack.stack == (ItemStack {
        item_id: drop.0,
        item_type: spec_default_type(drop.0),
        nb: drop.1,
    })
}

/// The stacks one event appends to the world's item-stack list: a placement
/// appends nothing; deleting an empty cell appends nothing; deleting a
/// block appends one stack per entry of a one-row random draw from that
/// block's drop table.
pub open spec fn spec_event_spill(
    blocks: Map<IVec3, BlockData>,
    event: BlockInteractionEvent,
    appended: Seq<ServerItemStack>,
) -> bool {
    match event.block_type {
        Some(b) => appended.len() == 0,
        None => {
            if blocks.contains_key(event.position) {
                let table = spec_drop_table(blocks[event.position].id);
                exists|ds: Seq<(ItemId, u32)>|
                    {
                        &&& ds.len() == if spec_total_weight(table) > 0 {
                            1int
                        } else {
                            0
                        }
                        &&& (forall|k: int|
                            0 <= k < ds.len() ==> spec_is_table_drop(table, #[trigger] ds[k]))
                        &&& appended.len() == ds.len()
                        &&& (forall|k: int|
                            0 <= k < ds.len() ==> spec_spilled_stack(
                                #[trigger] appended[k],
                                event.position,
                                ds[k],
                            ))
                    }
            } else {
                appended.len() == 0
            }
        },
    }
}

/// The whole batch's spill: the final item-stack list extends the first, in
/// event order, by exactly each event's spill, each read against the block
/// state its event saw.
pub open spec fn spec_events_spill(
    blocks: Map<IVec3, BlockData>,
    events: Seq<BlockInteractionEvent>,
    stacks0: Seq<ServerItemStack>,
    stacks1: Seq<ServerItemStack>,
) -> bool
    decreases events.len(),
{
    if events.len() == 0 {
        stacks1 == stacks0
    } else {
        exists|appended: Seq<ServerItemStack>|
            spec_event_spill(blocks, events[0], appended) && spec_events_spill(
                spec_apply_block_event(blocks, events[0]),
                events.skip(1),
                stacks0 + appended,
                stacks1,
            )
    }
}

/// A spill chain followed by one more event's spill is a chain over the
/// extended batch.
proof fn lemma_events_spill_snoc(
    blocks: Map<IVec3, BlockData>,
    events: Seq<BlockInteractionEvent>,
    event: BlockInteractionEvent,
    stacks0: Seq<ServerItemStack>,
    stacks1: Seq<ServerItemStack>,
    appended: Seq<ServerItemStack>,
)
    requires
        spec_events_spill(blocks, events, stacks0, stacks1),
        spec_event_spill(spec_apply_block_events(blocks, events), event, appended),
    ensures
        spec_events_spill(blocks, events.push(event), stacks0, stacks1 + appended),
    decreases events.len(),
{
    if events.len() == 0 {
        assert(events.push(event)[0] == event);
        assert(events.push(event).skip(1) =~= Seq::<BlockInteractionEvent>::empty());
        assert(spec_event_spill(blocks, event, appended));
        assert(spec_events_spill(
            spec_apply_block_event(blocks, event),
            events.push(event).skip(1),
            stacks0 + appended,
            stacks1 + appended,
        )) by {
            assert(stacks1 + appended =~= stacks0 + appended);
        }
    } else {
        let first_appended = choose|a: Seq<ServerItemStack>|
            spec_event_spill(blocks, events[0], a) && spec_events_spill(
                spec_apply_block_event(blocks, events[0]),
                events.skip(1),
                stacks0 + a,
                stacks1,
            );
        lemma_events_spill_snoc(
            spec_apply_block_event(blocks, events[0]),
            events.skip(1),
            event,
            stacks0 + first_appended,
            stacks1,
            appended,
        );
        assert(events.push(event)[0] == events[0]);
        assert(events.push(event).skip(1) =~= events.skip(1).push(event));
        assert(spec_event_spill(blocks, events.push(event)[0], first_appended));
        assert(spec_events_spill(
            spec_apply_block_event(blocks, events.push(event)[0]),
            events.push(event).skip(1),
            stacks0 + first_appended,
            stacks1 + appended,
        ));
    }
}

/// Apply a batch of block interaction events to the authoritative world, in
/// order: placements write their block, deletions remove the cell's block
/// and spill its drops into the world's item-stack list, one stack per
/// drawn drop, at the deleted cell. Existing item stacks, players, mobs and
/// the clock are never touched.
pub fn handle_block_interactions(world_map: &mut ServerWorldMap, events: &Vec<BlockInteractionEvent>)
    ensures
        final(world_map).blocks() == spec_apply_block_events(old(world_map).blocks(), events@),
        spec_events_spill(
            old(world_map).blocks(),
            events@,
            old(world_map).item_stacks@,
            final(world_map).item_stacks@,
        ),
        old(world_map).item_stacks@.is_prefix_of(final(world_map).item_stacks@),
        final(world_map).name == old(world_map).name,
        final(world_map).player_positions@ == old(world_map).player_positions@,
        final(world_map).mobs@ == old(world_map).mobs@,
        final(world_map).time == old(world_map).time,
{
    let n = events.len();
    let mut i: usize = 0;
    proof {
        assert(events@.skip(0) =~= events@);
        assert(events@.take(0) =~= Seq::<BlockInteractionEvent>::empty());
    }
    while i < n
        invariant
            i <= n,
            n == events@.len(),
            spec_apply_block_events(world_map.blocks(), events@.skip(i as int))
                == spec_apply_block_events(old(world_map).blocks(), events@),
            world_map.blocks() == spec_apply_block_events(
                old(world_map).blocks(),
                events@.take(i as int),
            ),
            spec_events_spill(
                old(world_map).blocks(),
                events@.take(i as int),
                old(world_map).item_stacks@,
                world_map.item_stacks@,
            ),
            old(world_map).item_stacks@.is_prefix_of(world_map.item_stacks@),
            world_map.name == old(world_map).name,
            world_map.player_positions@ == old(world_map).player_positions@,
            world_map.mobs@ == old(world_map).mobs@,
            world_map.time == old(world_map).time,
        decreases n - i,
    {
        let event = &events[i];
        let ghost blocks_pre = world_map.blocks();
        let ghost stacks_pre = world_map.item_stacks@;
        proof {
            assert(events@.skip(i as int)[0] == events@[i as int]);
            assert(events@.skip(i as int).skip(1) =~= events@.skip(i as int + 1));
        }
        match event.block_type {
            Some(block) => {
                world_map.set_block(&event.position, block);
                proof {
                    assert(spec_event_spill(blocks_pre, events@[i as int], Seq::empty()));
                    assert(world_map.item_stacks@ =~= stacks_pre + Seq::<
                        ServerItemStack,
                    >::empty());
                    lemma_events_spill_snoc(
                        old(world_map).blocks(),
                        events@.take(i as int),
                        events@[i as int],
                        old(world_map).item_stacks@,
                        stacks_pre,
                        Seq::empty(),
                    );
                }
            },
            None => {
                let mut target_id: Option<crate::blocks::BlockId> = None;
                let drops: Vec<(ItemId, u32)> = match world_map.get_block_by_coordinates(
                    &event.position,
                ) {
                    Some(existing) => {
                        let id = existing.id;
                        target_id = Some(id);
                        id.get_drops(1)
                    },
                    None => Vec::new(),
                };
                let m = drops.len();
                let mut j: usize = 0;
                let ghost mut appended: Seq<ServerItemStack> = Seq::empty();
                proof {
                    assert(world_map.item_stacks@ =~= stacks_pre + appended);
                }
                while j < m
                    invariant
                        j <= m,
                        m == drops@.len(),
                        *event == events@[i as int],
                        world_map.blocks() == blocks_pre,
                        appended.len() == j,
                        world_map.item_stacks@ == stacks_pre + appended,
                        forall|k: int|
                            0 <= k < j ==> spec_spilled_stack(
                                #[trigger] appended[k],
                                events@[i as int].position,
                                drops@[k],
                            ),
                        i < n,
                        n == events@.len(),
                        world_map.name == old(world_map).name,
                        world_map.player_positions@ == old(world_map).player_positions@,
                        world_map.mobs@ == old(world_map).mobs@,
                        world_map.time == old(world_map).time,
                        old(world_map).item_stacks@.is_prefix_of(stacks_pre),
                        events@[i as int].block_type is None,
                    decreases m - j,
                {
                    let (item_id, nb) = drops[j];
                    let item_type = item_id.get_default_type();
                    let stack_pos = FxVec3 {
                        x: event.position.x as i64 * 1000,
                        y: event.position.y as i64 * 1000,
                        z: event.position.z as i64 * 1000,
                    };
                    let spilled = ServerItemStack {
                        id: new_stack_id(),
                        despawned: false,
                        stack: ItemStack { item_id, item_type, nb },
                        pos: stack_pos,
                        timestamp: 0,
                    };
                    world_map.item_stacks.push(spilled);
                    proof {
                        let ghost prev = appended;
                        appended = appended.push(spilled);
                        assert(stacks_pre + appended =~= (stacks_pre + prev).push(spilled));
                        assert(spec_spilled_stack(
                            spilled,
                            events@[i as int].position,
                            drops@[j as int],
                        ));
                    }
                    j = j + 1;
                }
                world_map.remove_block_by_coordinates(&event.position);
                proof {
                    // the appended stacks are exactly one event's spill
                    if blocks_pre.contains_key(events@[i as int].position) {
                        let table = spec_drop_table(blocks_pre[events@[i as int].position].id);
                        assert(drops@.len() == if spec_total_weight(table) > 0 {
                            1int
                        } else {
                            0
                        });
                        assert(spec_event_spill(blocks_pre, events@[i as int], appended)) by {
                            assert(forall|k: int|
                                0 <= k < drops@.len() ==> spec_is_table_drop(
                                    table,
                                    #[trigger] drops@[k],
                                ));
                        }
                    } else {
                        assert(appended.len() == 0);
                        assert(spec_event_spill(blocks_pre, events@[i as int], appended));
                    }
                    lemma_events_spill_snoc(
                        old(world_map).blocks(),
                        events@.take(i as int),
                        events@[i as int],
                        old(world_map).item_stacks@,
                        stacks_pre,
                        appended,
                    );
                    assert(old(world_map).item_stacks@.is_prefix_of(stacks_pre + appended));
                }
            },
        }
        proof {
            lemma_apply_block_events_snoc(
                old(world_map).blocks(),
                events@.take(i as int),
                events@[i as int],
            );
            assert(events@.take(i as int + 1) =~= events@.take(i as int).push(
                events@[i as int],
            ));
        }
        i = i + 1;
    }
    proof {
        assert(events@.skip(n as int) =~= Seq::<BlockInteractionEvent>::empty());
        assert(events@.take(n as int) =~= events@);
    }
}

} // verus!
