//! The replication manager. Server side: per client and per tick, gather
//! every chunk inside the client's render-distance box that is new to it or
//! has changed since last sent, as full authoritative snapshots, together
//! with entity state. Client side: merge a received batch into the mirror,
//! discarding chunks outside the client's own radius or empty, preserving
//! the client-only render attachment, and emit one re-render request per
//! merged chunk.

use vstd::prelude::*;
use crate::blocks::BlockData;
use crate::coords::{chunk_in_radius, spec_chunk_in_radius, IVec3};
use crate::fixed::FxVec3;
use crate::posmap::PosMap;
use crate::world_map::{
    ClientChunk, ClientWorldMap, PlayerId, ServerChunk, ServerItemStack, ServerMob, ServerWorldMap,
};

verus! {

/// One world-update batch: full snapshots of the chunks it carries, plus
/// entity state, so a lost or reordered batch is simply superseded by the
/// next rather than corrupting anything.
pub struct WorldUpdate {
    pub new_map: Vec<(IVec3, ServerChunk)>,
    pub player_positions: Vec<(PlayerId, FxVec3)>,
    pub mobs: Vec<ServerMob>,
    pub item_stacks: Vec<ServerItemStack>,
    pub time: u64,
}

/// Whether a chunk must be in the batch for a client: loaded, inside the
/// client's render-distance box, and new to the client or newer than what
/// it last received.
pub open spec fn spec_update_eligible(
    chunks: Map<IVec3, ServerChunk>,
    last_sent: Map<IVec3, u64>,
    client_chunk: IVec3,
    radius: int,
    k: IVec3,
) -> bool {
    &&& chunks.contains_key(k)
    &&& spec_chunk_in_radius(client_chunk, k, radius)
    &&& (!last_sent.contains_key(k) || last_sent[k] < chunks[k].ts)
}

/// Whether a batch carries a chunk position.
pub open spec fn spec_update_has(new_map: Seq<(IVec3, ServerChunk)>, k: IVec3) -> bool {
    exists|i: int| 0 <= i < new_map.len() && (#[trigger] new_map[i]).0 == k
}

/// An independent copy of a vector of plain values.
fn copy_vec<T: Copy>(v: &Vec<T>) -> (r: Vec<T>)
    ensures
        r@ == v@,
{
    let n = v.len();
    let mut r: Vec<T> = Vec::new();
    let mut i: usize = 0;
    while i < n
        invariant
            i <= n,
            n == v@.len(),
            r@ =~= v@.take(i as int),
        decreases n - i,
    {
        r.push(v[i]);
        proof {
            assert(r@ =~= v@.take(i as int + 1));
        }
        i = i + 1;
    }
    proof {
        assert(r@ =~= v@);
    }
    r
}

/// Build one client's world-update batch: exactly the eligible chunks —
/// never one outside the client's radius — as full snapshots, plus current
/// player positions, the full mob list, the item-stack list and world time.
pub fn compute_world_update(
    world: &ServerWorldMap,
    client_chunk: &IVec3,
    render_distance: i32,
    last_sent: &PosMap<u64>,
) -> (u: WorldUpdate)
    ensures
        u.time == world.time,
        u.player_positions@ == world.player_positions@,
        u.mobs@ == world.mobs@,
        u.item_stacks@ == world.item_stacks@,
        // sound: everything sent is eligible — in particular inside the radius
        forall|i: int|
            0 <= i < u.new_map@.len() ==> spec_update_eligible(
                world.map@,
                last_sent@,
                *client_chunk,
                render_distance as int,
                (#[trigger] u.new_map@[i]).0,
            ) && u.new_map@[i].1.map@ == world.map@[u.new_map@[i].0].map@ && u.new_map@[i].1.ts
                == world.map@[u.new_map@[i].0].ts,
        // complete: every eligible chunk is sent
        forall|k: IVec3|
            spec_update_eligible(
                world.map@,
                last_sent@,
                *client_chunk,
                render_distance as int,
                k,
            ) ==> spec_update_has(u.new_map@, k),
{
    let keys = world.map.keys();
    let n = keys.len();
    let mut new_map: Vec<(IVec3, ServerChunk)> = Vec::new();
    let mut i: usize = 0;
    while i < n
        invariant
            i <= n,
            n == keys@.len(),
            forall|j: int| 0 <= j < keys@.len() ==> world.map@.contains_key(#[trigger] keys@[j]),
            forall|k: IVec3| #[trigger] world.map@.contains_key(k) ==> keys@.contains(k),
            forall|m: int|
                0 <= m < new_map@.len() ==> spec_update_eligible(
                    world.map@,
                    last_sent@,
                    *client_chunk,
                    render_distance as int,
                    (#[trigger] new_map@[m]).0,
                ) && new_map@[m].1.map@ == world.map@[new_map@[m].0].map@ && new_map@[m].1.ts
                    == world.map@[new_map@[m].0].ts,
            forall|j: int|
                0 <= j < i && spec_update_eligible(
                    world.map@,
                    last_sent@,
                    *client_chunk,
                    render_distance as int,
                    #[trigger] keys@[j],
                ) ==> spec_update_has(new_map@, keys@[j]),
        decreases n - i,
    {
        let k = keys[i];
        let ghost prev = new_map@;
        if chunk_in_radius(client_chunk, &k, render_distance) {
            match world.map.get(&k) {
                Some(chunk) => {
                    let newer = match last_sent.get(&k) {
                        Some(ts) => *ts < chunk.ts,
                        None => true,
                    };
                    if newer {
                        new_map.push((k, chunk.copy_of()));
                        proof {
                            assert(new_map@[new_map@.len() - 1].0 == k);
                        }
                    }
                },
                None => {},
            }
        }
        proof {
            assert forall|j: int|
                0 <= j < i + 1 && spec_update_eligible(
                    world.map@,
                    last_sent@,
                    *client_chunk,
                    render_distance as int,
                    #[trigger] keys@[j],
                ) implies spec_update_has(new_map@, keys@[j]) by {
                if j < i {
                    assert(spec_update_has(prev, keys@[j]));
                    let m = choose|m: int| 0 <= m < prev.len() && (#[trigger] prev[m]).0 == keys@[j];
                    assert(new_map@[m].0 == keys@[j]);
                }
            }
        }
        i = i + 1;
    }
    proof {
        assert forall|k: IVec3|
            spec_update_eligible(
                world.map@,
                last_sent@,
                *client_chunk,
                render_distance as int,
                k,
            ) implies spec_update_has(new_map@, k) by {
            assert(world.map@.contains_key(k));
            assert(keys@.contains(k));
            let j = choose|j: int| 0 <= j < keys@.len() && keys@[j] == k;
            assert(spec_update_eligible(
                world.map@,
                last_sent@,
                *client_chunk,
                render_distance as int,
                keys@[j],
            ));
        }
    }
    WorldUpdate {
        new_map,
        player_positions: copy_vec(&world.player_positions),
        mobs: copy_vec(&world.mobs),
        item_stacks: copy_vec(&world.item_stacks),
        time: world.time,
    }
}

/// The mirror and the re-render list after merging one batch, oldest entry
/// first: an out-of-radius or empty chunk is discarded; any other is merged
/// as received, keeping the render attachment the mirror already had for
/// that position, and its position is listed for re-rendering.
pub open spec fn spec_apply_update(
    m: Map<IVec3, ClientChunk>,
    batch: Seq<(IVec3, ServerChunk)>,
    player_chunk: IVec3,
    radius: int,
) -> (Map<IVec3, ClientChunk>, Seq<IVec3>)
    decreases batch.len(),
{
    if batch.len() == 0 {
        (m, Seq::empty())
    } else {
        let pos = batch[0].0;
        let chunk = batch[0].1;
        if spec_chunk_in_radius(player_chunk, pos, radius) && chunk.map@ != Map::<
            IVec3,
            BlockData,
        >::empty() {
            let entity = if m.contains_key(pos) {
                m[pos].entity
            } else {
                None
            };
            let merged = ClientChunk { map: chunk.map, entity };
            let rest = spec_apply_update(m.insert(pos, merged), batch.skip(1), player_chunk, radius);
            (rest.0, seq![pos] + rest.1)
        } else {
            spec_apply_update(m, batch.skip(1), player_chunk, radius)
        }
    }
}

/// Merge a received batch into the client mirror: exactly the merge of
/// [`spec_apply_update`] — a chunk outside the client's current radius, or
/// with empty content, is discarded; a merged chunk keeps the render
/// attachment the mirror already had for it, and one re-render request is
/// emitted per merged chunk. Chunks outside the radius are never touched.
pub fn apply_world_update(
    world: &mut ClientWorldMap,
    update: WorldUpdate,
    player_chunk: &IVec3,
    render_distance: i32,
) -> (requests: Vec<IVec3>)
    ensures
        final(world).map@ == spec_apply_update(
            old(world).map@,
            update.new_map@,
            *player_chunk,
            render_distance as int,
        ).0,
        requests@ == spec_apply_update(
            old(world).map@,
            update.new_map@,
            *player_chunk,
            render_distance as int,
        ).1,
        // the mirror outside the radius is exactly what it was
        forall|k: IVec3|
            !spec_chunk_in_radius(*player_chunk, k, render_distance as int) ==> (
            final(world).map@.contains_key(k) == old(world).map@.contains_key(k) && (old(
                world,
            ).map@.contains_key(k) ==> final(world).map@[k] == old(world).map@[k])),
        // every re-render request names a chunk inside the radius, now loaded
        forall|i: int|
            0 <= i < requests@.len() ==> spec_chunk_in_radius(
                *player_chunk,
                #[trigger] requests@[i],
                render_distance as int,
            ) && final(world).map@.contains_key(requests@[i]),
        // a merge preserves the client-only render attachment of a chunk the
        // mirror already had, and attaches nothing to a chunk it did not
        forall|k: IVec3|
            old(world).map@.contains_key(k) && #[trigger] final(world).map@.contains_key(k)
                ==> final(world).map@[k].entity == old(world).map@[k].entity,
        forall|k: IVec3|
            !old(world).map@.contains_key(k) && #[trigger] final(world).map@.contains_key(k)
                ==> final(world).map@[k].entity is None,
{
    let mut new_map = update.new_map;
    let mut requests: Vec<IVec3> = Vec::new();
    let ghost total = spec_apply_update(
        old(world).map@,
        new_map@,
        *player_chunk,
        render_distance as int,
    );
    while new_map.len() > 0
        invariant
            spec_apply_update(world.map@, new_map@, *player_chunk, render_distance as int).0
                == total.0,
            requests@ + spec_apply_update(
                world.map@,
                new_map@,
                *player_chunk,
                render_distance as int,
            ).1 =~= total.1,
            total == spec_apply_update(
                old(world).map@,
                update.new_map@,
                *player_chunk,
                render_distance as int,
            ),
            forall|k: IVec3|
                !spec_chunk_in_radius(*player_chunk, k, render_distance as int) ==> (
                world.map@.contains_key(k) == old(world).map@.contains_key(k) && (old(
                    world,
                ).map@.contains_key(k) ==> world.map@[k] == old(world).map@[k])),
            forall|i: int|
                0 <= i < requests@.len() ==> spec_chunk_in_radius(
                    *player_chunk,
                    #[trigger] requests@[i],
                    render_distance as int,
                ) && world.map@.contains_key(requests@[i]),
            forall|k: IVec3| old(world).map@.contains_key(k) ==> #[trigger] world.map@.contains_key(k),
            forall|k: IVec3|
                old(world).map@.contains_key(k) && #[trigger] world.map@.contains_key(k)
                    ==> world.map@[k].entity == old(world).map@[k].entity,
            forall|k: IVec3|
                !old(world).map@.contains_key(k) && #[trigger] world.map@.contains_key(k)
                    ==> world.map@[k].entity is None,
        decreases new_map@.len(),
    {
        let ghost batch_pre = new_map@;
        let (pos, chunk) = new_map.remove(0);
        proof {
            assert(new_map@ =~= batch_pre.skip(1));
            assert(batch_pre[0] == (pos, chunk));
        }
        if chunk_in_radius(player_chunk, &pos, render_distance) && !chunk.map.is_empty() {
            let entity: Option<u64> = match world.map.get(&pos) {
                Some(existing) => existing.entity,
                None => None,
            };
            let ghost pre = world.map@;
            let ghost requests_pre = requests@;
            world.map.insert(pos, ClientChunk { map: chunk.map, entity });
            proof {
                assert(requests_pre + (seq![pos] + spec_apply_update(
                    world.map@,
                    new_map@,
                    *player_chunk,
                    render_distance as int,
                ).1) =~= requests_pre.push(pos) + spec_apply_update(
                    world.map@,
                    new_map@,
                    *player_chunk,
                    render_distance as int,
                ).1);
            }
            proof {
                assert forall|k: IVec3|
                    old(world).map@.contains_key(k) && #[trigger] world.map@.contains_key(k)
                        implies world.map@[k].entity == old(world).map@[k].entity by {
                    if k != pos {
                        assert(world.map@[k] == pre[k]);
                    }
                }
                assert forall|k: IVec3|
                    !old(world).map@.contains_key(k) && #[trigger] world.map@.contains_key(k)
                        implies world.map@[k].entity is None by {
                    if k != pos {
                        assert(world.map@[k] == pre[k]);
                    }
                }
            }
            let ghost old_requests = requests@;
            requests.push(pos);
            proof {
                assert forall|i: int|
                    0 <= i < requests@.len() implies spec_chunk_in_radius(
                    *player_chunk,
                    #[trigger] requests@[i],
                    render_distance as int,
                ) && world.map@.contains_key(requests@[i]) by {
                    if i < old_requests.len() {
                        assert(requests@[i] == old_requests[i]);
                    }
                }
            }
        }
    }
    proof {
        assert(requests@ + Seq::<IVec3>::empty() =~= requests@);
        assert(requests@ =~= total.1);
    }
    requests
}

} // verus!
