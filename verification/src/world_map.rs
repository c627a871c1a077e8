//! Chunk stores: the server's authoritative world and the client's partial
//! mirror, both exposing the same [`WorldMap`] capability interface so that
//! raycasting, collision and simulation run identically over either.
//!
//! The mathematical view of a store is a single flat `Map` from global block
//! position to block — the chunked representation is an implementation
//! detail, and every operation's contract is stated over that flat view.

use vstd::prelude::*;
use crate::blocks::BlockData;
use crate::coords::{
    global_block_to_chunk_pos, lemma_split_injective, spec_chunk_pos, spec_local_pos, to_local_pos,
    IVec3,
};
use crate::fixed::FxVec3;
use crate::items::ItemStack;
use crate::posmap::PosMap;

verus! {

/// Identifier of a connected or persisted player.
pub type PlayerId = u64;

/// The block grids of a chunked store, one grid per chunk position.
pub type ChunkGrids = Map<IVec3, Map<IVec3, BlockData>>;

/// Flattens per-chunk block grids into one map from global block position to
/// block: a position is occupied exactly when its chunk holds its local cell.
pub open spec fn spec_blocks(grids: ChunkGrids) -> Map<IVec3, BlockData> {
    Map::new(
        |p: IVec3|
            grids.contains_key(spec_chunk_pos(p)) && grids[spec_chunk_pos(p)].contains_key(
                spec_local_pos(p),
            ),
        |p: IVec3| grids[spec_chunk_pos(p)][spec_local_pos(p)],
    )
}

/// Writing one block into its chunk's grid (creating the chunk if absent)
/// inserts exactly that position into the flat view.
pub proof fn lemma_blocks_insert(grids: ChunkGrids, p: IVec3, block: BlockData)
    ensures
        ({
            let cp = spec_chunk_pos(p);
            let g0 = if grids.contains_key(cp) {
                grids[cp]
            } else {
                Map::empty()
            };
            spec_blocks(grids.insert(cp, g0.insert(spec_local_pos(p), block))) == spec_blocks(
                grids,
            ).insert(p, block)
        }),
{
    let cp = spec_chunk_pos(p);
    let lp = spec_local_pos(p);
    let g0: Map<IVec3, BlockData> = if grids.contains_key(cp) {
        grids[cp]
    } else {
        Map::empty()
    };
    let upd = grids.insert(cp, g0.insert(lp, block));
    assert forall|q: IVec3| #[trigger]
        spec_blocks(upd).contains_key(q) <==> spec_blocks(grids).insert(p, block).contains_key(
            q,
        ) by {
        if spec_chunk_pos(q) == spec_chunk_pos(p) && spec_local_pos(q) == spec_local_pos(p) {
            lemma_split_injective(q, p);
        }
    }
    assert forall|q: IVec3| #[trigger] spec_blocks(upd).contains_key(q) implies spec_blocks(upd)[q]
        == spec_blocks(grids).insert(p, block)[q] by {
        if spec_chunk_pos(q) == spec_chunk_pos(p) && spec_local_pos(q) == spec_local_pos(p) {
            lemma_split_injective(q, p);
        }
    }
    assert(spec_blocks(upd) =~= spec_blocks(grids).insert(p, block));
}

/// Removing one block from its chunk's grid removes exactly that position
/// from the flat view.
pub proof fn lemma_blocks_remove(grids: ChunkGrids, p: IVec3)
    requires
        grids.contains_key(spec_chunk_pos(p)),
    ensures
        spec_blocks(
            grids.insert(
                spec_chunk_pos(p),
                grids[spec_chunk_pos(p)].remove(spec_local_pos(p)),
            ),
        ) == spec_blocks(grids).remove(p),
{
    let cp = spec_chunk_pos(p);
    let lp = spec_local_pos(p);
    let upd = grids.insert(cp, grids[cp].remove(lp));
    assert forall|q: IVec3| #[trigger]
        spec_blocks(upd).contains_key(q) <==> spec_blocks(grids).remove(p).contains_key(q) by {
        if spec_chunk_pos(q) == spec_chunk_pos(p) && spec_local_pos(q) == spec_local_pos(p) {
            lemma_split_injective(q, p);
        }
    }
    assert forall|q: IVec3| #[trigger] spec_blocks(upd).contains_key(q) implies spec_blocks(upd)[q]
        == spec_blocks(grids).remove(p)[q] by {
        if spec_chunk_pos(q) == spec_chunk_pos(p) && spec_local_pos(q) == spec_local_pos(p) {
            lemma_split_injective(q, p);
        }
    }
    assert(spec_blocks(upd) =~= spec_blocks(grids).remove(p));
}

/// A position absent from the flat view can be removed with no effect.
pub proof fn lemma_blocks_remove_absent(blocks: Map<IVec3, BlockData>, p: IVec3)
    requires
        !blocks.contains_key(p),
    ensures
        blocks.remove(p) == blocks,
{
    assert(blocks.remove(p) =~= blocks);
}

/// Capability interface of a chunk store. Spatial queries and the simulation
/// step depend only on this interface, never on a concrete storage type, so
/// the same code serves the authoritative world and the client mirror.
pub trait WorldMap: Sized {
    /// The store's contents as one flat map from global block position to
    /// block; an absent position is air.
    spec fn blocks(&self) -> Map<IVec3, BlockData>;

    /// Chunk positions flagged for replication since the queue was last
    /// drained; a client mirror keeps none.
    spec fn update_queue(&self) -> Seq<IVec3>;

    /// Whether this store keeps a replication queue: the authoritative side
    /// does, a client mirror does not.
    spec fn tracks_updates() -> bool;

    /// Read the block at a global position; `None` is "no block here",
    /// whether the cell is empty or its chunk is not loaded.
    fn get_block_by_coordinates(&self, position: &IVec3) -> (r: Option<&BlockData>)
        ensures
            match r {
                Some(b) => self.blocks().contains_key(*position) && *b == self.blocks()[*position],
                None => !self.blocks().contains_key(*position),
            },
    ;

    /// Write a block, creating the owning chunk when absent, and flag the
    /// owning chunk dirty for replication.
    fn set_block(&mut self, position: &IVec3, block: BlockData)
        ensures
            final(self).blocks() == old(self).blocks().insert(*position, block),
            final(self).update_queue() == if Self::tracks_updates() {
                old(self).update_queue().push(spec_chunk_pos(*position))
            } else {
                old(self).update_queue()
            },
    ;

    /// Remove and hand back the block at a position, if one is there; a
    /// removal flags the owning chunk dirty for replication.
    fn remove_block_by_coordinates(&mut self, global_block_pos: &IVec3) -> (r: Option<BlockData>)
        ensures
            final(self).blocks() == old(self).blocks().remove(*global_block_pos),
            match r {
                Some(b) => old(self).blocks().contains_key(*global_block_pos) && b == old(self).blocks()[*global_block_pos],
                None => !old(self).blocks().contains_key(*global_block_pos),
            },
            final(self).update_queue() == if Self::tracks_updates() && old(self).blocks().contains_key(*global_block_pos) {
                old(self).update_queue().push(spec_chunk_pos(*global_block_pos))
            } else {
                old(self).update_queue()
            },
    ;

    /// Flag the chunk owning a position for replication without changing any
    /// block (used when only breaking progress changed).
    fn mark_block_for_update(&mut self, block_pos: &IVec3)
        ensures
            final(self).blocks() == old(self).blocks(),
            final(self).update_queue() == if Self::tracks_updates() {
                old(self).update_queue().push(spec_chunk_pos(*block_pos))
            } else {
                old(self).update_queue()
            },
    ;
}

/// A chunk held by the server: its sparse block grid plus the version stamp
/// of the last update, read by the replication manager.
pub struct ServerChunk {
    pub map: PosMap<BlockData>,
    pub ts: u64,
}

impl ServerChunk {
    /// An empty chunk stamped with the given version.
    pub fn empty(ts: u64) -> (c: Self)
        ensures
            c.map@ == Map::<IVec3, BlockData>::empty(),
            c.ts == ts,
    {
        ServerChunk { map: PosMap::new(), ts }
    }

    /// An independent copy with the same contents and stamp.
    pub fn copy_of(&self) -> (c: Self)
        ensures
            c.map@ == self.map@,
            c.ts == self.ts,
    {
        ServerChunk { map: self.map.copy_of(), ts: self.ts }
    }
}

/// A dropped item stack lying in the server world.
#[derive(Clone, Copy, Debug, PartialEq, Eq, Structural)]
pub struct ServerItemStack {
    pub id: u128,
    pub despawned: bool,
    pub stack: ItemStack,
    pub pos: FxVec3,
    pub timestamp: u64,
}

/// What a mob is currently steering toward.
#[derive(Clone, Copy, Debug, PartialEq, Eq, Structural)]
pub enum MobTarget {
    /// No target: the mob stays idle this tick.
    Idle,
    /// A fixed point in the world.
    Fixed(FxVec3),
    /// A player, tracked by id.
    Player(PlayerId),
    /// Another mob, tracked by id.
    Mob(u128),
}

/// Current behavior state of a mob.
#[derive(Clone, Copy, Debug, PartialEq, Eq, Structural)]
pub enum MobAction {
    Idle,
    Walk,
    Attack,
    Flee,
}

/// A server-owned mob: ephemeral, simulated each tick.
#[derive(Clone, Copy, Debug, PartialEq, Eq, Structural)]
pub struct ServerMob {
    pub id: u128,
    pub position: FxVec3,
    pub velocity: FxVec3,
    /// Last horizontal walk direction, kept for orientation.
    pub facing: FxVec3,
    pub target: MobTarget,
    pub action: MobAction,
    pub on_ground: bool,
    pub width: i64,
    pub height: i64,
    pub deepth: i64,
}

/// The server's authoritative world: every loaded chunk, plus the entity and
/// bookkeeping state replicated to clients.
pub struct ServerWorldMap {
    pub name: String,
    pub map: PosMap<ServerChunk>,
    /// Chunks touched since the last replication pass.
    pub chunks_to_update: Vec<IVec3>,
    pub player_positions: Vec<(PlayerId, FxVec3)>,
    pub mobs: Vec<ServerMob>,
    pub item_stacks: Vec<ServerItemStack>,
    pub time: u64,
}

/// Per-chunk grids of a server store.
pub open spec fn server_grids(chunks: Map<IVec3, ServerChunk>) -> ChunkGrids {
    Map::new(|c: IVec3| chunks.contains_key(c), |c: IVec3| chunks[c].map@)
}

impl ServerWorldMap {
    /// A freshly named, empty world.
    pub fn empty(name: String) -> (w: Self)
        ensures
            w.blocks() == Map::<IVec3, BlockData>::empty(),
            w.map@ == Map::<IVec3, ServerChunk>::empty(),
            w.time == 0,
    {
        let w = ServerWorldMap {
            name,
            map: PosMap::new(),
            chunks_to_update: Vec::new(),
            player_positions: Vec::new(),
            mobs: Vec::new(),
            item_stacks: Vec::new(),
            time: 0,
        };
        proof {
            assert(w.blocks() =~= Map::<IVec3, BlockData>::empty());
        }
        w
    }
}

impl ServerWorldMap {
    /// Write a block into the authoritative world: the owning chunk is
    /// created when absent, stamped with the current world time, and flagged
    /// on the replication queue; nothing else in the world moves.
    pub fn set_block(&mut self, position: &IVec3, block: BlockData)
        ensures
            final(self).blocks() == old(self).blocks().insert(*position, block),
            final(self).chunks_to_update@ == old(self).chunks_to_update@.push(
                spec_chunk_pos(*position),
            ),
            final(self).map@.contains_key(spec_chunk_pos(*position)),
            final(self).map@[spec_chunk_pos(*position)].ts == old(self).time,
            final(self).map@[spec_chunk_pos(*position)].map@ == (if old(self).map@.contains_key(
                spec_chunk_pos(*position),
            ) {
                old(self).map@[spec_chunk_pos(*position)].map@
            } else {
                Map::<IVec3, BlockData>::empty()
            }).insert(spec_local_pos(*position), block),
            forall|c: IVec3|
                c != spec_chunk_pos(*position) ==> (#[trigger] final(self).map@.contains_key(c))
                    == old(self).map@.contains_key(c) && (old(self).map@.contains_key(c) ==> final(self).map@[c] == old(self).map@[c]),
            final(self).name == old(self).name,
            final(self).player_positions@ == old(self).player_positions@,
            final(self).mobs@ == old(self).mobs@,
            final(self).item_stacks@ == old(self).item_stacks@,
            final(self).time == old(self).time,
    {
        let chunk_pos = global_block_to_chunk_pos(position);
        let local = to_local_pos(position);
        let ghost grids0 = server_grids(self.map@);
        let mut chunk = match self.map.remove(&chunk_pos) {
            Some(c) => c,
            None => ServerChunk::empty(self.time),
        };
        chunk.map.insert(local, block);
        chunk.ts = self.time;
        self.map.insert(chunk_pos, chunk);
        self.chunks_to_update.push(chunk_pos);
        proof {
            let g0: Map<IVec3, BlockData> = if grids0.contains_key(chunk_pos) {
                grids0[chunk_pos]
            } else {
                Map::empty()
            };
            assert(server_grids(self.map@) =~= grids0.insert(chunk_pos, g0.insert(local, block)));
            lemma_blocks_insert(grids0, *position, block);
        }
    }

    /// Remove the block at a position: a removal empties the cell, stamps
    /// the chunk with the current world time, and flags it on the
    /// replication queue; when no block is there, the whole store is left
    /// exactly as it was (no chunk created, queue untouched).
    pub fn remove_block_by_coordinates(&mut self, global_block_pos: &IVec3) -> (r: Option<
        BlockData,
    >)
        ensures
            final(self).blocks() == old(self).blocks().remove(*global_block_pos),
            match r {
                Some(b) => old(self).blocks().contains_key(*global_block_pos) && b == old(self).blocks()[*global_block_pos],
                None => !old(self).blocks().contains_key(*global_block_pos),
            },
            old(self).blocks().contains_key(*global_block_pos) ==> final(self).chunks_to_update@
                == old(self).chunks_to_update@.push(spec_chunk_pos(*global_block_pos)) && final(self).map@.contains_key(spec_chunk_pos(*global_block_pos)) && final(self).map@[
                spec_chunk_pos(*global_block_pos)
            ].ts == old(self).time && final(self).map@[spec_chunk_pos(*global_block_pos)].map@
                == old(self).map@[spec_chunk_pos(*global_block_pos)].map@.remove(
                spec_local_pos(*global_block_pos),
            ) && forall|c: IVec3|
                c != spec_chunk_pos(*global_block_pos) ==> (#[trigger] final(self).map@.contains_key(c)) == old(self).map@.contains_key(c) && (old(self).map@.contains_key(c) ==> final(self).map@[c] == old(self).map@[c]),
            !old(self).blocks().contains_key(*global_block_pos) ==> final(self).map@ == old(self).map@ && final(self).chunks_to_update@ == old(self).chunks_to_update@,
            final(self).name == old(self).name,
            final(self).player_positions@ == old(self).player_positions@,
            final(self).mobs@ == old(self).mobs@,
            final(self).item_stacks@ == old(self).item_stacks@,
            final(self).time == old(self).time,
    {
        let chunk_pos = global_block_to_chunk_pos(global_block_pos);
        let local = to_local_pos(global_block_pos);
        let ghost grids0 = server_grids(self.map@);
        let ghost map0 = self.map@;
        match self.map.remove(&chunk_pos) {
            Some(mut chunk) => {
                let ghost chunk0 = chunk;
                let removed = chunk.map.remove(&local);
                proof {
                    assert(server_grids(map0.remove(chunk_pos).insert(chunk_pos, chunk))
                        =~= grids0.insert(chunk_pos, grids0[chunk_pos].remove(local)));
                    lemma_blocks_remove(grids0, *global_block_pos);
                }
                match removed {
                    Some(b) => {
                        chunk.ts = self.time;
                        proof {
                            assert(server_grids(map0.remove(chunk_pos).insert(chunk_pos, chunk))
                                =~= grids0.insert(chunk_pos, grids0[chunk_pos].remove(local)));
                        }
                        self.map.insert(chunk_pos, chunk);
                        self.chunks_to_update.push(chunk_pos);
                        Some(b)
                    },
                    None => {
                        self.map.insert(chunk_pos, chunk);
                        proof {
                            assert(chunk == chunk0);
                            assert(self.map@ =~= map0);
                            lemma_blocks_remove_absent(
                                spec_blocks(grids0),
                                *global_block_pos,
                            );
                        }
                        None
                    },
                }
            },
            None => {
                proof {
                    lemma_blocks_remove_absent(
                        spec_blocks(grids0),
                        *global_block_pos,
                    );
                }
                None
            },
        }
    }

    /// Flag the chunk owning a position on the replication queue without
    /// changing any block.
    pub fn mark_block_for_update(&mut self, block_pos: &IVec3)
        ensures
            final(self).map@ == old(self).map@,
            final(self).blocks() == old(self).blocks(),
            final(self).chunks_to_update@ == old(self).chunks_to_update@.push(
                spec_chunk_pos(*block_pos),
            ),
            final(self).name == old(self).name,
            final(self).player_positions@ == old(self).player_positions@,
            final(self).mobs@ == old(self).mobs@,
            final(self).item_stacks@ == old(self).item_stacks@,
            final(self).time == old(self).time,
    {
        let chunk_pos = global_block_to_chunk_pos(block_pos);
        self.chunks_to_update.push(chunk_pos);
    }
}

impl WorldMap for ServerWorldMap {
    open spec fn blocks(&self) -> Map<IVec3, BlockData> {
        spec_blocks(server_grids(self.map@))
    }

    open spec fn update_queue(&self) -> Seq<IVec3> {
        self.chunks_to_update@
    }

    open spec fn tracks_updates() -> bool {
        true
    }

    fn get_block_by_coordinates(&self, position: &IVec3) -> (r: Option<&BlockData>) {
        let chunk_pos = global_block_to_chunk_pos(position);
        match self.map.get(&chunk_pos) {
            Some(chunk) => {
                let local = to_local_pos(position);
                chunk.map.get(&local)
            },
            None => None,
        }
    }

    fn set_block(&mut self, position: &IVec3, block: BlockData) {
        ServerWorldMap::set_block(self, position, block);
    }

    fn remove_block_by_coordinates(&mut self, global_block_pos: &IVec3) -> (r: Option<BlockData>) {
        ServerWorldMap::remove_block_by_coordinates(self, global_block_pos)
    }

    fn mark_block_for_update(&mut self, block_pos: &IVec3) {
        ServerWorldMap::mark_block_for_update(self, block_pos);
    }
}

/// A chunk mirrored on a client: the block grid plus the client-only render
/// attachment that must survive a merge of fresh server data.
pub struct ClientChunk {
    pub map: PosMap<BlockData>,
    /// Handle of the mesh last built for this chunk, if any.
    pub entity: Option<u64>,
}

impl ClientChunk {
    pub fn empty() -> (c: Self)
        ensures
            c.map@ == Map::<IVec3, BlockData>::empty(),
            c.entity is None,
    {
        ClientChunk { map: PosMap::new(), entity: None }
    }
}

/// The client's partial mirror of the world, fed by replication batches.
pub struct ClientWorldMap {
    pub name: String,
    pub map: PosMap<ClientChunk>,
    pub total_blocks_count: u64,
    pub total_chunks_count: u64,
}

/// Per-chunk grids of a client store.
pub open spec fn client_grids(chunks: Map<IVec3, ClientChunk>) -> ChunkGrids {
    Map::new(|c: IVec3| chunks.contains_key(c), |c: IVec3| chunks[c].map@)
}

impl ClientWorldMap {
    /// An empty mirror.
    pub fn empty(name: String) -> (w: Self)
        ensures
            w.blocks() == Map::<IVec3, BlockData>::empty(),
            w.map@ == Map::<IVec3, ClientChunk>::empty(),
    {
        let w = ClientWorldMap {
            name,
            map: PosMap::new(),
            total_blocks_count: 0,
            total_chunks_count: 0,
        };
        proof {
            assert(w.blocks() =~= Map::<IVec3, BlockData>::empty());
        }
        w
    }
}

impl WorldMap for ClientWorldMap {
    open spec fn blocks(&self) -> Map<IVec3, BlockData> {
        spec_blocks(client_grids(self.map@))
    }

    open spec fn update_queue(&self) -> Seq<IVec3> {
        Seq::empty()
    }

    open spec fn tracks_updates() -> bool {
        false
    }

    fn get_block_by_coordinates(&self, position: &IVec3) -> (r: Option<&BlockData>) {
        let chunk_pos = global_block_to_chunk_pos(position);
        match self.map.get(&chunk_pos) {
            Some(chunk) => {
                let local = to_local_pos(position);
                chunk.map.get(&local)
            },
            None => None,
        }
    }

    fn set_block(&mut self, position: &IVec3, block: BlockData) {
        let chunk_pos = global_block_to_chunk_pos(position);
        let local = to_local_pos(position);
        let ghost grids0 = client_grids(self.map@);
        let mut chunk = match self.map.remove(&chunk_pos) {
            Some(c) => c,
            None => ClientChunk::empty(),
        };
        chunk.map.insert(local, block);
        self.map.insert(chunk_pos, chunk);
        proof {
            let g0: Map<IVec3, BlockData> = if grids0.contains_key(chunk_pos) {
                grids0[chunk_pos]
            } else {
                Map::empty()
            };
            assert(client_grids(self.map@) =~= grids0.insert(chunk_pos, g0.insert(local, block)));
            lemma_blocks_insert(grids0, *position, block);
        }
    }

    fn remove_block_by_coordinates(&mut self, global_block_pos: &IVec3) -> (r: Option<BlockData>) {
        let chunk_pos = global_block_to_chunk_pos(global_block_pos);
        let local = to_local_pos(global_block_pos);
        let ghost grids0 = client_grids(self.map@);
        match self.map.remove(&chunk_pos) {
            Some(mut chunk) => {
                let removed = chunk.map.remove(&local);
                self.map.insert(chunk_pos, chunk);
                proof {
                    assert(client_grids(self.map@) =~= grids0.insert(
                        chunk_pos,
                        grids0[chunk_pos].remove(local),
                    ));
                    lemma_blocks_remove(grids0, *global_block_pos);
                }
                removed
            },
            None => {
                proof {
                    lemma_blocks_remove_absent(
                        spec_blocks(grids0),
                        *global_block_pos,
                    );
                }
                None
            },
        }
    }

    fn mark_block_for_update(&mut self, _block_pos: &IVec3) {
        // The client keeps no replication queue.
    }
}

} // verus!
