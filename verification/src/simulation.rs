//! The per-tick simulation entry points: one routine advances a player by
//! one input frame (interactions, then movement), and the replay routine
//! feeds buffered input frames through it in order, rejecting stale or
//! duplicate frames by the monotonic last-input-processed marker. The same
//! code runs as ground truth on the server and as prediction on the client.

use vstd::prelude::*;
use crate::blocks::BlockData;
use crate::coords::IVec3;
use crate::items::ItemStack;
use crate::movement::{
    simulate_player_movement, spec_basis_ok, spec_entity_pos_ok, spec_entity_vel_ok,
    spec_move_state, spec_simulate_player_movement, FALL_LIMIT,
};
use crate::player::{Player, PlayerFrameInput};
use crate::player_blocks::{
    lemma_clicks_chain_functional, simulate_player_block_interactions, spec_clicks_chain,
    CallerType,
};
use crate::raycast::{spec_dir_ok, spec_origin_ok};
use crate::world_map::WorldMap;

verus! {

/// All bounds one frame must meet before it can be simulated; a frame
/// violating them is consumed without simulation, as a fatal-state guard.
pub open spec fn spec_frame_ok(player: Player, action: PlayerFrameInput) -> bool {
    &&& spec_entity_pos_ok(player.position)
    &&& spec_entity_vel_ok(player.velocity)
    &&& 0 <= player.width <= 10_000
    &&& 0 <= player.height <= 10_000
    &&& spec_origin_ok(action.camera_position)
    &&& spec_dir_ok(action.camera_direction)
    &&& spec_basis_ok(action.camera_forward)
    &&& spec_basis_ok(action.camera_right)
    &&& action.delta_ms <= 10_000
}

/// Executable form of [`spec_frame_ok`].
pub fn frame_ok(player: &Player, action: &PlayerFrameInput) -> (r: bool)
    ensures
        r == spec_frame_ok(*player, *action),
{
    let p = player.position;
    let v = player.velocity;
    let c = action.camera_position;
    let d = action.camera_direction;
    let f = action.camera_forward;
    let g = action.camera_right;
    -1_000_000_000_000 <= p.x && p.x <= 1_000_000_000_000 && -1_000_000_000_000 <= p.y && p.y
        <= 1_000_000_000_000 && -1_000_000_000_000 <= p.z && p.z <= 1_000_000_000_000
        && -100_000_000 <= v.x && v.x <= 100_000_000 && -100_000_000 <= v.y && v.y <= 100_000_000
        && -100_000_000 <= v.z && v.z <= 100_000_000 && 0 <= player.width && player.width <= 10_000
        && 0 <= player.height && player.height <= 10_000 && -2_000_000_000_000 <= c.x && c.x
        <= 2_000_000_000_000 && -2_000_000_000_000 <= c.y && c.y <= 2_000_000_000_000
        && -2_000_000_000_000 <= c.z && c.z <= 2_000_000_000_000 && -4000 <= d.x && d.x <= 4000
        && -4000 <= d.y && d.y <= 4000 && -4000 <= d.z && d.z <= 4000 && !(d.x == 0 && d.y == 0
        && d.z == 0) && -2000 <= f.x && f.x <= 2000 && -2000 <= f.y && f.y <= 2000 && -2000 <= f.z
        && f.z <= 2000 && -2000 <= g.x && g.x <= 2000 && -2000 <= g.y && g.y <= 2000 && -2000 <= g.z
        && g.z <= 2000 && action.delta_ms <= 10_000
}

/// Advance one player by one input frame: block interactions first, then
/// movement — the composed effect is the click chain followed by the
/// movement mirror against the world the clicks left behind. After the tick
/// the player never rests below the fall limit.
pub fn simulate_player_actions<W: WorldMap>(
    player: &mut Player,
    world_map: &mut W,
    action: &PlayerFrameInput,
    caller_type: CallerType,
)
    requires
        spec_frame_ok(*old(player), *action),
    ensures
        final(player).position.y >= FALL_LIMIT,
        final(player).width == old(player).width,
        final(player).height == old(player).height,
        final(player).id == old(player).id,
        final(player).name == old(player).name,
        final(player).last_input_processed == old(player).last_input_processed,
        exists|wm: Map<IVec3, BlockData>, im: Seq<Option<ItemStack>>|
            {
                &&& spec_clicks_chain(
                    old(world_map).blocks(),
                    old(player).inventory@,
                    wm,
                    im,
                    *action,
                    action.inputs@,
                    old(player).position,
                    old(player).width,
                    old(player).height,
                )
                &&& final(world_map).blocks() == wm
                &&& final(player).inventory@ == im
                &&& spec_move_state(*final(player)) == spec_simulate_player_movement(
                    spec_move_state(*old(player)),
                    wm,
                    *action,
                    action.delta_ms,
                    old(player).width as int,
                    old(player).height as int,
                ).0
            },
{
    simulate_player_block_interactions(player, world_map, action, caller_type);
    let ghost wm = world_map.blocks();
    let ghost im = player.inventory@;
    simulate_player_movement(player, world_map, action, action.delta_ms);
    proof {
        assert(spec_move_state(*player) == spec_simulate_player_movement(
            spec_move_state(*old(player)),
            wm,
            *action,
            action.delta_ms,
            old(player).width as int,
            old(player).height as int,
        ).0);
    }
}

/// The marker after replaying a frame sequence against marker `m`: every
/// frame strictly newer than the running marker is consumed and advances it
/// to its timestamp; stale or duplicate frames leave it alone.
pub open spec fn spec_replay_marker(frames: Seq<PlayerFrameInput>, m: u64) -> u64
    decreases frames.len(),
{
    if frames.len() == 0 {
        m
    } else {
        spec_replay_marker(
            frames.skip(1),
            if frames[0].time_ms > m {
                frames[0].time_ms
            } else {
                m
            },
        )
    }
}

/// One more frame moves the marker fold by exactly its own step.
proof fn lemma_replay_marker_snoc(frames: Seq<PlayerFrameInput>, f: PlayerFrameInput, m: u64)
    ensures
        spec_replay_marker(frames.push(f), m) == if f.time_ms > spec_replay_marker(frames, m) {
            f.time_ms
        } else {
            spec_replay_marker(frames, m)
        },
    decreases frames.len(),
{
    let m_step = if f.time_ms > spec_replay_marker(frames, m) {
        f.time_ms
    } else {
        spec_replay_marker(frames, m)
    };
    if frames.len() == 0 {
        assert(frames.push(f)[0] == f);
        assert(frames.push(f).skip(1) =~= Seq::<PlayerFrameInput>::empty());
        assert(spec_replay_marker(frames, m) == m);
        assert(spec_replay_marker(frames.push(f), m) == spec_replay_marker(
            frames.push(f).skip(1),
            m_step,
        ));
        assert(spec_replay_marker(frames.push(f).skip(1), m_step) == m_step);
    } else {
        assert(frames.push(f)[0] == frames[0]);
        assert(frames.push(f).skip(1) =~= frames.skip(1).push(f));
        let m_next = if frames[0].time_ms > m {
            frames[0].time_ms
        } else {
            m
        };
        lemma_replay_marker_snoc(frames.skip(1), f, m_next);
        assert(spec_replay_marker(frames.push(f), m) == spec_replay_marker(
            frames.skip(1).push(f),
            m_next,
        ));
        assert(spec_replay_marker(frames, m) == spec_replay_marker(frames.skip(1), m_next));
    }
}

/// What one consumed frame does to player and world, before the marker is
/// advanced: a frame passing the fatal-state guard runs the whole
/// simulation step — the click chain, then the movement mirror against the
/// world the clicks left behind — while a frame failing the guard is
/// consumed without simulation, corrupting nothing.
pub open spec fn spec_frame_transition<W: WorldMap>(
    p0: Player,
    w0: W,
    p1: Player,
    w1: W,
    frame: PlayerFrameInput,
) -> bool {
    if spec_frame_ok(p0, frame) {
        &&& p1.position.y >= FALL_LIMIT
        &&& p1.width == p0.width
        &&& p1.height == p0.height
        &&& p1.id == p0.id
        &&& p1.name == p0.name
        &&& p1.last_input_processed == p0.last_input_processed
        &&& exists|wm: Map<IVec3, BlockData>, im: Seq<Option<ItemStack>>|
            {
                &&& spec_clicks_chain(
                    w0.blocks(),
                    p0.inventory@,
                    wm,
                    im,
                    frame,
                    frame.inputs@,
                    p0.position,
                    p0.width,
                    p0.height,
                )
                &&& w1.blocks() == wm
                &&& p1.inventory@ == im
                &&& spec_move_state(p1) == spec_simulate_player_movement(
                    spec_move_state(p0),
                    wm,
                    frame,
                    frame.delta_ms,
                    p0.width as int,
                    p0.height as int,
                ).0
            }
    } else {
        p1 == p0 && w1 == w0
    }
}

/// The replay chain: frames processed oldest first against the running
/// marker; a frame newer than it is consumed — one frame transition, then
/// the marker advances to its timestamp — and a stale or duplicate frame
/// changes nothing at all.
pub open spec fn spec_replay_chain<W: WorldMap>(
    p0: Player,
    w0: W,
    p1: Player,
    w1: W,
    frames: Seq<PlayerFrameInput>,
    m: u64,
) -> bool
    decreases frames.len(),
{
    if frames.len() == 0 {
        p1 == p0 && w1 == w0
    } else {
        let f = frames[0];
        if f.time_ms > m {
            exists|pm: Player, wm: W|
                spec_frame_transition(p0, w0, pm, wm, f) && spec_replay_chain(
                    Player { last_input_processed: f.time_ms, ..pm },
                    wm,
                    p1,
                    w1,
                    frames.skip(1),
                    f.time_ms,
                )
        } else {
            spec_replay_chain(p0, w0, p1, w1, frames.skip(1), m)
        }
    }
}

/// A replay chain followed by one more frame is a chain over the extended
/// buffer.
proof fn lemma_replay_chain_snoc<W: WorldMap>(
    p0: Player,
    w0: W,
    p1: Player,
    w1: W,
    p2: Player,
    w2: W,
    frames: Seq<PlayerFrameInput>,
    f: PlayerFrameInput,
    m: u64,
)
    requires
        spec_replay_chain(p0, w0, p1, w1, frames, m),
        ({
            let m1 = spec_replay_marker(frames, m);
            if f.time_ms > m1 {
                exists|pm: Player, wm: W|
                    spec_frame_transition(p1, w1, pm, wm, f) && p2 == (Player {
                        last_input_processed: f.time_ms,
                        ..pm
                    }) && w2 == wm
            } else {
                p2 == p1 && w2 == w1
            }
        }),
    ensures
        spec_replay_chain(p0, w0, p2, w2, frames.push(f), m),
    decreases frames.len(),
{
    let m1 = spec_replay_marker(frames, m);
    assert(frames.push(f)[0] == if frames.len() == 0 {
        f
    } else {
        frames[0]
    });
    if frames.len() == 0 {
        assert(m1 == m);
        assert(frames.push(f).skip(1) =~= Seq::<PlayerFrameInput>::empty());
        if f.time_ms > m {
            let (pm, wm): (Player, W) = choose|pm: Player, wm: W|
                spec_frame_transition(p1, w1, pm, wm, f) && p2 == (Player {
                    last_input_processed: f.time_ms,
                    ..pm
                }) && w2 == wm;
            assert(spec_frame_transition(p0, w0, pm, wm, f));
            assert(frames.push(f).skip(1).len() == 0);
            assert(spec_replay_chain(
                Player { last_input_processed: f.time_ms, ..pm },
                wm,
                p2,
                w2,
                frames.push(f).skip(1),
                f.time_ms,
            ));
            assert(spec_replay_chain(p0, w0, p2, w2, frames.push(f), m));
        } else {
            assert(frames.push(f).skip(1).len() == 0);
            assert(spec_replay_chain(p0, w0, p2, w2, frames.push(f).skip(1), m));
            assert(spec_replay_chain(p0, w0, p2, w2, frames.push(f), m));
        }
    } else {
        let f0 = frames[0];
        assert(frames.push(f).skip(1) =~= frames.skip(1).push(f));
        if f0.time_ms > m {
            assert(m1 == spec_replay_marker(frames.skip(1), f0.time_ms));
            let (pm0, wm0): (Player, W) = choose|pm0: Player, wm0: W|
                spec_frame_transition(p0, w0, pm0, wm0, f0) && spec_replay_chain(
                    Player { last_input_processed: f0.time_ms, ..pm0 },
                    wm0,
                    p1,
                    w1,
                    frames.skip(1),
                    f0.time_ms,
                );
            lemma_replay_chain_snoc(
                Player { last_input_processed: f0.time_ms, ..pm0 },
                wm0,
                p1,
                w1,
                p2,
                w2,
                frames.skip(1),
                f,
                f0.time_ms,
            );
            assert(spec_frame_transition(p0, w0, pm0, wm0, frames.push(f)[0]));
            assert(spec_replay_chain(
                Player { last_input_processed: f0.time_ms, ..pm0 },
                wm0,
                p2,
                w2,
                frames.push(f).skip(1),
                f0.time_ms,
            ));
            assert(spec_replay_chain(p0, w0, p2, w2, frames.push(f), m));
        } else {
            assert(m1 == spec_replay_marker(frames.skip(1), m));
            lemma_replay_chain_snoc(p0, w0, p1, w1, p2, w2, frames.skip(1), f, m);
            assert(spec_replay_chain(p0, w0, p2, w2, frames.push(f).skip(1), m));
            assert(spec_replay_chain(p0, w0, p2, w2, frames.push(f), m));
        }
    }
}

/// Replay buffered input frames through the simulation, oldest first: the
/// whole run is a [`spec_replay_chain`]. A frame no newer than the last
/// processed one is rejected (stale or duplicate); every consumed frame
/// that passes the fatal-state guard advances player and world by one
/// simulation step, and advances the marker to its timestamp, so the marker
/// never decreases. A frame whose state fails the guard is consumed without
/// simulation rather than corrupting the entity.
pub fn apply_player_inputs<W: WorldMap>(
    player: &mut Player,
    world_map: &mut W,
    inputs: &Vec<PlayerFrameInput>,
    caller_type: CallerType,
)
    ensures
        final(player).last_input_processed == spec_replay_marker(
            inputs@,
            old(player).last_input_processed,
        ),
        final(player).last_input_processed >= old(player).last_input_processed,
        spec_replay_chain(
            *old(player),
            *old(world_map),
            *final(player),
            *final(world_map),
            inputs@,
            old(player).last_input_processed,
        ),
{
    let ghost m0 = player.last_input_processed;
    let n = inputs.len();
    let mut i: usize = 0;
    proof {
        assert(inputs@.skip(0) =~= inputs@);
        assert(inputs@.take(0) =~= Seq::<PlayerFrameInput>::empty());
    }
    while i < n
        invariant
            i <= n,
            n == inputs@.len(),
            m0 == old(player).last_input_processed,
            player.last_input_processed >= old(player).last_input_processed,
            spec_replay_marker(inputs@.skip(i as int), player.last_input_processed)
                == spec_replay_marker(inputs@, m0),
            player.last_input_processed == spec_replay_marker(inputs@.take(i as int), m0),
            spec_replay_chain(
                *old(player),
                *old(world_map),
                *player,
                *world_map,
                inputs@.take(i as int),
                m0,
            ),
        decreases n - i,
    {
        let frame = &inputs[i];
        proof {
            assert(inputs@.skip(i as int)[0] == inputs@[i as int]);
            assert(inputs@.skip(i as int).skip(1) =~= inputs@.skip(i as int + 1));
        }
        let ghost p_pre = *player;
        let ghost w_pre = *world_map;
        if frame.time_ms > player.last_input_processed {
            if frame_ok(player, frame) {
                simulate_player_actions(player, world_map, frame, caller_type);
            }
            let ghost pm = *player;
            let ghost wm = *world_map;
            proof {
                assert(spec_frame_transition(p_pre, w_pre, pm, wm, inputs@[i as int]));
            }
            player.last_input_processed = frame.time_ms;
            proof {
                assert(*player == (Player {
                    last_input_processed: inputs@[i as int].time_ms,
                    ..pm
                }));
                lemma_replay_chain_snoc(
                    *old(player),
                    *old(world_map),
                    p_pre,
                    w_pre,
                    *player,
                    *world_map,
                    inputs@.take(i as int),
                    inputs@[i as int],
                    m0,
                );
            }
        } else {
            proof {
                lemma_replay_chain_snoc(
                    *old(player),
                    *old(world_map),
                    p_pre,
                    w_pre,
                    *player,
                    *world_map,
                    inputs@.take(i as int),
                    inputs@[i as int],
                    m0,
                );
            }
        }
        proof {
            assert(inputs@.take(i as int + 1) =~= inputs@.take(i as int).push(
                inputs@[i as int],
            ));
            lemma_replay_marker_snoc(inputs@.take(i as int), inputs@[i as int], m0);
        }
        i = i + 1;
    }
    proof {
        assert(inputs@.skip(n as int) =~= Seq::<PlayerFrameInput>::empty());
        assert(inputs@.take(n as int) =~= inputs@);
    }
}

/// Everything the simulation step observes of a player: the kinematic
/// state, the inventory, the shape, the identity and the replay marker.
pub open spec fn spec_player_obs_eq(a: Player, b: Player) -> bool {
    &&& spec_move_state(a) == spec_move_state(b)
    &&& a.inventory@ == b.inventory@
    &&& a.width == b.width
    &&& a.height == b.height
    &&& a.id == b.id
    &&& a.name == b.name
    &&& a.last_input_processed == b.last_input_processed
}

/// One frame is call-identical across stores: from observably equal players
/// and stores holding the same blocks — the authoritative world on the
/// server, the mirror on a client — a frame transition ends observably
/// equal, over the same blocks.
proof fn lemma_frame_transition_identical<W1: WorldMap, W2: WorldMap>(
    p0: Player,
    q0: Player,
    w0: W1,
    u0: W2,
    p1: Player,
    w1: W1,
    q1: Player,
    u1: W2,
    frame: PlayerFrameInput,
)
    requires
        spec_player_obs_eq(p0, q0),
        w0.blocks() == u0.blocks(),
        spec_frame_transition(p0, w0, p1, w1, frame),
        spec_frame_transition(q0, u0, q1, u1, frame),
    ensures
        spec_player_obs_eq(p1, q1),
        w1.blocks() == u1.blocks(),
{
    assert(spec_frame_ok(p0, frame) == spec_frame_ok(q0, frame));
    if spec_frame_ok(p0, frame) {
        let (wm1, im1): (Map<IVec3, BlockData>, Seq<Option<ItemStack>>) = choose|
            wm: Map<IVec3, BlockData>,
            im: Seq<Option<ItemStack>>,
        |
            {
                &&& spec_clicks_chain(
                    w0.blocks(),
                    p0.inventory@,
                    wm,
                    im,
                    frame,
                    frame.inputs@,
                    p0.position,
                    p0.width,
                    p0.height,
                )
                &&& w1.blocks() == wm
                &&& p1.inventory@ == im
                &&& spec_move_state(p1) == spec_simulate_player_movement(
                    spec_move_state(p0),
                    wm,
                    frame,
                    frame.delta_ms,
                    p0.width as int,
                    p0.height as int,
                ).0
            };
        let (wm2, im2): (Map<IVec3, BlockData>, Seq<Option<ItemStack>>) = choose|
            wm: Map<IVec3, BlockData>,
            im: Seq<Option<ItemStack>>,
        |
            {
                &&& spec_clicks_chain(
                    u0.blocks(),
                    q0.inventory@,
                    wm,
                    im,
                    frame,
                    frame.inputs@,
                    q0.position,
                    q0.width,
                    q0.height,
                )
                &&& u1.blocks() == wm
                &&& q1.inventory@ == im
                &&& spec_move_state(q1) == spec_simulate_player_movement(
                    spec_move_state(q0),
                    wm,
                    frame,
                    frame.delta_ms,
                    q0.width as int,
                    q0.height as int,
                ).0
            };
        lemma_clicks_chain_functional(
            w0.blocks(),
            p0.inventory@,
            wm1,
            im1,
            wm2,
            im2,
            frame,
            frame.inputs@,
            p0.position,
            p0.width,
            p0.height,
        );
    }
}

/// Replay is call-identical on server and client — the same deterministic
/// simulation over either storage representation: replaying one buffered
/// frame sequence from observably equal players against two stores holding
/// the same blocks ends with observably equal players and the same blocks,
/// so server replay of a client's frames reproduces the client's
/// prediction.
pub proof fn lemma_replay_call_identical<W1: WorldMap, W2: WorldMap>(
    p0: Player,
    q0: Player,
    w0: W1,
    u0: W2,
    p1: Player,
    w1: W1,
    q1: Player,
    u1: W2,
    frames: Seq<PlayerFrameInput>,
    m: u64,
)
    requires
        spec_player_obs_eq(p0, q0),
        w0.blocks() == u0.blocks(),
        spec_replay_chain(p0, w0, p1, w1, frames, m),
        spec_replay_chain(q0, u0, q1, u1, frames, m),
    ensures
        spec_player_obs_eq(p1, q1),
        w1.blocks() == u1.blocks(),
    decreases frames.len(),
{
    if frames.len() == 0 {
    } else {
        let f = frames[0];
        if f.time_ms > m {
            let (pm1, wm1): (Player, W1) = choose|pm: Player, wm: W1|
                spec_frame_transition(p0, w0, pm, wm, f) && spec_replay_chain(
                    Player { last_input_processed: f.time_ms, ..pm },
                    wm,
                    p1,
                    w1,
                    frames.skip(1),
                    f.time_ms,
                );
            let (pm2, wm2): (Player, W2) = choose|pm: Player, wm: W2|
                spec_frame_transition(q0, u0, pm, wm, f) && spec_replay_chain(
                    Player { last_input_processed: f.time_ms, ..pm },
                    wm,
                    q1,
                    u1,
                    frames.skip(1),
                    f.time_ms,
                );
            lemma_frame_transition_identical(p0, q0, w0, u0, pm1, wm1, pm2, wm2, f);
            assert(spec_player_obs_eq(
                Player { last_input_processed: f.time_ms, ..pm1 },
                Player { last_input_processed: f.time_ms, ..pm2 },
            ));
            lemma_replay_call_identical(
                Player { last_input_processed: f.time_ms, ..pm1 },
                Player { last_input_processed: f.time_ms, ..pm2 },
                wm1,
                wm2,
                p1,
                w1,
                q1,
                u1,
                frames.skip(1),
                f.time_ms,
            );
        } else {
            lemma_replay_call_identical(p0, q0, w0, u0, p1, w1, q1, u1, frames.skip(1), m);
        }
    }
}

} // verus!
