//! Drop tables: what a broken block yields. A drop table is a weighted list
//! of `(relative_chance, item, count)` rows; a draw picks one row by a
//! cumulative-weight scan of a value below the total weight. Break actions
//! draw deterministically from the frame's timestamp and block position, so
//! client and server agree; world events draw from the thread's generator,
//! the one trusted call here. The scan and all bookkeeping are verified.

use vstd::prelude::*;
use crate::blocks::BlockId;
use crate::items::ItemId;

verus! {

/// One row of a drop table: relative chance, the item, how many units.
pub type DropRow = (u32, ItemId, u32);

/// The drop table of each block kind.
pub open spec fn spec_drop_table(id: BlockId) -> Seq<DropRow> {
    if id == BlockId::Dirt || id == BlockId::Grass {
        seq![(1u32, ItemId::Dirt, 1u32)]
    } else if id == BlockId::Stone {
        seq![(1u32, ItemId::Cobblestone, 1u32)]
    } else if id == BlockId::Sand {
        seq![(1u32, ItemId::Sand, 1u32)]
    } else if id == BlockId::Cactus {
        seq![(1u32, ItemId::Cactus, 1u32)]
    } else if id == BlockId::OakLog {
        seq![(1u32, ItemId::OakLog, 1u32)]
    } else if id == BlockId::OakPlanks {
        seq![(1u32, ItemId::OakPlanks, 1u32)]
    } else if id == BlockId::Ice {
        seq![(1u32, ItemId::Ice, 1u32)]
    } else if id == BlockId::Dandelion || id == BlockId::Poppy {
        seq![(1u32, ItemId::Dandelion, 1u32)]
    } else if id == BlockId::TallGrass {
        seq![(1u32, ItemId::TallGrass, 1u32)]
    } else if id == BlockId::SpruceLog {
        seq![(1u32, ItemId::SpruceLog, 1u32)]
    } else if id == BlockId::Snow {
        seq![(1u32, ItemId::Snowball, 4u32)]
    } else {
        Seq::empty()
    }
}

/// Sum of the relative chances: the table's total weight.
pub open spec fn spec_total_weight(table: Seq<DropRow>) -> int
    decreases table.len(),
{
    if table.len() == 0 {
        0
    } else {
        table[0].0 + spec_total_weight(table.skip(1))
    }
}

/// Row selected by the cumulative-weight scan for a drawn value `r`.
pub open spec fn spec_pick_index(table: Seq<DropRow>, r: int) -> int
    decreases table.len(),
{
    if table.len() == 0 {
        0
    } else if r < table[0].0 {
        0
    } else {
        1 + spec_pick_index(table.skip(1), r - table[0].0)
    }
}

/// Whether `d` is the (item, count) pair of some row of the table.
pub open spec fn spec_is_table_drop(table: Seq<DropRow>, d: (ItemId, u32)) -> bool {
    exists|j: int| 0 <= j < table.len() && d == (#[trigger] table[j].1, table[j].2)
}

/// Every draw below the total weight selects a row of the table — a drop
/// can never name an item absent from it.
pub proof fn lemma_pick_index_in_table(table: Seq<DropRow>, r: int)
    requires
        0 <= r < spec_total_weight(table),
    ensures
        0 <= spec_pick_index(table, r) < table.len(),
    decreases table.len(),
{
    if table.len() > 0 && r >= table[0].0 {
        lemma_pick_index_in_table(table.skip(1), r - table[0].0);
    }
}

/// The deterministic draw behind a break action's drop: a pure mixer of the
/// input frame's timestamp and the broken block's position, so client
/// prediction and server replay of the same frame draw the same drop.
pub open spec fn spec_break_draw(time_ms: u64, pos: crate::coords::IVec3) -> int {
    let ux = pos.x + 2_147_483_648;
    let uy = pos.y + 2_147_483_648;
    let uz = pos.z + 2_147_483_648;
    let h = (time_ms % 4_294_967_296 + ux * 73_856_093 + uy * 39_916_801 + uz * 19_349_663)
        % 4_294_967_296;
    (h * 2_654_435_761) % 4_294_967_296
}

/// Executable form of [`spec_break_draw`].
pub fn break_draw(time_ms: u64, pos: &crate::coords::IVec3) -> (r: u64)
    ensures
        r as int == spec_break_draw(time_ms, *pos),
        r < 4_294_967_296,
{
    let ux: u64 = (pos.x as i64 + 2_147_483_648) as u64;
    let uy: u64 = (pos.y as i64 + 2_147_483_648) as u64;
    let uz: u64 = (pos.z as i64 + 2_147_483_648) as u64;
    proof {
        assert(ux * 73_856_093 <= 0x1_0000_0000u64 * 73_856_093 && uy * 39_916_801
            <= 0x1_0000_0000u64 * 39_916_801 && uz * 19_349_663 <= 0x1_0000_0000u64
            * 19_349_663) by (nonlinear_arith)
            requires
                ux <= 0x1_0000_0000u64,
                uy <= 0x1_0000_0000u64,
                uz <= 0x1_0000_0000u64,
        ;
    }
    let h: u64 = (time_ms % 4_294_967_296 + ux * 73_856_093 + uy * 39_916_801 + uz * 19_349_663)
        % 4_294_967_296;
    proof {
        assert(h * 2_654_435_761 <= 4_294_967_296u64 * 2_654_435_761) by (nonlinear_arith)
            requires
                h <= 4_294_967_296u64,
        ;
    }
    (h * 2_654_435_761) % 4_294_967_296
}

/// The drops one break action yields, drawn deterministically from the
/// frame's timestamp and the block position: one cumulative-weight pick
/// when the table has weight, nothing otherwise.
pub open spec fn spec_break_drops(id: BlockId, time_ms: u64, pos: crate::coords::IVec3) -> Seq<
    (ItemId, u32),
> {
    let table = spec_drop_table(id);
    let total = spec_total_weight(table);
    if total > 0 {
        let pick = spec_pick_index(table, spec_break_draw(time_ms, pos) % total);
        seq![(table[pick].1, table[pick].2)]
    } else {
        Seq::empty()
    }
}

/// Relies on `rand::Rng::gen_range` over the thread's generator: a value
/// drawn below `n`. Nothing more is assumed of the draw.
#[verifier::external_body]
fn random_below(n: u32) -> (r: u32)
    requires
        n > 0,
    ensures
        r < n,
{
    rand::Rng::gen_range(&mut rand::thread_rng(), 0..n)
}

impl BlockId {
    /// The drop table of this kind, row for row.
    pub fn get_drop_table(&self) -> (table: Vec<DropRow>)
        ensures
            table@ == spec_drop_table(*self),
    {
        let mut table: Vec<DropRow> = Vec::new();
        match *self {
            BlockId::Dirt | BlockId::Grass => table.push((1, ItemId::Dirt, 1)),
            BlockId::Stone => table.push((1, ItemId::Cobblestone, 1)),
            BlockId::Sand => table.push((1, ItemId::Sand, 1)),
            BlockId::Cactus => table.push((1, ItemId::Cactus, 1)),
            BlockId::OakLog => table.push((1, ItemId::OakLog, 1)),
            BlockId::OakPlanks => table.push((1, ItemId::OakPlanks, 1)),
            BlockId::Ice => table.push((1, ItemId::Ice, 1)),
            BlockId::Dandelion | BlockId::Poppy => table.push((1, ItemId::Dandelion, 1)),
            BlockId::TallGrass => table.push((1, ItemId::TallGrass, 1)),
            BlockId::SpruceLog => table.push((1, ItemId::SpruceLog, 1)),
            BlockId::Snow => table.push((1, ItemId::Snowball, 4)),
            _ => (),
        }
        proof {
            assert(table@ =~= spec_drop_table(*self));
        }
        table
    }

    /// Draw `nb_drops` rows from this kind's drop table at random: exactly
    /// one pick per requested drop when the table has weight, each pick an
    /// item and count out of the table; an empty table yields nothing.
    pub fn get_drops(&self, nb_drops: u32) -> (drops: Vec<(ItemId, u32)>)
        ensures
            drops@.len() == if spec_total_weight(spec_drop_table(*self)) > 0 {
                nb_drops as int
            } else {
                0
            },
            forall|k: int|
                0 <= k < drops@.len() ==> spec_is_table_drop(
                    spec_drop_table(*self),
                    #[trigger] drops@[k],
                ),
    {
        let table = self.get_drop_table();
        proof {
            let t = spec_drop_table(*self);
            assert(t.len() <= 1);
            if t.len() == 1 {
                assert(t.skip(1) =~= Seq::<DropRow>::empty());
                assert(spec_total_weight(t.skip(1)) == 0);
                assert(spec_total_weight(t) == t[0].0);
            } else {
                assert(spec_total_weight(t) == 0);
            }
            assert(0 <= spec_total_weight(t) <= u32::MAX);
        }
        let total = total_weight(&table);
        if total == 0 {
            return Vec::new();
        }
        let mut draws: Vec<u32> = Vec::new();
        let mut k: u32 = 0;
        while k < nb_drops
            invariant
                total as int == spec_total_weight(table@),
                total > 0,
                k <= nb_drops,
                draws@.len() == k,
                forall|m: int| 0 <= m < draws@.len() ==> (#[trigger] draws@[m]) < total,
            decreases nb_drops - k,
        {
            let r = random_below(total);
            draws.push(r);
            k = k + 1;
        }
        drops_from_draws(&table, &draws)
    }
}

/// Total weight of a table.
pub fn total_weight(table: &Vec<DropRow>) -> (t: u32)
    requires
        spec_total_weight(table@) <= u32::MAX,
    ensures
        t as int == spec_total_weight(table@),
{
    let n = table.len();
    let mut t: u32 = 0;
    let mut i: usize = 0;
    proof {
        assert(table@.skip(0) =~= table@);
        lemma_total_weight_nonneg(table@.skip(0));
    }
    while i < n
        invariant
            i <= n,
            n == table@.len(),
            spec_total_weight(table@) <= u32::MAX,
            t + spec_total_weight(table@.skip(i as int)) == spec_total_weight(table@),
            spec_total_weight(table@.skip(i as int)) >= 0,
        decreases n - i,
    {
        proof {
            assert(table@.skip(i as int).skip(1) =~= table@.skip(i as int + 1));
            assert(table@.skip(i as int)[0] == table@[i as int]);
            lemma_total_weight_nonneg(table@.skip(i as int + 1));
        }
        t = t + table[i].0;
        i = i + 1;
    }
    t
}

/// A total weight is never negative.
pub proof fn lemma_total_weight_nonneg(table: Seq<DropRow>)
    ensures
        spec_total_weight(table) >= 0,
    decreases table.len(),
{
    if table.len() > 0 {
        lemma_total_weight_nonneg(table.skip(1));
    }
}

/// The row a drawn value selects: walk the rows, subtracting each row's
/// chance until the remainder falls inside one.
pub fn pick_drop(table: &Vec<DropRow>, r: u32) -> (idx: usize)
    requires
        (r as int) < spec_total_weight(table@),
    ensures
        idx as int == spec_pick_index(table@, r as int),
        idx < table@.len(),
{
    let n = table.len();
    let mut i: usize = 0;
    let mut rem: u32 = r;
    proof {
        assert(table@.skip(0) =~= table@);
    }
    loop
        invariant
            i <= n,
            n == table@.len(),
            (rem as int) < spec_total_weight(table@.skip(i as int)),
            spec_pick_index(table@, r as int) == i + spec_pick_index(
                table@.skip(i as int),
                rem as int,
            ),
        ensures
            i < n,
            table@[i as int].0 > rem,
            spec_pick_index(table@, r as int) == i,
        decreases n - i,
    {
        proof {
            assert(table@.skip(i as int).skip(1) =~= table@.skip(i as int + 1));
            assert(table@.skip(i as int)[0] == table@[i as int]);
            lemma_total_weight_nonneg(table@.skip(i as int));
            assert(i < n);
        }
        if rem < table[i].0 {
            break;
        }
        rem = rem - table[i].0;
        i = i + 1;
        proof {
            lemma_total_weight_nonneg(table@.skip(i as int));
        }
    }
    i
}

/// Resolve a sequence of drawn values into drops, one pick per draw — the
/// deterministic core of drop resolution, usable with any source of draws.
pub fn drops_from_draws(table: &Vec<DropRow>, draws: &Vec<u32>) -> (drops: Vec<(ItemId, u32)>)
    requires
        forall|m: int| 0 <= m < draws@.len() ==> (#[trigger] draws@[m] as int) < spec_total_weight(
            table@,
        ),
    ensures
        drops@.len() == draws@.len(),
        forall|k: int|
            0 <= k < drops@.len() ==> #[trigger] drops@[k] == (
            table@[spec_pick_index(table@, draws@[k] as int)].1,
            table@[spec_pick_index(table@, draws@[k] as int)].2,
            ),
        forall|k: int|
            0 <= k < drops@.len() ==> spec_is_table_drop(table@, #[trigger] drops@[k]),
{
    let n = draws.len();
    let mut drops: Vec<(ItemId, u32)> = Vec::new();
    let mut k: usize = 0;
    while k < n
        invariant
            k <= n,
            n == draws@.len(),
            forall|m: int| 0 <= m < draws@.len() ==> (#[trigger] draws@[m] as int)
                < spec_total_weight(table@),
            drops@.len() == k,
            forall|m: int|
                0 <= m < k ==> #[trigger] drops@[m] == (
                table@[spec_pick_index(table@, draws@[m] as int)].1,
                table@[spec_pick_index(table@, draws@[m] as int)].2,
                ),
            forall|m: int|
                0 <= m < k ==> spec_is_table_drop(table@, #[trigger] drops@[m]),
        decreases n - k,
    {
        let r = draws[k];
        proof {
            lemma_total_weight_nonneg(table@);
            lemma_pick_index_in_table(table@, r as int);
        }
        let idx = pick_drop(table, r);
        drops.push((table[idx].1, table[idx].2));
        proof {
            assert(drops@[k as int] == (table@[idx as int].1, table@[idx as int].2));
            assert(spec_is_table_drop(table@, drops@[k as int]));
        }
        k = k + 1;
    }
    drops
}

} // verus!
