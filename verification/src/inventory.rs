//! A player's inventory: a fixed number of slots, each empty or holding an
//! item stack. Invariant: no stack exceeds its item's max-stack size and no
//! slot stores a zero count — an emptied slot is removed, not kept at zero.

use vstd::prelude::*;
use crate::items::{spec_max_stack, ItemId, ItemStack, ItemType};

verus! {

/// Number of slots an inventory has.
pub const MAX_INVENTORY_SLOTS: u32 = 36;

/// What one slot contributes to the total count of an item kind.
pub open spec fn spec_slot_count(slot: Option<ItemStack>, id: ItemId) -> int {
    match slot {
        Some(s) => if s.item_id == id {
            s.nb as int
        } else {
            0
        },
        None => 0,
    }
}

/// Total count of an item kind over a slot sequence.
pub open spec fn spec_count_of(slots: Seq<Option<ItemStack>>, id: ItemId) -> int
    decreases slots.len(),
{
    if slots.len() == 0 {
        0
    } else {
        spec_count_of(slots.drop_last(), id) + spec_slot_count(slots.last(), id)
    }
}

/// Updating one slot moves the total by exactly the difference at that slot.
pub proof fn lemma_count_update(
    slots: Seq<Option<ItemStack>>,
    i: int,
    v: Option<ItemStack>,
    id: ItemId,
)
    requires
        0 <= i < slots.len(),
    ensures
        spec_count_of(slots.update(i, v), id) == spec_count_of(slots, id) - spec_slot_count(
            slots[i],
            id,
        ) + spec_slot_count(v, id),
    decreases slots.len(),
{
    if i == slots.len() - 1 {
        assert(slots.update(i, v).drop_last() =~= slots.drop_last());
    } else {
        assert(slots.update(i, v).drop_last() =~= slots.drop_last().update(i, v));
        lemma_count_update(slots.drop_last(), i, v, id);
    }
}

/// No further unit of `id` fits: every slot is occupied, and every slot
/// already holding `id` is at its max-stack size.
pub open spec fn spec_full_for(slots: Seq<Option<ItemStack>>, id: ItemId) -> bool {
    forall|j: int|
        0 <= j < slots.len() ==> match #[trigger] slots[j] {
            Some(s) => s.item_id == id ==> s.nb as int == spec_max_stack(id),
            None => false,
        }
}

/// Slots after pouring `remaining` units of one item kind in from slot `i`
/// onward: merge into same-kind slots with room, open empty slots, never
/// past the kind's max-stack size; whatever still remains past the last
/// slot is lost (the inventory is full).
pub open spec fn spec_pour_from(
    slots: Seq<Option<ItemStack>>,
    i: int,
    id: ItemId,
    item_type: ItemType,
    remaining: int,
) -> Seq<Option<ItemStack>>
    decreases slots.len() - i,
{
    if i < 0 || i >= slots.len() || remaining <= 0 {
        slots
    } else {
        match slots[i] {
            Some(existing) => {
                if existing.item_id == id && (existing.nb as int) < spec_max_stack(id) {
                    let room = spec_max_stack(id) - existing.nb;
                    let put = if remaining < room {
                        remaining
                    } else {
                        room
                    };
                    spec_pour_from(
                        slots.update(
                            i,
                            Some(ItemStack { item_id: id, item_type, nb: (existing.nb + put) as u32 }),
                        ),
                        i + 1,
                        id,
                        item_type,
                        remaining - put,
                    )
                } else {
                    spec_pour_from(slots, i + 1, id, item_type, remaining)
                }
            },
            None => {
                let put = if remaining < spec_max_stack(id) {
                    remaining
                } else {
                    spec_max_stack(id)
                };
                spec_pour_from(
                    slots.update(i, Some(ItemStack { item_id: id, item_type, nb: put as u32 })),
                    i + 1,
                    id,
                    item_type,
                    remaining - put,
                )
            },
        }
    }
}

/// Slots after pouring a whole stack in.
pub open spec fn spec_pour(slots: Seq<Option<ItemStack>>, stack: ItemStack) -> Seq<
    Option<ItemStack>,
> {
    spec_pour_from(slots, 0, stack.item_id, stack.item_type, stack.nb as int)
}

/// Slots after pouring a sequence of (item, count) drops in order, each with
/// its item's default type.
pub open spec fn spec_pour_all(
    slots: Seq<Option<ItemStack>>,
    drops: Seq<(ItemId, u32)>,
) -> Seq<Option<ItemStack>>
    decreases drops.len(),
{
    if drops.len() == 0 {
        slots
    } else {
        spec_pour_all(
            spec_pour(
                slots,
                ItemStack {
                    item_id: drops[0].0,
                    item_type: crate::items::spec_default_type(drops[0].0),
                    nb: drops[0].1,
                },
            ),
            drops.skip(1),
        )
    }
}

/// Remaining room for `id` from slot `i` on: an empty slot counts a whole
/// max-stack, a same-kind slot its headroom, any other slot nothing.
pub open spec fn spec_capacity_from(slots: Seq<Option<ItemStack>>, i: int, id: ItemId) -> int
    decreases slots.len() - i,
{
    if i < 0 || i >= slots.len() {
        0
    } else {
        (match slots[i] {
            Some(s) => if s.item_id == id && (s.nb as int) < spec_max_stack(id) {
                spec_max_stack(id) - s.nb
            } else {
                0
            },
            None => spec_max_stack(id),
        }) + spec_capacity_from(slots, i + 1, id)
    }
}

/// Capacity past slot `i` ignores whatever slot `i` itself is changed to.
proof fn lemma_capacity_update_before(
    slots: Seq<Option<ItemStack>>,
    i: int,
    v: Option<ItemStack>,
    j: int,
    id: ItemId,
)
    requires
        0 <= i < j || slots.len() <= j,
        0 <= i < slots.len(),
    ensures
        spec_capacity_from(slots.update(i, v), j, id) == spec_capacity_from(slots, j, id),
    decreases slots.len() - j,
{
    if 0 <= j < slots.len() {
        assert(slots.update(i, v)[j] == slots[j]);
        lemma_capacity_update_before(slots, i, v, j + 1, id);
    }
}

/// Pouring never touches a slot of another item kind.
pub proof fn lemma_pour_preserves_other_kinds(
    slots: Seq<Option<ItemStack>>,
    i: int,
    id: ItemId,
    item_type: ItemType,
    remaining: int,
    j: int,
)
    requires
        0 <= j < slots.len(),
        match slots[j] {
            Some(s) => s.item_id != id,
            None => false,
        },
    ensures
        spec_pour_from(slots, i, id, item_type, remaining).len() == slots.len(),
        spec_pour_from(slots, i, id, item_type, remaining)[j] == slots[j],
    decreases slots.len() - i,
{
    if i < 0 || i >= slots.len() || remaining <= 0 {
    } else {
        match slots[i] {
            Some(existing) => {
                if existing.item_id == id && (existing.nb as int) < spec_max_stack(id) {
                    let room = spec_max_stack(id) - existing.nb;
                    let put = if remaining < room {
                        remaining
                    } else {
                        room
                    };
                    let updated = slots.update(
                        i,
                        Some(ItemStack { item_id: id, item_type, nb: (existing.nb + put) as u32 }),
                    );
                    assert(i != j);
                    assert(updated[j] == slots[j]);
                    lemma_pour_preserves_other_kinds(updated, i + 1, id, item_type, remaining - put, j);
                } else {
                    lemma_pour_preserves_other_kinds(slots, i + 1, id, item_type, remaining, j);
                }
            },
            None => {
                let put = if remaining < spec_max_stack(id) {
                    remaining
                } else {
                    spec_max_stack(id)
                };
                let updated = slots.update(
                    i,
                    Some(ItemStack { item_id: id, item_type, nb: put as u32 }),
                );
                assert(i != j);
                assert(updated[j] == slots[j]);
                lemma_pour_preserves_other_kinds(updated, i + 1, id, item_type, remaining - put, j);
            },
        }
    }
}

/// Pouring adds exactly what fits: the kind's total rises by the poured
/// amount or by the remaining capacity, whichever is smaller — overflow
/// opens fresh slots rather than vanishing, until the inventory is full.
pub proof fn lemma_pour_exact(
    slots: Seq<Option<ItemStack>>,
    i: int,
    id: ItemId,
    item_type: ItemType,
    remaining: int,
)
    requires
        0 <= remaining,
    ensures
        spec_count_of(spec_pour_from(slots, i, id, item_type, remaining), id) == spec_count_of(
            slots,
            id,
        ) + if remaining <= spec_capacity_from(slots, i, id) {
            remaining
        } else {
            spec_capacity_from(slots, i, id)
        },
    decreases slots.len() - i,
{
    if i < 0 || i >= slots.len() || remaining <= 0 {
        assert(spec_capacity_from(slots, i, id) >= 0) by {
            lemma_capacity_nonneg(slots, i, id);
        }
    } else {
        lemma_capacity_nonneg(slots, i + 1, id);
        match slots[i] {
            Some(existing) => {
                if existing.item_id == id && (existing.nb as int) < spec_max_stack(id) {
                    let room = spec_max_stack(id) - existing.nb;
                    let put = if remaining < room {
                        remaining
                    } else {
                        room
                    };
                    let v = Some(
                        ItemStack { item_id: id, item_type, nb: (existing.nb + put) as u32 },
                    );
                    let updated = slots.update(i, v);
                    lemma_count_update(slots, i, v, id);
                    lemma_capacity_update_before(slots, i, v, i + 1, id);
                    lemma_pour_exact(updated, i + 1, id, item_type, remaining - put);
                } else {
                    lemma_pour_exact(slots, i + 1, id, item_type, remaining);
                }
            },
            None => {
                let put = if remaining < spec_max_stack(id) {
                    remaining
                } else {
                    spec_max_stack(id)
                };
                let v = Some(ItemStack { item_id: id, item_type, nb: put as u32 });
                let updated = slots.update(i, v);
                lemma_count_update(slots, i, v, id);
                lemma_capacity_update_before(slots, i, v, i + 1, id);
                lemma_pour_exact(updated, i + 1, id, item_type, remaining - put);
            },
        }
    }
}

/// A capacity is never negative.
proof fn lemma_capacity_nonneg(slots: Seq<Option<ItemStack>>, i: int, id: ItemId)
    ensures
        spec_capacity_from(slots, i, id) >= 0,
    decreases slots.len() - i,
{
    if 0 <= i < slots.len() {
        lemma_capacity_nonneg(slots, i + 1, id);
    }
}

/// Stacking conservation: pouring a stack in raises the kind's total by
/// exactly the smaller of the stack and the inventory's remaining capacity
/// for that kind, and leaves every slot of any other kind untouched.
pub proof fn lemma_stacking_conservation(slots: Seq<Option<ItemStack>>, stack: ItemStack)
    ensures
        spec_count_of(spec_pour(slots, stack), stack.item_id) == spec_count_of(
            slots,
            stack.item_id,
        ) + if stack.nb as int <= spec_capacity_from(slots, 0, stack.item_id) {
            stack.nb as int
        } else {
            spec_capacity_from(slots, 0, stack.item_id)
        },
        forall|j: int|
            0 <= j < slots.len() && (match slots[j] {
                Some(s) => s.item_id != stack.item_id,
                None => false,
            }) ==> #[trigger] spec_pour(slots, stack)[j] == slots[j],
{
    lemma_pour_exact(slots, 0, stack.item_id, stack.item_type, stack.nb as int);
    assert forall|j: int|
        0 <= j < slots.len() && (match slots[j] {
            Some(s) => s.item_id != stack.item_id,
            None => false,
        }) implies #[trigger] spec_pour(slots, stack)[j] == slots[j] by {
        lemma_pour_preserves_other_kinds(
            slots,
            0,
            stack.item_id,
            stack.item_type,
            stack.nb as int,
            j,
        );
    }
}

/// A player inventory with a fixed slot count.
#[derive(Debug)]
pub struct Inventory {
    inner: Vec<Option<ItemStack>>,
}

impl Inventory {
    #[verifier::type_invariant]
    spec fn wf(self) -> bool {
        forall|i: int|
            0 <= i < self.inner@.len() ==> match #[trigger] self.inner@[i] {
                Some(s) => 0 < s.nb && s.nb as int <= spec_max_stack(s.item_id),
                None => true,
            }
    }

    /// The slots as a sequence.
    pub closed spec fn view(&self) -> Seq<Option<ItemStack>> {
        self.inner@
    }

    /// A fresh, fully empty inventory.
    pub fn new() -> (inv: Self)
        ensures
            inv@.len() == MAX_INVENTORY_SLOTS,
            forall|i: int| 0 <= i < inv@.len() ==> #[trigger] inv@[i] is None,
    {
        let mut inner: Vec<Option<ItemStack>> = Vec::new();
        let mut i: u32 = 0;
        while i < MAX_INVENTORY_SLOTS
            invariant
                i <= MAX_INVENTORY_SLOTS,
                inner@.len() == i,
                forall|j: int| 0 <= j < i ==> #[trigger] inner@[j] is None,
            decreases MAX_INVENTORY_SLOTS - i,
        {
            inner.push(None);
            i = i + 1;
        }
        Inventory { inner }
    }

    /// Number of slots.
    pub fn len(&self) -> (n: usize)
        ensures
            n == self@.len(),
    {
        self.inner.len()
    }

    /// Read one slot; `None` also for an index beyond the last slot.
    pub fn get_slot(&self, slot: u32) -> (r: Option<ItemStack>)
        ensures
            r == if 0 <= slot < self@.len() {
                self@[slot as int]
            } else {
                None::<ItemStack>
            },
    {
        if (slot as usize) < self.inner.len() {
            self.inner[slot as usize]
        } else {
            None
        }
    }

    /// Add up to `nb` items of one kind to the slot at `stack`, never past
    /// the item's max-stack size; hands back how many were really added.
    pub fn add_item_to_stack(
        &mut self,
        stack: u32,
        nb: u32,
        id: ItemId,
        item_type: ItemType,
    ) -> (added: u32)
        requires
            stack < old(self)@.len(),
        ensures
            final(self)@.len() == old(self)@.len(),
            forall|j: int|
                0 <= j < old(self)@.len() && j != stack as int ==> final(self)@[j] == #[trigger] old(
                    self,
                )@[j],
            ({
                let before = match old(self)@[stack as int] {
                    Some(s) => s.nb as int,
                    None => 0,
                };
                let total = if before + nb > spec_max_stack(id) {
                    spec_max_stack(id)
                } else {
                    before + nb
                };
                &&& added == total - before
                &&& final(self)@[stack as int] == if total == 0 {
                    None::<ItemStack>
                } else {
                    Some(ItemStack { item_id: id, item_type, nb: total as u32 })
                }
            }),
    {
        proof {
            use_type_invariant(&*self);
        }
        let max = id.get_max_stack();
        let mut inner: Vec<Option<ItemStack>> = Vec::new();
        core::mem::swap(&mut inner, &mut self.inner);
        let before: u32 = match inner[stack as usize] {
            Some(s) => s.nb,
            None => 0,
        };
        let total64: u64 = before as u64 + nb as u64;
        let total: u32 = if total64 > max as u64 {
            max
        } else {
            nb + before
        };
        let added = total - before;
        let slot: Option<ItemStack> = if total == 0 {
            None
        } else {
            Some(ItemStack { item_id: id, item_type, nb: total })
        };
        inner[stack as usize] = slot;
        core::mem::swap(&mut inner, &mut self.inner);
        added
    }

    /// Remove up to `nb` items from the slot at `stack`; a slot emptied this
    /// way is removed. Hands back how many were really removed.
    pub fn remove_item_from_stack(&mut self, stack: u32, nb: u32) -> (removed: u32)
        ensures
            final(self)@.len() == old(self)@.len(),
            forall|j: int|
                0 <= j < old(self)@.len() && j != stack as int ==> final(self)@[j] == #[trigger] old(
                    self,
                )@[j],
            ({
                match old(self)@.len() > stack as int {
                    true => match old(self)@[stack as int] {
                        Some(s) => {
                            &&& removed == if nb >= s.nb {
                                s.nb as int
                            } else {
                                nb as int
                            }
                            &&& final(self)@[stack as int] == if nb >= s.nb {
                                None::<ItemStack>
                            } else {
                                Some(ItemStack { nb: (s.nb - nb) as u32, ..s })
                            }
                        },
                        None => removed == 0 && final(self)@ == old(self)@,
                    },
                    false => removed == 0 && final(self)@ == old(self)@,
                }
            }),
    {
        proof {
            use_type_invariant(&*self);
        }
        if stack as usize >= self.inner.len() {
            return 0;
        }
        match self.inner[stack as usize] {
            Some(item) => {
                let slot: Option<ItemStack>;
                let removed: u32;
                if nb >= item.nb {
                    removed = item.nb;
                    slot = None;
                } else {
                    removed = nb;
                    slot = Some(
                        ItemStack {
                            item_id: item.item_id,
                            item_type: item.item_type,
                            nb: item.nb - nb,
                        },
                    );
                }
                let mut inner: Vec<Option<ItemStack>> = Vec::new();
                core::mem::swap(&mut inner, &mut self.inner);
                inner[stack as usize] = slot;
                core::mem::swap(&mut inner, &mut self.inner);
                removed
            },
            None => 0,
        }
    }

    /// Pour a stack into the inventory: merge into same-kind slots with
    /// room, then open new slots; never over max-stack size, and nothing is
    /// lost unless no unit of the kind fits anywhere anymore.
    pub fn add_item_to_inventory(&mut self, stack: ItemStack)
        ensures
            final(self)@ == spec_pour(old(self)@, stack),
            final(self)@.len() == old(self)@.len(),
            spec_count_of(final(self)@, stack.item_id) == spec_count_of(old(self)@, stack.item_id)
                + stack.nb || spec_full_for(final(self)@, stack.item_id),
            forall|j: int|
                0 <= j < final(self)@.len() ==> match #[trigger] final(self)@[j] {
                    Some(s) => 0 < s.nb && s.nb as int <= spec_max_stack(s.item_id),
                    None => true,
                },
    {
        proof {
            use_type_invariant(&*self);
        }
        let id = stack.item_id;
        let item_type = stack.item_type;
        let max = id.get_max_stack();
        let mut remaining: u32 = stack.nb;
        let mut i: usize = 0;
        let ghost slots0 = self.inner@;
        let mut inner: Vec<Option<ItemStack>> = Vec::new();
        core::mem::swap(&mut inner, &mut self.inner);
        let n = inner.len();
        while i < n
            invariant_except_break
                i <= n,
                max as int == spec_max_stack(id),
                max > 0,
                inner@.len() == n,
                slots0.len() == n,
                forall|j: int|
                    0 <= j < inner@.len() ==> match #[trigger] inner@[j] {
                        Some(s) => 0 < s.nb && s.nb as int <= spec_max_stack(s.item_id),
                        None => true,
                    },
                spec_count_of(inner@, id) + remaining == spec_count_of(slots0, id) + stack.nb,
                spec_pour_from(inner@, i as int, id, item_type, remaining as int) == spec_pour_from(
                    slots0,
                    0,
                    id,
                    item_type,
                    stack.nb as int,
                ),
                id == stack.item_id,
                item_type == stack.item_type,
                remaining > 0 ==> forall|j: int|
                    0 <= j < i ==> match #[trigger] inner@[j] {
                        Some(s) => s.item_id == id ==> s.nb as int == spec_max_stack(id),
                        None => false,
                    },
            ensures
                inner@ == spec_pour_from(slots0, 0, id, item_type, stack.nb as int),
                id == stack.item_id,
                item_type == stack.item_type,
                inner@.len() == n,
                forall|j: int|
                    0 <= j < inner@.len() ==> match #[trigger] inner@[j] {
                        Some(s) => 0 < s.nb && s.nb as int <= spec_max_stack(s.item_id),
                        None => true,
                    },
                spec_count_of(inner@, id) == spec_count_of(slots0, id) + stack.nb
                    || (remaining > 0 && forall|j: int|
                        0 <= j < n ==> match #[trigger] inner@[j] {
                            Some(s) => s.item_id == id ==> s.nb as int == spec_max_stack(id),
                            None => false,
                        }),
            decreases n - i,
        {
            if remaining == 0 {
                proof {
                    assert(spec_count_of(inner@, id) == spec_count_of(slots0, id) + stack.nb);
                }
                break;
            }
            let ghost pre = inner@;
            let slot = inner[i];
            match slot {
                Some(existing) => {
                    if existing.item_id == id && existing.nb < max {
                        let room = max - existing.nb;
                        let put = if remaining < room {
                            remaining
                        } else {
                            room
                        };
                        let updated = Some(
                            ItemStack { item_id: id, item_type, nb: existing.nb + put },
                        );
                        inner[i] = updated;
                        remaining = remaining - put;
                        proof {
                            lemma_count_update(pre, i as int, updated, id);
                        }
                    }
                },
                None => {
                    let put = if remaining < max {
                        remaining
                    } else {
                        max
                    };
                    let updated = Some(ItemStack { item_id: id, item_type, nb: put });
                    inner[i] = updated;
                    remaining = remaining - put;
                    proof {
                        lemma_count_update(pre, i as int, updated, id);
                    }
                },
            }
            i = i + 1;
        }
        core::mem::swap(&mut inner, &mut self.inner);
    }
}

impl Clone for Inventory {
    /// A clone holds exactly the same slots.
    fn clone(&self) -> (r: Self)
        ensures
            r@ == self@,
    {
        proof {
            use_type_invariant(self);
        }
        let n = self.inner.len();
        let mut inner: Vec<Option<ItemStack>> = Vec::new();
        let mut i: usize = 0;
        while i < n
            invariant
                i <= n,
                n == self.inner@.len(),
                inner@ =~= self.inner@.take(i as int),
                forall|j: int|
                    0 <= j < self.inner@.len() ==> match #[trigger] self.inner@[j] {
                        Some(s) => 0 < s.nb && s.nb as int <= spec_max_stack(s.item_id),
                        None => true,
                    },
            decreases n - i,
        {
            let e = self.inner[i];
            inner.push(e);
            proof {
                assert(inner@ =~= self.inner@.take(i as int + 1));
            }
            i = i + 1;
        }
        proof {
            assert(inner@ =~= self.inner@);
        }
        Inventory { inner }
    }
}

} // verus!
