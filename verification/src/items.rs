//! Item kinds, item stacks, and the per-kind stacking metadata.

use vstd::prelude::*;
use crate::blocks::BlockId;

verus! {

/// Every kind of item an inventory or a dropped stack can hold.
#[derive(Clone, Copy, Debug, PartialEq, Eq, Structural, Hash)]
pub enum ItemId {
    Dirt,
    Cobblestone,
    Sand,
    Cactus,
    OakLog,
    OakPlanks,
    Ice,
    Dandelion,
    TallGrass,
    SpruceLog,
    Snowball,
}

impl Default for ItemId {
    fn default() -> (r: Self)
        ensures
            r == ItemId::Dirt,
    {
        ItemId::Dirt
    }
}

/// What an item is when used: a placeable block, or a plain item.
#[derive(Clone, Copy, Debug, PartialEq, Eq, Structural)]
pub enum ItemType {
    Block(BlockId),
    Miscellaneous,
}

impl Default for ItemType {
    fn default() -> (r: Self)
        ensures
            r == ItemType::Block(BlockId::Dirt),
    {
        ItemType::Block(BlockId::Dirt)
    }
}

/// A pile of identical items: the kind, what it is when used, and how many.
#[derive(Clone, Copy, Debug, PartialEq, Eq, Structural)]
pub struct ItemStack {
    pub item_id: ItemId,
    pub item_type: ItemType,
    pub nb: u32,
}

/// Largest count a single inventory slot may hold of any item kind.
pub open spec fn spec_max_stack(id: ItemId) -> int {
    64
}

/// The block a given item places, if it places one.
pub open spec fn spec_default_type(id: ItemId) -> ItemType {
    if id == ItemId::Dirt {
        ItemType::Block(BlockId::Dirt)
    } else if id == ItemId::Cobblestone {
        ItemType::Block(BlockId::Cobblestone)
    } else if id == ItemId::Sand {
        ItemType::Block(BlockId::Sand)
    } else if id == ItemId::Cactus {
        ItemType::Block(BlockId::Cactus)
    } else if id == ItemId::OakLog {
        ItemType::Block(BlockId::OakLog)
    } else if id == ItemId::OakPlanks {
        ItemType::Block(BlockId::OakPlanks)
    } else if id == ItemId::Ice {
        ItemType::Block(BlockId::Ice)
    } else if id == ItemId::Dandelion {
        ItemType::Block(BlockId::Dandelion)
    } else if id == ItemId::TallGrass {
        ItemType::Block(BlockId::TallGrass)
    } else if id == ItemId::SpruceLog {
        ItemType::Block(BlockId::SpruceLog)
    } else {
        ItemType::Miscellaneous
    }
}

impl ItemId {
    /// Largest count a single slot may hold of this item kind.
    pub fn get_max_stack(&self) -> (m: u32)
        ensures
            m as int == spec_max_stack(*self),
            m > 0,
    {
        64
    }

    /// What this item is when used; most items place their namesake block.
    pub fn get_default_type(&self) -> (t: ItemType)
        ensures
            t == spec_default_type(*self),
    {
        match *self {
            ItemId::Dirt => ItemType::Block(BlockId::Dirt),
            ItemId::Cobblestone => ItemType::Block(BlockId::Cobblestone),
            ItemId::Sand => ItemType::Block(BlockId::Sand),
            ItemId::Cactus => ItemType::Block(BlockId::Cactus),
            ItemId::OakLog => ItemType::Block(BlockId::OakLog),
            ItemId::OakPlanks => ItemType::Block(BlockId::OakPlanks),
            ItemId::Ice => ItemType::Block(BlockId::Ice),
            ItemId::Dandelion => ItemType::Block(BlockId::Dandelion),
            ItemId::TallGrass => ItemType::Block(BlockId::TallGrass),
            ItemId::SpruceLog => ItemType::Block(BlockId::SpruceLog),
            ItemId::Snowball => ItemType::Miscellaneous,
        }
    }
}

} // verus!
