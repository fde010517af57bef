//! The five levels of the paging hierarchy and the validity mask over them.

use vstd::prelude::*;

verus! {

/// Validity bit of the top-level directory entry.
pub const PTEDIT_VALID_MASK_PGD: u8 = 1;

/// Validity bit of the level-4 entry.
pub const PTEDIT_VALID_MASK_P4D: u8 = 2;

/// Validity bit of the level-3 entry.
pub const PTEDIT_VALID_MASK_PUD: u8 = 4;

/// Validity bit of the level-2 entry.
pub const PTEDIT_VALID_MASK_PMD: u8 = 8;

/// Validity bit of the leaf entry.
pub const PTEDIT_VALID_MASK_PTE: u8 = 16;

/// Number of levels that a walk visits.
pub const LEVELS: usize = 5;

/// Number of entries in one table of the hierarchy.
pub const ENTRIES_PER_TABLE: usize = 512;

/// One tier of the hierarchy, from the top-level directory down to the leaf.
#[derive(Clone, Copy, Debug, PartialEq, Eq, Structural)]
pub enum Level {
    Top,
    Level4,
    Level3,
    Level2,
    Leaf,
}

impl Level {
    /// Distance from the top: 0 for the top-level directory, 4 for the leaf.
    pub open spec fn depth(self) -> nat {
        match self {
            Level::Top => 0,
            Level::Level4 => 1,
            Level::Level3 => 2,
            Level::Level2 => 3,
            Level::Leaf => 4,
        }
    }

    /// The level at a given depth; every depth past 3 names the leaf.
    pub open spec fn at(depth: nat) -> Level {
        if depth == 0 {
            Level::Top
        } else if depth == 1 {
            Level::Level4
        } else if depth == 2 {
            Level::Level3
        } else if depth == 3 {
            Level::Level2
        } else {
            Level::Leaf
        }
    }

    /// The bit that stands for this level in a validity mask.
    pub open spec fn mask(self) -> u8 {
        match self {
            Level::Top => PTEDIT_VALID_MASK_PGD,
            Level::Level4 => PTEDIT_VALID_MASK_P4D,
            Level::Level3 => PTEDIT_VALID_MASK_PUD,
            Level::Level2 => PTEDIT_VALID_MASK_PMD,
            Level::Leaf => PTEDIT_VALID_MASK_PTE,
        }
    }

    /// Position, in a virtual address, of the lowest bit of this level's table index.
    pub open spec fn shift(self) -> u64 {
        match self {
            Level::Top => 48,
            Level::Level4 => 39,
            Level::Level3 => 30,
            Level::Level2 => 21,
            Level::Leaf => 12,
        }
    }

    /// The validity bit of this level.
    pub fn bit(self) -> (b: u8)
        ensures
            b == self.mask(),
    {
        match self {
            Level::Top => PTEDIT_VALID_MASK_PGD,
            Level::Level4 => PTEDIT_VALID_MASK_P4D,
            Level::Level3 => PTEDIT_VALID_MASK_PUD,
            Level::Level2 => PTEDIT_VALID_MASK_PMD,
            Level::Leaf => PTEDIT_VALID_MASK_PTE,
        }
    }

    /// The level below this one, or `None` for the leaf.
    pub fn deeper(self) -> (next: Option<Level>)
        ensures
            self == Level::Leaf <==> next.is_none(),
            next matches Some(l) ==> l.depth() == self.depth() + 1,
    {
        match self {
            Level::Top => Some(Level::Level4),
            Level::Level4 => Some(Level::Level3),
            Level::Level3 => Some(Level::Level2),
            Level::Level2 => Some(Level::Leaf),
            Level::Leaf => None,
        }
    }

    /// The index that a virtual address selects in a table of this level.
    pub fn index_of(self, addr: u64) -> (index: usize)
        ensures
            index == table_index(addr, self),
            index < ENTRIES_PER_TABLE,
    {
        let shifted: u64 = match self {
            Level::Top => addr >> 48,
            Level::Level4 => addr >> 39,
            Level::Level3 => addr >> 30,
            Level::Level2 => addr >> 21,
            Level::Leaf => addr >> 12,
        };
        let low: u64 = shifted & 0x1ff;
        assert(low < 512) by (bit_vector)
            requires
                low == shifted & 0x1ff,
        ;
        low as usize
    }
}

/// The nine address bits that select an entry in a table of the given level.
pub open spec fn table_index(addr: u64, level: Level) -> usize {
    ((addr >> level.shift()) & 0x1ff) as usize
}

/// Whether a validity mask marks the given level as resolved.
pub open spec fn has_level(mask: u8, level: Level) -> bool {
    mask & level.mask() != 0
}

/// The mask in which exactly the `count` levels nearest the top are marked.
pub open spec fn prefix_mask(count: nat) -> u8 {
    if count == 0 {
        0
    } else if count == 1 {
        1
    } else if count == 2 {
        3
    } else if count == 3 {
        7
    } else if count == 4 {
        15
    } else {
        31
    }
}

/// Tests one level's bit in a validity mask.
pub fn mask_has(mask: u8, level: Level) -> (set: bool)
    ensures
        set == has_level(mask, level),
{
    (mask & level.bit()) != 0
}

/// A prefix mask marks a level exactly when the level lies within the prefix.
pub proof fn lemma_prefix_mask_levels(count: nat, level: Level)
    requires
        count <= 5,
    ensures
        has_level(prefix_mask(count), level) <==> level.depth() < count,
{
    assert(0u8 & 1 == 0 && 0u8 & 2 == 0 && 0u8 & 4 == 0 && 0u8 & 8 == 0 && 0u8 & 16 == 0)
        by (bit_vector);
    assert(1u8 & 1 != 0 && 1u8 & 2 == 0 && 1u8 & 4 == 0 && 1u8 & 8 == 0 && 1u8 & 16 == 0)
        by (bit_vector);
    assert(3u8 & 1 != 0 && 3u8 & 2 != 0 && 3u8 & 4 == 0 && 3u8 & 8 == 0 && 3u8 & 16 == 0)
        by (bit_vector);
    assert(7u8 & 1 != 0 && 7u8 & 2 != 0 && 7u8 & 4 != 0 && 7u8 & 8 == 0 && 7u8 & 16 == 0)
        by (bit_vector);
    assert(15u8 & 1 != 0 && 15u8 & 2 != 0 && 15u8 & 4 != 0 && 15u8 & 8 != 0 && 15u8 & 16 == 0)
        by (bit_vector);
    assert(31u8 & 1 != 0 && 31u8 & 2 != 0 && 31u8 & 4 != 0 && 31u8 & 8 != 0 && 31u8 & 16 != 0)
        by (bit_vector);
}

} // verus!
