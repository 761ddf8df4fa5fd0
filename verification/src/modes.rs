//! Run configuration: room mode, item mode, start mode, and the badge
//! section mask.
//!
//! Modes are resolved once before any patching starts.  Repeated
//! selections combine only within a mask-carrying family; every other
//! combination is a configuration conflict reported before any byte is
//! written.

use vstd::prelude::*;

verus! {

/// A configuration that cannot be accepted.
#[derive(Clone, Copy, PartialEq, Eq, Structural, Debug)]
pub enum ConfigError {
    /// The requested item modes cannot be combined.
    ItemModeConflict,
    /// More than one room mode was requested.
    RoomModeConflict,
    /// A section mask outside the valid range.
    InvalidSections,
}

/// A bitmask over the three badge-acquisition contexts.
/// Bit 0 selects the map, bit 1 Rowf's shop, bit 2 Merlow's shop.
/// Only values in `1..=7` are valid.
#[derive(Clone, Copy, PartialEq, Eq, Structural, Debug)]
pub struct BadgeSections {
    pub bits: u8,
}

impl BadgeSections {
    /// The invariant every accepted mask satisfies.
    pub open spec fn valid(self) -> bool {
        1 <= self.bits <= 7
    }

    /// The mask selecting only the map context.
    pub fn map() -> (r: Self)
        ensures
            r.bits == 1,
    {
        BadgeSections { bits: 1 }
    }

    /// The mask selecting only Rowf's shop.
    pub fn rowf() -> (r: Self)
        ensures
            r.bits == 2,
    {
        BadgeSections { bits: 2 }
    }

    /// The mask selecting only Merlow's shop.
    pub fn merlow() -> (r: Self)
        ensures
            r.bits == 4,
    {
        BadgeSections { bits: 4 }
    }

    /// Validates a raw mask value; anything outside `1..=7` is rejected.
    pub fn try_from_bits(bits: u8) -> (r: Result<Self, ConfigError>)
        ensures
            match r {
                Ok(s) => 1 <= bits <= 7 && s.bits == bits,
                Err(e) => (bits == 0 || bits > 7) && e == ConfigError::InvalidSections,
            },
    {
        if 1 <= bits && bits <= 7 {
            Ok(BadgeSections { bits })
        } else {
            Err(ConfigError::InvalidSections)
        }
    }

    /// Whether every bit of `other` is also set in `self`.
    pub fn contains(self, other: Self) -> (r: bool)
        ensures
            r == (self.bits & other.bits == other.bits),
    {
        self.bits & other.bits == other.bits
    }

    /// The union of the two masks.  Valid masks stay valid.
    pub fn union(self, other: Self) -> (r: Self)
        ensures
            r.bits == self.bits | other.bits,
            self.valid() && other.valid() ==> r.valid(),
    {
        proof {
            let a = self.bits;
            let b = other.bits;
            assert(1 <= a <= 7 && 1 <= b <= 7 ==> 1 <= (a | b) <= 7) by (bit_vector);
        }
        BadgeSections { bits: self.bits | other.bits }
    }
}

/// How warp destinations are treated during the room pass.
#[derive(Clone, Copy, PartialEq, Eq, Structural, Debug)]
pub enum RoomMode {
    /// Leave every warp record untouched.
    Untouched,
    /// Randomize warps and additionally rewire two fixed exit records so
    /// the player reaches the hammer immediately.
    StartWithHammer,
    /// Randomize every warp record independently.
    TotalRandom,
}

/// How item slots are treated during and after the room pass.
#[derive(Clone, Copy, PartialEq, Eq, Structural, Debug)]
pub enum ItemMode {
    /// Leave every item slot untouched.
    Untouched,
    /// Overwrite each eligible slot with a freshly drawn id.
    TotalRandom,
    /// One shuffled deck of every placed badge, dealt across the map and
    /// both shops.
    ShuffleBadgesGlobally,
    /// A separately shuffled deck per selected section, each built from
    /// that section's own pool.
    ShuffleBadgesLocally(BadgeSections),
    /// Deal the used-badge list into the selected sections.
    DealUsedInto(BadgeSections),
    /// Deal the full badge pool into the selected sections.
    DealAllInto(BadgeSections),
}

/// Whether the run starts from the usual opening scene or skips it.
#[derive(Clone, Copy, PartialEq, Eq, Structural, Debug)]
pub enum StartMode {
    Standard,
    Quick,
}

/// The result of folding one more item-mode selection into the current
/// one.  A selection lands on an unset mode verbatim; the three
/// mask-carrying families absorb further masks of their own family as
/// long as the union adds a bit; everything else conflicts.
pub open spec fn spec_combine_item_mode(cur: ItemMode, new: ItemMode) -> Result<
    ItemMode,
    ConfigError,
> {
    match (cur, new) {
        (ItemMode::Untouched, m) => Ok(m),
        (ItemMode::ShuffleBadgesLocally(a), ItemMode::ShuffleBadgesLocally(b)) => if a.bits | b.bits
            != a.bits {
            Ok(ItemMode::ShuffleBadgesLocally(BadgeSections { bits: a.bits | b.bits }))
        } else {
            Err(ConfigError::ItemModeConflict)
        },
        (ItemMode::DealUsedInto(a), ItemMode::DealUsedInto(b)) => if a.bits | b.bits != a.bits {
            Ok(ItemMode::DealUsedInto(BadgeSections { bits: a.bits | b.bits }))
        } else {
            Err(ConfigError::ItemModeConflict)
        },
        (ItemMode::DealAllInto(a), ItemMode::DealAllInto(b)) => if a.bits | b.bits != a.bits {
            Ok(ItemMode::DealAllInto(BadgeSections { bits: a.bits | b.bits }))
        } else {
            Err(ConfigError::ItemModeConflict)
        },
        _ => Err(ConfigError::ItemModeConflict),
    }
}

/// Folds one more item-mode selection into the current one.
pub fn combine_item_mode(cur: ItemMode, new: ItemMode) -> (r: Result<ItemMode, ConfigError>)
    ensures
        r == spec_combine_item_mode(cur, new),
{
    match (cur, new) {
        (ItemMode::Untouched, m) => Ok(m),
        (ItemMode::ShuffleBadgesLocally(a), ItemMode::ShuffleBadgesLocally(b)) => {
            if a.bits | b.bits != a.bits {
                Ok(ItemMode::ShuffleBadgesLocally(a.union(b)))
            } else {
                Err(ConfigError::ItemModeConflict)
            }
        },
        (ItemMode::DealUsedInto(a), ItemMode::DealUsedInto(b)) => {
            if a.bits | b.bits != a.bits {
                Ok(ItemMode::DealUsedInto(a.union(b)))
            } else {
                Err(ConfigError::ItemModeConflict)
            }
        },
        (ItemMode::DealAllInto(a), ItemMode::DealAllInto(b)) => {
            if a.bits | b.bits != a.bits {
                Ok(ItemMode::DealAllInto(a.union(b)))
            } else {
                Err(ConfigError::ItemModeConflict)
            }
        },
        _ => Err(ConfigError::ItemModeConflict),
    }
}

/// The result of applying one room-mode selection.  `StartWithHammer` is
/// the initial state and the only state a selection may land on; a
/// second selection conflicts.
pub open spec fn spec_combine_room_mode(cur: RoomMode, new: RoomMode) -> Result<
    RoomMode,
    ConfigError,
> {
    if cur is StartWithHammer {
        Ok(new)
    } else {
        Err(ConfigError::RoomModeConflict)
    }
}

/// Applies one room-mode selection on top of the current one.
pub fn combine_room_mode(cur: RoomMode, new: RoomMode) -> (r: Result<RoomMode, ConfigError>)
    ensures
        r == spec_combine_room_mode(cur, new),
{
    match cur {
        RoomMode::StartWithHammer => Ok(new),
        _ => Err(ConfigError::RoomModeConflict),
    }
}

} // verus!
