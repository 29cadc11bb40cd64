use vstd::prelude::*;

verus! {

/// Direction in which the key-value pairs are fetched from a store or an index.
#[derive(Debug, Clone, Copy, PartialEq, Eq, Structural)]
pub enum Direction {
    /// Ascending key order, duplicates included.
    Next,
    /// Ascending key order, only the first record of each key.
    NextUnique,
    /// Descending key order, duplicates included.
    Prev,
    /// Descending key order, only the first record of each key.
    PrevUnique,
}

impl Direction {
    /// Whether keys are visited from the highest to the lowest.
    pub open spec fn descending(self) -> bool {
        self == Direction::Prev || self == Direction::PrevUnique
    }

    /// The direction a scan takes when the caller names none: forward, with duplicates.
    pub fn or_default(direction: Option<Direction>) -> (chosen: Direction)
        ensures
            chosen == match direction {
                Some(d) => d,
                None => Direction::Next,
            },
    {
        match direction {
            Some(d) => d,
            None => Direction::Next,
        }
    }
}

impl Default for Direction {
    fn default() -> (direction: Direction)
        ensures
            direction == Direction::Next,
    {
        Direction::Next
    }
}

} // verus!
