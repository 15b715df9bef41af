//! The two players' symbols.

use vstd::prelude::*;

verus! {

/// A mark on the board: a cross ("X") or a naught ("O").
#[derive(Clone, Copy, PartialEq, Eq, Structural, Debug)]
pub enum Mark {
    Cross,
    Naught,
}

impl Mark {
    /// The opposite mark.
    pub open spec fn opposite(self) -> Mark {
        match self {
            Mark::Cross => Mark::Naught,
            Mark::Naught => Mark::Cross,
        }
    }

    /// Returns the opposite mark.
    pub fn other(&self) -> (r: Mark)
        ensures
            r == self.opposite(),
    {
        match self {
            Mark::Cross => Mark::Naught,
            Mark::Naught => Mark::Cross,
        }
    }
}

} // verus!
