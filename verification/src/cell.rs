//! A single cell of the board, either vacant or holding a mark.

use vstd::prelude::*;

use crate::mark::Mark;

verus! {

/// One cell of the 3x3 board.  Its mathematical view is the optional mark
/// it holds: `None` for a vacant cell.
#[derive(Clone, Copy, PartialEq, Eq, Debug)]
pub struct Cell {
    mark: Option<Mark>,
}

impl View for Cell {
    type V = Option<Mark>;

    closed spec fn view(&self) -> Option<Mark> {
        self.mark
    }
}

impl Cell {
    /// Creates a vacant cell.
    pub fn new_empty() -> (c: Cell)
        ensures
            c@ is None,
    {
        Cell { mark: None }
    }

    /// Creates a cell holding `mark`.
    pub fn new_marked(mark: Mark) -> (c: Cell)
        ensures
            c@ == Some(mark),
    {
        Cell { mark: Some(mark) }
    }

    /// Returns `true` if the cell holds a mark.
    pub fn is_occupied(&self) -> (r: bool)
        ensures
            r == (self@ is Some),
    {
        self.mark.is_some()
    }

    /// Returns `true` if the cell is vacant.
    pub fn is_vacant(&self) -> (r: bool)
        ensures
            r == (self@ is None),
    {
        !self.is_occupied()
    }

    /// Returns `true` if the cell holds exactly `mark`.
    pub fn is_occupied_by(&self, mark: Mark) -> (r: bool)
        ensures
            r == (self@ == Some(mark)),
    {
        if let Some(m) = self.mark {
            m == mark
        } else {
            false
        }
    }
}

} // verus!
