//! The 3x3 board: nine cells in row-major order.

use vstd::prelude::*;

use crate::cell::Cell;
use crate::mark::Mark;

verus! {

/// The number of cells equal to `v` among the first `n` entries of `s`.
pub open spec fn count_upto(s: Seq<Option<Mark>>, v: Option<Mark>, n: int) -> int
    decreases n,
{
    if n <= 0 {
        0
    } else {
        count_upto(s, v, n - 1) + (if s[n - 1] == v {
            1int
        } else {
            0int
        })
    }
}

/// The number of cells of the board `s` equal to `v`.
pub open spec fn count_cells(s: Seq<Option<Mark>>, v: Option<Mark>) -> int {
    count_upto(s, v, s.len() as int)
}

/// The number of cells of the board `s` holding a cross.
pub open spec fn cross_count_of(s: Seq<Option<Mark>>) -> int {
    count_cells(s, Some(Mark::Cross))
}

/// The number of cells of the board `s` holding a naught.
pub open spec fn naught_count_of(s: Seq<Option<Mark>>) -> int {
    count_cells(s, Some(Mark::Naught))
}

/// The number of vacant cells of the board `s`.
pub open spec fn empty_count_of(s: Seq<Option<Mark>>) -> int {
    count_cells(s, None)
}

/// Counts are non-negative and no larger than the prefix length.
pub proof fn lemma_count_upto_bounds(s: Seq<Option<Mark>>, v: Option<Mark>, n: int)
    requires
        0 <= n,
    ensures
        0 <= count_upto(s, v, n) <= n,
    decreases n,
{
    if n > 0 {
        lemma_count_upto_bounds(s, v, n - 1);
    }
}

/// Updating one entry changes a count by the contribution of the old and
/// the new value at that position.
pub proof fn lemma_count_upto_update(
    s: Seq<Option<Mark>>,
    v: Option<Mark>,
    i: int,
    x: Option<Mark>,
    n: int,
)
    requires
        0 <= i < s.len(),
        n <= s.len(),
    ensures
        count_upto(s.update(i, x), v, n) == count_upto(s, v, n) + (if i < n {
            (if x == v {
                1int
            } else {
                0int
            }) - (if s[i] == v {
                1int
            } else {
                0int
            })
        } else {
            0int
        }),
    decreases n,
{
    if n > 0 {
        lemma_count_upto_update(s, v, i, x, n - 1);
    }
}

/// A positive count yields a witness position.
pub proof fn lemma_count_upto_pos_exists(s: Seq<Option<Mark>>, v: Option<Mark>, n: int)
    requires
        count_upto(s, v, n) > 0,
    ensures
        exists|j: int| 0 <= j < n && s[j] == v,
    decreases n,
{
    if n > 0 {
        if s[n - 1] == v {
            assert(0 <= n - 1 < n && s[n - 1] == v);
        } else {
            lemma_count_upto_pos_exists(s, v, n - 1);
        }
    }
}

/// The mathematical view of a cell array: the sequence of optional marks.
pub open spec fn cells_view(cells: [Cell; 9]) -> Seq<Option<Mark>> {
    cells@.map_values(|c: Cell| c@)
}

/// The view of a board always has exactly nine entries.
pub broadcast proof fn lemma_grid_view_len(g: Grid)
    ensures
        (#[trigger] g@).len() == 9,
{
}

/// The game board: a fixed, row-major sequence of nine cells
/// (index = row * 3 + column).  Its mathematical view is a sequence of
/// nine optional marks.
#[derive(Clone, Copy, PartialEq, Eq, Debug)]
pub struct Grid {
    cells: [Cell; 9],
}

impl View for Grid {
    type V = Seq<Option<Mark>>;

    closed spec fn view(&self) -> Seq<Option<Mark>> {
        cells_view(self.cells)
    }
}

impl Grid {
    /// The side length of the board.
    pub const WIDTH: usize = 3;

    /// The number of cells of the board.
    pub const SIZE: usize = 9;

    /// Creates a new board from the given cells, or a fully vacant board
    /// when no cells are given.
    pub fn new(cells: Option<[Cell; 9]>) -> (g: Grid)
        ensures
            g@.len() == 9,
            cells matches Some(cs) ==> g@ == cells_view(cs),
            cells is None ==> forall|i: int| 0 <= i < 9 ==> g@[i] is None,
    {
        if let Some(cs) = cells {
            Grid { cells: cs }
        } else {
            let e = Cell::new_empty();
            let vacant = [e, e, e, e, e, e, e, e, e];
            let g = Grid { cells: vacant };
            proof {
                assert forall|i: int| 0 <= i < 9 implies g@[i] is None by {
                    assert(vacant@[i] == e);
                    assert(g@[i] == vacant@[i]@);
                }
            }
            g
        }
    }

    /// The cell at `index`.
    pub fn cell(&self, index: usize) -> (c: Cell)
        requires
            index < 9,
        ensures
            c@ == self@[index as int],
    {
        self.cells[index]
    }

    /// A read-only view of the nine cells.
    pub fn cells(&self) -> (r: &[Cell])
        ensures
            r@.len() == 9,
            forall|i: int| 0 <= i < 9 ==> r@[i]@ == self@[i],
    {
        self.cells.as_slice()
    }

    /// The number of cells whose content equals `target`.
    fn count_matching(&self, target: Option<Mark>) -> (n: usize)
        ensures
            n == count_cells(self@, target),
    {
        let mut n: usize = 0;
        for i in 0..9
            invariant
                n <= i,
                n as int == count_upto(self@, target, i as int),
        {
            let c = self.cells[i];
            let hit = match target {
                None => c.is_vacant(),
                Some(m) => c.is_occupied_by(m),
            };
            if hit {
                n = n + 1;
            }
        }
        n
    }

    /// The number of vacant cells.
    pub fn empty_count(&self) -> (n: usize)
        ensures
            n == empty_count_of(self@),
    {
        self.count_matching(None)
    }

    /// The number of cells holding a naught.
    pub fn naught_count(&self) -> (n: usize)
        ensures
            n == naught_count_of(self@),
    {
        self.count_matching(Some(Mark::Naught))
    }

    /// The number of cells holding a cross.
    pub fn cross_count(&self) -> (n: usize)
        ensures
            n == cross_count_of(self@),
    {
        self.count_matching(Some(Mark::Cross))
    }
}

} // verus!
