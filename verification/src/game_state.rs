//! The validated state of a game: a board plus the mark that moved first.

use vstd::prelude::*;

use crate::cell::Cell;
use crate::errors::Error;
use crate::errors::MoveError;
use crate::errors::ValidationError;
use crate::game_move::GameMove;
use crate::grid::cross_count_of;
use crate::grid::empty_count_of;
use crate::grid::count_cells;
use crate::grid::naught_count_of;
use crate::grid::Grid;
use crate::mark::Mark;
use crate::validators;

verus! {

broadcast use crate::grid::lemma_grid_view_len;

/// The cells at `a`, `b` and `c` all hold `m`.
pub open spec fn line_is(g: Seq<Option<Mark>>, m: Mark, a: int, b: int, c: int) -> bool {
    g[a] == Some(m) && g[b] == Some(m) && g[c] == Some(m)
}

/// Some full row, column or diagonal holds `m`.
pub open spec fn has_win(g: Seq<Option<Mark>>, m: Mark) -> bool {
    ||| line_is(g, m, 0, 1, 2)
    ||| line_is(g, m, 3, 4, 5)
    ||| line_is(g, m, 6, 7, 8)
    ||| line_is(g, m, 0, 3, 6)
    ||| line_is(g, m, 1, 4, 7)
    ||| line_is(g, m, 2, 5, 8)
    ||| line_is(g, m, 0, 4, 8)
    ||| line_is(g, m, 2, 4, 6)
}

/// The winner of the board, if any; a cross win is reported first.
pub open spec fn winner_of(g: Seq<Option<Mark>>) -> Option<Mark> {
    if has_win(g, Mark::Cross) {
        Some(Mark::Cross)
    } else if has_win(g, Mark::Naught) {
        Some(Mark::Naught)
    } else {
        None
    }
}

/// The indexes of the first full line held by `m`, scanning the three
/// rows top to bottom, then the three columns left to right, then the two
/// diagonals.
pub open spec fn line_indexes_for(g: Seq<Option<Mark>>, m: Mark) -> Option<Seq<usize>> {
    if line_is(g, m, 0, 1, 2) {
        Some(seq![0usize, 1usize, 2usize])
    } else if line_is(g, m, 3, 4, 5) {
        Some(seq![3usize, 4usize, 5usize])
    } else if line_is(g, m, 6, 7, 8) {
        Some(seq![6usize, 7usize, 8usize])
    } else if line_is(g, m, 0, 3, 6) {
        Some(seq![0usize, 3usize, 6usize])
    } else if line_is(g, m, 1, 4, 7) {
        Some(seq![1usize, 4usize, 7usize])
    } else if line_is(g, m, 2, 5, 8) {
        Some(seq![2usize, 5usize, 8usize])
    } else if line_is(g, m, 0, 4, 8) {
        Some(seq![0usize, 4usize, 8usize])
    } else if line_is(g, m, 2, 4, 6) {
        Some(seq![2usize, 4usize, 6usize])
    } else {
        None
    }
}

/// The winning line of the board, if any, with a cross line reported
/// first, in the same scan order as `winner_of`.
pub open spec fn winning_indexes_of(g: Seq<Option<Mark>>) -> Option<Seq<usize>> {
    if line_indexes_for(g, Mark::Cross) is Some {
        line_indexes_for(g, Mark::Cross)
    } else {
        line_indexes_for(g, Mark::Naught)
    }
}

/// The number of cells of the board holding `m`.
pub open spec fn mark_count_of(g: Seq<Option<Mark>>, m: Mark) -> int {
    count_cells(g, Some(m))
}

/// The mark whose turn it is: the starting mark when the counts are
/// equal, and the opposite mark otherwise.
pub open spec fn current_mark_of(g: Seq<Option<Mark>>, starting_mark: Mark) -> Mark {
    if naught_count_of(g) == cross_count_of(g) {
        starting_mark
    } else {
        starting_mark.opposite()
    }
}

/// The game is over: someone won, or the board is full.
pub open spec fn game_over_of(g: Seq<Option<Mark>>) -> bool {
    winner_of(g) is Some || empty_count_of(g) == 0
}

/// The game ended with a full board and no winner.
pub open spec fn tie_of(g: Seq<Option<Mark>>) -> bool {
    empty_count_of(g) == 0 && winner_of(g) is None
}

/// The score of a finished game for `player`: 0 for a tie, 1 when
/// `player` won, -1 when the opponent won.
pub open spec fn score_of(g: Seq<Option<Mark>>, player: Mark) -> int
    recommends
        game_over_of(g),
{
    if tie_of(g) {
        0
    } else if winner_of(g) == Some(player) {
        1
    } else {
        -1
    }
}

/// The cross count and the naught count differ by at most one.
pub open spec fn marks_balanced(g: Seq<Option<Mark>>) -> bool {
    -1 <= cross_count_of(g) - naught_count_of(g) <= 1
}

/// Whichever mark occurs more often must be the mark that moved first.
pub open spec fn starting_mark_consistent(g: Seq<Option<Mark>>, starting_mark: Mark) -> bool {
    &&& cross_count_of(g) > naught_count_of(g) ==> starting_mark == Mark::Cross
    &&& naught_count_of(g) > cross_count_of(g) ==> starting_mark == Mark::Naught
}

/// A winner `w` is consistent with the counts: the winner placed the last
/// mark, so it holds one mark more than the loser when it also started,
/// and exactly as many otherwise.
pub open spec fn winner_claim_consistent(g: Seq<Option<Mark>>, starting_mark: Mark, w: Mark) -> bool {
    if w == starting_mark {
        mark_count_of(g, w) > mark_count_of(g, w.opposite())
    } else {
        mark_count_of(g, w) == mark_count_of(g, w.opposite())
    }
}

/// The actual winner of the board, if any, is consistent with the counts.
pub open spec fn winner_consistent(g: Seq<Option<Mark>>, starting_mark: Mark) -> bool {
    winner_of(g) matches Some(w) ==> winner_claim_consistent(g, starting_mark, w)
}

/// The three board invariants every constructed game state satisfies.
pub open spec fn valid_state(g: Seq<Option<Mark>>, starting_mark: Mark) -> bool {
    &&& marks_balanced(g)
    &&& starting_mark_consistent(g, starting_mark)
    &&& winner_consistent(g, starting_mark)
}

/// The error reported by the first failing validation step, in the order
/// the steps run: mark counts, then starting mark, then winner.
pub open spec fn first_validation_error(g: Seq<Option<Mark>>, starting_mark: Mark) -> ValidationError {
    if !marks_balanced(g) {
        ValidationError::WrongNumberOfNaughtsAndCrosses(
            cross_count_of(g) as usize,
            naught_count_of(g) as usize,
        )
    } else if !starting_mark_consistent(g, starting_mark) {
        ValidationError::WrongStartingMark(starting_mark)
    } else {
        match winner_of(g) {
            Some(w) => ValidationError::WrongWinnerMark(w),
            None => ValidationError::WrongWinnerMark(starting_mark),
        }
    }
}

/// What `possible_moves` returns for a state `s`: every move is coherent
/// and starts from `s`, the cell indexes are strictly ascending, and when
/// the game is not over every vacant cell is covered by some move.
pub open spec fn moves_listing(s: GameState, moves: Seq<GameMove>) -> bool {
    &&& (moves.len() == 0) == game_over_of(s.board())
    &&& forall|k: int|
        0 <= k < moves.len() ==> (#[trigger] moves[k]).wf() && moves[k].spec_before_state() == s
    &&& forall|k1: int, k2: int|
        0 <= k1 < k2 < moves.len() ==> moves[k1].spec_cell_index() < moves[k2].spec_cell_index()
    &&& forall|j: int|
        0 <= j < 9 && s.board()[j] is None && !game_over_of(s.board()) ==> exists|k: int|
            0 <= k < moves.len() && (#[trigger] moves[k]).spec_cell_index() == j
}

/// The starting mark actually used by `GameState::new`: the given one, or
/// a cross when none is given.
pub open spec fn starting_mark_or_default(starting_mark: Option<Mark>) -> Mark {
    match starting_mark {
        Some(m) => m,
        None => Mark::Cross,
    }
}

/// The mark counts of every valid board — hence of every board inside a
/// constructed `GameState`, in particular every state reached from the
/// empty board through `make_move_to` — differ by at most one.
pub proof fn lemma_valid_state_balanced(g: Seq<Option<Mark>>, starting_mark: Mark)
    requires
        valid_state(g, starting_mark),
    ensures
        -1 <= cross_count_of(g) - naught_count_of(g) <= 1,
{
}

/// Placing the mark whose turn it is on a vacant cell of a valid,
/// unfinished board yields a valid board again, and any winner of the new
/// board is the mark just placed.
pub proof fn lemma_move_preserves_validity(g: Seq<Option<Mark>>, sm: Mark, i: int)
    requires
        g.len() == 9,
        valid_state(g, sm),
        !game_over_of(g),
        0 <= i < 9,
        g[i] is None,
    ensures
        valid_state(g.update(i, Some(current_mark_of(g, sm))), sm),
        winner_of(g.update(i, Some(current_mark_of(g, sm)))) is Some ==> winner_of(
            g.update(i, Some(current_mark_of(g, sm))),
        ) == Some(current_mark_of(g, sm)),
{
    let m = current_mark_of(g, sm);
    let g2 = g.update(i, Some(m));
    crate::grid::lemma_count_upto_update(g, Some(Mark::Cross), i, Some(m), 9);
    crate::grid::lemma_count_upto_update(g, Some(Mark::Naught), i, Some(m), 9);
    assert(!has_win(g, m.opposite()));
    assert(!has_win(g2, m.opposite()));
    if m == Mark::Cross {
        assert(cross_count_of(g2) == cross_count_of(g) + 1);
        assert(naught_count_of(g2) == naught_count_of(g));
    } else {
        assert(cross_count_of(g2) == cross_count_of(g));
        assert(naught_count_of(g2) == naught_count_of(g) + 1);
    }
}

/// The state of a tic-tac-toe game: the board and the mark that moved
/// first.  Whose turn it is, the winner, and the legal moves are all
/// derived from these two.  States can only be built through validating
/// constructors, so every state satisfies the board invariants.
#[derive(Clone, Copy, PartialEq, Eq, Debug)]
pub struct GameState {
    grid: Grid,
    starting_mark: Mark,
}

impl GameState {
    /// The board of this state.
    pub closed spec fn spec_grid(&self) -> Grid {
        self.grid
    }

    /// The mark that moved first in this game.
    pub closed spec fn spec_starting_mark(&self) -> Mark {
        self.starting_mark
    }

    /// The mathematical view of the board.
    pub open spec fn board(&self) -> Seq<Option<Mark>> {
        self.spec_grid()@
    }

    #[verifier::type_invariant]
    pub(crate) open spec fn state_invariant(self) -> bool {
        valid_state(self.board(), self.spec_starting_mark())
    }

    /// Creates a game state from a board and an optional starting mark
    /// (a cross when none is given).  Succeeds exactly when the board
    /// invariants hold, and otherwise reports the first violated one.
    pub fn new(grid: Grid, starting_mark: Option<Mark>) -> (r: Result<GameState, ValidationError>)
        ensures
            ({
                let sm = starting_mark_or_default(starting_mark);
                &&& r is Ok <==> valid_state(grid@, sm)
                &&& (r matches Ok(s) ==> s.spec_grid() == grid && s.spec_starting_mark() == sm)
                &&& (!valid_state(grid@, sm) ==> r == Err::<GameState, ValidationError>(
                    first_validation_error(grid@, sm),
                ))
            }),
    {
        let sm = if let Some(m) = starting_mark {
            m
        } else {
            Mark::Cross
        };
        if let Err(e) = validators::validate_number_of_marks(&grid) {
            return Err(e);
        }
        if let Err(e) = validators::validate_starting_mark(&grid, &sm) {
            return Err(e);
        }
        let winner = grid_winner(&grid);
        if let Err(e) = validators::validate_winner(&grid, &sm, winner) {
            return Err(e);
        }
        Ok(GameState { grid, starting_mark: sm })
    }

    /// The board.
    pub fn grid(&self) -> (r: &Grid)
        ensures
            *r == self.spec_grid(),
    {
        &self.grid
    }

    /// The mark that moved first.
    pub fn starting_mark(&self) -> (r: &Mark)
        ensures
            *r == self.spec_starting_mark(),
    {
        &self.starting_mark
    }

    /// The mark whose turn it is.
    pub fn current_mark(&self) -> (r: Mark)
        ensures
            r == current_mark_of(self.board(), self.spec_starting_mark()),
    {
        if self.grid.naught_count() == self.grid.cross_count() {
            self.starting_mark
        } else {
            self.starting_mark.other()
        }
    }

    /// The winner's mark, if any line is complete.
    pub fn winner_mark(&self) -> (r: Option<Mark>)
        ensures
            r == winner_of(self.board()),
    {
        grid_winner(&self.grid)
    }

    /// The indexes of the winning line, if any.
    pub fn winning_indexes(&self) -> (r: Option<Vec<usize>>)
        ensures
            ({
                match winning_indexes_of(self.board()) {
                    Some(s) => r matches Some(v) && v@ == s,
                    None => r is None,
                }
            }),
    {
        let for_cross = grid_line(&self.grid, Mark::Cross);
        if for_cross.is_some() {
            return for_cross;
        }
        grid_line(&self.grid, Mark::Naught)
    }

    /// The game has not started: the board is fully vacant.
    pub fn game_not_started(&self) -> (r: bool)
        ensures
            r == (empty_count_of(self.board()) == 9),
    {
        self.grid.empty_count() == 9
    }

    /// The game is over: someone won, or the board is full.
    pub fn game_over(&self) -> (r: bool)
        ensures
            r == game_over_of(self.board()),
    {
        self.winner_mark().is_some() || self.tie()
    }

    /// The game ended with a full board and no winner.
    pub fn tie(&self) -> (r: bool)
        ensures
            r == tie_of(self.board()),
    {
        self.grid.empty_count() == 0 && self.winner_mark().is_none()
    }

    /// The score of a finished game for `maximized_player`: 0 for a tie,
    /// 1 when that player won, -1 otherwise.  Only a finished game has a
    /// score.
    pub fn score(&self, maximized_player: Mark) -> (r: i32)
        requires
            game_over_of(self.board()),
        ensures
            r == score_of(self.board(), maximized_player),
    {
        match self.winner_mark() {
            Some(w) => if w == maximized_player {
                1
            } else {
                -1
            },
            None => 0,
        }
    }

    /// Applies a move to the given cell, producing the move record.  An
    /// occupied cell is rejected; on a vacant cell the new board carries
    /// the mark whose turn it is at that cell, and the move succeeds
    /// exactly when the new board passes validation (it always does when
    /// the game is not yet over).
    pub fn make_move_to(&self, cell_index: usize) -> (r: Result<GameMove, Error>)
        requires
            cell_index < 9,
        ensures
            ({
                let g = self.board();
                let sm = self.spec_starting_mark();
                let m = current_mark_of(g, sm);
                let g2 = g.update(cell_index as int, Some(m));
                &&& (g[cell_index as int] is Some ==> r == Err::<GameMove, Error>(
                    Error::MoveError(MoveError::CellAlreadyMarked(cell_index)),
                ))
                &&& (g[cell_index as int] is None && valid_state(g2, sm) ==> (r matches Ok(mv)
                    && mv.wf() && mv.spec_mark() == m && mv.spec_cell_index() == cell_index
                    && mv.spec_before_state() == *self && mv.spec_after_state().board() == g2
                    && mv.spec_after_state().spec_starting_mark() == sm))
                &&& (g[cell_index as int] is None && !valid_state(g2, sm) ==> r
                    == Err::<GameMove, Error>(Error::ValidationError(
                    first_validation_error(g2, sm),
                )))
            }),
    {
        if self.grid.cell(cell_index).is_occupied() {
            return Err(Error::MoveError(MoveError::CellAlreadyMarked(cell_index)));
        }
        let m = self.current_mark();
        let mut new_cells: [Cell; 9] = [Cell::new_empty(); 9];
        for i in 0..9
            invariant
                m == current_mark_of(self.board(), self.spec_starting_mark()),
                forall|j: int|
                    0 <= j < i ==> (#[trigger] new_cells@[j])@ == (if j == cell_index as int {
                        Some(m)
                    } else {
                        self.board()[j]
                    }),
        {
            if i == cell_index {
                new_cells[i] = Cell::new_marked(m);
            } else {
                new_cells[i] = self.grid.cell(i);
            }
        }
        let new_grid = Grid::new(Some(new_cells));
        proof {
            assert forall|j: int| 0 <= j < 9 implies crate::grid::cells_view(new_cells)[j]
                == self.board().update(cell_index as int, Some(m))[j] by {
                assert(crate::grid::cells_view(new_cells)[j] == new_cells@[j]@);
            }
            assert(new_grid@ =~= self.board().update(cell_index as int, Some(m)));
        }
        let new_state = match GameState::new(new_grid, Some(self.starting_mark)) {
            Ok(state) => state,
            Err(error) => {
                return Err(Error::ValidationError(error));
            },
        };
        Ok(GameMove::new(m, cell_index, *self, new_state))
    }

    /// All legal moves from this state, one for each vacant cell in
    /// ascending index order; empty exactly when the game is over.
    pub fn possible_moves(&self) -> (moves: Vec<GameMove>)
        ensures
            (moves@.len() == 0) == game_over_of(self.board()),
            moves_listing(*self, moves@),
    {
        proof {
            use_type_invariant(self);
        }
        let mut moves: Vec<GameMove> = Vec::new();
        if self.game_over() {
            return moves;
        }
        let ghost g = self.board();
        let ghost sm = self.spec_starting_mark();
        for i in 0..9
            invariant
                valid_state(g, sm),
                g == self.board(),
                sm == self.spec_starting_mark(),
                !game_over_of(g),
                forall|k: int|
                    0 <= k < moves@.len() ==> (#[trigger] moves@[k]).wf() && moves@[
                        k
                    ].spec_before_state() == *self,
                forall|k: int|
                    0 <= k < moves@.len() ==> (#[trigger] moves@[k]).spec_cell_index() < i,
                forall|k1: int, k2: int|
                    0 <= k1 < k2 < moves@.len() ==> moves@[k1].spec_cell_index() < moves@[
                        k2
                    ].spec_cell_index(),
                forall|j: int|
                    0 <= j < i && g[j] is None ==> exists|k: int|
                        0 <= k < moves@.len() && (#[trigger] moves@[k]).spec_cell_index() == j,
        {
            if self.grid.cell(i).is_vacant() {
                proof {
                    lemma_move_preserves_validity(g, sm, i as int);
                }
                match self.make_move_to(i) {
                    Ok(mv) => {
                        let ghost earlier = moves@;
                        moves.push(mv);
                        proof {
                            assert(moves@[moves@.len() - 1] == mv);
                            assert(forall|k: int|
                                0 <= k < earlier.len() ==> moves@[k] == earlier[k]);
                            assert forall|j: int| 0 <= j < i + 1 && g[j] is None implies exists|
                                k: int,
                            |
                                0 <= k < moves@.len() && (#[trigger] moves@[
                                    k
                                ]).spec_cell_index() == j by {
                                if j == i as int {
                                    assert(moves@[moves@.len() - 1].spec_cell_index() == j);
                                } else {
                                    let k0 = choose|k: int|
                                        0 <= k < earlier.len() && (#[trigger] earlier[
                                            k
                                        ]).spec_cell_index() == j;
                                    assert(moves@[k0].spec_cell_index() == j);
                                }
                            }
                        }
                    },
                    Err(_) => {},
                }
            }
        }
        proof {
            if moves@.len() == 0 {
                crate::grid::lemma_count_upto_bounds(g, None, 9);
                if empty_count_of(g) != 0 {
                    crate::grid::lemma_count_upto_pos_exists(g, None, 9);
                    let j = choose|j: int| 0 <= j < 9 && g[j] == None::<Mark>;
                    assert(exists|k: int|
                        0 <= k < moves@.len() && (#[trigger] moves@[k]).spec_cell_index() == j);
                    assert(false);
                }
            }
        }
        moves
    }
}

/// Whether some full line of the grid holds `m`, checking the three rows,
/// then the three columns, then the two diagonals.
fn grid_has_win(grid: &Grid, m: Mark) -> (r: bool)
    ensures
        r == has_win(grid@, m),
{
    (grid.cell(0).is_occupied_by(m) && grid.cell(1).is_occupied_by(m) && grid.cell(2).is_occupied_by(
        m,
    )) || (grid.cell(3).is_occupied_by(m) && grid.cell(4).is_occupied_by(m) && grid.cell(
        5,
    ).is_occupied_by(m)) || (grid.cell(6).is_occupied_by(m) && grid.cell(7).is_occupied_by(m)
        && grid.cell(8).is_occupied_by(m)) || (grid.cell(0).is_occupied_by(m) && grid.cell(
        3,
    ).is_occupied_by(m) && grid.cell(6).is_occupied_by(m)) || (grid.cell(1).is_occupied_by(m)
        && grid.cell(4).is_occupied_by(m) && grid.cell(7).is_occupied_by(m)) || (grid.cell(
        2,
    ).is_occupied_by(m) && grid.cell(5).is_occupied_by(m) && grid.cell(8).is_occupied_by(m)) || (
    grid.cell(0).is_occupied_by(m) && grid.cell(4).is_occupied_by(m) && grid.cell(8).is_occupied_by(
        m,
    )) || (grid.cell(2).is_occupied_by(m) && grid.cell(4).is_occupied_by(m) && grid.cell(
        6,
    ).is_occupied_by(m))
}

/// The winner on the grid, if any, checking a cross win first.
fn grid_winner(grid: &Grid) -> (r: Option<Mark>)
    ensures
        r == winner_of(grid@),
{
    if grid_has_win(grid, Mark::Cross) {
        Some(Mark::Cross)
    } else if grid_has_win(grid, Mark::Naught) {
        Some(Mark::Naught)
    } else {
        None
    }
}

/// A three-element vector of cell indexes.
fn triple(a: usize, b: usize, c: usize) -> (v: Vec<usize>)
    ensures
        v@ == seq![a, b, c],
{
    let mut v: Vec<usize> = Vec::new();
    v.push(a);
    v.push(b);
    v.push(c);
    proof {
        assert(v@ =~= seq![a, b, c]);
    }
    v
}

/// The indexes of the first full line held by `m`, in the scan order of
/// `line_indexes_for`.
fn grid_line(grid: &Grid, m: Mark) -> (r: Option<Vec<usize>>)
    ensures
        ({
            match line_indexes_for(grid@, m) {
                Some(s) => r matches Some(v) && v@ == s,
                None => r is None,
            }
        }),
{
    if grid.cell(0).is_occupied_by(m) && grid.cell(1).is_occupied_by(m) && grid.cell(
        2,
    ).is_occupied_by(m) {
        Some(triple(0, 1, 2))
    } else if grid.cell(3).is_occupied_by(m) && grid.cell(4).is_occupied_by(m) && grid.cell(
        5,
    ).is_occupied_by(m) {
        Some(triple(3, 4, 5))
    } else if grid.cell(6).is_occupied_by(m) && grid.cell(7).is_occupied_by(m) && grid.cell(
        8,
    ).is_occupied_by(m) {
        Some(triple(6, 7, 8))
    } else if grid.cell(0).is_occupied_by(m) && grid.cell(3).is_occupied_by(m) && grid.cell(
        6,
    ).is_occupied_by(m) {
        Some(triple(0, 3, 6))
    } else if grid.cell(1).is_occupied_by(m) && grid.cell(4).is_occupied_by(m) && grid.cell(
        7,
    ).is_occupied_by(m) {
        Some(triple(1, 4, 7))
    } else if grid.cell(2).is_occupied_by(m) && grid.cell(5).is_occupied_by(m) && grid.cell(
        8,
    ).is_occupied_by(m) {
        Some(triple(2, 5, 8))
    } else if grid.cell(0).is_occupied_by(m) && grid.cell(4).is_occupied_by(m) && grid.cell(
        8,
    ).is_occupied_by(m) {
        Some(triple(0, 4, 8))
    } else if grid.cell(2).is_occupied_by(m) && grid.cell(4).is_occupied_by(m) && grid.cell(
        6,
    ).is_occupied_by(m) {
        Some(triple(2, 4, 6))
    } else {
        None
    }
}

} // verus!
