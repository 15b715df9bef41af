//! The optimal computer player: minimax search with alpha-beta pruning.
//!
//! The spec function `game_value` defines the exact game-theoretic value
//! of a position.  The plain search is proved to return that value, the
//! pruned search is proved to return the same value at a full window, and
//! the move chooser is proved to pick the first best move in ascending
//! cell order.

use vstd::prelude::*;

use crate::game_move::GameMove;
use crate::game_state::current_mark_of;
use crate::game_state::game_over_of;
use crate::game_state::moves_listing;
use crate::game_state::score_of;
use crate::game_state::GameState;
use crate::grid::empty_count_of;
use crate::mark::Mark;
use crate::players::Player;

verus! {

broadcast use crate::grid::lemma_grid_view_len;

/// The better of two values for the given player direction: the maximum
/// when maximizing, the minimum when minimizing.
pub open spec fn better(maximizing: bool, a: int, b: int) -> int {
    if maximizing {
        if a >= b {
            a
        } else {
            b
        }
    } else {
        if a <= b {
            a
        } else {
            b
        }
    }
}

/// The value a finished search reports when no cell at or after `i` is
/// playable: an identity element for `better`.
pub open spec fn no_move_value(maximizing: bool) -> int {
    if maximizing {
        -2
    } else {
        2
    }
}

/// The game-theoretic value of the board `g` for `player`, with
/// `maximizing` telling whose turn the search models: the score when the
/// game is over, and otherwise the best value among the positions
/// reachable in one move.
pub open spec fn game_value(g: Seq<Option<Mark>>, sm: Mark, player: Mark, maximizing: bool) -> int
    decreases empty_count_of(g), 10int,
    via game_value_decreases
{
    if game_over_of(g) {
        score_of(g, player)
    } else {
        best_child_value(g, sm, player, maximizing, 0)
    }
}

/// The best value among the moves on the vacant cells at index `i` or
/// later, each evaluated for the opposite direction.
pub open spec fn best_child_value(
    g: Seq<Option<Mark>>,
    sm: Mark,
    player: Mark,
    maximizing: bool,
    i: int,
) -> int
    decreases empty_count_of(g), 9 - i,
    via best_child_value_decreases
{
    if i < 0 || i >= 9 || g.len() != 9 {
        no_move_value(maximizing)
    } else {
        let rest = best_child_value(g, sm, player, maximizing, i + 1);
        if g[i] is None {
            let child = game_value(
                g.update(i, Some(current_mark_of(g, sm))),
                sm,
                player,
                !maximizing,
            );
            better(maximizing, child, rest)
        } else {
            rest
        }
    }
}

#[via_fn]
proof fn game_value_decreases(g: Seq<Option<Mark>>, sm: Mark, player: Mark, maximizing: bool) {
    crate::grid::lemma_count_upto_bounds(g, None, g.len() as int);
}

#[via_fn]
proof fn best_child_value_decreases(
    g: Seq<Option<Mark>>,
    sm: Mark,
    player: Mark,
    maximizing: bool,
    i: int,
) {
    crate::grid::lemma_count_upto_bounds(g, None, g.len() as int);
    if 0 <= i && i < 9 && g.len() == 9 && g[i] is None {
        let g2 = g.update(i, Some(current_mark_of(g, sm)));
        crate::grid::lemma_count_upto_update(g, None, i, Some(current_mark_of(g, sm)), 9);
        crate::grid::lemma_count_upto_bounds(g2, None, 9);
    }
}

/// Skipping occupied cells does not change the best child value.
proof fn lemma_best_child_skip(
    g: Seq<Option<Mark>>,
    sm: Mark,
    player: Mark,
    maximizing: bool,
    i: int,
    j: int,
)
    requires
        g.len() == 9,
        0 <= i <= j <= 9,
        forall|l: int| i <= l < j ==> g[l] is Some,
    ensures
        best_child_value(g, sm, player, maximizing, i) == best_child_value(
            g,
            sm,
            player,
            maximizing,
            j,
        ),
    decreases j - i,
{
    if i < j {
        lemma_best_child_skip(g, sm, player, maximizing, i + 1, j);
    }
}

/// A game value always lies between -1 and 1.
pub proof fn lemma_game_value_bounds(g: Seq<Option<Mark>>, sm: Mark, player: Mark, maximizing: bool)
    requires
        g.len() == 9,
    ensures
        -1 <= game_value(g, sm, player, maximizing) <= 1,
    decreases empty_count_of(g), 10int,
{
    if !game_over_of(g) {
        crate::grid::lemma_count_upto_bounds(g, None, 9);
        crate::grid::lemma_count_upto_pos_exists(g, None, 9);
        lemma_best_child_bounds(g, sm, player, maximizing, 0);
    }
}

/// The best child value lies between -1 and 1 as soon as some cell at
/// index `i` or later is vacant.
proof fn lemma_best_child_bounds(
    g: Seq<Option<Mark>>,
    sm: Mark,
    player: Mark,
    maximizing: bool,
    i: int,
)
    requires
        g.len() == 9,
        0 <= i < 9,
        exists|j: int| i <= j < 9 && g[j] is None,
    ensures
        -1 <= best_child_value(g, sm, player, maximizing, i) <= 1,
    decreases empty_count_of(g), 9 - i,
{
    if g[i] is None {
        let g2 = g.update(i, Some(current_mark_of(g, sm)));
        crate::grid::lemma_count_upto_update(g, None, i, Some(current_mark_of(g, sm)), 9);
        crate::grid::lemma_count_upto_bounds(g, None, 9);
        crate::grid::lemma_count_upto_bounds(g2, None, 9);
        lemma_game_value_bounds(g2, sm, player, !maximizing);
        if exists|j: int| i + 1 <= j < 9 && g[j] is None {
            lemma_best_child_bounds(g, sm, player, maximizing, i + 1);
        } else {
            assert(forall|l: int| i + 1 <= l < 9 ==> g[l] is Some);
            lemma_best_child_skip(g, sm, player, maximizing, i + 1, 9);
        }
    } else {
        let j0 = choose|j: int| i <= j < 9 && g[j] is None;
        assert(i + 1 <= j0 < 9 && g[j0] is None);
        lemma_best_child_bounds(g, sm, player, maximizing, i + 1);
    }
}

/// The board index the search looks at when it is about to process the
/// move at position `k` of the listing: that move's cell, or 9 when all
/// moves are processed.
spec fn next_index(moves: Seq<GameMove>, k: int) -> int {
    if 0 <= k < moves.len() {
        moves[k].spec_cell_index() as int
    } else {
        9
    }
}

/// The game value of the position reached by the move at position `k` of
/// the listing, evaluated for the opposite direction.
spec fn child_value(moves: Seq<GameMove>, k: int, player: Mark, maximizing: bool) -> int {
    game_value(
        moves[k].spec_after_state().board(),
        moves[k].spec_after_state().spec_starting_mark(),
        player,
        !maximizing,
    )
}

/// In a listing of the legal moves, every cell in `[lo, hi)` is occupied
/// provided the first `k` listed moves all lie below `lo` and the next
/// listed move, if any, lies at or above `hi`.
proof fn lemma_range_occupied(s: GameState, moves: Seq<GameMove>, k: int, lo: int, hi: int)
    requires
        moves_listing(s, moves),
        !game_over_of(s.board()),
        0 <= k <= moves.len(),
        0 <= lo,
        hi <= 9,
        forall|k0: int| 0 <= k0 < k ==> (#[trigger] moves[k0]).spec_cell_index() < lo,
        k < moves.len() ==> hi <= moves[k].spec_cell_index(),
    ensures
        forall|l: int| lo <= l < hi ==> s.board()[l] is Some,
{
    assert forall|l: int| lo <= l < hi implies s.board()[l] is Some by {
        if s.board()[l] is None {
            let k0 = choose|k0: int|
                0 <= k0 < moves.len() && (#[trigger] moves[k0]).spec_cell_index() == l;
            if k0 < k {
                assert(moves[k0].spec_cell_index() < lo);
            } else {
                if k < k0 {
                    assert(moves[k].spec_cell_index() < moves[k0].spec_cell_index());
                }
            }
            assert(false);
        }
    }
}

/// The score of the given move for `maximized_player`, assuming both
/// sides play optimally from there: exactly the game value of the
/// position after the move, maximized or minimized as requested.
pub fn minimax(move_: &GameMove, maximized_player: Mark, choose_highest_score: bool) -> (r: i32)
    ensures
        r as int == game_value(
            move_.spec_after_state().board(),
            move_.spec_after_state().spec_starting_mark(),
            maximized_player,
            choose_highest_score,
        ),
    decreases empty_count_of(move_.spec_after_state().board()),
{
    let after = *move_.after_state();
    proof {
        use_type_invariant(&after);
    }
    let ghost g = after.board();
    let ghost sm = after.spec_starting_mark();
    if after.game_over() {
        return after.score(maximized_player);
    }
    let moves = after.possible_moves();
    let ghost ms = moves@;
    let mut best: i32 = if choose_highest_score {
        -2
    } else {
        2
    };
    proof {
        assert(ms[0].wf());
        lemma_range_occupied(after, ms, 0, 0, next_index(ms, 0));
        lemma_best_child_skip(g, sm, maximized_player, choose_highest_score, 0, next_index(ms, 0));
        lemma_best_child_bounds(
            g,
            sm,
            maximized_player,
            choose_highest_score,
            next_index(ms, 0),
        );
    }
    let n = moves.len();
    for k in 0..n
        invariant
            n == moves.len(),
            moves@ == ms,
            moves_listing(after, ms),
            g == after.board(),
            sm == after.spec_starting_mark(),
            after == move_.spec_after_state(),
            !game_over_of(g),
            better(
                choose_highest_score,
                best as int,
                best_child_value(g, sm, maximized_player, choose_highest_score, next_index(ms, k as int)),
            ) == best_child_value(g, sm, maximized_player, choose_highest_score, 0),
            k == 0 ==> best as int == no_move_value(choose_highest_score),
            k > 0 ==> -1 <= best as int <= 1,
    {
        let ghost ci = ms[k as int].spec_cell_index() as int;
        proof {
            assert(ms[k as int].wf());
            crate::grid::lemma_count_upto_update(g, None, ci, Some(current_mark_of(g, sm)), 9);
            crate::grid::lemma_count_upto_bounds(g, None, 9);
        }
        let child = moves[k];
        let score = minimax(&child, maximized_player, !choose_highest_score);
        proof {
            lemma_game_value_bounds(
                child.spec_after_state().board(),
                sm,
                maximized_player,
                !choose_highest_score,
            );
            lemma_range_occupied(after, ms, k as int + 1, ci + 1, next_index(ms, k as int + 1));
            lemma_best_child_skip(
                g,
                sm,
                maximized_player,
                choose_highest_score,
                ci + 1,
                next_index(ms, k as int + 1),
            );
            assert(best_child_value(g, sm, maximized_player, choose_highest_score, ci) == better(
                choose_highest_score,
                child_value(ms, k as int, maximized_player, choose_highest_score),
                best_child_value(g, sm, maximized_player, choose_highest_score, ci + 1),
            ));
        }
        if choose_highest_score {
            if score > best {
                best = score;
            }
        } else {
            if score < best {
                best = score;
            }
        }
    }
    best
}

/// The score of the given move for `maximized_player` under alpha-beta
/// pruning.  Within the window the result is exact; outside it the result
/// still bounds the true game value from the matching side, so at a full
/// window the pruned search returns exactly the value the plain search
/// returns.
pub fn minimax_with_pruning(
    move_: &GameMove,
    maximized_player: Mark,
    choose_highest_score: bool,
    alpha: i32,
    beta: i32,
) -> (r: i32)
    requires
        alpha < beta,
    ensures
        ({
            let v = game_value(
                move_.spec_after_state().board(),
                move_.spec_after_state().spec_starting_mark(),
                maximized_player,
                choose_highest_score,
            );
            &&& (r <= alpha ==> v <= r as int)
            &&& (alpha < r < beta ==> r as int == v)
            &&& (r >= beta ==> v >= r as int)
            &&& (alpha == i32::MIN && beta == i32::MAX ==> r as int == v)
        }),
    decreases empty_count_of(move_.spec_after_state().board()),
{
    let after = *move_.after_state();
    proof {
        use_type_invariant(&after);
    }
    let ghost g = after.board();
    let ghost sm = after.spec_starting_mark();
    if after.game_over() {
        return after.score(maximized_player);
    }
    let moves = after.possible_moves();
    let ghost ms = moves@;
    let ghost v = game_value(g, sm, maximized_player, choose_highest_score);
    let mut best: i32 = if choose_highest_score {
        i32::MIN
    } else {
        i32::MAX
    };
    let mut new_alpha = alpha;
    let mut new_beta = beta;
    let mut pruned = false;
    let mut k: usize = 0;
    let ghost mut folded: int = no_move_value(choose_highest_score);
    proof {
        assert(ms[0].wf());
        lemma_range_occupied(after, ms, 0, 0, next_index(ms, 0));
        lemma_best_child_skip(g, sm, maximized_player, choose_highest_score, 0, next_index(ms, 0));
        lemma_best_child_bounds(
            g,
            sm,
            maximized_player,
            choose_highest_score,
            next_index(ms, 0),
        );
    }
    let n = moves.len();
    while k < n && !pruned
        invariant
            n == moves.len(),
            moves@ == ms,
            moves_listing(after, ms),
            g == after.board(),
            sm == after.spec_starting_mark(),
            after == move_.spec_after_state(),
            !game_over_of(g),
            alpha < beta,
            k <= n,
            v == game_value(g, sm, maximized_player, choose_highest_score),
            better(
                choose_highest_score,
                folded,
                best_child_value(g, sm, maximized_player, choose_highest_score, next_index(ms, k as int)),
            ) == best_child_value(g, sm, maximized_player, choose_highest_score, 0),
            k == 0 ==> folded == no_move_value(choose_highest_score),
            k > 0 ==> -1 <= folded <= 1,
            choose_highest_score ==> forall|j: int|
                0 <= j < k ==> child_value(ms, j, maximized_player, true) <= folded,
            !choose_highest_score ==> forall|j: int|
                0 <= j < k ==> child_value(ms, j, maximized_player, false) >= folded,
            k > 0 ==> exists|j: int|
                0 <= j < k && child_value(ms, j, maximized_player, choose_highest_score) == folded,
            choose_highest_score ==> new_beta == beta,
            !choose_highest_score ==> new_alpha == alpha,
            choose_highest_score ==> new_alpha as int == better(true, alpha as int, best as int),
            !choose_highest_score ==> new_beta as int == better(false, beta as int, best as int),
            !pruned && choose_highest_score ==> best < beta,
            !pruned && !choose_highest_score ==> best > alpha,
            !pruned && choose_highest_score ==> forall|j: int|
                0 <= j < k ==> child_value(ms, j, maximized_player, true) <= best as int,
            !pruned && !choose_highest_score ==> forall|j: int|
                0 <= j < k ==> child_value(ms, j, maximized_player, false) >= best as int,
            !pruned && choose_highest_score && best > alpha ==> exists|j: int|
                0 <= j < k && child_value(ms, j, maximized_player, true) == best as int,
            !pruned && !choose_highest_score && best < beta ==> exists|j: int|
                0 <= j < k && child_value(ms, j, maximized_player, false) == best as int,
            pruned && choose_highest_score ==> best >= beta && v >= best as int,
            pruned && !choose_highest_score ==> best <= alpha && v <= best as int,
        decreases n - k,
    {
        let ghost ci = ms[k as int].spec_cell_index() as int;
        proof {
            assert(ms[k as int].wf());
            crate::grid::lemma_count_upto_update(g, None, ci, Some(current_mark_of(g, sm)), 9);
            crate::grid::lemma_count_upto_bounds(g, None, 9);
        }
        let child = moves[k];
        let score = minimax_with_pruning(
            &child,
            maximized_player,
            !choose_highest_score,
            new_alpha,
            new_beta,
        );
        proof {
            lemma_game_value_bounds(
                child.spec_after_state().board(),
                sm,
                maximized_player,
                !choose_highest_score,
            );
            lemma_range_occupied(after, ms, k as int + 1, ci + 1, next_index(ms, k as int + 1));
            lemma_best_child_skip(
                g,
                sm,
                maximized_player,
                choose_highest_score,
                ci + 1,
                next_index(ms, k as int + 1),
            );
            assert(best_child_value(g, sm, maximized_player, choose_highest_score, ci) == better(
                choose_highest_score,
                child_value(ms, k as int, maximized_player, choose_highest_score),
                best_child_value(g, sm, maximized_player, choose_highest_score, ci + 1),
            ));
            folded = better(
                choose_highest_score,
                folded,
                child_value(ms, k as int, maximized_player, choose_highest_score),
            );
        }
        if choose_highest_score {
            if score > best {
                best = score;
            }
            if best > new_alpha {
                new_alpha = best;
            }
        } else {
            if score < best {
                best = score;
            }
            if best < new_beta {
                new_beta = best;
            }
        }
        k = k + 1;
        if new_beta <= new_alpha {
            pruned = true;
            proof {
                assert(better(
                    choose_highest_score,
                    folded,
                    best_child_value(
                        g,
                        sm,
                        maximized_player,
                        choose_highest_score,
                        next_index(ms, k as int),
                    ),
                ) == v);
            }
        }
    }
    proof {
        lemma_game_value_bounds(g, sm, maximized_player, choose_highest_score);
        if !pruned {
            assert(k == n);
            assert(next_index(ms, k as int) == 9);
            assert(v == folded);
        }
    }
    best
}

/// The value of moving to cell `i` for the mark whose turn it is,
/// assuming optimal play by both sides afterwards.
pub open spec fn move_value(g: Seq<Option<Mark>>, sm: Mark, i: int) -> int {
    game_value(
        g.update(i, Some(current_mark_of(g, sm))),
        sm,
        current_mark_of(g, sm),
        false,
    )
}

/// Cell `i` is the move the search must choose: a vacant cell whose value
/// no other move beats, and that strictly beats every earlier vacant
/// cell, so ties break towards the lowest index.
pub open spec fn is_best_choice(g: Seq<Option<Mark>>, sm: Mark, i: int) -> bool {
    &&& 0 <= i < 9
    &&& g[i] is None
    &&& forall|j: int|
        0 <= j < 9 && g[j] is None ==> move_value(g, sm, j) <= move_value(g, sm, i)
    &&& forall|j: int| 0 <= j < i && g[j] is None ==> move_value(g, sm, j) < move_value(g, sm, i)
}

/// The first-best choice is unique: any search that picks a move of
/// maximal value and breaks ties towards the lowest cell index — with or
/// without pruning — picks the same cell.
pub proof fn lemma_best_choice_unique(g: Seq<Option<Mark>>, sm: Mark, i1: int, i2: int)
    requires
        is_best_choice(g, sm, i1),
        is_best_choice(g, sm, i2),
    ensures
        i1 == i2,
{
    if i1 < i2 {
        assert(move_value(g, sm, i1) < move_value(g, sm, i2));
        assert(move_value(g, sm, i2) <= move_value(g, sm, i1));
    }
    if i2 < i1 {
        assert(move_value(g, sm, i2) < move_value(g, sm, i1));
        assert(move_value(g, sm, i1) <= move_value(g, sm, i2));
    }
}

/// The best move for the mark whose turn it is, or nothing when the game
/// is over.  The returned move is the first-best choice in ascending cell
/// order.
pub fn find_best_move(game_state: &GameState) -> (r: Option<GameMove>)
    ensures
        (r is None) == game_over_of(game_state.board()),
        r matches Some(mv) ==> mv.wf() && mv.spec_before_state() == *game_state
            && is_best_choice(
            game_state.board(),
            game_state.spec_starting_mark(),
            mv.spec_cell_index() as int,
        ),
{
    proof {
        use_type_invariant(game_state);
    }
    let ghost g = game_state.board();
    let ghost sm = game_state.spec_starting_mark();
    let maximized_player = game_state.current_mark();
    let alpha = i32::MIN;
    let beta = i32::MAX;
    let moves = game_state.possible_moves();
    let ghost ms = moves@;
    if moves.is_empty() {
        return None;
    }
    let first = moves[0];
    let mut best_score = minimax_with_pruning(&first, maximized_player, false, alpha, beta);
    let mut best_pos: usize = 0;
    proof {
        assert(ms[0].wf());
    }
    let n = moves.len();
    for k in 1..n
        invariant
            n == moves.len(),
            moves@ == ms,
            moves_listing(*game_state, ms),
            g == game_state.board(),
            sm == game_state.spec_starting_mark(),
            maximized_player == current_mark_of(g, sm),
            !game_over_of(g),
            alpha == i32::MIN,
            beta == i32::MAX,
            1 <= k <= n,
            best_pos < k,
            best_score as int == child_value(ms, best_pos as int, maximized_player, true),
            forall|j: int|
                0 <= j < k ==> child_value(ms, j, maximized_player, true) <= best_score as int,
            forall|j: int|
                0 <= j < best_pos ==> child_value(ms, j, maximized_player, true) < best_score as int,
    {
        proof {
            assert(ms[k as int].wf());
        }
        let child = moves[k];
        let score = minimax_with_pruning(&child, maximized_player, false, alpha, beta);
        if score > best_score {
            best_score = score;
            best_pos = k;
        }
    }
    let chosen = moves[best_pos];
    proof {
        let bi = chosen.spec_cell_index() as int;
        assert(chosen.wf());
        assert forall|j: int| 0 <= j < 9 && g[j] is None implies move_value(g, sm, j)
            <= move_value(g, sm, bi) by {
            let k0 = choose|k0: int|
                0 <= k0 < ms.len() && (#[trigger] ms[k0]).spec_cell_index() == j;
            assert(ms[k0].wf());
            assert(move_value(g, sm, j) == child_value(ms, k0, maximized_player, true));
            assert(move_value(g, sm, bi) == child_value(
                ms,
                best_pos as int,
                maximized_player,
                true,
            ));
        }
        assert forall|j: int| 0 <= j < bi && g[j] is None implies move_value(g, sm, j)
            < move_value(g, sm, bi) by {
            let k0 = choose|k0: int|
                0 <= k0 < ms.len() && (#[trigger] ms[k0]).spec_cell_index() == j;
            assert(ms[k0].wf());
            if k0 > best_pos as int {
                assert(ms[best_pos as int].spec_cell_index() < ms[k0].spec_cell_index());
            }
            assert(k0 < best_pos as int);
            assert(move_value(g, sm, j) == child_value(ms, k0, maximized_player, true));
            assert(move_value(g, sm, bi) == child_value(
                ms,
                best_pos as int,
                maximized_player,
                true,
            ));
        }
    }
    Some(chosen)
}

/// A player that chooses its moves by exhaustive game-tree search.
pub struct MinimaxPlayer {
    mark: Mark,
}

impl MinimaxPlayer {
    /// Creates a player for the given mark.
    pub fn new(mark: Mark) -> (p: Self)
        ensures
            p.mark_spec() == mark,
    {
        MinimaxPlayer { mark }
    }
}

impl Player for MinimaxPlayer {
    closed spec fn mark_spec(&self) -> Mark {
        self.mark
    }

    fn get_mark(&self) -> (m: Mark) {
        self.mark
    }

    fn get_move(&self, game_state: &GameState) -> (r: Option<GameMove>)
        ensures
            (r is None) == game_over_of(game_state.board()),
            r matches Some(mv) ==> is_best_choice(
                game_state.board(),
                game_state.spec_starting_mark(),
                mv.spec_cell_index() as int,
            ),
    {
        find_best_move(game_state)
    }
}

} // verus!
