use tic_tac_toe::Cell;
use tic_tac_toe::Error;
use tic_tac_toe::GameState;
use tic_tac_toe::Grid;
use tic_tac_toe::Mark;
use tic_tac_toe::MoveError;

#[test]
fn test_new_with_starting_mark() {
    let grid = Grid::new(None);
    let game_state = GameState::new(grid, Some(Mark::Naught)).unwrap();
    assert_eq!(game_state.starting_mark(), &Mark::Naught);
}

#[test]
fn test_new_without_starting_mark() {
    let grid = Grid::new(None);
    let game_state = GameState::new(grid, None).unwrap();
    assert_eq!(game_state.starting_mark(), &Mark::Cross);
}

#[test]
fn test_current_mark_none() {
    let game_state = GameState::new(Grid::new(None), None).unwrap();
    assert_eq!(game_state.current_mark(), Mark::Cross);
}

#[test]
fn test_current_mark_starting_mark_cross() {
    let game_state = GameState::new(Grid::new(None), Some(Mark::Cross)).unwrap();
    assert_eq!(game_state.current_mark(), Mark::Cross);
}

#[test]
fn test_current_mark_starting_mark_naught() {
    let game_state = GameState::new(Grid::new(None), Some(Mark::Naught)).unwrap();
    assert_eq!(game_state.current_mark(), Mark::Naught);
}

#[test]
fn test_winner_mark_none() {
    let grid = Grid::new(None);
    let game_state = GameState::new(grid, None).unwrap();
    assert_eq!(game_state.winner_mark(), None);
}

#[test]
fn test_winner_mark_row() {
    let mut cells = [Cell::new_empty(); Grid::SIZE];
    cells[0] = Cell::new_marked(Mark::Cross);
    cells[1] = Cell::new_marked(Mark::Cross);
    cells[2] = Cell::new_marked(Mark::Cross);

    cells[3] = Cell::new_marked(Mark::Naught);
    cells[4] = Cell::new_marked(Mark::Naught);
    let grid = Grid::new(Some(cells));
    let game_state = GameState::new(grid, None).unwrap();
    assert_eq!(game_state.winner_mark(), Some(Mark::Cross));
}

#[test]
fn test_winner_mark_column() {
    let mut cells = [Cell::new_empty(); Grid::SIZE];
    cells[0] = Cell::new_marked(Mark::Cross);
    cells[3] = Cell::new_marked(Mark::Cross);
    cells[6] = Cell::new_marked(Mark::Cross);

    cells[7] = Cell::new_marked(Mark::Naught);
    cells[8] = Cell::new_marked(Mark::Naught);
    let grid = Grid::new(Some(cells));
    let game_state = GameState::new(grid, None).unwrap();
    assert_eq!(game_state.winner_mark(), Some(Mark::Cross));
}

#[test]
fn test_winner_mark_diagonal() {
    let mut cells = [Cell::new_empty(); Grid::SIZE];
    cells[0] = Cell::new_marked(Mark::Cross);
    cells[4] = Cell::new_marked(Mark::Cross);
    cells[8] = Cell::new_marked(Mark::Cross);

    cells[7] = Cell::new_marked(Mark::Naught);
    cells[6] = Cell::new_marked(Mark::Naught);
    let grid = Grid::new(Some(cells));
    let game_state = GameState::new(grid, None).unwrap();
    assert_eq!(game_state.winner_mark(), Some(Mark::Cross));
}

#[test]
fn test_winner_mark_false() {
    let mut cells = [Cell::new_empty(); Grid::SIZE];
    cells[1] = Cell::new_marked(Mark::Cross);
    cells[4] = Cell::new_marked(Mark::Cross);
    cells[8] = Cell::new_marked(Mark::Cross);

    cells[7] = Cell::new_marked(Mark::Naught);
    cells[6] = Cell::new_marked(Mark::Naught);
    let grid = Grid::new(Some(cells));
    let game_state = GameState::new(grid, None).unwrap();
    assert_eq!(game_state.winner_mark(), None);
}

#[test]
fn test_winner_cells_none() {
    let grid = Grid::new(None);
    let game_state = GameState::new(grid, None).unwrap();
    assert_eq!(game_state.winning_indexes(), None);
}

#[test]
fn test_winner_cells_row() {
    let mut cells = [Cell::new_empty(); Grid::SIZE];
    cells[0] = Cell::new_marked(Mark::Cross);
    cells[1] = Cell::new_marked(Mark::Cross);
    cells[2] = Cell::new_marked(Mark::Cross);

    cells[3] = Cell::new_marked(Mark::Naught);
    cells[4] = Cell::new_marked(Mark::Naught);
    let grid = Grid::new(Some(cells));
    let game_state = GameState::new(grid, None).unwrap();
    assert_eq!(game_state.winning_indexes(), Some(vec![0, 1, 2]));
}

#[test]
fn test_winner_cells_column() {
    let mut cells = [Cell::new_empty(); Grid::SIZE];
    cells[0] = Cell::new_marked(Mark::Cross);
    cells[3] = Cell::new_marked(Mark::Cross);
    cells[6] = Cell::new_marked(Mark::Cross);

    cells[7] = Cell::new_marked(Mark::Naught);
    cells[8] = Cell::new_marked(Mark::Naught);
    let grid = Grid::new(Some(cells));
    let game_state = GameState::new(grid, None).unwrap();
    assert_eq!(game_state.winning_indexes(), Some(vec![0, 3, 6]));
}

#[test]
fn test_winner_cells_diagonal() {
    let mut cells = [Cell::new_empty(); Grid::SIZE];
    cells[0] = Cell::new_marked(Mark::Cross);
    cells[4] = Cell::new_marked(Mark::Cross);
    cells[8] = Cell::new_marked(Mark::Cross);

    cells[7] = Cell::new_marked(Mark::Naught);
    cells[6] = Cell::new_marked(Mark::Naught);
    let grid = Grid::new(Some(cells));
    let game_state = GameState::new(grid, None).unwrap();
    assert_eq!(game_state.winning_indexes(), Some(vec![0, 4, 8]));
}

#[test]
fn test_winner_cells_false() {
    let mut cells = [Cell::new_empty(); Grid::SIZE];
    cells[1] = Cell::new_marked(Mark::Cross);
    cells[4] = Cell::new_marked(Mark::Cross);
    cells[8] = Cell::new_marked(Mark::Cross);

    cells[7] = Cell::new_marked(Mark::Naught);
    cells[6] = Cell::new_marked(Mark::Naught);
    let grid = Grid::new(Some(cells));
    let game_state = GameState::new(grid, None).unwrap();
    assert_eq!(game_state.winning_indexes(), None);
}

#[test]
fn test_game_not_started() {
    let empty_game = GameState::new(Grid::new(None), None).unwrap();
    let non_empty_game = GameState::new(
        Grid::new(Some([
            Cell::new_marked(Mark::Cross),
            Cell::new_empty(),
            Cell::new_empty(),
            Cell::new_empty(),
            Cell::new_empty(),
            Cell::new_empty(),
            Cell::new_empty(),
            Cell::new_empty(),
            Cell::new_empty(),
        ])),
        None,
    )
    .unwrap();

    assert!(empty_game.game_not_started());
    assert!(!non_empty_game.game_not_started());
}

#[test]
fn test_game_over() {
    let empty_game = GameState::new(Grid::new(None), None).unwrap();
    let tie_game = GameState::new(
        Grid::new(Some([
            Cell::new_marked(Mark::Cross),
            Cell::new_marked(Mark::Naught),
            Cell::new_marked(Mark::Cross),
            Cell::new_marked(Mark::Cross),
            Cell::new_marked(Mark::Naught),
            Cell::new_marked(Mark::Cross),
            Cell::new_marked(Mark::Naught),
            Cell::new_marked(Mark::Cross),
            Cell::new_marked(Mark::Naught),
        ])),
        None,
    )
    .unwrap();
    let cross_wins_game = GameState::new(
        Grid::new(Some([
            Cell::new_marked(Mark::Cross),
            Cell::new_marked(Mark::Cross),
            Cell::new_marked(Mark::Cross),
            Cell::new_marked(Mark::Naught),
            Cell::new_marked(Mark::Naught),
            Cell::new_empty(),
            Cell::new_empty(),
            Cell::new_empty(),
            Cell::new_empty(),
        ])),
        None,
    )
    .unwrap();
    let naught_wins_game = GameState::new(
        Grid::new(Some([
            Cell::new_marked(Mark::Naught),
            Cell::new_marked(Mark::Cross),
            Cell::new_empty(),
            Cell::new_empty(),
            Cell::new_marked(Mark::Naught),
            Cell::new_marked(Mark::Cross),
            Cell::new_empty(),
            Cell::new_marked(Mark::Cross),
            Cell::new_marked(Mark::Naught),
        ])),
        None,
    )
    .unwrap();

    assert!(!empty_game.game_over());
    assert!(tie_game.game_over());
    assert!(cross_wins_game.game_over());
    assert!(naught_wins_game.game_over());
}

#[test]
fn test_tie() {
    let empty_game = GameState::new(Grid::new(None), None).unwrap();
    let non_empty_game = GameState::new(
        Grid::new(Some([
            Cell::new_marked(Mark::Cross),
            Cell::new_marked(Mark::Naught),
            Cell::new_marked(Mark::Cross),
            Cell::new_marked(Mark::Cross),
            Cell::new_marked(Mark::Naught),
            Cell::new_marked(Mark::Cross),
            Cell::new_marked(Mark::Naught),
            Cell::new_marked(Mark::Cross),
            Cell::new_marked(Mark::Naught),
        ])),
        None,
    )
    .unwrap();

    assert!(!empty_game.tie());
    assert!(non_empty_game.tie());
}

#[test]
fn test_make_move_to_empty_cell() {
    let game = GameState::new(Grid::new(None), Some(Mark::Cross)).unwrap();
    let result = game.make_move_to(0);
    assert!(result.is_ok());
    let mv = result.unwrap();
    assert_eq!(mv.mark(), &Mark::Cross);
    assert_eq!(mv.cell_index(), 0);
    assert_eq!(mv.before_state(), &game);
    assert_eq!(mv.after_state().starting_mark(), game.starting_mark());
    assert_eq!(
        mv.after_state().grid().cells()[0],
        Cell::new_marked(Mark::Cross)
    );
}

#[test]
fn test_make_move_to_occupied_cell() {
    let cells = [
        Cell::new_marked(Mark::Cross),
        Cell::new_empty(),
        Cell::new_empty(),
        Cell::new_marked(Mark::Naught),
        Cell::new_empty(),
        Cell::new_marked(Mark::Cross),
        Cell::new_marked(Mark::Naught),
        Cell::new_empty(),
        Cell::new_empty(),
    ];
    let game = GameState::new(Grid::new(Some(cells)), Some(Mark::Cross)).unwrap();
    let result = game.make_move_to(0);
    assert!(result.is_err());
    let err = result.unwrap_err();
    assert_eq!(err, Error::MoveError(MoveError::CellAlreadyMarked(0)));
}

#[test]
fn test_possible_moves_empty_game() {
    let game = GameState::new(Grid::new(None), None).unwrap();
    let moves = game.possible_moves();
    assert_eq!(moves.len(), 9);
}

#[test]
fn test_possible_moves_game_in_progress() {
    let grid = Grid::new(Some([
        Cell::new_empty(),
        Cell::new_empty(),
        Cell::new_empty(),
        Cell::new_empty(),
        Cell::new_marked(Mark::Cross),
        Cell::new_marked(Mark::Naught),
        Cell::new_marked(Mark::Cross),
        Cell::new_marked(Mark::Naught),
        Cell::new_empty(),
    ]));
    let game = GameState::new(grid, Some(Mark::Cross)).unwrap();
    let moves = game.possible_moves();
    assert_eq!(moves.len(), 5);
}

#[test]
fn test_possible_moves_game_over() {
    let grid = Grid::new(Some([
        Cell::new_marked(Mark::Cross),
        Cell::new_marked(Mark::Naught),
        Cell::new_marked(Mark::Cross),
        Cell::new_marked(Mark::Naught),
        Cell::new_marked(Mark::Cross),
        Cell::new_marked(Mark::Naught),
        Cell::new_marked(Mark::Naught),
        Cell::new_marked(Mark::Cross),
        Cell::new_marked(Mark::Cross),
    ]));
    let game = GameState::new(grid, Some(Mark::Cross)).unwrap();
    let moves = game.possible_moves();
    assert!(moves.is_empty());
}
