use tic_tac_toe::validators::validate_game_state;
use tic_tac_toe::validators::validate_number_of_marks;
use tic_tac_toe::validators::validate_starting_mark;
use tic_tac_toe::validators::validate_winner;
use tic_tac_toe::Cell;
use tic_tac_toe::GameState;
use tic_tac_toe::Grid;
use tic_tac_toe::Mark;
use tic_tac_toe::ValidationError;

#[test]
fn test_validate_number_of_marks_valid() {
    let grid = Grid::new(Some([
        Cell::new_marked(Mark::Cross),
        Cell::new_marked(Mark::Cross),
        Cell::new_empty(),
        Cell::new_marked(Mark::Naught),
        Cell::new_empty(),
        Cell::new_marked(Mark::Naught),
        Cell::new_empty(),
        Cell::new_empty(),
        Cell::new_empty(),
    ]));
    let game_state = GameState::new(grid, None).unwrap();
    assert!(validate_number_of_marks(game_state.grid()).is_ok());
}

#[test]
fn test_validate_number_of_marks_fail() {
    let grid = Grid::new(Some([
        Cell::new_marked(Mark::Cross),
        Cell::new_marked(Mark::Cross),
        Cell::new_empty(),
        Cell::new_marked(Mark::Naught),
        Cell::new_empty(),
        Cell::new_marked(Mark::Cross),
        Cell::new_empty(),
        Cell::new_empty(),
        Cell::new_empty(),
    ]));
    assert_eq!(
        validate_number_of_marks(&grid),
        Err(ValidationError::WrongNumberOfNaughtsAndCrosses(3, 1))
    );
}

#[test]
fn test_validate_starting_mark_valid() {
    let grid = Grid::new(Some([
        Cell::new_marked(Mark::Cross),
        Cell::new_marked(Mark::Cross),
        Cell::new_empty(),
        Cell::new_marked(Mark::Naught),
        Cell::new_empty(),
        Cell::new_marked(Mark::Cross),
        Cell::new_marked(Mark::Naught),
        Cell::new_empty(),
        Cell::new_empty(),
    ]));
    let game_state = GameState::new(grid, Some(Mark::Cross)).unwrap();
    assert!(validate_starting_mark(game_state.grid(), game_state.starting_mark()).is_ok());
}

#[test]
fn test_validate_starting_mark_fail() {
    let grid = Grid::new(Some([
        Cell::new_marked(Mark::Cross),
        Cell::new_marked(Mark::Cross),
        Cell::new_empty(),
        Cell::new_marked(Mark::Naught),
        Cell::new_empty(),
        Cell::new_marked(Mark::Cross),
        Cell::new_marked(Mark::Naught),
        Cell::new_empty(),
        Cell::new_empty(),
    ]));
    assert_eq!(
        validate_starting_mark(&grid, &Mark::Naught),
        Err(ValidationError::WrongStartingMark(Mark::Naught))
    );
}

#[test]
fn test_validate_winner_valid() {
    let grid = Grid::new(Some([
        Cell::new_marked(Mark::Cross),
        Cell::new_marked(Mark::Cross),
        Cell::new_marked(Mark::Cross),
        Cell::new_marked(Mark::Naught),
        Cell::new_marked(Mark::Naught),
        Cell::new_empty(),
        Cell::new_marked(Mark::Naught),
        Cell::new_empty(),
        Cell::new_empty(),
    ]));
    let game_state = GameState::new(grid, Some(Mark::Naught)).unwrap();
    assert!(validate_winner(
        game_state.grid(),
        game_state.starting_mark(),
        Some(Mark::Cross)
    )
    .is_ok());
}

#[test]
fn test_validate_winner_fail() {
    let grid = Grid::new(Some([
        Cell::new_marked(Mark::Cross),
        Cell::new_marked(Mark::Cross),
        Cell::new_marked(Mark::Cross),
        Cell::new_marked(Mark::Naught),
        Cell::new_marked(Mark::Naught),
        Cell::new_empty(),
        Cell::new_marked(Mark::Naught),
        Cell::new_empty(),
        Cell::new_empty(),
    ]));
    let game_state = GameState::new(grid, Some(Mark::Naught)).unwrap();
    assert!(validate_winner(
        game_state.grid(),
        game_state.starting_mark(),
        Some(Mark::Naught)
    )
    .is_err());
}

#[test]
fn test_validate_game_state_accepts_constructed_state() {
    let game_state = GameState::new(Grid::new(None), Some(Mark::Naught)).unwrap();
    assert_eq!(validate_game_state(&game_state), Ok(()));
}
