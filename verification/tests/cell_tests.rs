use tic_tac_toe::Cell;
use tic_tac_toe::Mark;

#[test]
fn test_is_vacant_empty() {
    let empty_cell = Cell::new_empty();
    assert!(empty_cell.is_vacant());
}

#[test]
fn test_is_vacant_occupied() {
    let occupied_cell = Cell::new_marked(Mark::Cross);
    assert!(!occupied_cell.is_vacant());
}

#[test]
fn test_is_occupied_empty() {
    let empty_cell = Cell::new_empty();
    assert!(!empty_cell.is_occupied());
}

#[test]
fn test_is_occupied_occupied() {
    let occupied_cell = Cell::new_marked(Mark::Cross);
    assert!(occupied_cell.is_occupied());
}

#[test]
fn test_is_occupied_by_empty() {
    let empty_cell = Cell::new_empty();
    assert!(!empty_cell.is_occupied_by(Mark::Cross));
    assert!(!empty_cell.is_occupied_by(Mark::Naught));
}

#[test]
fn test_is_occupied_by_cross() {
    let occupied_by_cross = Cell::new_marked(Mark::Cross);
    assert!(occupied_by_cross.is_occupied_by(Mark::Cross));
    assert!(!occupied_by_cross.is_occupied_by(Mark::Naught));
}

#[test]
fn test_is_occupied_by_naught() {
    let occupied_by_naught = Cell::new_marked(Mark::Naught);
    assert!(!occupied_by_naught.is_occupied_by(Mark::Cross));
    assert!(occupied_by_naught.is_occupied_by(Mark::Naught));
}

#[test]
fn test_new_empty() {
    let cell = Cell::new_empty();
    assert!(cell.is_vacant());
}

#[test]
fn test_new_occupied_cross() {
    let cell = Cell::new_marked(Mark::Cross);
    assert!(cell.is_occupied_by(Mark::Cross));
}

#[test]
fn test_new_occupied_naught() {
    let cell = Cell::new_marked(Mark::Naught);
    assert!(cell.is_occupied_by(Mark::Naught));
}
