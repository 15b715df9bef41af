use tic_tac_toe::Mark;

#[test]
fn test_other_naught() {
    let cross = Mark::Cross;
    let naught = cross.other();
    assert_eq!(naught, Mark::Naught);
}

#[test]
fn test_other_cross() {
    let naught = Mark::Naught;
    let cross = naught.other();
    assert_eq!(cross, Mark::Cross);
}
