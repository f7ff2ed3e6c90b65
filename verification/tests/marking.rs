use minesweeper::{init, mark_cell, CellState, CellType, GameError};

#[test]
fn a_mark_turns_a_closed_cell_into_a_marked_one() {
    let mut game = init(50, 50, 10).unwrap();
    assert_eq!(mark_cell(&mut game, 2, 3), Ok(()));
    assert_eq!(game.cell(2, 3).unwrap().state(), CellState::Marked);
}

#[test]
fn a_second_mark_closes_the_cell_again() {
    let mut game = init(50, 50, 10).unwrap();
    assert_eq!(mark_cell(&mut game, 2, 3), Ok(()));
    assert_eq!(mark_cell(&mut game, 2, 3), Ok(()));
    assert_eq!(game.cell(2, 3).unwrap().state(), CellState::Close);
    assert_eq!(mark_cell(&mut game, 2, 3), Ok(()));
    assert_eq!(game.cell(2, 3).unwrap().state(), CellState::Marked);
}

#[test]
fn a_mark_leaves_an_open_cell_open() {
    let mut game = init(10, 70, 10).unwrap();
    assert_eq!(game.generate_bombs(0, 0, &vec![3]), Ok(()));
    assert_eq!(game.open_cell(0, 4), Ok(()));
    for _ in 0..3 {
        assert_eq!(mark_cell(&mut game, 0, 4), Ok(()));
        assert_eq!(game.cell(0, 4).unwrap().state(), CellState::Open);
    }
}

#[test]
fn a_mark_touches_one_cell_only() {
    let mut game = init(50, 50, 10).unwrap();
    assert_eq!(game.mark_cell(1, 1), Ok(()));
    for r in 0..5 {
        for c in 0..5 {
            let expected = if (r, c) == (1, 1) {
                CellState::Marked
            } else {
                CellState::Close
            };
            assert_eq!(game.cell(r, c).unwrap().state(), expected);
        }
    }
}

#[test]
fn a_mark_changes_neither_type_nor_count() {
    let mut game = init(10, 70, 10).unwrap();
    assert_eq!(game.generate_bombs(0, 0, &vec![3]), Ok(()));
    assert_eq!(game.mark_cell(0, 3), Ok(()));
    assert_eq!(game.mark_cell(0, 2), Ok(()));
    assert_eq!(game.cell(0, 3).unwrap().cell_type(), CellType::Bomb);
    assert_eq!(game.cell(0, 3).unwrap().state(), CellState::Marked);
    assert_eq!(game.cell(0, 2).unwrap().cell_type(), CellType::Empty);
    assert_eq!(game.cell(0, 2).unwrap().bomb_neighbours(), 1);
    assert!(game.is_generated());
}

#[test]
fn a_mark_outside_the_grid_is_refused() {
    let mut game = init(50, 50, 10).unwrap();
    let before = format!("{:?}", game);
    assert_eq!(mark_cell(&mut game, 5, 0), Err(GameError::Index));
    assert_eq!(mark_cell(&mut game, 0, 5), Err(GameError::Index));
    assert_eq!(game.mark_cell(usize::MAX, 0), Err(GameError::Index));
    assert_eq!(format!("{:?}", game), before);
}
