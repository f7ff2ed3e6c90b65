use minesweeper::{init, Cell, CellState, CellType, GameError, Minesweeper};

fn all_cells(game: &Minesweeper) -> Vec<Cell> {
    let mut cells = Vec::new();
    for r in 0..game.rows() {
        for c in 0..game.cols() {
            cells.push(game.cell(r, c).unwrap());
        }
    }
    cells
}

#[test]
fn init_divides_the_screen_into_cells() {
    let game = init(100, 100, 10).unwrap();
    assert_eq!(game.rows(), 10);
    assert_eq!(game.cols(), 10);
    assert_eq!(game.bomb_percent(), 15);
    assert!(!game.is_generated());
}

#[test]
fn init_rounds_the_dimensions_down() {
    let game = init(59, 105, 10).unwrap();
    assert_eq!(game.rows(), 5);
    assert_eq!(game.cols(), 10);
}

#[test]
fn init_takes_height_before_width() {
    let game = init(20, 70, 10).unwrap();
    assert_eq!(game.rows(), 2);
    assert_eq!(game.cols(), 7);
}

#[test]
fn a_fresh_board_is_closed_empty_and_uncounted() {
    let game = init(40, 30, 10).unwrap();
    let cells = all_cells(&game);
    assert_eq!(cells.len(), 12);
    for cell in cells {
        assert_eq!(cell.cell_type(), CellType::Empty);
        assert_eq!(cell.state(), CellState::Close);
        assert_eq!(cell.bomb_neighbours(), 0);
    }
}

#[test]
fn a_blank_cell_is_closed_and_empty() {
    let cell = Cell::blank();
    assert_eq!(cell.cell_type(), CellType::Empty);
    assert_eq!(cell.state(), CellState::Close);
    assert_eq!(cell.bomb_neighbours(), 0);
}

#[test]
fn init_refuses_a_zero_cell_size() {
    assert_eq!(init(100, 100, 0).err(), Some(GameError::Configuration));
}

#[test]
fn init_refuses_a_negative_cell_size() {
    assert_eq!(init(100, 100, -10).err(), Some(GameError::Configuration));
}

#[test]
fn init_refuses_a_screen_lower_than_a_cell() {
    assert_eq!(init(9, 100, 10).err(), Some(GameError::Configuration));
}

#[test]
fn init_refuses_a_screen_narrower_than_a_cell() {
    assert_eq!(init(100, 9, 10).err(), Some(GameError::Configuration));
}

#[test]
fn init_refuses_a_negative_screen() {
    assert_eq!(init(-100, 100, 10).err(), Some(GameError::Configuration));
    assert_eq!(init(100, -100, 10).err(), Some(GameError::Configuration));
}

#[test]
fn init_accepts_a_single_cell() {
    let game = init(10, 10, 10).unwrap();
    assert_eq!(game.rows(), 1);
    assert_eq!(game.cols(), 1);
}

#[test]
fn with_density_keeps_the_density() {
    let game = Minesweeper::with_density(100, 100, 10, 40).unwrap();
    assert_eq!(game.bomb_percent(), 40);
    assert_eq!(game.rows(), 10);
    assert_eq!(game.cols(), 10);
}

#[test]
fn with_density_accepts_the_extremes() {
    assert!(Minesweeper::with_density(100, 100, 10, 0).is_ok());
    assert!(Minesweeper::with_density(100, 100, 10, 100).is_ok());
}

#[test]
fn with_density_refuses_more_than_all_cells() {
    assert_eq!(
        Minesweeper::with_density(100, 100, 10, 101).err(),
        Some(GameError::Configuration)
    );
}

#[test]
fn cell_is_found_inside_the_grid_only() {
    let game = init(20, 30, 10).unwrap();
    assert!(game.cell(0, 0).is_some());
    assert!(game.cell(1, 2).is_some());
    assert!(game.cell(2, 0).is_none());
    assert!(game.cell(0, 3).is_none());
    assert!(game.cell(usize::MAX, usize::MAX).is_none());
}

#[test]
fn clamp_keeps_positions_inside_the_grid() {
    let game = init(20, 30, 10).unwrap();
    assert_eq!(game.clamp(0, 0), Some((0, 0)));
    assert_eq!(game.clamp(1, 2), Some((1, 2)));
}

#[test]
fn clamp_drops_positions_outside_the_grid() {
    let game = init(20, 30, 10).unwrap();
    assert_eq!(game.clamp(-1, 0), None);
    assert_eq!(game.clamp(0, -1), None);
    assert_eq!(game.clamp(2, 0), None);
    assert_eq!(game.clamp(0, 3), None);
    assert_eq!(game.clamp(i32::MIN, i32::MAX), None);
}

#[test]
fn abs_of_positive_zero_and_negative() {
    assert_eq!(minesweeper::abs(5), 5);
    assert_eq!(minesweeper::abs(0), 0);
    assert_eq!(minesweeper::abs(-5), 5);
    assert_eq!(minesweeper::abs(i32::MAX), i32::MAX);
    assert_eq!(minesweeper::abs(i32::MIN + 1), i32::MAX);
}
