use minesweeper::{init, open_cell, CellState, CellType, GameError, Minesweeper};

fn bomb_positions(game: &Minesweeper) -> Vec<(usize, usize)> {
    let mut found = Vec::new();
    for r in 0..game.rows() {
        for c in 0..game.cols() {
            if game.cell(r, c).unwrap().cell_type() == CellType::Bomb {
                found.push((r, c));
            }
        }
    }
    found
}

fn counted_by_hand(game: &Minesweeper, r: usize, c: usize) -> i32 {
    let mut n = 0;
    for dr in -1i64..=1 {
        for dc in -1i64..=1 {
            if dr == 0 && dc == 0 {
                continue;
            }
            let nr = r as i64 + dr;
            let nc = c as i64 + dc;
            if nr < 0 || nc < 0 {
                continue;
            }
            if let Some(cell) = game.cell(nr as usize, nc as usize) {
                if cell.cell_type() == CellType::Bomb {
                    n += 1;
                }
            }
        }
    }
    n
}

fn scrambled_draws(seed: u64, limit: usize, count: usize) -> Vec<usize> {
    let mut state = seed;
    let mut draws = Vec::new();
    for _ in 0..count {
        state = state
            .wrapping_mul(6364136223846793005)
            .wrapping_add(1442695040888963407);
        draws.push(((state >> 33) as usize) % limit);
    }
    draws
}

#[test]
fn generation_places_mines_at_the_first_eligible_draws() {
    let mut game = init(50, 50, 10).unwrap();
    // 25 cells at 15 percent: 3 mines. The reveal of (0, 0) keeps the block
    // of (0, 0), (0, 1), (1, 0), (1, 1) free.
    let draws = vec![0, 6, 24, 24, 99, 7, 13, 2, 20];
    assert_eq!(game.generate_bombs(0, 0, &draws), Ok(()));
    assert!(game.is_generated());
    assert_eq!(bomb_positions(&game), vec![(1, 2), (2, 3), (4, 4)]);
}

#[test]
fn generation_passes_over_draws_outside_the_grid() {
    let mut game = init(10, 70, 10).unwrap();
    let draws = vec![7, 100, usize::MAX, 5];
    assert_eq!(game.generate_bombs(0, 0, &draws), Ok(()));
    assert_eq!(bomb_positions(&game), vec![(0, 5)]);
}

#[test]
fn generation_passes_over_the_safe_zone_without_placing() {
    let mut game = init(10, 70, 10).unwrap();
    let draws = vec![2, 3, 4, 6];
    assert_eq!(game.generate_bombs(0, 3, &draws), Ok(()));
    assert_eq!(bomb_positions(&game), vec![(0, 6)]);
}

#[test]
fn generation_counts_a_repeated_draw_once() {
    let mut game = Minesweeper::with_density(10, 100, 10, 30).unwrap();
    let draws = vec![5, 5, 5, 9, 5, 9, 7];
    assert_eq!(game.generate_bombs(0, 0, &draws), Ok(()));
    assert_eq!(bomb_positions(&game), vec![(0, 5), (0, 7), (0, 9)]);
}

#[test]
fn generation_stops_at_the_target() {
    let mut game = init(10, 70, 10).unwrap();
    let draws = vec![6, 5, 4, 3];
    assert_eq!(game.generate_bombs(0, 0, &draws), Ok(()));
    assert_eq!(bomb_positions(&game), vec![(0, 6)]);
}

#[test]
fn generation_rounds_the_number_of_mines_down() {
    // 7 rows of 9 cells at 15 percent: 9.45, so 9 mines.
    let mut game = init(70, 90, 10).unwrap();
    let draws: Vec<usize> = (0..63).collect();
    assert_eq!(game.generate_bombs(3, 4, &draws), Ok(()));
    assert_eq!(bomb_positions(&game).len(), 9);
}

#[test]
fn generation_places_no_mine_at_zero_density() {
    let mut game = Minesweeper::with_density(50, 50, 10, 0).unwrap();
    assert_eq!(game.generate_bombs(2, 2, &Vec::new()), Ok(()));
    assert!(game.is_generated());
    assert!(bomb_positions(&game).is_empty());
}

#[test]
fn generation_counts_the_mines_around_every_cell() {
    let mut game = init(50, 50, 10).unwrap();
    let draws = vec![24, 4, 23];
    assert_eq!(game.generate_bombs(0, 0, &draws), Ok(()));
    let expected = [
        [0, 0, 0, 1, 0],
        [0, 0, 0, 1, 1],
        [0, 0, 0, 0, 0],
        [0, 0, 1, 2, 2],
        [0, 0, 1, 1, 1],
    ];
    for r in 0..5 {
        for c in 0..5 {
            assert_eq!(game.cell(r, c).unwrap().bomb_neighbours(), expected[r][c]);
            assert_eq!(game.neighbours_with_bombs(r, c), expected[r][c]);
        }
    }
}

#[test]
fn generation_counts_all_eight_neighbours() {
    let mut game = Minesweeper::with_density(30, 70, 10, 40).unwrap();
    // 21 cells at 40 percent: 8 mines, laid in a ring around (1, 5).
    let draws = vec![4, 5, 6, 11, 13, 18, 19, 20];
    assert_eq!(game.generate_bombs(1, 0, &draws), Ok(()));
    assert_eq!(game.cell(1, 5).unwrap().bomb_neighbours(), 8);
    assert_eq!(game.cell(1, 5).unwrap().cell_type(), CellType::Empty);
}

#[test]
fn neighbours_with_bombs_sees_no_mine_outside_the_grid() {
    let mut game = init(10, 70, 10).unwrap();
    assert_eq!(game.generate_bombs(0, 0, &vec![6]), Ok(()));
    assert_eq!(game.neighbours_with_bombs(0, 5), 1);
    assert_eq!(game.neighbours_with_bombs(0, 6), 0);
    assert_eq!(game.neighbours_with_bombs(1, 6), 1);
    assert_eq!(game.neighbours_with_bombs(0, 7), 1);
    assert_eq!(game.neighbours_with_bombs(0, 8), 0);
    assert_eq!(game.neighbours_with_bombs(usize::MAX, usize::MAX), 0);
}

#[test]
fn generation_leaves_the_states_alone() {
    let mut game = init(50, 50, 10).unwrap();
    assert_eq!(game.mark_cell(4, 4), Ok(()));
    assert_eq!(game.generate_bombs(0, 0, &vec![24, 4, 23]), Ok(()));
    for r in 0..5 {
        for c in 0..5 {
            let expected = if (r, c) == (4, 4) {
                CellState::Marked
            } else {
                CellState::Close
            };
            assert_eq!(game.cell(r, c).unwrap().state(), expected);
        }
    }
}

#[test]
fn generation_fails_when_the_draws_run_out() {
    let mut game = init(50, 50, 10).unwrap();
    let before = format!("{:?}", game);
    assert_eq!(
        game.generate_bombs(0, 0, &vec![24, 4]),
        Err(GameError::GenerationExhausted)
    );
    assert!(!game.is_generated());
    assert_eq!(format!("{:?}", game), before);
}

#[test]
fn generation_fails_without_draws() {
    let mut game = init(100, 100, 10).unwrap();
    assert_eq!(
        game.generate_bombs(5, 5, &Vec::new()),
        Err(GameError::GenerationExhausted)
    );
    assert!(bomb_positions(&game).is_empty());
}

#[test]
fn generation_fails_when_the_safe_zone_leaves_no_room() {
    // 9 cells at 15 percent: 1 mine, and a reveal of the centre keeps all 9
    // cells free.
    let mut game = init(30, 30, 10).unwrap();
    let draws: Vec<usize> = (0..9).chain(0..9).collect();
    assert_eq!(
        game.generate_bombs(1, 1, &draws),
        Err(GameError::GenerationExhausted)
    );
    assert!(!game.is_generated());
}

#[test]
fn generation_refuses_an_anchor_outside_the_grid() {
    let mut game = init(50, 50, 10).unwrap();
    let draws: Vec<usize> = (0..25).collect();
    assert_eq!(game.generate_bombs(5, 0, &draws), Err(GameError::Index));
    assert_eq!(game.generate_bombs(0, 5, &draws), Err(GameError::Index));
    assert!(!game.is_generated());
    assert!(bomb_positions(&game).is_empty());
}

#[test]
fn generation_happens_once() {
    let mut game = init(50, 50, 10).unwrap();
    assert_eq!(game.generate_bombs(0, 0, &vec![24, 4, 23]), Ok(()));
    let before = format!("{:?}", game);
    assert_eq!(game.generate_bombs(4, 4, &vec![0, 1, 2, 5, 6]), Ok(()));
    assert_eq!(format!("{:?}", game), before);
    assert_eq!(game.generate_bombs(9, 9, &Vec::new()), Ok(()));
    assert_eq!(format!("{:?}", game), before);
}

#[test]
fn the_first_reveal_places_fifteen_mines() {
    let mut game = init(100, 100, 10).unwrap();
    assert_eq!(game.rows(), 10);
    assert_eq!(game.cols(), 10);
    let draws = scrambled_draws(7, 100, 400);
    assert_eq!(open_cell(&mut game, 5, 5, &draws), Ok(()));
    assert_eq!(bomb_positions(&game).len(), 15);
}

#[test]
fn the_first_reveal_keeps_its_block_free() {
    let mut game = init(100, 100, 10).unwrap();
    let draws: Vec<usize> = (0..100).rev().collect();
    assert_eq!(open_cell(&mut game, 5, 5, &draws), Ok(()));
    assert!(game.is_generated());
    for r in 4..=6 {
        for c in 4..=6 {
            assert_eq!(game.cell(r, c).unwrap().cell_type(), CellType::Empty);
        }
    }
}

#[test]
fn the_block_of_a_corner_reveal_is_clamped_to_the_grid() {
    let mut game = Minesweeper::with_density(40, 40, 10, 75).unwrap();
    // 16 cells at 75 percent: 12 mines, which is every cell outside the
    // block of the corner.
    let draws: Vec<usize> = (0..16).collect();
    assert_eq!(game.generate_bombs(3, 3, &draws), Ok(()));
    let free = [(2, 2), (2, 3), (3, 2), (3, 3)];
    for r in 0..4 {
        for c in 0..4 {
            let expected = if free.contains(&(r, c)) {
                CellType::Empty
            } else {
                CellType::Bomb
            };
            assert_eq!(game.cell(r, c).unwrap().cell_type(), expected);
        }
    }
}

#[test]
fn random_boards_hold_the_target_and_exact_counts() {
    for seed in 0..20u64 {
        let rows = 3 + (seed as usize % 6);
        let cols = 4 + (seed as usize % 5);
        let percent = (seed as usize * 3) % 40;
        let mut game = Minesweeper::with_density(
            (rows * 10) as i32,
            (cols * 10) as i32,
            10,
            percent,
        )
        .unwrap();
        let anchor = (seed as usize % rows, (seed as usize * 7) % cols);
        let draws = scrambled_draws(seed, rows * cols, 2000);
        assert_eq!(game.generate_bombs(anchor.0, anchor.1, &draws), Ok(()));
        let bombs = bomb_positions(&game);
        assert_eq!(bombs.len(), rows * cols * percent / 100);
        for (r, c) in bombs {
            assert!(r.abs_diff(anchor.0) >= 2 || c.abs_diff(anchor.1) >= 2);
        }
        for r in 0..rows {
            for c in 0..cols {
                let cell = game.cell(r, c).unwrap();
                assert_eq!(cell.bomb_neighbours(), counted_by_hand(&game, r, c));
                assert_eq!(cell.state(), CellState::Close);
            }
        }
    }
}

#[test]
fn a_second_reveal_leaves_the_mines_where_they_are() {
    let mut game = init(100, 100, 10).unwrap();
    assert_eq!(open_cell(&mut game, 5, 5, &scrambled_draws(1, 100, 400)), Ok(()));
    let before = bomb_positions(&game);
    assert!(game.is_generated());
    assert_eq!(open_cell(&mut game, 0, 0, &scrambled_draws(2, 100, 400)), Ok(()));
    assert!(game.is_generated());
    assert_eq!(bomb_positions(&game), before);
    assert_eq!(open_cell(&mut game, 9, 9, &Vec::new()), Ok(()));
    assert_eq!(bomb_positions(&game), before);
}
