use minesweeper::{init, render, DrawCommand, Minesweeper};

fn rect(x: i64, y: i64, side: i64, r: i32, g: i32, b: i32) -> DrawCommand {
    DrawCommand::FillRect { x, y, w: side, h: side, r, g, b, a: 255 }
}

#[test]
fn a_frame_begins_with_the_background() {
    let game = init(20, 30, 10).unwrap();
    let frame = render(&game);
    assert_eq!(
        frame[0],
        DrawCommand::FillRect { x: 0, y: 0, w: 30, h: 20, r: 20, g: 20, b: 20, a: 255 }
    );
    assert_eq!(frame.len(), 7);
}

#[test]
fn closed_cells_are_drawn_in_row_major_order() {
    let game = init(20, 30, 10).unwrap();
    assert_eq!(
        game.render(),
        vec![
            rect(2, 2, 6, 100, 100, 100),
            rect(12, 2, 6, 100, 100, 100),
            rect(22, 2, 6, 100, 100, 100),
            rect(2, 12, 6, 100, 100, 100),
            rect(12, 12, 6, 100, 100, 100),
            rect(22, 12, 6, 100, 100, 100),
        ]
    );
}

#[test]
fn the_frame_is_the_background_and_the_cells() {
    let game = init(20, 30, 10).unwrap();
    let mut expected = vec![DrawCommand::FillRect {
        x: 0,
        y: 0,
        w: 30,
        h: 20,
        r: 20,
        g: 20,
        b: 20,
        a: 255,
    }];
    expected.extend(game.render());
    assert_eq!(render(&game), expected);
}

#[test]
fn a_marked_cell_is_drawn_smaller_and_green() {
    let mut game = init(20, 30, 10).unwrap();
    assert_eq!(game.mark_cell(1, 2), Ok(()));
    let cells = game.render();
    assert_eq!(cells.len(), 6);
    assert_eq!(cells[5], rect(24, 14, 2, 0, 100, 0));
    assert_eq!(cells[4], rect(12, 12, 6, 100, 100, 100));
}

#[test]
fn open_cells_show_their_counts() {
    let mut game = init(10, 70, 10).unwrap();
    assert_eq!(game.generate_bombs(0, 0, &vec![3]), Ok(()));
    assert_eq!(game.open_cell(0, 0), Ok(()));
    assert_eq!(
        game.render(),
        vec![
            rect(2, 2, 6, 200, 200, 200),
            rect(12, 2, 6, 200, 200, 200),
            rect(22, 2, 6, 200, 200, 200),
            DrawCommand::FillNum { x: 22, y: 7, num: 1 },
            rect(32, 2, 6, 100, 100, 100),
            rect(42, 2, 6, 100, 100, 100),
            rect(52, 2, 6, 100, 100, 100),
            rect(62, 2, 6, 100, 100, 100),
        ]
    );
}

#[test]
fn an_open_mine_is_drawn_red_without_a_count() {
    let mut game = Minesweeper::with_density(10, 70, 10, 30).unwrap();
    assert_eq!(game.generate_bombs(0, 0, &vec![3, 4]), Ok(()));
    assert_eq!(game.cell(0, 3).unwrap().bomb_neighbours(), 1);
    assert_eq!(game.cell(0, 5).unwrap().bomb_neighbours(), 1);
    assert_eq!(game.open_cell(0, 3), Ok(()));
    assert_eq!(game.open_cell(0, 5), Ok(()));
    assert_eq!(
        game.render(),
        vec![
            rect(2, 2, 6, 100, 100, 100),
            rect(12, 2, 6, 100, 100, 100),
            rect(22, 2, 6, 100, 100, 100),
            rect(32, 2, 6, 200, 50, 50),
            rect(42, 2, 6, 100, 100, 100),
            rect(52, 2, 6, 200, 200, 200),
            DrawCommand::FillNum { x: 52, y: 7, num: 1 },
            rect(62, 2, 6, 100, 100, 100),
        ]
    );
}

#[test]
fn the_numeral_sits_a_quarter_in_and_three_quarters_down() {
    let mut game = init(90, 90, 30).unwrap();
    // 9 cells at 15 percent: 1 mine, at (2, 2); (1, 1) lies next to it.
    assert_eq!(game.generate_bombs(0, 0, &vec![8]), Ok(()));
    assert_eq!(game.open_cell(1, 1), Ok(()));
    let cells = game.render();
    assert_eq!(cells.len(), 10);
    assert_eq!(cells[4], rect(32, 32, 26, 200, 200, 200));
    assert_eq!(cells[5], DrawCommand::FillNum { x: 37, y: 52, num: 1 });
}

#[test]
fn cells_smaller_than_their_border_get_a_negative_size() {
    let mut game = init(3, 6, 3).unwrap();
    assert_eq!(game.mark_cell(0, 1), Ok(()));
    assert_eq!(
        render(&game),
        vec![
            DrawCommand::FillRect { x: 0, y: 0, w: 6, h: 3, r: 20, g: 20, b: 20, a: 255 },
            rect(2, 2, -1, 100, 100, 100),
            rect(7, 4, -5, 0, 100, 0),
        ]
    );
}

#[test]
fn rendering_does_not_change_the_board() {
    let mut game = init(50, 50, 10).unwrap();
    assert_eq!(game.generate_bombs(0, 0, &vec![12, 13, 14]), Ok(()));
    let before = format!("{:?}", game);
    let first = render(&game);
    let second = render(&game);
    assert_eq!(first, second);
    assert_eq!(format!("{:?}", game), before);
}

#[test]
fn coordinates_do_not_wrap_on_a_screen_at_the_limit() {
    let game = init(i32::MAX, i32::MAX, i32::MAX - 1).unwrap();
    assert_eq!(
        render(&game),
        vec![
            DrawCommand::FillRect {
                x: 0,
                y: 0,
                w: 2147483647,
                h: 2147483647,
                r: 20,
                g: 20,
                b: 20,
                a: 255
            },
            rect(2, 2, 2147483642, 100, 100, 100),
        ]
    );
}
