use minesweeper::board::MineSweeper;
use minesweeper::cell::Cell;
use minesweeper::curve::bomb_probability_ppm;
use minesweeper::event::Button;
use minesweeper::event::Event;
use minesweeper::event::Page;
use minesweeper::text::u16_to_string;

fn empty_board(width: u8, height: u8) -> MineSweeper {
    let area = (width as usize + 1) * (height as usize + 1);
    let mut field = Vec::new();
    for _ in 0..area {
        field.push(Cell::new());
    }
    MineSweeper {
        width,
        height,
        field,
        field_origin: (8, 9),
        moves: 0,
        level: 1,
        page: Page::Homescreen,
    }
}

fn idx(ms: &MineSweeper, x: usize, y: usize) -> usize {
    y * (ms.width as usize + 1) + x
}

fn term_at(ms: &MineSweeper, x: u16, y: u16) -> (u16, u16) {
    (ms.field_origin.0 + 2 * x + 2, ms.field_origin.1 + y)
}

#[test]
fn curve_center_is_three_tenths() {
    assert_eq!(bomb_probability_ppm(5), 300_000);
}

#[test]
fn curve_end_values() {
    assert_eq!(bomb_probability_ppm(1), 10_792);
    assert_eq!(bomb_probability_ppm(9), 589_208);
}

#[test]
fn curve_is_increasing_and_under_sixty_percent() {
    for level in 1..9u16 {
        assert!(bomb_probability_ppm(level) < bomb_probability_ppm(level + 1));
    }
    for level in 1..=9u16 {
        assert!(bomb_probability_ppm(level) < 600_000);
    }
}

#[test]
fn new_board_dimensions_and_state() {
    let ms = MineSweeper::new((8, 9), (40, 20));
    assert_eq!(ms.width, 40 / 2 - 1 - 8);
    assert_eq!(ms.height, 20 - 9 - 4);
    assert_eq!(ms.field.len(), (ms.width as usize + 1) * (ms.height as usize + 1));
    assert_eq!(ms.moves, 0);
    assert_eq!(ms.level, 1);
    assert_eq!(ms.page, Page::Homescreen);
    for c in &ms.field {
        assert_eq!(*c, Cell::new());
    }
}

#[test]
fn cell_glyphs() {
    let mut c = Cell::new();
    assert_eq!(c.glyph(), "\u{2592}");
    c.visible = true;
    assert_eq!(c.glyph(), " ");
    c.neighbors = 3;
    assert_eq!(c.glyph(), "3");
    c.bomb = true;
    assert_eq!(c.glyph(), "\u{2592}");
    c.flagged = true;
    assert_eq!(c.glyph(), "F");
}

#[test]
fn neighbor_counts_exact_for_one_bomb() {
    // a 4x4 grid with a single bomb at (1, 1)
    let mut ms = empty_board(3, 3);
    let i = idx(&ms, 1, 1);
    ms.field[i].bomb = true;
    ms.update_neighbours();
    for y in 0..4usize {
        for x in 0..4usize {
            let expect = if x == 1 && y == 1 {
                0 // a cell does not count itself
            } else if x <= 2 && y <= 2 {
                1
            } else {
                0
            };
            assert_eq!(ms.field[idx(&ms, x, y)].neighbors, expect, "at ({}, {})", x, y);
        }
    }
}

#[test]
fn neighbor_counts_corner_and_edge() {
    // bombs everywhere: each count is the number of existing neighbors
    let mut ms = empty_board(3, 2);
    for c in ms.field.iter_mut() {
        c.bomb = true;
    }
    ms.update_neighbours();
    assert_eq!(ms.field[idx(&ms, 0, 0)].neighbors, 3); // corner
    assert_eq!(ms.field[idx(&ms, 3, 2)].neighbors, 3); // corner
    assert_eq!(ms.field[idx(&ms, 1, 0)].neighbors, 5); // edge
    assert_eq!(ms.field[idx(&ms, 0, 1)].neighbors, 5); // edge
    assert_eq!(ms.field[idx(&ms, 1, 1)].neighbors, 8); // interior
}

#[test]
fn update_neighbours_does_not_accumulate() {
    let mut ms = empty_board(3, 3);
    let i = idx(&ms, 1, 1);
    ms.field[i].bomb = true;
    ms.update_neighbours();
    ms.update_neighbours();
    assert_eq!(ms.field[idx(&ms, 0, 0)].neighbors, 1);
}

#[test]
fn reset_then_update_leaves_everything_cleared() {
    let mut ms = empty_board(2, 2);
    let i = idx(&ms, 1, 1);
    ms.field[i].bomb = true;
    ms.field[i].flagged = true;
    let j = idx(&ms, 0, 0);
    ms.field[j].visible = true;
    ms.moves = 4;
    ms.update_neighbours();
    ms.reset();
    ms.update_neighbours();
    assert_eq!(ms.moves, 0);
    for c in &ms.field {
        assert!(!c.bomb && !c.flagged && !c.visible && c.neighbors == 0);
    }
}

#[test]
fn flag_toggles_and_double_toggle_restores() {
    let mut ms = empty_board(2, 2);
    let before = ms.field.clone();
    ms.flag(1, 1);
    assert!(ms.field[idx(&ms, 1, 1)].flagged);
    assert_eq!(ms.moves, 0);
    ms.flag(1, 1);
    assert_eq!(ms.field, before);
}

#[test]
fn terminal_to_grid_mapping() {
    let ms = empty_board(5, 5);
    // origin is (8, 9); each cell is two characters wide
    assert_eq!(ms.terminalxy2fieldxy(10, 9), (0, 0));
    assert_eq!(ms.terminalxy2fieldxy(12, 11), (1, 2));
    assert_eq!(ms.terminalxy2fieldxy(11, 9), (1, 0)); // halves round away from zero
    assert_eq!(ms.terminalxy2fieldxy(8, 9), (-1, 0));
    assert_eq!(ms.terminalxy2fieldxy(0, 0), (-5, -9));
}

#[test]
fn open_with_no_empty_cells_reveals_only_the_ring() {
    // every cell has a nonzero count: the fill cannot expand anywhere
    let mut ms = empty_board(4, 4);
    for c in ms.field.iter_mut() {
        c.neighbors = 1;
    }
    ms.open(2, 2);
    for y in 0..5usize {
        for x in 0..5usize {
            let near = x.abs_diff(2) <= 1 && y.abs_diff(2) <= 1;
            assert_eq!(ms.field[idx(&ms, x, y)].visible, near, "at ({}, {})", x, y);
        }
    }
}

#[test]
fn open_on_empty_board_floods_everything() {
    let mut ms = empty_board(4, 3);
    ms.open(0, 0);
    for c in &ms.field {
        assert!(c.visible);
    }
}

#[test]
fn open_stops_at_counted_cells() {
    // a bomb at (3, 0) of a 4x1 strip: opening (0, 0) floods through the
    // zero-count cells and exposes the counted ring, not the bomb's cell
    let mut ms = empty_board(3, 0);
    ms.field[3].bomb = true;
    ms.update_neighbours();
    ms.open(0, 0);
    assert!(ms.field[0].visible);
    assert!(ms.field[1].visible);
    assert!(ms.field[2].visible);
    assert!(!ms.field[3].visible);
}

#[test]
fn place_bombs_extremes() {
    let mut ms = empty_board(4, 4);
    ms.place_bombs(0);
    assert!(ms.field.iter().all(|c| !c.bomb));
    ms.place_bombs(1_000_000);
    assert!(ms.field.iter().all(|c| c.bomb));
}

#[test]
fn first_click_is_never_a_bomb() {
    for _ in 0..20 {
        let mut ms = empty_board(7, 7);
        ms.level = 9;
        ms.page = Page::Gamescreen;
        let (tx, ty) = term_at(&ms, 3, 3);
        ms.make_move(Button::Left, tx, ty);
        assert!(!ms.field[idx(&ms, 3, 3)].bomb);
        assert!(ms.field[idx(&ms, 3, 3)].visible);
        assert_eq!(ms.moves, 1);
        assert_eq!(ms.page, Page::Gamescreen);
    }
}

#[test]
fn right_click_flags_without_counting_a_move() {
    let mut ms = empty_board(5, 5);
    ms.page = Page::Gamescreen;
    let (tx, ty) = term_at(&ms, 2, 2);
    ms.make_move(Button::Right, tx, ty);
    assert!(ms.field[idx(&ms, 2, 2)].flagged);
    assert_eq!(ms.moves, 0);
    assert_eq!(ms.page, Page::Gamescreen);
}

#[test]
fn left_click_on_flagged_cell_is_ignored() {
    let mut ms = empty_board(5, 5);
    ms.moves = 1;
    ms.page = Page::Gamescreen;
    let j = idx(&ms, 2, 2);
    ms.field[j].flagged = true;
    let before = ms.field.clone();
    let (tx, ty) = term_at(&ms, 2, 2);
    ms.make_move(Button::Left, tx, ty);
    assert_eq!(ms.field, before);
    assert_eq!(ms.moves, 1);
    assert_eq!(ms.page, Page::Gamescreen);
}

#[test]
fn level_increments_clamp_at_nine() {
    let mut ms = empty_board(3, 3);
    for _ in 0..8 {
        ms.homescreen(Event::KeyPress('+'));
    }
    assert_eq!(ms.level, 9);
    ms.homescreen(Event::KeyPress('+'));
    assert_eq!(ms.level, 9);
    for _ in 0..10 {
        ms.homescreen(Event::KeyPress('-'));
    }
    assert_eq!(ms.level, 1);
}

#[test]
fn homescreen_keys() {
    let mut ms = empty_board(3, 3);
    ms.homescreen(Event::KeyPress('p'));
    assert_eq!(ms.page, Page::Gamescreen);
    ms.page = Page::Homescreen;
    ms.homescreen(Event::KeyPress('q'));
    assert_eq!(ms.page, Page::Quit);
}

#[test]
fn bomb_click_ends_the_round_and_changes_no_cell() {
    let mut ms = empty_board(5, 5);
    ms.moves = 1; // past the first move: no fresh placement
    ms.page = Page::Gamescreen;
    let j = idx(&ms, 2, 2);
    ms.field[j].bomb = true;
    ms.update_neighbours();
    let before = ms.field.clone();
    let (tx, ty) = term_at(&ms, 2, 2);
    ms.handle_event(Event::MousePress(Button::Left, tx, ty));
    assert_eq!(ms.page, Page::Gameover);
    assert_eq!(ms.field, before);
    assert_eq!(ms.moves, 1);
    // a second click on the same bomb: the game-over screen ignores it
    ms.handle_event(Event::MousePress(Button::Left, tx, ty));
    assert_eq!(ms.page, Page::Gameover);
    assert_eq!(ms.field, before);
}

#[test]
fn click_outside_the_grid_changes_nothing() {
    let mut ms = empty_board(5, 5);
    ms.moves = 2;
    ms.page = Page::Gamescreen;
    let before = ms.field.clone();
    // maps to x = -1
    let tx = ms.field_origin.0;
    let ty = ms.field_origin.1;
    ms.handle_event(Event::MousePress(Button::Left, tx, ty));
    assert_eq!(ms.field, before);
    assert_eq!(ms.moves, 2);
    assert_eq!(ms.page, Page::Gamescreen);
}

#[test]
fn gamescreen_quit_resets_and_returns_home() {
    let mut ms = empty_board(3, 3);
    ms.page = Page::Gamescreen;
    ms.moves = 3;
    ms.field[0].visible = true;
    ms.handle_event(Event::KeyPress('q'));
    assert_eq!(ms.page, Page::Homescreen);
    assert_eq!(ms.moves, 0);
    assert!(ms.field.iter().all(|c| *c == Cell::new()));
}

#[test]
fn gamescreen_reset_stays_in_place() {
    let mut ms = empty_board(3, 3);
    ms.page = Page::Gamescreen;
    ms.moves = 3;
    ms.field[0].visible = true;
    ms.handle_event(Event::KeyPress('r'));
    assert_eq!(ms.page, Page::Gamescreen);
    assert_eq!(ms.moves, 0);
    assert!(ms.field.iter().all(|c| *c == Cell::new()));
}

#[test]
fn gameover_returns_home_without_reset() {
    let mut ms = empty_board(3, 3);
    ms.page = Page::Gameover;
    ms.moves = 5;
    ms.field[0].visible = true;
    ms.handle_event(Event::KeyPress('r'));
    assert_eq!(ms.page, Page::Homescreen);
    assert_eq!(ms.moves, 5);
    assert!(ms.field[0].visible);
}

#[test]
fn decimal_rendering() {
    assert_eq!(u16_to_string(0), "0");
    assert_eq!(u16_to_string(7), "7");
    assert_eq!(u16_to_string(300), "300");
    assert_eq!(u16_to_string(65535), "65535");
}

#[test]
fn smallest_terminal_gives_one_cell() {
    let mut ms = MineSweeper::new((8, 9), (18, 13));
    assert_eq!(ms.width, 0);
    assert_eq!(ms.height, 0);
    assert_eq!(ms.field.len(), 1);
    ms.open(0, 0);
    assert!(ms.field[0].visible);
}
