use minesweeper::board::MineSweeper;
use minesweeper::cell::Cell;
use minesweeper::event::Page;

fn tiny_board() -> MineSweeper {
    // a 2x2 grid drawn two columns in from the left edge
    let mut field = Vec::new();
    for _ in 0..4 {
        field.push(Cell::new());
    }
    MineSweeper {
        width: 1,
        height: 1,
        field,
        field_origin: (2, 9),
        moves: 0,
        level: 1,
        page: Page::Homescreen,
    }
}

#[test]
fn field_text_of_hidden_board() {
    let ms = tiny_board();
    assert_eq!(ms.field_text(), "  \u{2592} \u{2592} \n\r  \u{2592} \u{2592} \n\r");
}

#[test]
fn field_text_shows_flags_blanks_and_digits() {
    let mut ms = tiny_board();
    ms.field[0].flagged = true;
    ms.field[1].visible = true;
    ms.field[2].visible = true;
    ms.field[2].neighbors = 2;
    assert_eq!(ms.field_text(), "  F   \n\r  2 \u{2592} \n\r");
}

#[test]
fn field_text_never_shows_a_bomb() {
    let mut ms = tiny_board();
    ms.field[3].bomb = true;
    ms.field[3].visible = true;
    assert_eq!(ms.field_text(), "  \u{2592} \u{2592} \n\r  \u{2592} \u{2592} \n\r");
}

#[test]
fn homescreen_text_shows_the_level() {
    let mut ms = tiny_board();
    ms.level = 7;
    let text = ms.homescreen_text();
    assert!(text.contains("| M | I | N | E | S | W | E | E | P | E | R |"));
    assert!(text.contains("change difficulty level (currently 7)"));
}

#[test]
fn homescreen_text_indents_by_a_quarter_width() {
    let mut ms = tiny_board();
    ms.width = 8;
    let text = ms.homescreen_text();
    assert!(text.contains("\n          +-+"));  // eight spaces plus two of indent
}

#[test]
fn gamescreen_header_shows_level_and_moves() {
    let mut ms = tiny_board();
    ms.level = 3;
    ms.moves = 12;
    let text = ms.gamescreen_header_text();
    assert!(text.contains("| difficulty level: 3 | move: 12 | r: reset game | q: quit |"));
}

#[test]
fn gamescreen_footer_text_is_the_help_line() {
    let ms = tiny_board();
    assert_eq!(
        ms.gamescreen_footer_text(),
        "\n\r Left click to dig up a spot, right click to place a flag!"
    );
}

#[test]
fn gameover_banner() {
    let ms = tiny_board();
    let text = ms.gameoverscreen_text();
    assert!(text.contains("| G | A | M | E | O | V | E | R |  r: return to menu  |"));
}

#[test]
fn gamescreen_header_exact() {
    let mut ms = tiny_board();
    ms.level = 5;
    ms.moves = 0;
    assert_eq!(
        ms.gamescreen_header_text(),
        "\n\n\n        +-+-+-+-+-+-+-+-+-+-+-+-+-+-+-+-+-+-+-+-+-+-+-+-+-+-+-+-+-+\r\n        | difficulty level: 5 | move: 0 | r: reset game | q: quit |\r\n        +-+-+-+-+-+-+-+-+-+-+-+-+-+-+-+-+-+-+-+-+-+-+-+-+-+-+-+-+-+"
    );
}
