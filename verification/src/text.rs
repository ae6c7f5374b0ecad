use vstd::prelude::*;

use crate::board::MineSweeper;
use crate::cell::glyph_spec;
use vstd::string::StringExecFns;

verus! {

/// The one-character string for a decimal digit.
pub open spec fn dec_digit_str(d: int) -> Seq<char> {
    if d == 0 {
        "0"@
    } else if d == 1 {
        "1"@
    } else if d == 2 {
        "2"@
    } else if d == 3 {
        "3"@
    } else if d == 4 {
        "4"@
    } else if d == 5 {
        "5"@
    } else if d == 6 {
        "6"@
    } else if d == 7 {
        "7"@
    } else if d == 8 {
        "8"@
    } else {
        "9"@
    }
}

/// The decimal rendering of a non-negative number, most significant digit
/// first and without leading zeroes.
pub open spec fn dec_digits(n: int) -> Seq<char>
    decreases n,
{
    if n < 10 {
        dec_digit_str(n)
    } else {
        dec_digits(n / 10) + dec_digit_str(n % 10)
    }
}

/// A run of `n` spaces.
pub open spec fn spaces(n: int) -> Seq<char>
    decreases n,
{
    if n <= 0 {
        Seq::empty()
    } else {
        spaces(n - 1) + " "@
    }
}

fn digit_to_str(d: u16) -> (r: &'static str)
    requires
        d <= 9,
    ensures
        r@ == dec_digit_str(d as int),
{
    if d == 0 {
        "0"
    } else if d == 1 {
        "1"
    } else if d == 2 {
        "2"
    } else if d == 3 {
        "3"
    } else if d == 4 {
        "4"
    } else if d == 5 {
        "5"
    } else if d == 6 {
        "6"
    } else if d == 7 {
        "7"
    } else if d == 8 {
        "8"
    } else {
        "9"
    }
}

/// Renders a number in decimal, as the screens show levels and move counts.
pub fn u16_to_string(n: u16) -> (s: String)
    ensures
        s@ == dec_digits(n as int),
    decreases n,
{
    let d: u16 = n % 10;
    let ds: &'static str = digit_to_str(d);
    if n < 10 {
        String::from_str(ds)
    } else {
        let front: String = u16_to_string(n / 10);
        front.concat(ds)
    }
}

/// A run of `n` spaces, as executable text.
pub fn spaces_string(n: u16) -> (s: String)
    ensures
        s@ == spaces(n as int),
{
    let mut s: String = String::new();
    let mut i: u16 = 0;
    proof {
        assert(s@ =~= spaces(0));
    }
    while i < n
        invariant
            i <= n,
            s@ == spaces(i as int),
        decreases n - i,
    {
        s.append(" ");
        i = i + 1;
    }
    s
}

impl MineSweeper {
    /// The first `x` glyph-and-separator pairs of row `y`.
    pub open spec fn row_prefix(self, y: int, x: int) -> Seq<char>
        decreases x,
    {
        if x <= 0 {
            Seq::empty()
        } else {
            self.row_prefix(y, x - 1) + glyph_spec(self.at(x - 1, y)) + " "@
        }
    }

    /// The first `y` rendered rows of the grid: each row is indented to the
    /// drawing origin, shows every cell's glyph followed by a separator
    /// space, and ends the line.
    pub open spec fn rows_prefix(self, y: int) -> Seq<char>
        decreases y,
    {
        if y <= 0 {
            Seq::empty()
        } else {
            self.rows_prefix(y - 1) + spaces(self.field_origin.0 as int) + self.row_prefix(
                y - 1,
                self.width as int + 1,
            ) + "\n\r"@
        }
    }

    /// The whole grid's rendered text.
    pub open spec fn field_text_spec(self) -> Seq<char> {
        self.rows_prefix(self.height as int + 1)
    }

    /// Renders the grid: every row indented to the drawing origin, each
    /// cell as its glyph plus a separator space, one line per row.
    pub fn field_text(&self) -> (s: String)
        requires
            self.wf(),
        ensures
            s@ == self.field_text_spec(),
    {
        let w: usize = self.width as usize;
        let h: usize = self.height as usize;
        let mut s: String = String::new();
        proof {
            assert(s@ =~= self.rows_prefix(0));
        }
        let mut y: usize = 0;
        while y <= h
            invariant
                self.wf(),
                w == self.width as usize,
                h == self.height as usize,
                y <= h + 1,
                s@ == self.rows_prefix(y as int),
            decreases h + 1 - y,
        {
            let indent: String = spaces_string(self.field_origin.0);
            s.append(indent.as_str());
            let ghost cells_start = s@;
            proof {
                assert(s@ =~= cells_start + self.row_prefix(y as int, 0));
            }
            let mut x: usize = 0;
            while x <= w
                invariant
                    self.wf(),
                    w == self.width as usize,
                    h == self.height as usize,
                    y <= h,
                    x <= w + 1,
                    s@ == cells_start + self.row_prefix(y as int, x as int),
                decreases w + 1 - x,
            {
                let i: usize = self.index_of(x, y);
                let c = self.field[i];
                s.append(c.glyph());
                s.append(" ");
                proof {
                    assert(s@ =~= cells_start + self.row_prefix(y as int, x as int + 1));
                }
                x = x + 1;
            }
            s.append("\n\r");
            proof {
                assert(s@ =~= self.rows_prefix(y as int + 1));
            }
            y = y + 1;
        }
        s
    }
}

impl MineSweeper {
    /// The home menu's text: the title banner, indented further by a
    /// quarter of the board's width, and the menu bar showing the current
    /// difficulty level.
    pub open spec fn homescreen_text_spec(self) -> Seq<char> {
        let sp = spaces((self.width / 4) as int);
        "\n\n\r\n        "@ + sp + "+-+-+-+-+-+-+-+-+-+-+-+-+-+-+-+-+-+-+-+-+-+-+\r\n        "@ + sp
            + "| M | I | N | E | S | W | E | E | P | E | R |\r\n        "@ + sp
            + "+-+-+-+-+-+-+-+-+-+-+-+-+-+-+-+-+-+-+-+-+-+-+\n\r\n\n\n\n\n        +-+-+-+-+\r\n        |  MENU |\r\n        +-+-+-+-+-+-+-+-+-+-+-+-+-+-+-+-+-+-+-+-+-+-+-+-+-+-+-+-+-+-+-+-+-+-+-+-+-+-+\r\n        | p: play!  | q: quit game  |  +/- : change difficulty level (currently "@
            + dec_digits(self.level as int)
            + ")  |\r\n        +-+-+-+-+-+-+-+-+-+-+-+-+-+-+-+-+-+-+-+-+-+-+-+-+-+-+-+-+-+-+-+-+-+-+-+-+-+-+"@
    }

    /// Renders the home menu.
    pub fn homescreen_text(&self) -> (s: String)
        ensures
            s@ == self.homescreen_text_spec(),
    {
        let sp: String = spaces_string((self.width / 4) as u16);
        let mut s: String = String::new();
        s.append("\n\n\r\n        ");
        s.append(sp.as_str());
        s.append("+-+-+-+-+-+-+-+-+-+-+-+-+-+-+-+-+-+-+-+-+-+-+\r\n        ");
        s.append(sp.as_str());
        s.append("| M | I | N | E | S | W | E | E | P | E | R |\r\n        ");
        s.append(sp.as_str());
        s.append(
            "+-+-+-+-+-+-+-+-+-+-+-+-+-+-+-+-+-+-+-+-+-+-+\n\r\n\n\n\n\n        +-+-+-+-+\r\n        |  MENU |\r\n        +-+-+-+-+-+-+-+-+-+-+-+-+-+-+-+-+-+-+-+-+-+-+-+-+-+-+-+-+-+-+-+-+-+-+-+-+-+-+\r\n        | p: play!  | q: quit game  |  +/- : change difficulty level (currently ",
        );
        let lvl: String = u16_to_string(self.level);
        s.append(lvl.as_str());
        s.append(
            ")  |\r\n        +-+-+-+-+-+-+-+-+-+-+-+-+-+-+-+-+-+-+-+-+-+-+-+-+-+-+-+-+-+-+-+-+-+-+-+-+-+-+",
        );
        proof {
            assert(s@ =~= self.homescreen_text_spec());
        }
        s
    }

    /// The play screen's header: the status bar with the current level and
    /// move count. The grid's text follows separately.
    pub open spec fn gamescreen_header_spec(self) -> Seq<char> {
        "\n\n\n        +-+-+-+-+-+-+-+-+-+-+-+-+-+-+-+-+-+-+-+-+-+-+-+-+-+-+-+-+-+\r\n        | difficulty level: "@
            + dec_digits(self.level as int) + " | move: "@ + dec_digits(self.moves as int)
            + " | r: reset game | q: quit |\r\n        +-+-+-+-+-+-+-+-+-+-+-+-+-+-+-+-+-+-+-+-+-+-+-+-+-+-+-+-+-+"@
    }

    /// Renders the play screen's header.
    pub fn gamescreen_header_text(&self) -> (s: String)
        ensures
            s@ == self.gamescreen_header_spec(),
    {
        let mut s: String = String::new();
        s.append(
            "\n\n\n        +-+-+-+-+-+-+-+-+-+-+-+-+-+-+-+-+-+-+-+-+-+-+-+-+-+-+-+-+-+\r\n        | difficulty level: ",
        );
        let lvl: String = u16_to_string(self.level);
        s.append(lvl.as_str());
        s.append(" | move: ");
        let mv: String = u16_to_string(self.moves);
        s.append(mv.as_str());
        s.append(
            " | r: reset game | q: quit |\r\n        +-+-+-+-+-+-+-+-+-+-+-+-+-+-+-+-+-+-+-+-+-+-+-+-+-+-+-+-+-+",
        );
        proof {
            assert(s@ =~= self.gamescreen_header_spec());
        }
        s
    }

    /// The play screen's footer: the one-line help text under the grid.
    pub fn gamescreen_footer_text(&self) -> (s: &'static str)
        ensures
            s@ == "\n\r Left click to dig up a spot, right click to place a flag!"@,
    {
        "\n\r Left click to dig up a spot, right click to place a flag!"
    }

    /// The game-over banner. The lost board's text follows separately.
    pub open spec fn gameoverscreen_text_spec(self) -> Seq<char> {
        "\n\n\n        +-+-+-+-+-+-+-+-+-+-+-+-+-+-+-+-+-+-+-+-+-+-+-+-+-+-+-+\r\n        | G | A | M | E | O | V | E | R |  r: return to menu  |\r\n        +-+-+-+-+-+-+-+-+-+-+-+-+-+-+-+-+-+-+-+-+-+-+-+-+-+-+-+"@
    }

    /// Renders the game-over banner.
    pub fn gameoverscreen_text(&self) -> (s: String)
        ensures
            s@ == self.gameoverscreen_text_spec(),
    {
        let mut s: String = String::new();
        s.append(
            "\n\n\n        +-+-+-+-+-+-+-+-+-+-+-+-+-+-+-+-+-+-+-+-+-+-+-+-+-+-+-+\r\n        | G | A | M | E | O | V | E | R |  r: return to menu  |\r\n        +-+-+-+-+-+-+-+-+-+-+-+-+-+-+-+-+-+-+-+-+-+-+-+-+-+-+-+",
        );
        proof {
            assert(s@ =~= self.gameoverscreen_text_spec());
        }
        s
    }
}

} // verus!
