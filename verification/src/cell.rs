use vstd::prelude::*;

verus! {

/// One grid position: whether it hides a bomb, whether the player flagged it,
/// whether it has been revealed, and how many of its grid neighbors are bombs.
#[derive(Clone, Copy, Debug, PartialEq, Eq, Structural)]
pub struct Cell {
    pub bomb: bool,
    pub flagged: bool,
    pub visible: bool,
    pub neighbors: u8,
}

/// The state every cell starts a round in: nothing placed, nothing revealed.
pub open spec fn empty_cell() -> Cell {
    Cell { bomb: false, flagged: false, visible: false, neighbors: 0 }
}

/// The glyph a cell shows, in priority order: a flag mark; an opaque block
/// while hidden (or for a bomb, which never shows itself); a blank for an
/// open cell with no bombs around; otherwise the neighbor count's digit.
pub open spec fn glyph_spec(c: Cell) -> Seq<char> {
    if c.flagged {
        "F"@
    } else if !c.visible || c.bomb {
        "\u{2592}"@
    } else if c.neighbors == 0 {
        " "@
    } else {
        digit_str(c.neighbors as int)
    }
}

/// The one-character string for a digit 1 through 8.
pub open spec fn digit_str(d: int) -> Seq<char> {
    if d == 1 {
        "1"@
    } else if d == 2 {
        "2"@
    } else if d == 3 {
        "3"@
    } else if d == 4 {
        "4"@
    } else if d == 5 {
        "5"@
    } else if d == 6 {
        "6"@
    } else if d == 7 {
        "7"@
    } else {
        "8"@
    }
}

impl Cell {
    /// A fresh cell with all state cleared.
    pub fn new() -> (c: Cell)
        ensures
            c == empty_cell(),
    {
        Cell { bomb: false, flagged: false, visible: false, neighbors: 0 }
    }

    /// Renders this cell to its display glyph.
    pub fn glyph(&self) -> (r: &'static str)
        requires
            self.neighbors <= 8,
        ensures
            r@ == glyph_spec(*self),
    {
        if self.flagged {
            "F"
        } else if !self.visible || self.bomb {
            "\u{2592}"
        } else if self.neighbors == 0 {
            " "
        } else if self.neighbors == 1 {
            "1"
        } else if self.neighbors == 2 {
            "2"
        } else if self.neighbors == 3 {
            "3"
        } else if self.neighbors == 4 {
            "4"
        } else if self.neighbors == 5 {
            "5"
        } else if self.neighbors == 6 {
            "6"
        } else if self.neighbors == 7 {
            "7"
        } else {
            "8"
        }
    }
}

} // verus!
