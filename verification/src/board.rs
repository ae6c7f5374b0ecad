use vstd::prelude::*;

use crate::cell::Cell;
use crate::cell::empty_cell;
use crate::event::Page;

verus! {

/// Flat index of grid position `(x, y)` when each row holds `w + 1` cells.
pub open spec fn grid_index(w: int, x: int, y: int) -> int {
    y * (w + 1) + x
}

/// Whether `(x, y)` names a cell of a grid with inclusive bounds `w` and `h`:
/// the grid is `(w + 1) x (h + 1)` cells.
pub open spec fn in_grid(w: int, h: int, x: int, y: int) -> bool {
    0 <= x <= w && 0 <= y <= h
}

/// Whether two grid positions are distinct and touch, diagonals included.
pub open spec fn adjacent(x1: int, y1: int, x2: int, y2: int) -> bool {
    -1 <= x2 - x1 <= 1 && -1 <= y2 - y1 <= 1 && !(x2 == x1 && y2 == y1)
}

pub open spec fn bool_to_int(b: bool) -> int {
    if b {
        1
    } else {
        0
    }
}

/// Whether position `(x, y)` exists in the grid and holds a bomb.
/// Out-of-range positions contribute nothing to neighbor counts.
pub open spec fn grid_bomb_at(g: Seq<Cell>, w: int, h: int, x: int, y: int) -> bool {
    in_grid(w, h, x, y) && g[grid_index(w, x, y)].bomb
}

/// The exact number of bombs among the up-to-eight existing neighbors of
/// `(x, y)`: the sum of one indicator per adjacent position.
pub open spec fn neighbor_bombs(g: Seq<Cell>, w: int, h: int, x: int, y: int) -> int {
    bool_to_int(grid_bomb_at(g, w, h, x - 1, y - 1)) + bool_to_int(
        grid_bomb_at(g, w, h, x, y - 1),
    ) + bool_to_int(grid_bomb_at(g, w, h, x + 1, y - 1)) + bool_to_int(
        grid_bomb_at(g, w, h, x - 1, y),
    ) + bool_to_int(grid_bomb_at(g, w, h, x + 1, y)) + bool_to_int(
        grid_bomb_at(g, w, h, x - 1, y + 1),
    ) + bool_to_int(grid_bomb_at(g, w, h, x, y + 1)) + bool_to_int(
        grid_bomb_at(g, w, h, x + 1, y + 1),
    )
}

/// Every cell's stored neighbor count agrees with the bombs around it.
pub open spec fn counts_correct(g: Seq<Cell>, w: int, h: int) -> bool {
    forall|x: int, y: int|
        in_grid(w, h, x, y) ==> (#[trigger] g[grid_index(w, x, y)]).neighbors as int
            == neighbor_bombs(g, w, h, x, y)
}

pub proof fn lemma_grid_index_bounds(w: int, h: int, x: int, y: int)
    by (nonlinear_arith)
    requires
        0 <= x <= w <= 255,
        0 <= y <= h <= 255,
    ensures
        0 <= y * (w + 1) + x < (w + 1) * (h + 1),
        (w + 1) * (h + 1) <= 65536,
{
}

pub proof fn lemma_grid_index_injective(w: int, x1: int, y1: int, x2: int, y2: int)
    by (nonlinear_arith)
    requires
        0 <= x1 <= w,
        0 <= y1,
        0 <= x2 <= w,
        0 <= y2,
        y1 * (w + 1) + x1 == y2 * (w + 1) + x2,
    ensures
        x1 == x2 && y1 == y2,
{
}

/// The whole game: the grid of cells, where on the terminal the grid's
/// top-left cell is drawn, and the state-machine bookkeeping — the active
/// page, the count of successful reveals this round, and the difficulty
/// level. `width` and `height` are inclusive bounds: the grid holds
/// `(width + 1) * (height + 1)` cells, stored row by row.
pub struct MineSweeper {
    pub width: u8,
    pub height: u8,
    pub field: Vec<Cell>,
    pub field_origin: (u16, u16),
    pub moves: u16,
    pub level: u16,
    pub page: Page,
}

impl MineSweeper {
    /// Well-formedness: the flat grid has exactly one cell per position,
    /// the difficulty level is inside its menu range, and no stored
    /// neighbor count exceeds the eight neighbors a cell can have.
    pub open spec fn wf(self) -> bool {
        &&& self.field@.len() == (self.width as int + 1) * (self.height as int + 1)
        &&& 1 <= self.level <= 9
        &&& forall|k: int| 0 <= k < self.field@.len() ==> (#[trigger] self.field@[k]).neighbors <= 8
    }

    pub open spec fn in_bounds(self, x: int, y: int) -> bool {
        in_grid(self.width as int, self.height as int, x, y)
    }

    /// The cell at grid position `(x, y)`.
    pub open spec fn at(self, x: int, y: int) -> Cell {
        self.field@[grid_index(self.width as int, x, y)]
    }

    /// Everything except the grid contents and the bookkeeping that the
    /// handlers touch: the dimensions and the drawing origin never change
    /// after construction.
    pub open spec fn same_frame(self, other: MineSweeper) -> bool {
        &&& self.width == other.width
        &&& self.height == other.height
        &&& self.field_origin == other.field_origin
    }

    /// Flat index of `(x, y)`, proved in range.
    pub(crate) fn index_of(&self, x: usize, y: usize) -> (i: usize)
        requires
            self.wf(),
            x <= self.width as usize,
            y <= self.height as usize,
        ensures
            i == grid_index(self.width as int, x as int, y as int),
            i < self.field@.len(),
    {
        proof {
            lemma_grid_index_bounds(self.width as int, self.height as int, x as int, y as int);
        }
        y * (self.width as usize + 1) + x
    }

    /// Constructs the board and bookkeeping from the terminal's character
    /// dimensions and the fixed origin where the grid is drawn. The grid
    /// takes half the terminal's width (a cell renders two characters wide)
    /// minus the origin, and the height below the origin minus a margin of
    /// four rows. Every cell starts empty, the level at its minimum, and the
    /// page at the home menu.
    pub fn new(field_origin: (u16, u16), terminal_size: (u16, u16)) -> (ms: MineSweeper)
        requires
            field_origin.0 + 1 <= terminal_size.0 / 2 <= field_origin.0 + 256,
            field_origin.1 + 4 <= terminal_size.1 <= field_origin.1 + 4 + 255,
        ensures
            ms.wf(),
            ms.width as int == terminal_size.0 as int / 2 - 1 - field_origin.0 as int,
            ms.height as int == terminal_size.1 as int - field_origin.1 as int - 4,
            ms.field_origin == field_origin,
            ms.moves == 0,
            ms.level == 1,
            ms.page == Page::Homescreen,
            forall|k: int| 0 <= k < ms.field@.len() ==> ms.field@[k] == empty_cell(),
            forall|x: int, y: int| ms.in_bounds(x, y) ==> #[trigger] ms.at(x, y) == empty_cell(),
    {
        let w: u16 = terminal_size.0 / 2 - 1 - field_origin.0;
        let h: u16 = terminal_size.1 - field_origin.1 - 4;
        let width: u8 = w as u8;
        let height: u8 = h as u8;
        proof {
            lemma_grid_index_bounds(width as int, height as int, width as int, height as int);
        }
        let area: usize = (width as usize + 1) * (height as usize + 1);
        let mut field: Vec<Cell> = Vec::new();
        let mut k: usize = 0;
        while k < area
            invariant
                field@.len() == k,
                k <= area,
                forall|j: int| 0 <= j < k ==> field@[j] == empty_cell(),
            decreases area - k,
        {
            field.push(Cell::new());
            k = k + 1;
        }
        let mut ms = MineSweeper {
            width,
            height,
            field,
            field_origin,
            moves: 0,
            level: 1,
            page: Page::Homescreen,
        };
        ms.update_neighbours();
        proof {
            lemma_cleared_counted_grid_is_empty(
                ms.field@,
                ms.width as int,
                ms.height as int,
            );
            assert forall|x2: int, y2: int| ms.in_bounds(x2, y2) implies #[trigger] ms.at(x2, y2)
                == empty_cell() by {
                lemma_grid_index_bounds(ms.width as int, ms.height as int, x2, y2);
            }
        }
        ms
    }

    /// Clears every cell back to its initial state and zeroes the move
    /// count; the dimensions, origin, level and page stay as they are.
    pub fn reset(&mut self)
        requires
            old(self).wf(),
        ensures
            final(self).wf(),
            old(self).same_frame(*final(self)),
            final(self).field@.len() == old(self).field@.len(),
            forall|k: int| 0 <= k < final(self).field@.len() ==> final(self).field@[k] == empty_cell(),
            forall|x: int, y: int|
                final(self).in_bounds(x, y) ==> #[trigger] final(self).at(x, y) == empty_cell(),
            final(self).moves == 0,
            final(self).level == old(self).level,
            final(self).page == old(self).page,
    {
        let n: usize = self.field.len();
        let mut k: usize = 0;
        while k < n
            invariant
                self.field@.len() == n,
                k <= n,
                self.wf(),
                old(self).same_frame(*self),
                self.level == old(self).level,
                self.page == old(self).page,
                self.moves == old(self).moves,
                forall|j: int| 0 <= j < k ==> self.field@[j] == empty_cell(),
            decreases n - k,
        {
            self.field[k] = Cell::new();
            k = k + 1;
        }
        self.moves = 0;
        proof {
            assert forall|x2: int, y2: int| self.in_bounds(x2, y2) implies #[trigger] self.at(
                x2,
                y2,
            ) == empty_cell() by {
                lemma_grid_index_bounds(self.width as int, self.height as int, x2, y2);
            }
        }
    }

    /// Flips the flag on the cell at `(x, y)` and touches nothing else.
    pub fn flag(&mut self, x: usize, y: usize)
        requires
            old(self).wf(),
            x <= old(self).width as usize,
            y <= old(self).height as usize,
        ensures
            final(self).wf(),
            flag_rel(*old(self), *final(self), x as int, y as int),
    {
        let i = self.index_of(x, y);
        let c = self.field[i];
        self.field[i] = Cell { flagged: !c.flagged, ..c };
        proof {
            let w: int = self.width as int;
            let h: int = self.height as int;
            assert forall|x2: int, y2: int|
                self.in_bounds(x2, y2) && !(x2 == x as int && y2 == y as int) implies #[trigger] self.at(
                x2,
                y2,
            ) == old(self).at(x2, y2) by {
                lemma_grid_index_bounds(w, h, x2, y2);
                if grid_index(w, x2, y2) == grid_index(w, x as int, y as int) {
                    lemma_grid_index_injective(w, x2, y2, x as int, y as int);
                }
            }
        }
    }

    /// Maps a terminal character coordinate to a grid position: each cell is
    /// drawn two characters wide, so the horizontal offset from the origin
    /// is halved, rounded to the nearest cell, and shifted by one. The
    /// result may lie outside the grid; callers range-check before indexing.
    pub fn terminalxy2fieldxy(&self, x: u16, y: u16) -> (r: (i32, i32))
        ensures
            r.0 as int == term_to_grid_x(self.field_origin.0 as int, x as int),
            r.1 as int == term_to_grid_y(self.field_origin.1 as int, y as int),
    {
        let dx: i32 = x as i32 - self.field_origin.0 as i32;
        let half: i32 = if dx >= 0 {
            ((dx as u32 + 1) / 2) as i32
        } else {
            -((((-dx) as u32 + 1) / 2) as i32)
        };
        let x_hat: i32 = half - 1;
        let y_hat: i32 = y as i32 - self.field_origin.1 as i32;
        (x_hat, y_hat)
    }
}

impl MineSweeper {
    /// Whether position `(x, y)` exists and holds a bomb, as executable code.
    pub(crate) fn bomb_at_exec(&self, x: i64, y: i64) -> (r: bool)
        requires
            self.wf(),
        ensures
            r == grid_bomb_at(
                self.field@,
                self.width as int,
                self.height as int,
                x as int,
                y as int,
            ),
    {
        if 0 <= x && x <= self.width as i64 && 0 <= y && y <= self.height as i64 {
            proof {
                lemma_grid_index_bounds(
                    self.width as int,
                    self.height as int,
                    x as int,
                    y as int,
                );
            }
            let i: usize = (y as usize) * (self.width as usize + 1) + (x as usize);
            self.field[i].bomb
        } else {
            false
        }
    }

    /// Counts the bombs among the existing neighbors of `(x, y)`.
    pub(crate) fn count_neighbors(&self, x: usize, y: usize) -> (r: u8)
        requires
            self.wf(),
            x <= self.width as usize,
            y <= self.height as usize,
        ensures
            r as int == neighbor_bombs(
                self.field@,
                self.width as int,
                self.height as int,
                x as int,
                y as int,
            ),
            r <= 8,
    {
        let xi: i64 = x as i64;
        let yi: i64 = y as i64;
        let mut r: u8 = 0;
        if self.bomb_at_exec(xi - 1, yi - 1) {
            r = r + 1;
        }
        if self.bomb_at_exec(xi, yi - 1) {
            r = r + 1;
        }
        if self.bomb_at_exec(xi + 1, yi - 1) {
            r = r + 1;
        }
        if self.bomb_at_exec(xi - 1, yi) {
            r = r + 1;
        }
        if self.bomb_at_exec(xi + 1, yi) {
            r = r + 1;
        }
        if self.bomb_at_exec(xi - 1, yi + 1) {
            r = r + 1;
        }
        if self.bomb_at_exec(xi, yi + 1) {
            r = r + 1;
        }
        if self.bomb_at_exec(xi + 1, yi + 1) {
            r = r + 1;
        }
        r
    }

    /// Recomputes every cell's neighbor count from the bombs now placed.
    /// Counts are written afresh, never accumulated, so the operation can be
    /// repeated without first zeroing the grid. No other cell state changes.
    pub fn update_neighbours(&mut self)
        requires
            old(self).wf(),
        ensures
            final(self).wf(),
            old(self).same_frame(*final(self)),
            final(self).field@.len() == old(self).field@.len(),
            forall|k: int|
                0 <= k < final(self).field@.len() ==> {
                    &&& (#[trigger] final(self).field@[k]).bomb == old(self).field@[k].bomb
                    &&& final(self).field@[k].flagged == old(self).field@[k].flagged
                    &&& final(self).field@[k].visible == old(self).field@[k].visible
                },
            counts_correct(final(self).field@, final(self).width as int, final(self).height as int),
            final(self).moves == old(self).moves,
            final(self).level == old(self).level,
            final(self).page == old(self).page,
    {
        let w: usize = self.width as usize;
        let h: usize = self.height as usize;
        let ghost wi: int = self.width as int;
        let ghost hi: int = self.height as int;
        let mut y: usize = 0;
        while y <= h
            invariant
                self.wf(),
                self.width == old(self).width,
                self.height == old(self).height,
                w == self.width as usize,
                h == self.height as usize,
                wi == self.width as int,
                hi == self.height as int,
                old(self).same_frame(*self),
                self.field@.len() == old(self).field@.len(),
                self.moves == old(self).moves,
                self.level == old(self).level,
                self.page == old(self).page,
                y <= h + 1,
                forall|k: int|
                    0 <= k < self.field@.len() ==> {
                        &&& (#[trigger] self.field@[k]).bomb == old(self).field@[k].bomb
                        &&& self.field@[k].flagged == old(self).field@[k].flagged
                        &&& self.field@[k].visible == old(self).field@[k].visible
                    },
                forall|x2: int, y2: int|
                    in_grid(wi, hi, x2, y2) && y2 < y ==> (#[trigger] self.field@[grid_index(
                        wi,
                        x2,
                        y2,
                    )]).neighbors as int == neighbor_bombs(self.field@, wi, hi, x2, y2),
            decreases h + 1 - y,
        {
            let mut x: usize = 0;
            while x <= w
                invariant
                    self.wf(),
                    self.width == old(self).width,
                    self.height == old(self).height,
                    w == self.width as usize,
                    h == self.height as usize,
                    wi == self.width as int,
                    hi == self.height as int,
                    old(self).same_frame(*self),
                    self.field@.len() == old(self).field@.len(),
                    self.moves == old(self).moves,
                    self.level == old(self).level,
                    self.page == old(self).page,
                    y <= h,
                    x <= w + 1,
                    forall|k: int|
                        0 <= k < self.field@.len() ==> {
                            &&& (#[trigger] self.field@[k]).bomb == old(self).field@[k].bomb
                            &&& self.field@[k].flagged == old(self).field@[k].flagged
                            &&& self.field@[k].visible == old(self).field@[k].visible
                        },
                    forall|x2: int, y2: int|
                        in_grid(wi, hi, x2, y2) && (y2 < y || (y2 == y && x2 < x)) ==> (
                        #[trigger] self.field@[grid_index(wi, x2, y2)]).neighbors as int
                            == neighbor_bombs(self.field@, wi, hi, x2, y2),
                decreases w + 1 - x,
            {
                let c: u8 = self.count_neighbors(x, y);
                let i: usize = self.index_of(x, y);
                let cur: Cell = self.field[i];
                let ghost before: Seq<Cell> = self.field@;
                self.field[i] = Cell { neighbors: c, ..cur };
                proof {
                    lemma_update_keeps_other_positions(
                        before,
                        self.field@,
                        wi,
                        hi,
                        x as int,
                        y as int,
                    );
                }
                x = x + 1;
            }
            y = y + 1;
        }
        proof {
            assert forall|x2: int, y2: int| in_grid(wi, hi, x2, y2) implies (
            #[trigger] self.field@[grid_index(wi, x2, y2)]).neighbors as int == neighbor_bombs(
                self.field@,
                wi,
                hi,
                x2,
                y2,
            ) by {
                assert(y2 < y);
            }
        }
    }

    /// Draws every cell's bomb independently: a fresh uniform draw falls
    /// below the probability given in parts per million. Flags, visibility
    /// and the stored counts are untouched. A probability of zero places no
    /// bomb; one of a whole million or more places a bomb everywhere.
    pub fn place_bombs(&mut self, ppm: u32)
        requires
            old(self).wf(),
        ensures
            final(self).wf(),
            old(self).same_frame(*final(self)),
            final(self).field@.len() == old(self).field@.len(),
            forall|k: int|
                0 <= k < final(self).field@.len() ==> {
                    &&& (#[trigger] final(self).field@[k]).flagged == old(self).field@[k].flagged
                    &&& final(self).field@[k].visible == old(self).field@[k].visible
                    &&& final(self).field@[k].neighbors == old(self).field@[k].neighbors
                },
            ppm == 0 ==> forall|k: int|
                0 <= k < final(self).field@.len() ==> !(#[trigger] final(self).field@[k]).bomb,
            ppm >= 1000000 ==> forall|k: int|
                0 <= k < final(self).field@.len() ==> (#[trigger] final(self).field@[k]).bomb,
            final(self).moves == old(self).moves,
            final(self).level == old(self).level,
            final(self).page == old(self).page,
    {
        let n: usize = self.field.len();
        let mut k: usize = 0;
        while k < n
            invariant
                self.wf(),
                old(self).same_frame(*self),
                self.field@.len() == n,
                n == old(self).field@.len(),
                self.moves == old(self).moves,
                self.level == old(self).level,
                self.page == old(self).page,
                k <= n,
                forall|j: int|
                    0 <= j < n ==> {
                        &&& (#[trigger] self.field@[j]).flagged == old(self).field@[j].flagged
                        &&& self.field@[j].visible == old(self).field@[j].visible
                        &&& self.field@[j].neighbors == old(self).field@[j].neighbors
                    },
                ppm == 0 ==> forall|j: int| 0 <= j < k ==> !(#[trigger] self.field@[j]).bomb,
                ppm >= 1000000 ==> forall|j: int| 0 <= j < k ==> (#[trigger] self.field@[j]).bomb,
            decreases n - k,
        {
            let r: u32 = crate::rng::random_u32();
            let bomb: bool = (r as u64) * 1000000 < (ppm as u64) * 4294967296;
            let cur: Cell = self.field[k];
            self.field[k] = Cell { bomb, ..cur };
            k = k + 1;
        }
    }
}

/// Updating one position's cell, keeping its bomb flag, leaves every
/// position's bomb environment — and so every neighbor count — unchanged.
proof fn lemma_update_keeps_other_positions(
    g1: Seq<Cell>,
    g2: Seq<Cell>,
    w: int,
    h: int,
    x: int,
    y: int,
)
    requires
        0 <= w <= 255,
        0 <= h <= 255,
        g1.len() == (w + 1) * (h + 1),
        in_grid(w, h, x, y),
        g2 == g1.update(grid_index(w, x, y), g2[grid_index(w, x, y)]),
        g2[grid_index(w, x, y)].bomb == g1[grid_index(w, x, y)].bomb,
    ensures
        forall|x2: int, y2: int|
            in_grid(w, h, x2, y2) && !(x2 == x && y2 == y) ==> g2[#[trigger] grid_index(
                w,
                x2,
                y2,
            )] == g1[grid_index(w, x2, y2)],
        forall|x2: int, y2: int|
            in_grid(w, h, x2, y2) ==> neighbor_bombs(g2, w, h, x2, y2) == #[trigger] neighbor_bombs(
                g1,
                w,
                h,
                x2,
                y2,
            ),
{
    lemma_grid_index_bounds(w, h, x, y);
    assert forall|x2: int, y2: int|
        in_grid(w, h, x2, y2) && !(x2 == x && y2 == y) implies g2[#[trigger] grid_index(
        w,
        x2,
        y2,
    )] == g1[grid_index(w, x2, y2)] by {
        lemma_grid_index_bounds(w, h, x2, y2);
        if grid_index(w, x2, y2) == grid_index(w, x, y) {
            lemma_grid_index_injective(w, x2, y2, x, y);
        }
    }
    assert forall|k: int| 0 <= k < g1.len() implies (#[trigger] g2[k]).bomb == g1[k].bomb by {}
    assert forall|x2: int, y2: int| in_grid(w, h, x2, y2) implies neighbor_bombs(g2, w, h, x2, y2)
        == #[trigger] neighbor_bombs(g1, w, h, x2, y2) by {
        lemma_neighbor_bombs_same_bombs(g1, g2, w, h, x2, y2);
    }
}

/// Neighbor counts depend on the bomb flags alone: two grids whose bombs
/// agree pointwise have the same count at every position.
pub proof fn lemma_neighbor_bombs_same_bombs(
    g1: Seq<Cell>,
    g2: Seq<Cell>,
    w: int,
    h: int,
    x: int,
    y: int,
)
    requires
        0 <= w <= 255,
        0 <= h <= 255,
        g1.len() == (w + 1) * (h + 1),
        g2.len() == g1.len(),
        forall|k: int| 0 <= k < g1.len() ==> (#[trigger] g2[k]).bomb == g1[k].bomb,
    ensures
        neighbor_bombs(g2, w, h, x, y) == neighbor_bombs(g1, w, h, x, y),
{
    lemma_grid_bomb_at_same(g1, g2, w, h, x - 1, y - 1);
    lemma_grid_bomb_at_same(g1, g2, w, h, x, y - 1);
    lemma_grid_bomb_at_same(g1, g2, w, h, x + 1, y - 1);
    lemma_grid_bomb_at_same(g1, g2, w, h, x - 1, y);
    lemma_grid_bomb_at_same(g1, g2, w, h, x + 1, y);
    lemma_grid_bomb_at_same(g1, g2, w, h, x - 1, y + 1);
    lemma_grid_bomb_at_same(g1, g2, w, h, x, y + 1);
    lemma_grid_bomb_at_same(g1, g2, w, h, x + 1, y + 1);
}

proof fn lemma_grid_bomb_at_same(g1: Seq<Cell>, g2: Seq<Cell>, w: int, h: int, x: int, y: int)
    requires
        0 <= w <= 255,
        0 <= h <= 255,
        g1.len() == (w + 1) * (h + 1),
        g2.len() == g1.len(),
        forall|k: int| 0 <= k < g1.len() ==> (#[trigger] g2[k]).bomb == g1[k].bomb,
    ensures
        grid_bomb_at(g2, w, h, x, y) == grid_bomb_at(g1, w, h, x, y),
{
    if in_grid(w, h, x, y) {
        lemma_grid_index_bounds(w, h, x, y);
    }
}

/// A neighbor count never exceeds eight; a cell on the grid's edge has at
/// most five existing neighbors to count, and one in a corner at most
/// three.
pub proof fn lemma_neighbor_bombs_bounds(g: Seq<Cell>, w: int, h: int, x: int, y: int)
    requires
        in_grid(w, h, x, y),
    ensures
        0 <= neighbor_bombs(g, w, h, x, y) <= 8,
        (x == 0 || x == w || y == 0 || y == h) ==> neighbor_bombs(g, w, h, x, y) <= 5,
        ((x == 0 || x == w) && (y == 0 || y == h)) ==> neighbor_bombs(g, w, h, x, y) <= 3,
{
}

/// On a grid with no bombs, every neighbor count is zero.
pub proof fn lemma_no_bombs_zero_counts(g: Seq<Cell>, w: int, h: int)
    requires
        0 <= w <= 255,
        0 <= h <= 255,
        g.len() == (w + 1) * (h + 1),
        forall|k: int| 0 <= k < g.len() ==> !(#[trigger] g[k]).bomb,
    ensures
        forall|x: int, y: int| neighbor_bombs(g, w, h, x, y) == 0,
{
    assert forall|x: int, y: int| neighbor_bombs(g, w, h, x, y) == 0 by {
        lemma_grid_bomb_at_clear(g, w, h, x - 1, y - 1);
        lemma_grid_bomb_at_clear(g, w, h, x, y - 1);
        lemma_grid_bomb_at_clear(g, w, h, x + 1, y - 1);
        lemma_grid_bomb_at_clear(g, w, h, x - 1, y);
        lemma_grid_bomb_at_clear(g, w, h, x + 1, y);
        lemma_grid_bomb_at_clear(g, w, h, x - 1, y + 1);
        lemma_grid_bomb_at_clear(g, w, h, x, y + 1);
        lemma_grid_bomb_at_clear(g, w, h, x + 1, y + 1);
    }
}

proof fn lemma_grid_bomb_at_clear(g: Seq<Cell>, w: int, h: int, x: int, y: int)
    requires
        0 <= w <= 255,
        0 <= h <= 255,
        g.len() == (w + 1) * (h + 1),
        forall|k: int| 0 <= k < g.len() ==> !(#[trigger] g[k]).bomb,
    ensures
        !grid_bomb_at(g, w, h, x, y),
{
    if in_grid(w, h, x, y) {
        lemma_grid_index_bounds(w, h, x, y);
    }
}

/// A grid whose cells are all cleared and whose counts agree with its bombs
/// holds nothing but empty cells. This is what a reset followed by a count
/// recomputation leaves behind.
pub proof fn lemma_cleared_counted_grid_is_empty(g: Seq<Cell>, w: int, h: int)
    requires
        0 <= w <= 255,
        0 <= h <= 255,
        g.len() == (w + 1) * (h + 1),
        forall|k: int|
            0 <= k < g.len() ==> {
                &&& !(#[trigger] g[k]).bomb
                &&& !g[k].flagged
                &&& !g[k].visible
            },
        counts_correct(g, w, h),
    ensures
        forall|k: int| 0 <= k < g.len() ==> g[k] == empty_cell(),
{
    lemma_no_bombs_zero_counts(g, w, h);
    assert forall|k: int| 0 <= k < g.len() implies g[k] == empty_cell() by {
        lemma_grid_index_surjective(w, h, k);
        let x = k % (w + 1);
        let y = k / (w + 1);
        assert(g[grid_index(w, x, y)].neighbors as int == neighbor_bombs(g, w, h, x, y));
    }
}

/// Every flat index below the grid's area names exactly one grid position.
pub proof fn lemma_grid_index_surjective(w: int, h: int, k: int)
    by (nonlinear_arith)
    requires
        0 <= w,
        0 <= h,
        0 <= k < (w + 1) * (h + 1),
    ensures
        in_grid(w, h, k % (w + 1), k / (w + 1)),
        grid_index(w, k % (w + 1), k / (w + 1)) == k,
{
}

/// What toggling the flag at `(x, y)` does: that one cell's flag flips and
/// every other part of the game — the rest of the cell included — stays.
pub open spec fn flag_rel(pre: MineSweeper, post: MineSweeper, x: int, y: int) -> bool {
    &&& pre.same_frame(post)
    &&& post.field@ == pre.field@.update(
        grid_index(pre.width as int, x, y),
        (Cell { flagged: !pre.at(x, y).flagged, ..pre.at(x, y) }),
    )
    &&& post.at(x, y) == (Cell { flagged: !pre.at(x, y).flagged, ..pre.at(x, y) })
    &&& forall|x2: int, y2: int|
        pre.in_bounds(x2, y2) && !(x2 == x && y2 == y) ==> #[trigger] post.at(x2, y2) == pre.at(
            x2,
            y2,
        )
    &&& post.moves == pre.moves
    &&& post.level == pre.level
    &&& post.page == pre.page
}

/// Toggling a flag twice leaves no trace: the second toggle restores the
/// board — bombs, visibility and counts were never touched — along with
/// every other part of the game.
pub proof fn lemma_flag_twice_restores(
    s0: MineSweeper,
    s1: MineSweeper,
    s2: MineSweeper,
    x: int,
    y: int,
)
    requires
        s0.wf(),
        in_grid(s0.width as int, s0.height as int, x, y),
        flag_rel(s0, s1, x, y),
        flag_rel(s1, s2, x, y),
    ensures
        s2.field@ == s0.field@,
        s0.same_frame(s2),
        s2.moves == s0.moves,
        s2.level == s0.level,
        s2.page == s0.page,
{
    lemma_grid_index_bounds(s0.width as int, s0.height as int, x, y);
    assert(s2.field@ =~= s0.field@);
}

/// Half of `d`, rounded to the nearest integer with halves away from zero —
/// how a cell's two-character width is undone when a click is mapped back
/// to a grid column.
pub open spec fn round_half_div2(d: int) -> int {
    if d >= 0 {
        (d + 1) / 2
    } else {
        -((1 - d) / 2)
    }
}

/// The grid column a terminal column falls on.
pub open spec fn term_to_grid_x(origin_x: int, term_x: int) -> int {
    round_half_div2(term_x - origin_x) - 1
}

/// The grid row a terminal row falls on.
pub open spec fn term_to_grid_y(origin_y: int, term_y: int) -> int {
    term_y - origin_y
}

} // verus!
