use vstd::prelude::*;

use crate::board::MineSweeper;
use crate::board::counts_correct;
use crate::board::grid_index;
use crate::board::in_grid;
use crate::board::term_to_grid_x;
use crate::board::term_to_grid_y;
use crate::cell::Cell;
use crate::cell::empty_cell;
use crate::curve::bomb_probability_ppm;
use crate::event::Button;
use crate::event::Event;
use crate::event::Page;
use crate::flood::open_rel;

verus! {

/// Nothing observable happened: the ignored events leave the whole game as
/// it was.
pub open spec fn same_state(pre: MineSweeper, post: MineSweeper) -> bool {
    &&& pre.same_frame(post)
    &&& post.field@ == pre.field@
    &&& post.moves == pre.moves
    &&& post.level == pre.level
    &&& post.page == pre.page
}

/// A full board reset happened: every cell is back to its initial state and
/// the move count is zero, while the dimensions and the level persist. What
/// the page became is the caller's business.
pub open spec fn reset_state(pre: MineSweeper, post: MineSweeper) -> bool {
    &&& pre.same_frame(post)
    &&& post.field@.len() == pre.field@.len()
    &&& forall|k: int| 0 <= k < post.field@.len() ==> post.field@[k] == empty_cell()
    &&& post.moves == 0
    &&& post.level == pre.level
}

/// The grid as it stood right after any first-move bomb placement,
/// reconstructed from the grids before and after the move: bombs and counts
/// as after the move — no later step of a move changes them — and flags and
/// visibility as before it, which placement never touches.
pub open spec fn placement_grid(pre: Seq<Cell>, post: Seq<Cell>) -> Seq<Cell> {
    Seq::new(
        pre.len(),
        |k: int|
            Cell {
                bomb: post[k].bomb,
                flagged: pre[k].flagged,
                visible: pre[k].visible,
                neighbors: post[k].neighbors,
            },
    )
}

/// What a first move's bomb placement guarantees, whatever the random draws
/// were: the counts agree with wherever the bombs fell, and the clicked
/// cell `(gx, gy)` never holds one.
pub open spec fn placement_ok(mid: Seq<Cell>, w: int, h: int, gx: int, gy: int) -> bool {
    &&& counts_correct(mid, w, h)
    &&& !mid[grid_index(w, gx, gy)].bomb
}

/// What one mouse press at terminal coordinates `(tx, ty)` does. A click
/// outside the grid changes nothing at all. Otherwise, on the round's first
/// move bombs are placed first — `placement_grid` names the grid that
/// leaves behind. A right press toggles the target's flag. A left press on
/// a flagged or already open cell is ignored; on a bomb it ends the round,
/// changing no cell; on anything else it reveals from the target and counts
/// one move.
pub open spec fn move_step(
    pre: MineSweeper,
    post: MineSweeper,
    button: Button,
    tx: int,
    ty: int,
) -> bool {
    let w = pre.width as int;
    let h = pre.height as int;
    let gx = term_to_grid_x(pre.field_origin.0 as int, tx);
    let gy = term_to_grid_y(pre.field_origin.1 as int, ty);
    let mid = placement_grid(pre.field@, post.field@);
    &&& pre.same_frame(post)
    &&& post.level == pre.level
    &&& if !in_grid(w, h, gx, gy) {
        same_state(pre, post)
    } else {
        &&& (pre.moves == 0 ==> placement_ok(mid, w, h, gx, gy))
        &&& (pre.moves != 0 ==> mid == pre.field@)
        &&& match button {
            Button::Right => {
                &&& post.field@ == mid.update(
                    grid_index(w, gx, gy),
                    (Cell {
                        flagged: !mid[grid_index(w, gx, gy)].flagged,
                        ..mid[grid_index(w, gx, gy)]
                    }),
                )
                &&& post.moves == pre.moves
                &&& post.page == pre.page
            },
            Button::Left => {
                let target = mid[grid_index(w, gx, gy)];
                if target.flagged {
                    &&& post.field@ == mid
                    &&& post.moves == pre.moves
                    &&& post.page == pre.page
                } else if target.bomb {
                    &&& post.field@ == mid
                    &&& post.moves == pre.moves
                    &&& post.page == Page::Gameover
                } else if target.visible {
                    &&& post.field@ == mid
                    &&& post.moves == pre.moves
                    &&& post.page == pre.page
                } else {
                    &&& open_rel(mid, post.field@, w, h, gx, gy)
                    &&& post.moves == pre.moves + 1
                    &&& post.page == pre.page
                }
            },
        }
    }
}

/// The home menu's transition table: `q` quits, `p` starts playing on the
/// board as it stands, `+` or `=` raises the level up to its cap of nine,
/// `-` lowers it down to one, and everything else is ignored. The board and
/// the move count are never touched here.
pub open spec fn homescreen_step(pre: MineSweeper, post: MineSweeper, evt: Event) -> bool {
    &&& pre.same_frame(post)
    &&& post.field@ == pre.field@
    &&& post.moves == pre.moves
    &&& match evt {
        Event::KeyPress(k) => {
            if k == 'q' {
                post.page == Page::Quit && post.level == pre.level
            } else if k == 'p' {
                post.page == Page::Gamescreen && post.level == pre.level
            } else if k == '+' || k == '=' {
                post.page == pre.page && post.level as int == (if pre.level < 9 {
                    pre.level + 1
                } else {
                    pre.level as int
                })
            } else if k == '-' {
                post.page == pre.page && post.level as int == (if pre.level > 1 {
                    pre.level - 1
                } else {
                    pre.level as int
                })
            } else {
                post.page == pre.page && post.level == pre.level
            }
        },
        _ => post.page == pre.page && post.level == pre.level,
    }
}

/// The play screen's transition table: `q` abandons the round — the board
/// resets and the home menu returns — `r` resets the round in place, a
/// mouse press is handled as a move, and everything else is ignored.
pub open spec fn gamescreen_step(pre: MineSweeper, post: MineSweeper, evt: Event) -> bool {
    match evt {
        Event::KeyPress(k) => {
            if k == 'q' {
                reset_state(pre, post) && post.page == Page::Homescreen
            } else if k == 'r' {
                reset_state(pre, post) && post.page == pre.page
            } else {
                same_state(pre, post)
            }
        },
        Event::MousePress(b, tx, ty) => move_step(pre, post, b, tx as int, ty as int),
        Event::Other => same_state(pre, post),
    }
}

/// The game-over screen's transition table: `r` returns to the home menu —
/// the board keeps its lost round until something resets it — and
/// everything else, mouse presses included, is ignored.
pub open spec fn gameoverscreen_step(pre: MineSweeper, post: MineSweeper, evt: Event) -> bool {
    &&& pre.same_frame(post)
    &&& post.field@ == pre.field@
    &&& post.moves == pre.moves
    &&& post.level == pre.level
    &&& match evt {
        Event::KeyPress(k) => {
            if k == 'r' {
                post.page == Page::Homescreen
            } else {
                post.page == pre.page
            }
        },
        _ => post.page == pre.page,
    }
}

/// One step of the whole machine: the active page's table handles the
/// event, and the quit page ignores everything.
pub open spec fn machine_step(pre: MineSweeper, post: MineSweeper, evt: Event) -> bool {
    match pre.page {
        Page::Homescreen => homescreen_step(pre, post, evt),
        Page::Gamescreen => gamescreen_step(pre, post, evt),
        Page::Gameover => gameoverscreen_step(pre, post, evt),
        Page::Quit => same_state(pre, post),
    }
}

impl MineSweeper {
    /// Handles one mouse press on the play screen, as [`move_step`] says.
    pub fn make_move(&mut self, button: Button, term_x: u16, term_y: u16)
        requires
            old(self).wf(),
            old(self).moves < u16::MAX,
        ensures
            final(self).wf(),
            move_step(*old(self), *final(self), button, term_x as int, term_y as int),
    {
        let ghost pre = *old(self);
        let ghost w: int = self.width as int;
        let ghost h: int = self.height as int;
        let (gx, gy) = self.terminalxy2fieldxy(term_x, term_y);
        if gx >= 0 && gy >= 0 && gx <= self.width as i32 && gy <= self.height as i32 {
            let x: usize = gx as usize;
            let y: usize = gy as usize;
            if self.moves == 0 {
                let ppm: u32 = bomb_probability_ppm(self.level);
                self.place_bombs(ppm);
                let i: usize = self.index_of(x, y);
                let c: Cell = self.field[i];
                let ghost before_clear = self.field@;
                self.field[i] = Cell { bomb: false, ..c };
                proof {
                    assert forall|k: int|
                        0 <= k < self.field@.len() && k != i as int implies self.field@[k]
                        == before_clear[k] by {}
                }
                self.update_neighbours();
            }
            let ghost mid = self.field@;
            proof {
                assert(mid.len() == pre.field@.len());
                assert forall|k: int| 0 <= k < mid.len() implies {
                    &&& (#[trigger] mid[k]).flagged == pre.field@[k].flagged
                    &&& mid[k].visible == pre.field@[k].visible
                } by {}
            }
            let i: usize = self.index_of(x, y);
            let c: Cell = self.field[i];
            match button {
                Button::Right => {
                    self.flag(x, y);
                },
                Button::Left => {
                    if c.flagged {
                    } else if c.bomb {
                        self.page = Page::Gameover;
                    } else if c.visible {
                    } else {
                        self.open(x, y);
                        self.moves = self.moves + 1;
                    }
                },
            }
            proof {
                assert(placement_grid(pre.field@, self.field@) =~= mid);
            }
        }
    }

    /// Handles one event on the play screen, as [`gamescreen_step`] says.
    pub fn gamescreen(&mut self, evt: Event)
        requires
            old(self).wf(),
            old(self).moves < u16::MAX,
        ensures
            final(self).wf(),
            gamescreen_step(*old(self), *final(self), evt),
    {
        match evt {
            Event::KeyPress(k) => {
                if k == 'q' {
                    self.page = Page::Homescreen;
                    self.reset();
                } else if k == 'r' {
                    self.reset();
                }
            },
            Event::MousePress(b, tx, ty) => {
                self.make_move(b, tx, ty);
            },
            Event::Other => {},
        }
    }

    /// Handles one event on the home menu, as [`homescreen_step`] says.
    pub fn homescreen(&mut self, evt: Event)
        requires
            old(self).wf(),
        ensures
            final(self).wf(),
            homescreen_step(*old(self), *final(self), evt),
    {
        match evt {
            Event::KeyPress(k) => {
                if k == 'q' {
                    self.page = Page::Quit;
                } else if k == 'p' {
                    self.page = Page::Gamescreen;
                } else if k == '+' || k == '=' {
                    if self.level < 9 {
                        self.level = self.level + 1;
                    }
                } else if k == '-' {
                    if self.level > 1 {
                        self.level = self.level - 1;
                    }
                }
            },
            _ => {},
        }
    }

    /// Handles one event on the game-over screen, as
    /// [`gameoverscreen_step`] says.
    pub fn gameoverscreen(&mut self, evt: Event)
        requires
            old(self).wf(),
        ensures
            final(self).wf(),
            gameoverscreen_step(*old(self), *final(self), evt),
    {
        match evt {
            Event::KeyPress(k) => {
                if k == 'r' {
                    self.page = Page::Homescreen;
                }
            },
            _ => {},
        }
    }

    /// Dispatches one event to the active page's handler, as
    /// [`machine_step`] says. On the quit page nothing is processed; the
    /// run loop is expected to stop.
    pub fn handle_event(&mut self, evt: Event)
        requires
            old(self).wf(),
            old(self).page == Page::Gamescreen ==> old(self).moves < u16::MAX,
        ensures
            final(self).wf(),
            machine_step(*old(self), *final(self), evt),
    {
        match self.page {
            Page::Homescreen => self.homescreen(evt),
            Page::Gamescreen => self.gamescreen(evt),
            Page::Gameover => self.gameoverscreen(evt),
            Page::Quit => {},
        }
    }
}

} // verus!
