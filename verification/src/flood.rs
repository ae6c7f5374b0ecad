use vstd::prelude::*;

use crate::board::MineSweeper;
use crate::board::adjacent;
use crate::board::grid_index;
use crate::board::in_grid;
use crate::board::lemma_grid_index_bounds;
use crate::board::lemma_grid_index_injective;
use crate::cell::Cell;

verus! {

/// Whether the cell at `(x, y)` is revealed.
pub open spec fn vis(g: Seq<Cell>, w: int, x: int, y: int) -> bool {
    g[grid_index(w, x, y)].visible
}

/// Only visibility may differ between the two grids: bombs, flags and
/// counts agree pointwise.
pub open spec fn same_but_visibility(g1: Seq<Cell>, g2: Seq<Cell>) -> bool {
    &&& g2.len() == g1.len()
    &&& forall|k: int|
        0 <= k < g1.len() ==> {
            &&& (#[trigger] g2[k]).bomb == g1[k].bomb
            &&& g2[k].flagged == g1[k].flagged
            &&& g2[k].neighbors == g1[k].neighbors
        }
}

/// Every cell revealed in the first grid is still revealed in the second:
/// visibility only ever grows.
pub open spec fn visibility_grows(g1: Seq<Cell>, g2: Seq<Cell>) -> bool {
    forall|k: int| 0 <= k < g1.len() && (#[trigger] g1[k]).visible ==> g2[k].visible
}

/// A cell the flood fill expanded through: it had no bombs around it, was
/// hidden before the reveal began, and is revealed now.
pub open spec fn expanded_zero(
    g0: Seq<Cell>,
    g: Seq<Cell>,
    w: int,
    h: int,
    x: int,
    y: int,
) -> bool {
    &&& in_grid(w, h, x, y)
    &&& vis(g, w, x, y)
    &&& !vis(g0, w, x, y)
    &&& g0[grid_index(w, x, y)].neighbors == 0
}

/// Every existing neighbor of `(x, y)` is revealed.
pub open spec fn ring_vis(g: Seq<Cell>, w: int, h: int, x: int, y: int) -> bool {
    forall|a: int, b: int| in_grid(w, h, a, b) && #[trigger] adjacent(x, y, a, b) ==> vis(g, w, a, b)
}

/// Nothing is revealed beyond the flood fill's reach: every newly revealed
/// cell is the clicked cell itself, or sits next to it, or sits next to a
/// cell the fill expanded through.
pub open spec fn newly_reachable(
    g0: Seq<Cell>,
    g: Seq<Cell>,
    w: int,
    h: int,
    x0: int,
    y0: int,
) -> bool {
    forall|x: int, y: int|
        in_grid(w, h, x, y) && #[trigger] vis(g, w, x, y) && !vis(g0, w, x, y) ==> {
            ||| (x == x0 && y == y0)
            ||| adjacent(x0, y0, x, y)
            ||| exists|ex: int, ey: int|
                #[trigger] expanded_zero(g0, g, w, h, ex, ey) && adjacent(ex, ey, x, y)
        }
}

/// What a reveal at `(x0, y0)` does to the grid, relating the grid before
/// (`g0`) to the grid after (`g1`): only visibility changes, and it only
/// grows; the clicked cell and its whole ring are revealed; the ring of
/// every cell the fill expanded through is revealed; and nothing outside
/// the fill's reach is revealed.
pub open spec fn open_rel(g0: Seq<Cell>, g1: Seq<Cell>, w: int, h: int, x0: int, y0: int) -> bool {
    &&& same_but_visibility(g0, g1)
    &&& visibility_grows(g0, g1)
    &&& vis(g1, w, x0, y0)
    &&& ring_vis(g1, w, h, x0, y0)
    &&& forall|ex: int, ey: int|
        #[trigger] expanded_zero(g0, g1, w, h, ex, ey) ==> ring_vis(g1, w, h, ex, ey)
    &&& newly_reachable(g0, g1, w, h, x0, y0)
}

/// On a board where no cell has an empty neighborhood, a reveal exposes
/// exactly the clicked cell and its immediate ring: every other cell keeps
/// the visibility it had, because the fill never finds a cell to expand
/// through.
pub proof fn lemma_open_isolated_reveals_ring(
    g0: Seq<Cell>,
    g1: Seq<Cell>,
    w: int,
    h: int,
    x0: int,
    y0: int,
)
    requires
        0 <= w <= 255,
        0 <= h <= 255,
        g0.len() == (w + 1) * (h + 1),
        in_grid(w, h, x0, y0),
        open_rel(g0, g1, w, h, x0, y0),
        forall|k: int| 0 <= k < g0.len() && (#[trigger] g0[k]).neighbors == 0 ==> g0[k].visible,
    ensures
        forall|x: int, y: int|
            in_grid(w, h, x, y) ==> (#[trigger] vis(g1, w, x, y) <==> (vis(g0, w, x, y) || (x == x0
                && y == y0) || adjacent(x0, y0, x, y))),
{
    assert forall|x: int, y: int| in_grid(w, h, x, y) implies (#[trigger] vis(g1, w, x, y) <==> (
    vis(g0, w, x, y) || (x == x0 && y == y0) || adjacent(x0, y0, x, y))) by {
        lemma_grid_index_bounds(w, h, x, y);
        if vis(g1, w, x, y) && !vis(g0, w, x, y) && !(x == x0 && y == y0) && !adjacent(
            x0,
            y0,
            x,
            y,
        ) {
            let (ex, ey) = choose|ex: int, ey: int|
                #[trigger] expanded_zero(g0, g1, w, h, ex, ey) && adjacent(ex, ey, x, y);
            lemma_grid_index_bounds(w, h, ex, ey);
        }
    }
}

/// A path the fill must follow: consecutive positions touch, and every
/// position after the first is an existing cell that was hidden with no
/// bombs around it before the reveal began.
pub open spec fn zero_chain(g0: Seq<Cell>, w: int, h: int, p: Seq<(int, int)>) -> bool {
    &&& forall|i: int|
        0 <= i < p.len() - 1 ==> adjacent((#[trigger] p[i]).0, p[i].1, p[i + 1].0, p[i + 1].1)
    &&& forall|i: int|
        1 <= i < p.len() ==> {
            &&& in_grid(w, h, (#[trigger] p[i]).0, p[i].1)
            &&& g0[grid_index(w, p[i].0, p[i].1)].neighbors == 0
            &&& !vis(g0, w, p[i].0, p[i].1)
        }
}

/// The reveal is also complete: along any chain of hidden empty cells
/// leading away from the clicked cell, every cell is revealed and so is its
/// whole ring — the fill never stops early.
pub proof fn lemma_open_follows_chains(
    g0: Seq<Cell>,
    g1: Seq<Cell>,
    w: int,
    h: int,
    x0: int,
    y0: int,
    p: Seq<(int, int)>,
)
    requires
        0 <= w <= 255,
        0 <= h <= 255,
        g0.len() == (w + 1) * (h + 1),
        in_grid(w, h, x0, y0),
        open_rel(g0, g1, w, h, x0, y0),
        p.len() >= 1,
        p[0] == (x0, y0),
        zero_chain(g0, w, h, p),
    ensures
        forall|i: int|
            1 <= i < p.len() ==> vis(g1, w, (#[trigger] p[i]).0, p[i].1) && ring_vis(
                g1,
                w,
                h,
                p[i].0,
                p[i].1,
            ),
    decreases p.len(),
{
    if p.len() >= 2 {
        let q = p.drop_last();
        assert(zero_chain(g0, w, h, q));
        lemma_open_follows_chains(g0, g1, w, h, x0, y0, q);
        let n = p.len() - 1;
        let c = p[n];
        let e = p[n - 1];
        assert(adjacent(e.0, e.1, c.0, c.1));
        if n == 1 {
            assert(vis(g1, w, c.0, c.1));
        } else {
            assert(q[n - 1] == p[n - 1]);
            assert(ring_vis(g1, w, h, e.0, e.1));
            assert(vis(g1, w, c.0, c.1));
        }
        assert(expanded_zero(g0, g1, w, h, c.0, c.1));
        assert(ring_vis(g1, w, h, c.0, c.1));
        assert forall|i: int|
            1 <= i < p.len() implies vis(g1, w, (#[trigger] p[i]).0, p[i].1) && ring_vis(
            g1,
            w,
            h,
            p[i].0,
            p[i].1,
        ) by {
            if i < n {
                assert(q[i] == p[i]);
            }
        }
    }
}

/// One if this cell still hides an empty neighborhood — the fill could
/// still expand through it — and zero otherwise.
pub open spec fn hz_ind(c: Cell) -> nat {
    if c.neighbors == 0 && !c.visible {
        1
    } else {
        0
    }
}

/// How many cells the fill could still expand through: the termination
/// measure of the reveal loop.
pub open spec fn hidden_zero_count(g: Seq<Cell>) -> nat
    decreases g.len(),
{
    if g.len() == 0 {
        0
    } else {
        hidden_zero_count(g.drop_last()) + hz_ind(g.last())
    }
}

proof fn lemma_hzc_update(g: Seq<Cell>, i: int, c: Cell)
    requires
        0 <= i < g.len(),
    ensures
        hidden_zero_count(g.update(i, c)) + hz_ind(g[i]) == hidden_zero_count(g) + hz_ind(c),
    decreases g.len(),
{
    let g2 = g.update(i, c);
    if i == g.len() - 1 {
        assert(g2.drop_last() =~= g.drop_last());
        assert(g2.last() == c);
    } else {
        lemma_hzc_update(g.drop_last(), i, c);
        assert(g2.drop_last() =~= g.drop_last().update(i, c));
        assert(g2.last() == g.last());
    }
}

/// Whether grid position `(x, y)` sits somewhere on the work stack.
pub open spec fn on_stack(stack: Seq<(usize, usize)>, x: int, y: int) -> bool {
    exists|j: int|
        0 <= j < stack.len() && (#[trigger] stack[j]).0 as int == x && stack[j].1 as int == y
}

/// A work-stack entry is a real position, and it is either the clicked cell
/// or a cell the fill already expanded through.
pub open spec fn stack_elem_ok(
    g0: Seq<Cell>,
    g: Seq<Cell>,
    w: int,
    h: int,
    x0: int,
    y0: int,
    e: (usize, usize),
) -> bool {
    &&& in_grid(w, h, e.0 as int, e.1 as int)
    &&& ((e.0 as int == x0 && e.1 as int == y0) || expanded_zero(
        g0,
        g,
        w,
        h,
        e.0 as int,
        e.1 as int,
    ))
}

/// The clicked cell, and every cell the fill expanded through, either still
/// waits on the stack or already has its whole ring revealed.
pub open spec fn pending_done(
    g0: Seq<Cell>,
    g: Seq<Cell>,
    stack: Seq<(usize, usize)>,
    w: int,
    h: int,
    x0: int,
    y0: int,
) -> bool {
    &&& (on_stack(stack, x0, y0) || ring_vis(g, w, h, x0, y0))
    &&& forall|ex: int, ey: int|
        #[trigger] expanded_zero(g0, g, w, h, ex, ey) ==> on_stack(stack, ex, ey) || ring_vis(
            g,
            w,
            h,
            ex,
            ey,
        )
}

/// As [`pending_done`], but the cell `(ax, ay)` — the one just popped and
/// being worked on — is excused until its ring is finished.
pub open spec fn pending_done_except(
    g0: Seq<Cell>,
    g: Seq<Cell>,
    stack: Seq<(usize, usize)>,
    w: int,
    h: int,
    x0: int,
    y0: int,
    ax: int,
    ay: int,
) -> bool {
    &&& ((x0 == ax && y0 == ay) || on_stack(stack, x0, y0) || ring_vis(g, w, h, x0, y0))
    &&& forall|ex: int, ey: int|
        #[trigger] expanded_zero(g0, g, w, h, ex, ey) ==> (ex == ax && ey == ay) || on_stack(
            stack,
            ex,
            ey,
        ) || ring_vis(g, w, h, ex, ey)
}

/// The part of the reveal loop's invariant that holds at every moment,
/// even in the middle of working off one stack cell's ring.
pub open spec fn core_inv(
    g0: Seq<Cell>,
    g: Seq<Cell>,
    stack: Seq<(usize, usize)>,
    w: int,
    h: int,
    x0: int,
    y0: int,
) -> bool {
    &&& 0 <= w <= 255
    &&& 0 <= h <= 255
    &&& g.len() == (w + 1) * (h + 1)
    &&& g0.len() == g.len()
    &&& same_but_visibility(g0, g)
    &&& visibility_grows(g0, g)
    &&& in_grid(w, h, x0, y0)
    &&& vis(g, w, x0, y0)
    &&& forall|j: int|
        0 <= j < stack.len() ==> stack_elem_ok(g0, g, w, h, x0, y0, (#[trigger] stack[j]))
    &&& newly_reachable(g0, g, w, h, x0, y0)
}

/// The reveal loop's invariant, tying the grid before the reveal (`g0`),
/// the grid now (`g`), and the work stack together.
pub open spec fn sweep_inv(
    g0: Seq<Cell>,
    g: Seq<Cell>,
    stack: Seq<(usize, usize)>,
    w: int,
    h: int,
    x0: int,
    y0: int,
) -> bool {
    &&& core_inv(g0, g, stack, w, h, x0, y0)
    &&& pending_done(g0, g, stack, w, h, x0, y0)
}

/// A ring stays revealed as visibility grows.
proof fn lemma_ring_vis_monotone(g1: Seq<Cell>, g2: Seq<Cell>, w: int, h: int, x: int, y: int)
    requires
        0 <= w <= 255,
        0 <= h <= 255,
        g1.len() == (w + 1) * (h + 1),
        g2.len() == g1.len(),
        visibility_grows(g1, g2),
        ring_vis(g1, w, h, x, y),
    ensures
        ring_vis(g2, w, h, x, y),
{
    assert forall|a: int, b: int|
        in_grid(w, h, a, b) && #[trigger] adjacent(x, y, a, b) implies vis(g2, w, a, b) by {
        lemma_grid_index_bounds(w, h, a, b);
    }
}

/// Marking one hidden neighbor of a stack cell visible — pushing it when
/// the fill expands through it — keeps the reveal loop's invariant, and
/// trades one waiting cell for one stack entry.
proof fn lemma_visit_mark(
    g0: Seq<Cell>,
    g: Seq<Cell>,
    stack: Seq<(usize, usize)>,
    w: int,
    h: int,
    x0: int,
    y0: int,
    ex: int,
    ey: int,
    a: int,
    b: int,
    pushed: bool,
)
    requires
        core_inv(g0, g, stack, w, h, x0, y0),
        pending_done_except(g0, g, stack, w, h, x0, y0, ex, ey),
        in_grid(w, h, ex, ey),
        (ex == x0 && ey == y0) || expanded_zero(g0, g, w, h, ex, ey),
        adjacent(ex, ey, a, b),
        in_grid(w, h, a, b),
        !vis(g, w, a, b),
        pushed == (g[grid_index(w, a, b)].neighbors == 0),
    ensures
        core_inv(
            g0,
            g.update(grid_index(w, a, b), (Cell { visible: true, ..g[grid_index(w, a, b)] })),
            (if pushed {
                stack.push((a as usize, b as usize))
            } else {
                stack
            }),
            w,
            h,
            x0,
            y0,
        ),
        pending_done_except(
            g0,
            g.update(grid_index(w, a, b), (Cell { visible: true, ..g[grid_index(w, a, b)] })),
            (if pushed {
                stack.push((a as usize, b as usize))
            } else {
                stack
            }),
            w,
            h,
            x0,
            y0,
            ex,
            ey,
        ),
{
    let i = grid_index(w, a, b);
    let g2 = g.update(i, Cell { visible: true, ..g[i] });
    let stack2 = if pushed {
        stack.push((a as usize, b as usize))
    } else {
        stack
    };
    lemma_grid_index_bounds(w, h, a, b);

    // positions other than (a, b) keep their cells
    assert forall|x: int, y: int|
        in_grid(w, h, x, y) && !(x == a && y == b) implies g2[#[trigger] grid_index(w, x, y)]
        == g[grid_index(w, x, y)] by {
        lemma_grid_index_bounds(w, h, x, y);
        if grid_index(w, x, y) == i {
            lemma_grid_index_injective(w, x, y, a, b);
        }
    }
    assert(visibility_grows(g, g2));
    assert(visibility_grows(g0, g2));
    assert(vis(g2, w, a, b));

    // the hidden cell was hidden before the whole reveal began
    assert(!vis(g0, w, a, b));

    // stack entries stay valid, and a pushed entry is freshly expanded
    assert forall|j: int|
        0 <= j < stack2.len() implies stack_elem_ok(g0, g2, w, h, x0, y0, (#[trigger] stack2[j])) by {
        if j < stack.len() {
            assert(stack_elem_ok(g0, g, w, h, x0, y0, stack[j]));
        } else {
            assert(stack2[j] == (a as usize, b as usize));
            assert(expanded_zero(g0, g2, w, h, a, b));
        }
    }

    // nothing out of reach became visible: the one new cell has its witness
    assert forall|x: int, y: int|
        in_grid(w, h, x, y) && #[trigger] vis(g2, w, x, y) && !vis(g0, w, x, y) implies {
        ||| (x == x0 && y == y0)
        ||| adjacent(x0, y0, x, y)
        ||| exists|px: int, py: int|
            #[trigger] expanded_zero(g0, g2, w, h, px, py) && adjacent(px, py, x, y)
    } by {
        if x == a && y == b {
            if ex == x0 && ey == y0 {
                assert(adjacent(x0, y0, x, y));
            } else {
                assert(expanded_zero(g0, g2, w, h, ex, ey));
                assert(expanded_zero(g0, g2, w, h, ex, ey) && adjacent(ex, ey, x, y));
            }
        } else {
            assert(vis(g, w, x, y));
            if !(x == x0 && y == y0) && !adjacent(x0, y0, x, y) {
                let (px, py) = choose|px: int, py: int|
                    #[trigger] expanded_zero(g0, g, w, h, px, py) && adjacent(px, py, x, y);
                assert(expanded_zero(g0, g2, w, h, px, py) && adjacent(px, py, x, y));
            }
        }
    }

    // every waiting cell still waits, is excused, or has its ring done
    assert forall|px: int, py: int|
        #[trigger] expanded_zero(g0, g2, w, h, px, py) implies (px == ex && py == ey) || on_stack(
        stack2,
        px,
        py,
    ) || ring_vis(g2, w, h, px, py) by {
        if px == a && py == b {
            assert(g[i].neighbors == g0[i].neighbors);
            assert(pushed);
            assert(stack2[stack2.len() - 1].0 as int == a && stack2[stack2.len() - 1].1 as int
                == b);
            assert(on_stack(stack2, px, py));
        } else if !(px == ex && py == ey) {
            assert(expanded_zero(g0, g, w, h, px, py));
            if on_stack(stack, px, py) {
                let j = choose|j: int|
                    0 <= j < stack.len() && (#[trigger] stack[j]).0 as int == px && stack[j].1
                        as int == py;
                assert(0 <= j < stack2.len() && stack2[j].0 as int == px && stack2[j].1 as int
                    == py);
                assert(on_stack(stack2, px, py));
            } else {
                lemma_ring_vis_monotone(g, g2, w, h, px, py);
            }
        }
    }
    if !(x0 == ex && y0 == ey) {
        if on_stack(stack, x0, y0) {
            let j = choose|j: int|
                0 <= j < stack.len() && (#[trigger] stack[j]).0 as int == x0 && stack[j].1 as int
                    == y0;
            assert(0 <= j < stack2.len() && stack2[j].0 as int == x0 && stack2[j].1 as int == y0);
            assert(on_stack(stack2, x0, y0));
        } else {
            lemma_ring_vis_monotone(g, g2, w, h, x0, y0);
        }
    }
}

impl MineSweeper {
    /// Reveals one existing neighbor `(a, b)` of the stack cell `(ex, ey)`,
    /// pushing it onto the work stack when the fill expands through it.
    /// Out-of-range neighbor positions are skipped, never indexed.
    fn visit_neighbor(
        &mut self,
        a: i64,
        b: i64,
        stack: &mut Vec<(usize, usize)>,
        Ghost(g0): Ghost<Seq<Cell>>,
        Ghost(x0): Ghost<int>,
        Ghost(y0): Ghost<int>,
        Ghost(ex): Ghost<int>,
        Ghost(ey): Ghost<int>,
    )
        requires
            old(self).wf(),
            core_inv(
                g0,
                old(self).field@,
                old(stack)@,
                old(self).width as int,
                old(self).height as int,
                x0,
                y0,
            ),
            pending_done_except(
                g0,
                old(self).field@,
                old(stack)@,
                old(self).width as int,
                old(self).height as int,
                x0,
                y0,
                ex,
                ey,
            ),
            in_grid(old(self).width as int, old(self).height as int, ex, ey),
            (ex == x0 && ey == y0) || expanded_zero(
                g0,
                old(self).field@,
                old(self).width as int,
                old(self).height as int,
                ex,
                ey,
            ),
            adjacent(ex, ey, a as int, b as int),
        ensures
            final(self).wf(),
            final(self).width == old(self).width,
            final(self).height == old(self).height,
            final(self).field_origin == old(self).field_origin,
            final(self).moves == old(self).moves,
            final(self).level == old(self).level,
            final(self).page == old(self).page,
            core_inv(
                g0,
                final(self).field@,
                final(stack)@,
                old(self).width as int,
                old(self).height as int,
                x0,
                y0,
            ),
            pending_done_except(
                g0,
                final(self).field@,
                final(stack)@,
                old(self).width as int,
                old(self).height as int,
                x0,
                y0,
                ex,
                ey,
            ),
            visibility_grows(old(self).field@, final(self).field@),
            old(stack)@.len() <= final(stack)@.len(),
            forall|j: int| 0 <= j < old(stack)@.len() ==> final(stack)@[j] == old(stack)@[j],
            hidden_zero_count(final(self).field@) + final(stack)@.len() == hidden_zero_count(
                old(self).field@,
            ) + old(stack)@.len(),
            in_grid(old(self).width as int, old(self).height as int, a as int, b as int) ==> vis(
                final(self).field@,
                old(self).width as int,
                a as int,
                b as int,
            ),
    {
        if 0 <= a && a <= self.width as i64 && 0 <= b && b <= self.height as i64 {
            let xu: usize = a as usize;
            let yu: usize = b as usize;
            let i: usize = self.index_of(xu, yu);
            let c: Cell = self.field[i];
            if !c.visible {
                let ghost before: Seq<Cell> = self.field@;
                let pushed: bool = c.neighbors == 0;
                self.field[i] = Cell { visible: true, ..c };
                if pushed {
                    stack.push((xu, yu));
                }
                proof {
                    lemma_visit_mark(
                        g0,
                        before,
                        old(stack)@,
                        old(self).width as int,
                        old(self).height as int,
                        x0,
                        y0,
                        ex,
                        ey,
                        a as int,
                        b as int,
                        pushed,
                    );
                    lemma_hzc_update(before, i as int, (Cell { visible: true, ..c }));
                }
            }
        }
    }

    /// Works off one stack cell: reveals all eight of its neighbor
    /// positions, expanding the fill through any that still hid an empty
    /// neighborhood.
    fn open_ring(
        &mut self,
        ex: usize,
        ey: usize,
        stack: &mut Vec<(usize, usize)>,
        Ghost(g0): Ghost<Seq<Cell>>,
        Ghost(x0): Ghost<int>,
        Ghost(y0): Ghost<int>,
    )
        requires
            old(self).wf(),
            core_inv(
                g0,
                old(self).field@,
                old(stack)@,
                old(self).width as int,
                old(self).height as int,
                x0,
                y0,
            ),
            pending_done_except(
                g0,
                old(self).field@,
                old(stack)@,
                old(self).width as int,
                old(self).height as int,
                x0,
                y0,
                ex as int,
                ey as int,
            ),
            in_grid(old(self).width as int, old(self).height as int, ex as int, ey as int),
            (ex as int == x0 && ey as int == y0) || expanded_zero(
                g0,
                old(self).field@,
                old(self).width as int,
                old(self).height as int,
                ex as int,
                ey as int,
            ),
        ensures
            final(self).wf(),
            final(self).width == old(self).width,
            final(self).height == old(self).height,
            final(self).field_origin == old(self).field_origin,
            final(self).moves == old(self).moves,
            final(self).level == old(self).level,
            final(self).page == old(self).page,
            sweep_inv(
                g0,
                final(self).field@,
                final(stack)@,
                old(self).width as int,
                old(self).height as int,
                x0,
                y0,
            ),
            visibility_grows(old(self).field@, final(self).field@),
            hidden_zero_count(final(self).field@) + final(stack)@.len() == hidden_zero_count(
                old(self).field@,
            ) + old(stack)@.len(),
    {
        let ghost wi: int = self.width as int;
        let ghost hi: int = self.height as int;
        let ghost exi: int = ex as int;
        let ghost eyi: int = ey as int;
        proof {
            lemma_grid_index_bounds(wi, hi, exi, eyi);
        }
        let ea: i64 = ex as i64;
        let eb: i64 = ey as i64;
        self.visit_neighbor(
            ea - 1,
            eb - 1,
            stack,
            Ghost(g0),
            Ghost(x0),
            Ghost(y0),
            Ghost(exi),
            Ghost(eyi),
        );
        let ghost s1 = self.field@;
        self.visit_neighbor(
            ea,
            eb - 1,
            stack,
            Ghost(g0),
            Ghost(x0),
            Ghost(y0),
            Ghost(exi),
            Ghost(eyi),
        );
        let ghost s2 = self.field@;
        self.visit_neighbor(
            ea + 1,
            eb - 1,
            stack,
            Ghost(g0),
            Ghost(x0),
            Ghost(y0),
            Ghost(exi),
            Ghost(eyi),
        );
        let ghost s3 = self.field@;
        self.visit_neighbor(
            ea - 1,
            eb,
            stack,
            Ghost(g0),
            Ghost(x0),
            Ghost(y0),
            Ghost(exi),
            Ghost(eyi),
        );
        let ghost s4 = self.field@;
        self.visit_neighbor(
            ea + 1,
            eb,
            stack,
            Ghost(g0),
            Ghost(x0),
            Ghost(y0),
            Ghost(exi),
            Ghost(eyi),
        );
        let ghost s5 = self.field@;
        self.visit_neighbor(
            ea - 1,
            eb + 1,
            stack,
            Ghost(g0),
            Ghost(x0),
            Ghost(y0),
            Ghost(exi),
            Ghost(eyi),
        );
        let ghost s6 = self.field@;
        self.visit_neighbor(
            ea,
            eb + 1,
            stack,
            Ghost(g0),
            Ghost(x0),
            Ghost(y0),
            Ghost(exi),
            Ghost(eyi),
        );
        let ghost s7 = self.field@;
        self.visit_neighbor(
            ea + 1,
            eb + 1,
            stack,
            Ghost(g0),
            Ghost(x0),
            Ghost(y0),
            Ghost(exi),
            Ghost(eyi),
        );
        proof {
            assert forall|a2: int, b2: int|
                in_grid(wi, hi, a2, b2) && #[trigger] adjacent(exi, eyi, a2, b2) implies vis(
                self.field@,
                wi,
                a2,
                b2,
            ) by {
                lemma_grid_index_bounds(wi, hi, a2, b2);
                assert(a2 == exi - 1 || a2 == exi || a2 == exi + 1);
                assert(b2 == eyi - 1 || b2 == eyi || b2 == eyi + 1);
            }
            assert(ring_vis(self.field@, wi, hi, exi, eyi));
            assert(pending_done(g0, self.field@, stack@, wi, hi, x0, y0));
        }
    }

    /// Reveals the cell at `(x, y)` and flood-fills outward: every hidden
    /// cell with no bombs around it that the fill reaches is expanded
    /// through, and every expanded cell — like the clicked cell itself —
    /// has its whole ring of neighbors revealed, matching chord-reveal
    /// behavior. An explicit work queue takes the place of call-stack
    /// recursion, and the count of still-hidden empty cells bounds it, so
    /// the reveal always terminates.
    pub fn open(&mut self, x: usize, y: usize)
        requires
            old(self).wf(),
            x <= old(self).width as usize,
            y <= old(self).height as usize,
        ensures
            final(self).wf(),
            old(self).same_frame(*final(self)),
            final(self).moves == old(self).moves,
            final(self).level == old(self).level,
            final(self).page == old(self).page,
            open_rel(
                old(self).field@,
                final(self).field@,
                old(self).width as int,
                old(self).height as int,
                x as int,
                y as int,
            ),
    {
        let ghost g0 = self.field@;
        let ghost wi: int = self.width as int;
        let ghost hi: int = self.height as int;
        let ghost x0: int = x as int;
        let ghost y0: int = y as int;
        let i: usize = self.index_of(x, y);
        let c: Cell = self.field[i];
        if !c.visible {
            self.field[i] = Cell { visible: true, ..c };
        }
        let mut stack: Vec<(usize, usize)> = Vec::new();
        stack.push((x, y));
        proof {
            lemma_grid_index_bounds(wi, hi, x0, y0);
            assert forall|x2: int, y2: int|
                in_grid(wi, hi, x2, y2) && !(x2 == x0 && y2 == y0) implies self.field@[
            #[trigger] grid_index(wi, x2, y2)] == g0[grid_index(wi, x2, y2)] by {
                lemma_grid_index_bounds(wi, hi, x2, y2);
                if grid_index(wi, x2, y2) == i as int {
                    lemma_grid_index_injective(wi, x2, y2, x0, y0);
                }
            }
            assert(stack@[0].0 as int == x0 && stack@[0].1 as int == y0);
            assert(on_stack(stack@, x0, y0));
            assert forall|x2: int, y2: int|
                in_grid(wi, hi, x2, y2) && #[trigger] vis(self.field@, wi, x2, y2) && !vis(
                g0,
                wi,
                x2,
                y2,
            ) implies (x2 == x0 && y2 == y0) by {
                if !(x2 == x0 && y2 == y0) {
                    assert(self.field@[grid_index(wi, x2, y2)] == g0[grid_index(wi, x2, y2)]);
                }
            }
            assert forall|px: int, py: int|
                #[trigger] expanded_zero(g0, self.field@, wi, hi, px, py) implies on_stack(
                stack@,
                px,
                py,
            ) by {
                assert(px == x0 && py == y0);
            }
            assert(sweep_inv(g0, self.field@, stack@, wi, hi, x0, y0));
        }
        while stack.len() > 0
            invariant
                self.wf(),
                self.width == old(self).width,
                self.height == old(self).height,
                self.field_origin == old(self).field_origin,
                self.moves == old(self).moves,
                self.level == old(self).level,
                self.page == old(self).page,
                wi == self.width as int,
                hi == self.height as int,
                x0 == x as int,
                y0 == y as int,
                g0 == old(self).field@,
                sweep_inv(g0, self.field@, stack@, wi, hi, x0, y0),
            decreases hidden_zero_count(self.field@) + stack@.len(),
        {
            let ghost pre_stack = stack@;
            let e: (usize, usize) = stack.pop().unwrap();
            proof {
                assert(pre_stack[pre_stack.len() - 1] == e);
                assert(stack_elem_ok(g0, self.field@, wi, hi, x0, y0, e));
                assert forall|px: int, py: int|
                    #[trigger] expanded_zero(g0, self.field@, wi, hi, px, py) implies (px == e.0
                    as int && py == e.1 as int) || on_stack(stack@, px, py) || ring_vis(
                    self.field@,
                    wi,
                    hi,
                    px,
                    py,
                ) by {
                    if on_stack(pre_stack, px, py) {
                        let j = choose|j: int|
                            0 <= j < pre_stack.len() && (#[trigger] pre_stack[j]).0 as int == px
                                && pre_stack[j].1 as int == py;
                        if j < pre_stack.len() - 1 {
                            assert(stack@[j] == pre_stack[j]);
                            assert(on_stack(stack@, px, py));
                        }
                    }
                }
                if !(x0 == e.0 as int && y0 == e.1 as int) && on_stack(pre_stack, x0, y0) {
                    let j = choose|j: int|
                        0 <= j < pre_stack.len() && (#[trigger] pre_stack[j]).0 as int == x0
                            && pre_stack[j].1 as int == y0;
                    if j < pre_stack.len() - 1 {
                        assert(stack@[j] == pre_stack[j]);
                        assert(on_stack(stack@, x0, y0));
                    }
                }
            }
            self.open_ring(e.0, e.1, &mut stack, Ghost(g0), Ghost(x0), Ghost(y0));
        }
        proof {
            assert(!on_stack(stack@, x0, y0));
            assert(ring_vis(self.field@, wi, hi, x0, y0));
            assert forall|ex2: int, ey2: int|
                #[trigger] expanded_zero(g0, self.field@, wi, hi, ex2, ey2) implies ring_vis(
                self.field@,
                wi,
                hi,
                ex2,
                ey2,
            ) by {
                assert(!on_stack(stack@, ex2, ey2));
            }
            assert(open_rel(g0, self.field@, wi, hi, x0, y0));
        }
    }
}

} // verus!
