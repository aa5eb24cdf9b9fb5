//! The incremental renderer.
//!
//! A [`DiffRenderer`] retains at most one previously rendered [`Generation`].
//! Given the next generation it computes a [`Frame`]: the minimal batch of
//! draw operations — an optional full clear, a three-way title decision and
//! one [`CellDraw`] per changed cell — that brings the visible surface from
//! the retained generation to the next one. Emitting a frame to a terminal is
//! a plain walk over this data and stays outside the library.

use crate::game::Generation;
use crate::game::GridView;
use crate::game::Cell;
use crate::game::Position;
use vstd::prelude::*;

verus! {

/// The three-way decision for the header line: redraw the whole title
/// including its fixed text prefix, redraw only the numeric suffix, or touch
/// nothing.
#[derive(Copy, Clone, Eq, PartialEq, Structural, Debug)]
pub enum TitleOp {
    Full,
    Partial,
    Nop,
}

/// One cell redraw: the grid position, in grid coordinates, and the state to
/// draw there.
#[derive(Copy, Clone, Eq, PartialEq, Structural, Debug)]
pub struct CellDraw {
    pub x: usize,
    pub y: usize,
    pub cell: Cell,
}

impl View for CellDraw {
    type V = (int, int, Cell);

    open spec fn view(&self) -> (int, int, Cell) {
        (self.x as int, self.y as int, self.cell)
    }
}

/// One batched render call: whether the surface is cleared first, the title
/// decision, the generation index the title would show, and the cell redraws
/// in row-major order.
#[derive(Debug)]
pub struct Frame {
    pub clear_all: bool,
    pub title: TitleOp,
    pub index: usize,
    pub cells: Vec<CellDraw>,
}

/// The mathematical value of a [`Frame`].
#[verifier::ext_equal]
pub struct FrameView {
    pub clear_all: bool,
    pub title: TitleOp,
    pub index: nat,
    pub cells: Seq<(int, int, Cell)>,
}

impl View for Frame {
    type V = FrameView;

    open spec fn view(&self) -> FrameView {
        FrameView {
            clear_all: self.clear_all,
            title: self.title,
            index: self.index as nat,
            cells: self.cells@.map_values(|cd: CellDraw| cd@),
        }
    }
}

/// A full redraw is forced when there is no retained generation or when the
/// dimensions changed.
pub open spec fn spec_full_redraw(next: GridView, prev: Option<GridView>) -> bool {
    match prev {
        None => true,
        Some(p) => p.width != next.width || p.height != next.height,
    }
}

/// The title decision: full on a full redraw, nothing when the index is
/// unchanged, only the numeric suffix otherwise.
pub open spec fn spec_title(next: GridView, prev: Option<GridView>) -> TitleOp {
    if spec_full_redraw(next, prev) {
        TitleOp::Full
    } else if next.index == prev.unwrap().index {
        TitleOp::Nop
    } else {
        TitleOp::Partial
    }
}

/// Whether the cell at `(x, y)` must be redrawn: always when diffing against
/// nothing, otherwise exactly when its state changed.
pub open spec fn needs_draw(next: GridView, against: Option<GridView>, x: int, y: int) -> bool {
    match against {
        None => true,
        Some(p) => next.at(x, y) != p.at(x, y),
    }
}

/// The row-major sequence of cell redraws for the first `n` positions of
/// `next`, diffed against `against`.
pub open spec fn diff_draws(next: GridView, against: Option<GridView>, n: int) -> Seq<
    (int, int, Cell),
>
    decreases n,
{
    if n <= 0 {
        Seq::empty()
    } else {
        let i = n - 1;
        let x = i % (next.width as int);
        let y = i / (next.width as int);
        let rest = diff_draws(next, against, i);
        if needs_draw(next, against, x, y) {
            rest.push((x, y, next.at(x, y)))
        } else {
            rest
        }
    }
}

/// The frame a renderer that retains `prev` emits for `next`: a full redraw
/// diffs every cell against nothing, an incremental one diffs against the
/// retained generation.
pub open spec fn spec_frame(next: GridView, prev: Option<GridView>) -> FrameView {
    let full = spec_full_redraw(next, prev);
    FrameView {
        clear_all: full,
        title: spec_title(next, prev),
        index: next.index,
        cells: diff_draws(
            next,
            if full {
                None
            } else {
                prev
            },
            next.width * next.height as int,
        ),
    }
}

/// An abstract picture of the visible surface: the cell drawn at each screen
/// position that has been drawn at all, and the index the title line shows,
/// if a title has been drawn.
#[verifier::ext_equal]
pub struct ScreenView {
    pub cells: Map<(int, int), Cell>,
    pub title: Option<nat>,
}

/// A surface nothing has been drawn on.
pub open spec fn blank_screen() -> ScreenView {
    ScreenView { cells: Map::empty(), title: None }
}

/// The surface after the draws in `ds` are applied in order.
pub open spec fn apply_draws(m: Map<(int, int), Cell>, ds: Seq<(int, int, Cell)>) -> Map<
    (int, int),
    Cell,
>
    decreases ds.len(),
{
    if ds.len() == 0 {
        m
    } else {
        apply_draws(m, ds.drop_last()).insert((ds.last().0, ds.last().1), ds.last().2)
    }
}

/// The surface after one frame: the optional clear first, then the cell
/// draws, then the title decision.
pub open spec fn apply_frame(s: ScreenView, f: FrameView) -> ScreenView {
    let base = if f.clear_all {
        blank_screen()
    } else {
        s
    };
    ScreenView {
        cells: apply_draws(base.cells, f.cells),
        title: if f.title is Nop {
            base.title
        } else {
            Some(f.index)
        },
    }
}

/// The surface that shows `g` exactly: every grid position carries its cell.
pub open spec fn picture(g: GridView) -> Map<(int, int), Cell> {
    Map::new(
        |p: (int, int)| 0 <= p.0 < g.width && 0 <= p.1 < g.height,
        |p: (int, int)| g.at(p.0, p.1),
    )
}

/// The surface that shows `g` exactly, title included.
pub open spec fn full_view(g: GridView) -> ScreenView {
    ScreenView { cells: picture(g), title: Some(g.index) }
}

/// Whether position `p` lies on the grid of `g`.
spec fn in_grid(g: GridView, p: (int, int)) -> bool {
    0 <= p.0 < g.width && 0 <= p.1 < g.height
}

/// The row-major number of position `p` on the grid of `g`.
spec fn cell_number(g: GridView, p: (int, int)) -> int {
    p.1 * g.width + p.0
}

/// Whether the first `n` diff draws against `against` repaint position `p`.
spec fn covered(g: GridView, against: Option<GridView>, n: int, p: (int, int)) -> bool {
    in_grid(g, p) && cell_number(g, p) < n && needs_draw(g, against, p.0, p.1)
}

/// Applying the first `n` diff draws repaints exactly the covered positions
/// with the cells of `g` and leaves every other position of the base surface
/// untouched.
proof fn lemma_apply_diff(g: GridView, against: Option<GridView>, m: Map<(int, int), Cell>, n: int)
    requires
        g.wf(),
        0 <= n <= g.width * g.height,
    ensures
        forall|p: (int, int)|
            covered(g, against, n, p) ==> {
                let r = apply_draws(m, diff_draws(g, against, n));
                r.dom().contains(p) && r[p] == g.at(p.0, p.1)
            },
        forall|p: (int, int)|
            !covered(g, against, n, p) ==> {
                let r = apply_draws(m, diff_draws(g, against, n));
                (r.dom().contains(p) <==> m.dom().contains(p)) && (m.dom().contains(p) ==> r[p]
                    == m[p])
            },
    decreases n,
{
    if n > 0 {
        let i = n - 1;
        let w = g.width as int;
        let x = i % w;
        let y = i / w;
        vstd::arithmetic::div_mod::lemma_fundamental_div_mod(i, w);
        vstd::arithmetic::div_mod::lemma_mod_bound(i, w);
        assert(0 <= y < g.height) by (nonlinear_arith)
            requires
                i == w * y + x,
                0 <= x < w,
                0 <= i < g.width * g.height,
                w == g.width,
                0 < g.height,
        ;
        assert(cell_number(g, (x, y)) == i) by (nonlinear_arith)
            requires
                i == w * y + x,
                w == g.width,
                cell_number(g, (x, y)) == y * g.width + x,
        ;
        lemma_apply_diff(g, against, m, i);
        let rest = diff_draws(g, against, i);
        let draws = diff_draws(g, against, n);
        let r_rest = apply_draws(m, rest);
        let r = apply_draws(m, draws);
        if needs_draw(g, against, x, y) {
            assert(draws == rest.push((x, y, g.at(x, y))));
            assert(draws.drop_last() =~= rest);
            assert(draws.last() == (x, y, g.at(x, y)));
            assert(r == r_rest.insert((x, y), g.at(x, y)));
        } else {
            assert(draws == rest);
        }
        assert forall|p: (int, int)| covered(g, against, n, p) implies {
            let rr = apply_draws(m, diff_draws(g, against, n));
            rr.dom().contains(p) && rr[p] == g.at(p.0, p.1)
        } by {
            if covered(g, against, i, p) {
                assert(r_rest.dom().contains(p) && r_rest[p] == g.at(p.0, p.1));
                if needs_draw(g, against, x, y) && p == (x, y) {
                    assert(r[p] == g.at(x, y));
                }
            } else {
                assert(cell_number(g, p) == i) by {
                    assert(cell_number(g, p) < n && !(cell_number(g, p) < i));
                }
                vstd::arithmetic::div_mod::lemma_fundamental_div_mod_converse(i, w, p.1, p.0);
                assert(p == (x, y));
                assert(r[p] == g.at(x, y));
            }
        }
        assert forall|p: (int, int)| !covered(g, against, n, p) implies {
            let rr = apply_draws(m, diff_draws(g, against, n));
            (rr.dom().contains(p) <==> m.dom().contains(p)) && (m.dom().contains(p) ==> rr[p]
                == m[p])
        } by {
            assert(!covered(g, against, i, p));
            assert((r_rest.dom().contains(p) <==> m.dom().contains(p)) && (m.dom().contains(p)
                ==> r_rest[p] == m[p]));
            if needs_draw(g, against, x, y) {
                assert(covered(g, against, n, (x, y)));
                assert(p != (x, y));
            }
        }
    }
}

/// After a frame that forces a full redraw the surface shows `next` exactly,
/// whatever it showed before.
pub proof fn lemma_apply_full(s: ScreenView, next: GridView, prev: Option<GridView>)
    requires
        next.wf(),
        spec_full_redraw(next, prev),
    ensures
        apply_frame(s, spec_frame(next, prev)) == full_view(next),
{
    let f = spec_frame(next, prev);
    let n = next.width * next.height as int;
    lemma_apply_diff(next, None, Map::empty(), n);
    let r = apply_draws(Map::empty(), f.cells);
    assert(f.cells == diff_draws(next, None, n));
    assert forall|p: (int, int)| r.dom().contains(p) <==> picture(next).dom().contains(p) by {
        if in_grid(next, p) {
            assert(cell_number(next, p) < n) by (nonlinear_arith)
                requires
                    0 <= p.0 < next.width,
                    0 <= p.1 < next.height,
                    n == next.width * next.height,
            ;
            assert(covered(next, None, n, p));
        } else {
            assert(!covered(next, None, n, p));
        }
    }
    assert forall|p: (int, int)| picture(next).dom().contains(p) implies r[p] == picture(
        next,
    )[p] by {
        assert(cell_number(next, p) < n) by (nonlinear_arith)
            requires
                0 <= p.0 < next.width,
                0 <= p.1 < next.height,
                n == next.width * next.height,
        ;
        assert(covered(next, None, n, p));
    }
    assert(r.dom() =~= picture(next).dom());
    assert(r =~= picture(next));
    assert(apply_frame(s, f) =~= full_view(next));
}

/// After an incremental frame applied to a surface that showed the retained
/// generation exactly, the surface shows `next` exactly: the full and the
/// incremental path converge.
pub proof fn lemma_apply_incremental(prev: GridView, next: GridView, s: ScreenView)
    requires
        prev.wf(),
        next.wf(),
        s == full_view(prev),
    ensures
        apply_frame(s, spec_frame(next, Some(prev))) == full_view(next),
{
    if spec_full_redraw(next, Some(prev)) {
        lemma_apply_full(s, next, Some(prev));
    } else {
        let f = spec_frame(next, Some(prev));
        let n = next.width * next.height as int;
        lemma_apply_diff(next, Some(prev), picture(prev), n);
        let r = apply_draws(picture(prev), f.cells);
        assert(f.cells == diff_draws(next, Some(prev), n));
        assert forall|p: (int, int)| r.dom().contains(p) <==> picture(next).dom().contains(
            p,
        ) by {
            if in_grid(next, p) {
                assert(cell_number(next, p) < n) by (nonlinear_arith)
                    requires
                        0 <= p.0 < next.width,
                        0 <= p.1 < next.height,
                        n == next.width * next.height,
                ;
                if needs_draw(next, Some(prev), p.0, p.1) {
                    assert(covered(next, Some(prev), n, p));
                } else {
                    assert(!covered(next, Some(prev), n, p));
                    assert(picture(prev).dom().contains(p));
                }
            } else {
                assert(!covered(next, Some(prev), n, p));
                assert(!picture(prev).dom().contains(p));
            }
        }
        assert forall|p: (int, int)| picture(next).dom().contains(p) implies r[p] == picture(
            next,
        )[p] by {
            assert(cell_number(next, p) < n) by (nonlinear_arith)
                requires
                    0 <= p.0 < next.width,
                    0 <= p.1 < next.height,
                    n == next.width * next.height,
            ;
            if needs_draw(next, Some(prev), p.0, p.1) {
                assert(covered(next, Some(prev), n, p));
            } else {
                assert(!covered(next, Some(prev), n, p));
                assert(picture(prev).dom().contains(p) && picture(prev)[p] == prev.at(p.0, p.1));
                assert(next.at(p.0, p.1) == prev.at(p.0, p.1));
            }
        }
        assert(r.dom() =~= picture(next).dom());
        assert(r =~= picture(next));
        assert(apply_frame(s, f) =~= full_view(next));
    }
}

/// Rendering a generation that is content-identical to the retained one —
/// same dimensions, same cells, same index — emits nothing: no clear, no
/// title redraw and no cell redraws.
pub proof fn lemma_render_idempotent(prev: GridView, next: GridView)
    requires
        next.width == prev.width,
        next.height == prev.height,
        next.index == prev.index,
        next.cells == prev.cells,
    ensures
        !spec_frame(next, Some(prev)).clear_all,
        spec_frame(next, Some(prev)).title is Nop,
        spec_frame(next, Some(prev)).cells.len() == 0,
{
    lemma_diff_draws_empty(next, prev, next.width * next.height as int);
}

/// Diffing against an identical grid draws nothing.
proof fn lemma_diff_draws_empty(g: GridView, against: GridView, n: int)
    requires
        against.width == g.width,
        against.height == g.height,
        against.cells == g.cells,
    ensures
        diff_draws(g, Some(against), n).len() == 0,
    decreases n,
{
    if n > 0 {
        lemma_diff_draws_empty(g, against, n - 1);
    }
}

/// Rendering a generation whose width or height differs from the retained
/// one forces a clear, a full title redraw, and a redraw of every cell.
pub proof fn lemma_render_resized(prev: GridView, next: GridView)
    requires
        next.width != prev.width || next.height != prev.height,
    ensures
        spec_frame(next, Some(prev)).clear_all,
        spec_frame(next, Some(prev)).title is Full,
        spec_frame(next, Some(prev)).cells.len() == next.width * next.height,
{
    lemma_diff_draws_all(next, next.width * next.height as int);
}

/// Diffing against nothing draws every one of the first `n` positions, in
/// row-major order.
proof fn lemma_diff_draws_all(g: GridView, n: int)
    requires
        0 <= n,
    ensures
        diff_draws(g, None, n).len() == n,
    decreases n,
{
    if n > 0 {
        lemma_diff_draws_all(g, n - 1);
    }
}

/// The surface reached by a chain of renders of `gens` through one renderer
/// that starts empty: the first render diffs against nothing, each later one
/// against its predecessor.
pub open spec fn chain_screen(gens: Seq<GridView>) -> ScreenView
    decreases gens.len(),
{
    if gens.len() == 0 {
        blank_screen()
    } else {
        apply_frame(
            chain_screen(gens.drop_last()),
            spec_frame(
                gens.last(),
                if gens.len() == 1 {
                    None
                } else {
                    Some(gens[gens.len() - 2])
                },
            ),
        )
    }
}

/// Renderer/content equivalence: for any non-empty sequence of generations,
/// the surface after the chain of incremental renders equals the surface
/// produced by a single forced full redraw of the last generation alone.
pub proof fn lemma_render_equivalence(gens: Seq<GridView>)
    requires
        gens.len() > 0,
        forall|i: int| 0 <= i < gens.len() ==> gens[i].wf(),
    ensures
        chain_screen(gens) == apply_frame(blank_screen(), spec_frame(gens.last(), None)),
    decreases gens.len(),
{
    lemma_apply_full(blank_screen(), gens.last(), None);
    if gens.len() == 1 {
        assert(chain_screen(gens) == apply_frame(blank_screen(), spec_frame(gens[0], None)));
    } else {
        let prefix = gens.drop_last();
        assert(forall|i: int| 0 <= i < prefix.len() ==> prefix[i] == gens[i]);
        lemma_render_equivalence(prefix);
        lemma_apply_full(blank_screen(), prefix.last(), None);
        lemma_apply_incremental(gens[gens.len() - 2], gens.last(), chain_screen(prefix));
    }
}

/// The incremental renderer: holds the generation most recently rendered,
/// initially none.
pub struct DiffRenderer {
    prev: Option<Generation>,
}

impl DiffRenderer {
    /// The retained generation, as a mathematical value.
    pub closed spec fn prev_view(&self) -> Option<GridView> {
        match self.prev {
            Some(g) => Some(g@),
            None => None,
        }
    }

    /// A renderer that has not rendered anything yet.
    pub fn new() -> (r: Self)
        ensures
            r.prev_view() is None,
    {
        DiffRenderer { prev: None }
    }

    /// Computes the frame for `next_gen` against the retained generation and
    /// retains `next_gen` in its place.
    #[verifier::loop_isolation(false)]
    pub fn render(&mut self, next_gen: &Generation) -> (frame: Frame)
        ensures
            frame@ == spec_frame(next_gen@, old(self).prev_view()),
            final(self).prev_view() == Some(next_gen@),
    {
        proof {
            use_type_invariant(next_gen);
        }
        let ghost g = next_gen@;
        let (full, title) = match &self.prev {
            None => (true, TitleOp::Full),
            Some(curr) => {
                let full = next_gen.width() != curr.width() || next_gen.height() != curr.height();
                let title = if full {
                    TitleOp::Full
                } else if next_gen.index() == curr.index() {
                    TitleOp::Nop
                } else {
                    TitleOp::Partial
                };
                (full, title)
            },
        };
        let ghost against: Option<GridView> = if full {
            None
        } else {
            old(self).prev_view()
        };
        let w = next_gen.width();
        let h = next_gen.height();
        let mut cells: Vec<CellDraw> = Vec::new();
        let mut y: usize = 0;
        while y < h
            invariant
                *self == *old(self),
                y <= g.height,
                w == g.width,
                h == g.height,
                g == next_gen@,
                g.wf(),
                against is Some ==> (against.unwrap().width == g.width
                    && against.unwrap().height == g.height && self.prev_view() == against),
                cells@.map_values(|cd: CellDraw| cd@) =~= diff_draws(g, against, y * g.width),
            decreases g.height - y,
        {
            let mut x: usize = 0;
            while x < w
                invariant
                    *self == *old(self),
                    x <= g.width,
                    y < g.height,
                    w == g.width,
                    h == g.height,
                    g == next_gen@,
                    g.wf(),
                    against is Some ==> (against.unwrap().width == g.width
                        && against.unwrap().height == g.height && self.prev_view() == against),
                    cells@.map_values(|cd: CellDraw| cd@) =~= diff_draws(g, against, y * g.width + x),
                decreases g.width - x,
            {
                let position = Position(x as isize, y as isize);
                proof {
                    vstd::arithmetic::div_mod::lemma_small_mod(x as nat, g.width);
                    vstd::arithmetic::div_mod::lemma_small_mod(y as nat, g.height);
                }
                let next_cell_state = next_gen.cell_at(position);
                let draw = if full {
                    true
                } else {
                    match &self.prev {
                        Some(curr) => {
                            let curr_state = curr.cell_at(position);
                            next_cell_state != curr_state
                        },
                        None => true,
                    }
                };
                proof {
                    assert(draw == needs_draw(g, against, x as int, y as int));
                    assert(y * g.width + x < g.width * g.height) by (nonlinear_arith)
                        requires
                            x < g.width,
                            y < g.height,
                    ;
                    vstd::arithmetic::div_mod::lemma_fundamental_div_mod_converse(
                        y * g.width + x,
                        g.width as int,
                        y as int,
                        x as int,
                    );
                }
                if draw {
                    cells.push(CellDraw { x, y, cell: next_cell_state });
                }
                proof {
                    assert(cells@.map_values(|cd: CellDraw| cd@) =~= diff_draws(
                        g,
                        against,
                        y * g.width + x + 1,
                    ));
                }
                x = x + 1;
            }
            proof {
                assert((y + 1) * g.width == y * g.width + g.width) by (nonlinear_arith);
            }
            y = y + 1;
        }
        let frame = Frame { clear_all: full, title, index: next_gen.index(), cells };
        self.prev = Some(next_gen.clone());
        proof {
            assert(g.height * g.width == g.width * g.height) by (nonlinear_arith);
            assert(frame@ =~= spec_frame(g, old(self).prev_view()));
        }
        frame
    }
}

} // verus!
