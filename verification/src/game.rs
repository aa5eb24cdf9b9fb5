//! The grid snapshot and the evolution engine.
//!
//! A [`Generation`] is one immutable timestep of the automaton: a dense
//! row-major grid of [`Cell`]s tagged with a sequential index. Addressing is
//! toroidal: a [`Position`] whose coordinates lie outside the grid wraps to
//! the opposite edge.

use vstd::prelude::*;

verus! {

/// A pair of signed coordinates. Coordinates may be negative or exceed the
/// grid bounds; they are resolved by modular wrap when addressing a
/// [`Generation`].
#[derive(Copy, Clone, Eq, PartialEq, Structural, Debug)]
pub struct Position(pub isize, pub isize);

/// The two-valued state of one grid cell.
#[derive(Copy, Clone, Eq, PartialEq, Structural, Debug)]
pub enum Cell {
    Alive,
    Dead,
}

impl Position {
    pub fn x(&self) -> (r: isize)
        ensures
            r == self.0,
    {
        self.0
    }

    pub fn y(&self) -> (r: isize)
        ensures
            r == self.1,
    {
        self.1
    }

    /// Vector addition of two positions.
    pub fn translate(self, rhs: Self) -> (r: Self)
        requires
            isize::MIN <= self.0 + rhs.0 <= isize::MAX,
            isize::MIN <= self.1 + rhs.1 <= isize::MAX,
        ensures
            r.0 == self.0 + rhs.0,
            r.1 == self.1 + rhs.1,
    {
        Position(self.0 + rhs.0, self.1 + rhs.1)
    }
}

impl Cell {
    pub fn is_alive(&self) -> (r: bool)
        ensures
            r == (*self is Alive),
    {
        match self {
            Self::Alive => true,
            Self::Dead => false,
        }
    }

    /// The logical complement of a cell state (Alive <-> Dead).
    pub fn complement(self) -> (r: Self)
        ensures
            r == (if self is Alive {
                Cell::Dead
            } else {
                Cell::Alive
            }),
    {
        match self {
            Self::Alive => Self::Dead,
            Self::Dead => Self::Alive,
        }
    }
}

/// Resolves one coordinate against an axis of extent `extent`: a negative
/// coordinate has the extent added once, any other is reduced modulo the
/// extent. For every coordinate at least `-extent` this agrees with the
/// always-non-negative remainder `c % extent`.
pub open spec fn wrap(c: int, extent: int) -> int {
    if c < 0 {
        c + extent
    } else {
        c % extent
    }
}

/// A coordinate no smaller than the negated extent resolves to the
/// always-non-negative remainder modulo the extent.
pub proof fn lemma_wrap_is_mod(c: int, extent: int)
    requires
        0 < extent,
        -extent <= c,
    ensures
        0 <= wrap(c, extent) < extent,
        wrap(c, extent) == c % extent,
{
    if c < 0 {
        vstd::arithmetic::div_mod::lemma_fundamental_div_mod_converse(c, extent, -1, c + extent);
    } else {
        vstd::arithmetic::div_mod::lemma_mod_bound(c, extent);
    }
}

/// Toroidal wrap correctness: displacing an in-grid position by a unit offset
/// and resolving it yields a coordinate inside `[0, w) x [0, h)` equal to the
/// non-negative remainder of the displaced coordinate.
pub proof fn lemma_toroidal_wrap(x: int, y: int, dx: int, dy: int, w: int, h: int)
    requires
        0 < w,
        0 < h,
        0 <= x < w,
        0 <= y < h,
        -1 <= dx <= 1,
        -1 <= dy <= 1,
    ensures
        0 <= wrap(x + dx, w) < w,
        0 <= wrap(y + dy, h) < h,
        wrap(x + dx, w) == (x + dx) % w,
        wrap(y + dy, h) == (y + dy) % h,
{
    lemma_wrap_is_mod(x + dx, w);
    lemma_wrap_is_mod(y + dy, h);
}

/// The mathematical value of a [`Generation`]: its dimensions, its sequence
/// number and its cells in row-major order.
#[verifier::ext_equal]
pub struct GridView {
    pub width: nat,
    pub height: nat,
    pub index: nat,
    pub cells: Seq<Cell>,
}

impl GridView {
    /// The cell at in-range coordinates `(x, y)`.
    pub open spec fn at(self, x: int, y: int) -> Cell {
        self.cells[y * self.width + x]
    }

    /// Dimensions are positive and the cell sequence covers the grid exactly.
    pub open spec fn wf(self) -> bool {
        &&& 0 < self.width <= isize::MAX
        &&& 0 < self.height <= isize::MAX
        &&& self.width * self.height <= usize::MAX
        &&& self.cells.len() == self.width * self.height
    }
}

/// The eight unit offsets around a position, in the row-major order in which
/// neighbours are fetched.
pub open spec fn neighbor_offsets() -> Seq<(int, int)> {
    seq![(-1, -1), (0, -1), (1, -1), (-1, 0), (1, 0), (-1, 1), (0, 1), (1, 1)]
}

/// The neighbour of `(x, y)` at offset number `k`, fetched with toroidal wrap
/// on both axes.
pub open spec fn neighbor_at(g: GridView, x: int, y: int, k: int) -> Cell {
    g.at(
        wrap(x + neighbor_offsets()[k].0, g.width as int),
        wrap(y + neighbor_offsets()[k].1, g.height as int),
    )
}

/// How many of the first `k` neighbours of `(x, y)` are alive.
pub open spec fn live_neighbors_upto(g: GridView, x: int, y: int, k: int) -> int
    decreases k,
{
    if k <= 0 {
        0
    } else {
        live_neighbors_upto(g, x, y, k - 1) + (if neighbor_at(g, x, y, k - 1) is Alive {
            1int
        } else {
            0int
        })
    }
}

/// The live-neighbour count of `(x, y)`: how many of its eight toroidal
/// neighbours are alive.
pub open spec fn live_neighbors(g: GridView, x: int, y: int) -> int {
    live_neighbors_upto(g, x, y, 8)
}

/// The transition rule (Conway B3/S23): a cell with exactly three live
/// neighbours is alive; one with exactly two stays alive if it was; every
/// other cell is dead.
pub open spec fn next_cell(g: GridView, x: int, y: int) -> Cell {
    let n = live_neighbors(g, x, y);
    if n == 3 {
        Cell::Alive
    } else if n == 2 && g.at(x, y) is Alive {
        Cell::Alive
    } else {
        Cell::Dead
    }
}

/// The successor grid: same dimensions, index one higher, every cell computed
/// from `g` by the transition rule.
pub open spec fn spec_next(g: GridView) -> GridView {
    GridView {
        width: g.width,
        height: g.height,
        index: g.index + 1,
        cells: Seq::new(
            g.width * g.height,
            |i: int| next_cell(g, i % (g.width as int), i / (g.width as int)),
        ),
    }
}

/// `n` applications of [`spec_next`] to `g`.
pub open spec fn spec_nth_after(g: GridView, n: nat) -> GridView
    decreases n,
{
    if n == 0 {
        g
    } else {
        spec_next(spec_nth_after(g, (n - 1) as nat))
    }
}

/// Index monotonicity: one step increments the index by exactly one, `n`
/// steps add exactly `n`, and zero steps return the grid unchanged.
pub proof fn lemma_index_monotonic(g: GridView, n: nat)
    ensures
        spec_next(g).index == g.index + 1,
        spec_nth_after(g, n).index == g.index + n,
        spec_nth_after(g, 0) == g,
    decreases n,
{
    if n > 0 {
        lemma_index_monotonic(g, (n - 1) as nat);
    }
}

/// Evolution preserves the grid's dimensions and its well-formedness.
pub proof fn lemma_nth_after_dims(g: GridView, n: nat)
    ensures
        spec_nth_after(g, n).width == g.width,
        spec_nth_after(g, n).height == g.height,
        g.wf() ==> spec_nth_after(g, n).wf(),
    decreases n,
{
    if n > 0 {
        lemma_nth_after_dims(g, (n - 1) as nat);
    }
}

/// One immutable snapshot of the automaton grid.
pub struct Generation {
    width: usize,
    height: usize,
    index: usize,
    cells: Vec<Cell>,
}

impl View for Generation {
    type V = GridView;

    closed spec fn view(&self) -> GridView {
        GridView {
            width: self.width as nat,
            height: self.height as nat,
            index: self.index as nat,
            cells: self.cells@,
        }
    }
}

impl Generation {
    /// Every reachable `Generation` is well-formed: positive dimensions and a
    /// dense `width * height` cell vector.
    #[verifier::type_invariant]
    pub(crate) open spec fn well_formed(self) -> bool {
        self@.wf()
    }

    /// A grid of the given dimensions with every cell set to `filler`.
    pub fn filled(index: usize, width: usize, height: usize, filler: Cell) -> (r: Self)
        requires
            0 < width <= isize::MAX,
            0 < height <= isize::MAX,
            width * height <= usize::MAX,
        ensures
            r@.width == width,
            r@.height == height,
            r@.index == index,
            r@.cells =~= Seq::new((width * height) as nat, |i: int| filler),
    {
        let size = width * height;
        let mut cells: Vec<Cell> = Vec::new();
        let mut i: usize = 0;
        while i < size
            invariant
                i <= size,
                cells@ =~= Seq::new(i as nat, |j: int| filler),
            decreases size - i,
        {
            cells.push(filler);
            i = i + 1;
        }
        Self { width, height, index, cells }
    }

    pub fn width(&self) -> (r: usize)
        ensures
            r == self@.width,
    {
        self.width
    }

    pub fn height(&self) -> (r: usize)
        ensures
            r == self@.height,
    {
        self.height
    }

    pub fn index(&self) -> (r: usize)
        ensures
            r == self@.index,
    {
        self.index
    }

    /// Row-major index of a position, with toroidal wrap on both axes.
    fn cell_idx(&self, position: Position) -> (idx: usize)
        requires
            -(self@.width as int) <= position.0,
            -(self@.height as int) <= position.1,
        ensures
            idx == wrap(position.1 as int, self@.height as int) * self@.width + wrap(
                position.0 as int,
                self@.width as int,
            ),
            idx < self@.width * self@.height,
    {
        proof {
            use_type_invariant(self);
        }
        let x: usize = if position.0 < 0 {
            (position.0 + self.width as isize) as usize
        } else {
            position.0 as usize % self.width
        };
        let y: usize = if position.1 < 0 {
            (position.1 + self.height as isize) as usize
        } else {
            position.1 as usize % self.height
        };
        proof {
            assert(x < self.width && y < self.height);
            assert(y * self@.width + x < self@.width * self@.height) by (nonlinear_arith)
                requires
                    x < self@.width,
                    y < self@.height,
                    0 < self@.width,
                    0 < self@.height,
            ;
        }
        x + y * self.width
    }

    /// The cell addressed by `position`, wrapping toroidally.
    pub fn cell_at(&self, position: Position) -> (r: Cell)
        requires
            -(self@.width as int) <= position.0,
            -(self@.height as int) <= position.1,
        ensures
            r == self@.at(
                wrap(position.0 as int, self@.width as int),
                wrap(position.1 as int, self@.height as int),
            ),
    {
        proof {
            use_type_invariant(self);
        }
        let idx = self.cell_idx(position);
        self.cells[idx]
    }

    /// Overwrites the cell addressed by `position`, wrapping toroidally.
    /// Dimensions and index are untouched.
    pub fn set_cell(&mut self, position: Position, cell: Cell)
        requires
            -(old(self)@.width as int) <= position.0,
            -(old(self)@.height as int) <= position.1,
        ensures
            final(self)@ == (GridView {
                cells: old(self)@.cells.update(
                    wrap(position.1 as int, old(self)@.height as int) * old(self)@.width + wrap(
                        position.0 as int,
                        old(self)@.width as int,
                    ),
                    cell,
                ),
                ..old(self)@
            }),
    {
        proof {
            use_type_invariant(&*self);
        }
        let idx = self.cell_idx(position);
        self.cells[idx] = cell;
    }

    /// A grid of the given dimensions filled cell by cell from uniform draws
    /// of `rng`. The dimensions and the index are pinned down; the cells are
    /// whatever the generator produced.
    pub fn random(index: usize, width: usize, height: usize, rng: &mut rand::rngs::SmallRng) -> (r:
        Self)
        requires
            0 < width <= isize::MAX,
            0 < height <= isize::MAX,
            width * height <= usize::MAX,
        ensures
            r@.width == width,
            r@.height == height,
            r@.index == index,
    {
        let size = width * height;
        let mut cells: Vec<Cell> = Vec::new();
        let mut i: usize = 0;
        while i < size
            invariant
                i <= size,
                cells@.len() == i,
            decreases size - i,
        {
            let cell = if crate::rng::coin_flip(rng) {
                Cell::Alive
            } else {
                Cell::Dead
            };
            cells.push(cell);
            i = i + 1;
        }
        Self { width, height, index, cells }
    }

    /// A grid of the given dimensions filled cell by cell from draws of a
    /// Bernoulli distribution, so that each cell is alive with the
    /// distribution's probability. The dimensions and the index are pinned
    /// down; the cells are whatever the draws produced.
    pub fn weighted(
        index: usize,
        width: usize,
        height: usize,
        distr: &rand::distributions::Bernoulli,
        rng: &mut rand::rngs::SmallRng,
    ) -> (r: Self)
        requires
            0 < width <= isize::MAX,
            0 < height <= isize::MAX,
            width * height <= usize::MAX,
        ensures
            r@.width == width,
            r@.height == height,
            r@.index == index,
    {
        let size = width * height;
        let mut cells: Vec<Cell> = Vec::new();
        let mut i: usize = 0;
        while i < size
            invariant
                i <= size,
                cells@.len() == i,
            decreases size - i,
        {
            let cell = if crate::rng::bernoulli_draw(distr, rng) {
                Cell::Alive
            } else {
                Cell::Dead
            };
            cells.push(cell);
            i = i + 1;
        }
        Self { width, height, index, cells }
    }

    /// The eight neighbours of `relative_to`, fetched with toroidal wrap, in
    /// the order of [`neighbor_offsets`].
    pub fn neighbouring_cells(&self, relative_to: Position) -> (r: Vec<Cell>)
        requires
            -(self@.width as int) <= relative_to.0 - 1,
            -(self@.height as int) <= relative_to.1 - 1,
            relative_to.0 + 1 <= isize::MAX,
            relative_to.1 + 1 <= isize::MAX,
        ensures
            r@.len() == 8,
            forall|k: int|
                0 <= k < 8 ==> r@[k] == neighbor_at(self@, relative_to.0 as int, relative_to.1 as int, k),
    {
        proof {
            use_type_invariant(self);
        }
        let Position(x, y) = relative_to;
        let mut r: Vec<Cell> = Vec::new();
        r.push(self.cell_at(Position(x - 1, y - 1)));
        r.push(self.cell_at(Position(x, y - 1)));
        r.push(self.cell_at(Position(x + 1, y - 1)));
        r.push(self.cell_at(Position(x - 1, y)));
        r.push(self.cell_at(Position(x + 1, y)));
        r.push(self.cell_at(Position(x - 1, y + 1)));
        r.push(self.cell_at(Position(x, y + 1)));
        r.push(self.cell_at(Position(x + 1, y + 1)));
        r
    }

    /// How many of the eight toroidal neighbours of `relative_to` are alive.
    fn live_neighbour_count(&self, relative_to: Position) -> (n: usize)
        requires
            -(self@.width as int) <= relative_to.0 - 1,
            -(self@.height as int) <= relative_to.1 - 1,
            relative_to.0 + 1 <= isize::MAX,
            relative_to.1 + 1 <= isize::MAX,
        ensures
            n == live_neighbors(self@, relative_to.0 as int, relative_to.1 as int),
    {
        let neighbours = self.neighbouring_cells(relative_to);
        let mut n: usize = 0;
        let mut k: usize = 0;
        while k < 8
            invariant
                k <= 8,
                n <= k,
                neighbours@.len() == 8,
                forall|j: int|
                    0 <= j < 8 ==> neighbours@[j] == neighbor_at(
                        self@,
                        relative_to.0 as int,
                        relative_to.1 as int,
                        j,
                    ),
                n == live_neighbors_upto(self@, relative_to.0 as int, relative_to.1 as int, k as int),
            decreases 8 - k,
        {
            if neighbours[k].is_alive() {
                n = n + 1;
            }
            k = k + 1;
        }
        n
    }

    /// The successor of this generation under the transition rule: a new
    /// snapshot with the same dimensions and an index one higher, computed
    /// wholly from `self`.
    pub fn next(&self) -> (r: Self)
        requires
            self@.index < usize::MAX,
        ensures
            r@ == spec_next(self@),
    {
        proof {
            use_type_invariant(self);
        }
        let mut next = Self::filled(self.index + 1, self.width, self.height, Cell::Dead);
        let ghost g = self@;
        let mut y: usize = 0;
        while y < self.height
            invariant
                y <= g.height,
                g == self@,
                g.wf(),
                self@.index < usize::MAX,
                next@.width == g.width,
                next@.height == g.height,
                next@.index == g.index + 1,
                next@.cells.len() == g.width * g.height,
                forall|i: int|
                    0 <= i < y * g.width ==> next@.cells[i] == next_cell(
                        g,
                        i % (g.width as int),
                        i / (g.width as int),
                    ),
            decreases g.height - y,
        {
            let mut x: usize = 0;
            while x < self.width
                invariant
                    x <= g.width,
                    y < g.height,
                    g == self@,
                    g.wf(),
                    self@.index < usize::MAX,
                    next@.width == g.width,
                    next@.height == g.height,
                    next@.index == g.index + 1,
                    next@.cells.len() == g.width * g.height,
                    forall|i: int|
                        0 <= i < y * g.width + x ==> next@.cells[i] == next_cell(
                            g,
                            i % (g.width as int),
                            i / (g.width as int),
                        ),
                decreases g.width - x,
            {
                let position = Position(x as isize, y as isize);
                let count = self.live_neighbour_count(position);
                let cell = if count == 3 {
                    Cell::Alive
                } else if count == 2 && self.cell_at(position).is_alive() {
                    Cell::Alive
                } else {
                    Cell::Dead
                };
                proof {
                    vstd::arithmetic::div_mod::lemma_small_mod(x as nat, g.width);
                    vstd::arithmetic::div_mod::lemma_small_mod(y as nat, g.height);
                    assert(cell == next_cell(g, x as int, y as int));
                    assert(y * g.width + x < g.width * g.height) by (nonlinear_arith)
                        requires
                            x < g.width,
                            y < g.height,
                    ;
                    vstd::arithmetic::div_mod::lemma_fundamental_div_mod_converse(
                        y * g.width + x,
                        g.width as int,
                        y as int,
                        x as int,
                    );
                }
                next.set_cell(position, cell);
                x = x + 1;
            }
            proof {
                assert((y + 1) * g.width == y * g.width + g.width) by (nonlinear_arith);
            }
            y = y + 1;
        }
        proof {
            assert(g.height * g.width == g.width * g.height) by (nonlinear_arith);
            assert(next@.cells =~= spec_next(g).cells);
            assert(next@ =~= spec_next(g));
        }
        next
    }

    /// The generation reached from `seed` by exactly `n` applications of the
    /// transition rule.
    pub fn nth_after(seed: &Self, n: usize) -> (r: Self)
        requires
            seed@.index + n <= usize::MAX,
        ensures
            r@ == spec_nth_after(seed@, n as nat),
    {
        let mut it = seed.clone();
        let mut k: usize = 0;
        while k < n
            invariant
                k <= n,
                seed@.index + n <= usize::MAX,
                it@ == spec_nth_after(seed@, k as nat),
            decreases n - k,
        {
            proof {
                lemma_index_monotonic(seed@, k as nat);
            }
            it = it.next();
            k = k + 1;
        }
        it
    }
}

impl Clone for Generation {
    /// A deep copy whose mathematical value equals the original's.
    fn clone(&self) -> (r: Self)
        ensures
            r@ == self@,
    {
        proof {
            use_type_invariant(self);
        }
        let mut cells: Vec<Cell> = Vec::new();
        let mut i: usize = 0;
        while i < self.cells.len()
            invariant
                i <= self.cells@.len(),
                cells@ =~= self.cells@.take(i as int),
            decreases self.cells@.len() - i,
        {
            cells.push(self.cells[i]);
            i = i + 1;
        }
        proof {
            assert(cells@ =~= self.cells@);
        }
        let r = Generation { width: self.width, height: self.height, index: self.index, cells };
        proof {
            assert(r@ =~= self@);
        }
        r
    }
}

} // verus!
