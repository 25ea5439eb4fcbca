//! One instantaneous board state.
//!
//! A [`Grid`] is a square board of boolean cells, `true` meaning alive. The
//! side length is fixed at construction; cells are stored row-major, the cell
//! at `(x, y)` at index `y * size + x`. The board does not wrap: neighbor
//! counting treats off-grid positions as dead (bounded, non-toroidal policy).

use vstd::prelude::*;

use crate::error::LifeError;
use crate::rng::{random_cells, rng_bit_at, rng_iter, Rng};

verus! {

/// The row-major index of the cell at `(x, y)` on a board of side `size`.
pub open spec fn cell_index(size: int, x: int, y: int) -> int {
    y * size + x
}

/// Whether the cell at `(x, y)` is alive, with every off-grid position dead.
pub open spec fn cell_at(cells: Seq<bool>, size: int, x: int, y: int) -> bool {
    0 <= x < size && 0 <= y < size && cells[cell_index(size, x, y)]
}

/// 1 when alive, 0 when dead.
pub open spec fn indicator(b: bool) -> int {
    if b {
        1
    } else {
        0
    }
}

/// The number of live cells among the 8 Moore-neighborhood positions around
/// `(x, y)`, off-grid positions counting as dead.
pub open spec fn neighbor_count_spec(cells: Seq<bool>, size: int, x: int, y: int) -> int {
    indicator(cell_at(cells, size, x - 1, y - 1)) + indicator(cell_at(cells, size, x, y - 1))
        + indicator(cell_at(cells, size, x + 1, y - 1)) + indicator(cell_at(cells, size, x - 1, y))
        + indicator(cell_at(cells, size, x + 1, y)) + indicator(cell_at(cells, size, x - 1, y + 1))
        + indicator(cell_at(cells, size, x, y + 1)) + indicator(cell_at(cells, size, x + 1, y + 1))
}

/// The standard Game of Life rule: a live cell with 2 or 3 live neighbors
/// survives, else dies; a dead cell with exactly 3 live neighbors is born.
pub open spec fn next_cell_spec(alive: bool, neighbors: int) -> bool {
    if alive {
        neighbors == 2 || neighbors == 3
    } else {
        neighbors == 3
    }
}

/// The whole next generation, every cell computed from the same prior board.
pub open spec fn next_gen(cells: Seq<bool>, size: int) -> Seq<bool> {
    Seq::new(
        cells.len(),
        |i: int| next_cell_spec(cells[i], neighbor_count_spec(cells, size, i % size, i / size)),
    )
}

/// The all-dead board of side `size`.
pub open spec fn all_dead(size: int) -> Seq<bool> {
    Seq::new((size * size) as nat, |i: int| false)
}

/// A row-major index arising from in-range coordinates is itself in range.
pub proof fn lemma_cell_index_bound(size: int, x: int, y: int)
    requires
        0 <= x < size,
        0 <= y < size,
    ensures
        0 <= cell_index(size, x, y) < size * size,
{
    assert(0 <= y * size + x < size * size) by (nonlinear_arith)
        requires
            0 <= x < size,
            0 <= y < size,
    ;
}

/// Row `y` ends at index `(y + 1) * size`, which stays within the board.
pub proof fn lemma_row_bound(size: int, y: int)
    requires
        0 <= y < size,
    ensures
        y * size + size == (y + 1) * size,
        (y + 1) * size <= size * size,
{
    assert(y * size + size == (y + 1) * size && (y + 1) * size <= size * size)
        by (nonlinear_arith)
        requires
            0 <= y < size,
    ;
}

/// Distinct in-range coordinates have distinct row-major indices.
pub proof fn lemma_cell_index_injective(size: int, x1: int, y1: int, x2: int, y2: int)
    requires
        0 <= x1 < size,
        0 <= y1 < size,
        0 <= x2 < size,
        0 <= y2 < size,
        cell_index(size, x1, y1) == cell_index(size, x2, y2),
    ensures
        x1 == x2 && y1 == y2,
{
    assert(x1 == x2 && y1 == y2) by (nonlinear_arith)
        requires
            0 <= x1 < size,
            0 <= y1 < size,
            0 <= x2 < size,
            0 <= y2 < size,
            y1 * size + x1 == y2 * size + x2,
    ;
}

/// A square board of boolean cells with a fixed side length.
#[derive(Debug)]
pub struct Grid {
    size: usize,
    cells: Vec<bool>,
}

impl View for Grid {
    type V = Seq<bool>;

    closed spec fn view(&self) -> Seq<bool> {
        self.cells@
    }
}

impl Grid {
    /// The side length, as a mathematical integer.
    pub closed spec fn spec_size(self) -> int {
        self.size as int
    }

    /// Well-formedness: a positive side length whose square fits the machine
    /// and counts the stored cells exactly.
    pub open spec fn wf(self) -> bool {
        &&& self.spec_size() > 0
        &&& self.spec_size() * self.spec_size() <= usize::MAX
        &&& self@.len() == self.spec_size() * self.spec_size()
    }

    /// Constructs a grid of side `size` with every cell dead.
    ///
    /// A zero side length is an invalid configuration.
    pub fn new(size: usize) -> (r: Result<Grid, LifeError>)
        requires
            size * size <= usize::MAX,
        ensures
            r is Ok <==> size > 0,
            r matches Ok(g) ==> g.wf() && g.spec_size() == size && g@ == all_dead(size as int),
            r matches Err(e) ==> e == LifeError::InvalidConfiguration,
    {
        if size == 0 {
            return Err(LifeError::InvalidConfiguration);
        }
        let total = size * size;
        let mut cells: Vec<bool> = Vec::new();
        let mut i: usize = 0;
        while i < total
            invariant
                i <= total,
                total == size * size,
                cells@.len() == i,
                forall|j: int| 0 <= j < i ==> !cells@[j],
            decreases total - i,
        {
            cells.push(false);
            i = i + 1;
        }
        let g = Grid { size, cells };
        proof {
            assert(g@ =~= all_dead(size as int));
        }
        Ok(g)
    }

    /// Constructs a grid of side `size` whose cells are drawn from `rng`,
    /// each alive with probability one half.
    ///
    /// A zero side length is an invalid configuration; the generator is then
    /// left untouched.
    pub fn new_randomized(size: usize, rng: &mut Rng) -> (r: Result<Grid, LifeError>)
        requires
            size * size <= usize::MAX,
        ensures
            r is Ok <==> size > 0,
            r matches Ok(g) ==> g.wf() && g.spec_size() == size && g@ == random_cells(
                old(rng).spec_state(),
                (size * size) as nat,
            ) && final(rng).spec_state() == rng_iter(old(rng).spec_state(), (size * size) as nat),
            r matches Err(e) ==> e == LifeError::InvalidConfiguration && *final(rng) == *old(rng),
    {
        if size == 0 {
            return Err(LifeError::InvalidConfiguration);
        }
        Ok(Grid::randomized(size, rng))
    }

    /// Fills a board of side `size` from `rng`, one draw per cell, row-major.
    pub(crate) fn randomized(size: usize, rng: &mut Rng) -> (g: Grid)
        requires
            size > 0,
            size * size <= usize::MAX,
        ensures
            g.wf(),
            g.spec_size() == size,
            g@ == random_cells(old(rng).spec_state(), (size * size) as nat),
            final(rng).spec_state() == rng_iter(old(rng).spec_state(), (size * size) as nat),
    {
        let ghost s0 = rng.spec_state();
        let total = size * size;
        let mut cells: Vec<bool> = Vec::new();
        let mut i: usize = 0;
        while i < total
            invariant
                i <= total,
                total == size * size,
                cells@.len() == i,
                rng.spec_state() == rng_iter(s0, i as nat),
                forall|j: int| 0 <= j < i ==> cells@[j] == rng_bit_at(s0, j),
            decreases total - i,
        {
            let b = rng.next_bool();
            proof {
                assert(rng_iter(s0, (i + 1) as nat) == crate::rng::rng_step(rng_iter(s0, i as nat)));
            }
            cells.push(b);
            i = i + 1;
        }
        let g = Grid { size, cells };
        proof {
            assert forall|j: int| 0 <= j < g@.len() implies g@[j] == random_cells(
                s0,
                (size * size) as nat,
            )[j] by {
                assert(g@[j] == rng_bit_at(s0, j));
            }
            assert(g@ =~= random_cells(s0, (size * size) as nat));
        }
        g
    }

    /// The fixed side length.
    pub fn size(&self) -> (s: usize)
        ensures
            s == self.spec_size(),
    {
        self.size
    }

    /// Whether the cell at `(x, y)` is alive.
    ///
    /// Fails with `OutOfBounds` when `x >= size` or `y >= size`.
    pub fn get(&self, x: usize, y: usize) -> (r: Result<bool, LifeError>)
        requires
            self.wf(),
        ensures
            r is Ok <==> x < self.spec_size() && y < self.spec_size(),
            r matches Ok(b) ==> b == cell_at(self@, self.spec_size(), x as int, y as int),
            r matches Err(e) ==> e == LifeError::OutOfBounds,
    {
        if x < self.size && y < self.size {
            Ok(self.cell(x, y))
        } else {
            Err(LifeError::OutOfBounds)
        }
    }

    /// Sets the cell at `(x, y)` to `alive`, leaving every other cell as it
    /// was.
    ///
    /// Fails with `OutOfBounds` when `x >= size` or `y >= size`; the board is
    /// then unchanged.
    pub fn set(&mut self, x: usize, y: usize, alive: bool) -> (r: Result<(), LifeError>)
        requires
            old(self).wf(),
        ensures
            final(self).wf(),
            final(self).spec_size() == old(self).spec_size(),
            r is Ok <==> x < old(self).spec_size() && y < old(self).spec_size(),
            r is Ok ==> final(self)@ == old(self)@.update(
                cell_index(old(self).spec_size(), x as int, y as int),
                alive,
            ),
            r matches Err(e) ==> e == LifeError::OutOfBounds && final(self)@ == old(self)@,
    {
        if x < self.size && y < self.size {
            proof {
                lemma_cell_index_bound(self.spec_size(), x as int, y as int);
            }
            let i = y * self.size + x;
            self.cells.set(i, alive);
            Ok(())
        } else {
            Err(LifeError::OutOfBounds)
        }
    }

    /// Counts the live cells among the 8 Moore-neighborhood positions around
    /// `(x, y)`. Off-grid neighbors count as dead: the board does not wrap.
    ///
    /// Fails with `OutOfBounds` when `x >= size` or `y >= size`.
    pub fn count_alive_neighbors(&self, x: usize, y: usize) -> (r: Result<u8, LifeError>)
        requires
            self.wf(),
        ensures
            r is Ok <==> x < self.spec_size() && y < self.spec_size(),
            r matches Ok(n) ==> n == neighbor_count_spec(self@, self.spec_size(), x as int, y as int)
                && n <= 8,
            r matches Err(e) ==> e == LifeError::OutOfBounds,
    {
        if x < self.size && y < self.size {
            Ok(self.neighbors(x, y))
        } else {
            Err(LifeError::OutOfBounds)
        }
    }

    /// Counts the live Moore neighbors of one in-range cell.
    fn neighbors(&self, x: usize, y: usize) -> (n: u8)
        requires
            self.wf(),
            x < self.spec_size(),
            y < self.spec_size(),
        ensures
            n == neighbor_count_spec(self@, self.spec_size(), x as int, y as int),
            n <= 8,
    {
        let mut n: u8 = 0;
        if x > 0 && y > 0 && self.cell(x - 1, y - 1) {
            n = n + 1;
        }
        if y > 0 && self.cell(x, y - 1) {
            n = n + 1;
        }
        if x + 1 < self.size && y > 0 && self.cell(x + 1, y - 1) {
            n = n + 1;
        }
        if x > 0 && self.cell(x - 1, y) {
            n = n + 1;
        }
        if x + 1 < self.size && self.cell(x + 1, y) {
            n = n + 1;
        }
        if x > 0 && y + 1 < self.size && self.cell(x - 1, y + 1) {
            n = n + 1;
        }
        if y + 1 < self.size && self.cell(x, y + 1) {
            n = n + 1;
        }
        if x + 1 < self.size && y + 1 < self.size && self.cell(x + 1, y + 1) {
            n = n + 1;
        }
        n
    }

    /// Computes the next generation: every cell's next state is derived from
    /// this same board (synchronous update), under the standard rule.
    pub fn next_generation(&self) -> (r: Grid)
        requires
            self.wf(),
        ensures
            r.wf(),
            r.spec_size() == self.spec_size(),
            r@ == next_gen(self@, self.spec_size()),
            forall|x: int, y: int|
                0 <= x < self.spec_size() && 0 <= y < self.spec_size()
                    ==> #[trigger] cell_at(r@, r.spec_size(), x, y) == next_cell_spec(
                    cell_at(self@, self.spec_size(), x, y),
                    neighbor_count_spec(self@, self.spec_size(), x, y),
                ),
    {
        let ghost cells = self@;
        let ghost gsize = self.spec_size();
        let ghost ng = next_gen(cells, gsize);
        let size = self.size;
        let total = self.cells.len();
        proof {
            assert(total == gsize * gsize);
        }
        let mut out: Vec<bool> = Vec::new();
        let mut y: usize = 0;
        while y < size
            invariant
                self.wf(),
                self@ == cells,
                self.spec_size() == gsize,
                size == gsize,
                total == gsize * gsize,
                ng == next_gen(cells, gsize),
                y <= size,
                out@.len() == y * size,
                forall|i: int| 0 <= i < out@.len() ==> out@[i] == ng[i],
            decreases size - y,
        {
            let mut x: usize = 0;
            proof {
                lemma_row_bound(gsize, y as int);
            }
            while x < size
                invariant
                    self.wf(),
                    self@ == cells,
                    self.spec_size() == gsize,
                    size == gsize,
                    total == gsize * gsize,
                    ng == next_gen(cells, gsize),
                    y < size,
                    x <= size,
                    out@.len() == y * size + x,
                    forall|i: int| 0 <= i < out@.len() ==> out@[i] == ng[i],
                decreases size - x,
            {
                let alive = self.cell(x, y);
                let count = self.neighbors(x, y);
                let next = if alive {
                    count == 2 || count == 3
                } else {
                    count == 3
                };
                proof {
                    lemma_cell_index_bound(gsize, x as int, y as int);
                    let i = cell_index(gsize, x as int, y as int);
                    vstd::arithmetic::div_mod::lemma_fundamental_div_mod_converse(
                        i,
                        gsize,
                        y as int,
                        x as int,
                    );
                    assert(ng[i] == next_cell_spec(
                        cells[i],
                        neighbor_count_spec(cells, gsize, x as int, y as int),
                    ));
                    assert(cells[i] == cell_at(cells, gsize, x as int, y as int));
                }
                out.push(next);
                x = x + 1;
            }
            y = y + 1;
        }
        let r = Grid { size, cells: out };
        proof {
            assert(r@ =~= ng);
            assert forall|x: int, y: int|
                0 <= x < gsize && 0 <= y < gsize implies #[trigger] cell_at(r@, gsize, x, y)
                == next_cell_spec(
                cell_at(cells, gsize, x, y),
                neighbor_count_spec(cells, gsize, x, y),
            ) by {
                lemma_cell_index_bound(gsize, x, y);
                let i = cell_index(gsize, x, y);
                vstd::arithmetic::div_mod::lemma_fundamental_div_mod_converse(i, gsize, y, x);
            }
        }
        r
    }

    /// Reads one in-range cell.
    fn cell(&self, x: usize, y: usize) -> (b: bool)
        requires
            self.wf(),
            x < self.spec_size(),
            y < self.spec_size(),
        ensures
            b == cell_at(self@, self.spec_size(), x as int, y as int),
    {
        proof {
            lemma_cell_index_bound(self.spec_size(), x as int, y as int);
        }
        let i = y * self.size + x;
        self.cells[i]
    }
}

/// On a freshly constructed, non-randomized board every cell is dead and
/// every in-range position has zero live neighbors.
pub proof fn lemma_all_dead_grid(size: int, x: int, y: int)
    requires
        size > 0,
        0 <= x < size,
        0 <= y < size,
    ensures
        all_dead(size).len() == size * size,
        !cell_at(all_dead(size), size, x, y),
        neighbor_count_spec(all_dead(size), size, x, y) == 0,
{
    assert forall|a: int, b: int| !(#[trigger] cell_at(all_dead(size), size, a, b)) by {
        if 0 <= a < size && 0 <= b < size {
            lemma_cell_index_bound(size, a, b);
        }
    }
}

/// The all-dead board is a fixed point of the transition rule: no cell has
/// three live neighbors, so stepping it forward changes nothing.
pub proof fn lemma_dead_board_is_fixed_point(size: int)
    requires
        size > 0,
    ensures
        next_gen(all_dead(size), size) == all_dead(size),
{
    let d = all_dead(size);
    assert forall|i: int| 0 <= i < d.len() implies next_gen(d, size)[i] == d[i] by {
        let x = i % size;
        let y = i / size;
        vstd::arithmetic::div_mod::lemma_fundamental_div_mod(i, size);
        vstd::arithmetic::div_mod::lemma_mod_division_less_than_divisor(i, size);
        assert(0 <= y < size) by (nonlinear_arith)
            requires
                0 <= i < size * size,
                i == size * y + x,
                0 <= x < size,
        ;
        lemma_all_dead_grid(size, x, y);
    }
    assert(next_gen(d, size) =~= d);
}

/// Setting one cell makes exactly that cell read back as written and leaves
/// every other cell exactly as it was.
pub proof fn lemma_set_get_round_trip(
    cells: Seq<bool>,
    size: int,
    x: int,
    y: int,
    alive: bool,
    x2: int,
    y2: int,
)
    requires
        cells.len() == size * size,
        0 <= x < size,
        0 <= y < size,
        0 <= x2 < size,
        0 <= y2 < size,
    ensures
        cell_at(cells.update(cell_index(size, x, y), alive), size, x, y) == alive,
        x2 != x || y2 != y ==> cell_at(cells.update(cell_index(size, x, y), alive), size, x2, y2)
            == cell_at(cells, size, x2, y2),
{
    lemma_cell_index_bound(size, x, y);
    lemma_cell_index_bound(size, x2, y2);
    if x2 != x || y2 != y {
        if cell_index(size, x, y) == cell_index(size, x2, y2) {
            lemma_cell_index_injective(size, x, y, x2, y2);
        }
    }
}

} // verus!
