//! The mathematical model of a simulation: cells as a sequence of rows,
//! toroidal neighbourhoods, the transition rule and the statistics it keeps.
use crate::stats::Stats;
use vstd::arithmetic::div_mod::{lemma_fundamental_div_mod_converse, lemma_small_mod};
use vstd::prelude::*;

verus! {

/// `g` has exactly `h` rows of exactly `w` cells each.
pub open spec fn is_rect(g: Seq<Seq<bool>>, w: int, h: int) -> bool {
    &&& g.len() == h
    &&& forall|y: int| 0 <= y < h ==> (#[trigger] g[y]).len() == w
}

/// 1 when the cell at column `x`, row `y`, both taken modulo the grid's size
/// (so never negative), is alive; 0 otherwise.
pub open spec fn live_at(g: Seq<Seq<bool>>, w: int, h: int, x: int, y: int) -> nat {
    if g[y % h][x % w] {
        1
    } else {
        0
    }
}

/// Live cells among the eight wrapped positions around `(x, y)`.
pub open spec fn neighbor_count(g: Seq<Seq<bool>>, w: int, h: int, x: int, y: int) -> nat {
    live_at(g, w, h, x - 1, y - 1) + live_at(g, w, h, x, y - 1) + live_at(g, w, h, x + 1, y - 1)
        + live_at(g, w, h, x - 1, y) + live_at(g, w, h, x + 1, y)
        + live_at(g, w, h, x - 1, y + 1) + live_at(g, w, h, x, y + 1) + live_at(g, w, h, x + 1, y + 1)
}

/// The rule: a live cell survives with two or three live neighbours, a dead
/// cell comes alive with exactly three, every other cell is dead.
pub open spec fn next_state(alive: bool, n: nat) -> bool {
    if alive {
        n == 2 || n == 3
    } else {
        n == 3
    }
}

/// The next generation, every cell computed from generation `g` alone.
pub open spec fn next_cells(g: Seq<Seq<bool>>, w: int, h: int) -> Seq<Seq<bool>> {
    Seq::new(
        h as nat,
        |y: int| Seq::new(w as nat, |x: int| next_state(g[y][x], neighbor_count(g, w, h, x, y))),
    )
}

/// Live cells in one row.
pub open spec fn row_count(r: Seq<bool>) -> nat
    decreases r.len(),
{
    if r.len() == 0 {
        0
    } else {
        row_count(r.drop_last()) + if r.last() {
            1nat
        } else {
            0nat
        }
    }
}

/// Live cells in a grid.
pub open spec fn population(g: Seq<Seq<bool>>) -> nat
    decreases g.len(),
{
    if g.len() == 0 {
        0
    } else {
        population(g.drop_last()) + row_count(g.last())
    }
}

/// Marks the cells that are dead in `a` and alive in `b`.
pub open spec fn births(a: Seq<Seq<bool>>, b: Seq<Seq<bool>>) -> Seq<Seq<bool>> {
    Seq::new(a.len(), |y: int| Seq::new(a[y].len(), |x: int| !a[y][x] && b[y][x]))
}

/// Marks the cells that are alive in `a` and dead in `b`.
pub open spec fn deaths(a: Seq<Seq<bool>>, b: Seq<Seq<bool>>) -> Seq<Seq<bool>> {
    Seq::new(a.len(), |y: int| Seq::new(a[y].len(), |x: int| a[y][x] && !b[y][x]))
}

/// `a + b`, or `u64::MAX` where the sum does not fit.
pub open spec fn sat_add(a: u64, b: nat) -> u64 {
    if a + b <= u64::MAX {
        (a + b) as u64
    } else {
        u64::MAX
    }
}

/// The whole state of a simulation.
pub struct Life {
    pub cells: Seq<Seq<bool>>,
    pub width: nat,
    pub height: nat,
    pub running: bool,
    pub stats: Stats,
}

/// A grid that a simulation can hold: at least one row, its first row at
/// least one cell long, every row as long as the first, and a cell count
/// that fits in `usize`.
pub open spec fn valid_cells(g: Seq<Seq<bool>>) -> bool {
    &&& g.len() >= 1
    &&& g[0].len() >= 1
    &&& is_rect(g, g[0].len() as int, g.len() as int)
    &&& g[0].len() * g.len() <= usize::MAX
}

impl Life {
    /// Dimensions positive, cells in shape, population counted exactly.
    pub open spec fn wf(self) -> bool {
        &&& self.width >= 1
        &&& self.height >= 1
        &&& self.width * self.height <= usize::MAX
        &&& is_rect(self.cells, self.width as int, self.height as int)
        &&& self.stats.current_population == population(self.cells)
    }

    /// A paused simulation at generation zero over the grid `g`.
    pub open spec fn initial(g: Seq<Seq<bool>>) -> Life {
        Life {
            cells: g,
            width: g[0].len(),
            height: g.len(),
            running: false,
            stats: Stats {
                generation: 0,
                cells_created: 0,
                cells_destroyed: 0,
                current_population: population(g) as u64,
            },
        }
    }

    /// The state after one generation.
    pub open spec fn advanced(self) -> Life {
        let next = next_cells(self.cells, self.width as int, self.height as int);
        Life {
            cells: next,
            width: self.width,
            height: self.height,
            running: self.running,
            stats: Stats {
                generation: sat_add(self.stats.generation, 1),
                cells_created: sat_add(self.stats.cells_created, population(births(self.cells, next))),
                cells_destroyed: sat_add(
                    self.stats.cells_destroyed,
                    population(deaths(self.cells, next)),
                ),
                current_population: population(next) as u64,
            },
        }
    }

    /// The state with the run flag flipped.
    pub open spec fn toggled(self) -> Life {
        Life {
            cells: self.cells,
            width: self.width,
            height: self.height,
            running: !self.running,
            stats: self.stats,
        }
    }
}

/// A row never holds more live cells than it has cells.
pub proof fn lemma_row_count_le(r: Seq<bool>)
    ensures
        row_count(r) <= r.len(),
    decreases r.len(),
{
    if r.len() > 0 {
        lemma_row_count_le(r.drop_last());
    }
}

/// A grid of rows of width `w` holds at most `w` live cells per row.
pub proof fn lemma_population_le(g: Seq<Seq<bool>>, w: int)
    requires
        w >= 0,
        forall|y: int| 0 <= y < g.len() ==> (#[trigger] g[y]).len() == w,
    ensures
        population(g) <= g.len() * w,
    decreases g.len(),
{
    if g.len() > 0 {
        let init = g.drop_last();
        assert forall|y: int| 0 <= y < init.len() implies (#[trigger] init[y]).len() == w by {
            assert(init[y] == g[y]);
        }
        lemma_population_le(init, w);
        lemma_row_count_le(g.last());
        assert(g.len() * w == (g.len() - 1) * w + w) by (nonlinear_arith);
    }
}

/// A well-formed state stays well formed over one generation.
pub proof fn lemma_advanced_wf(m: Life)
    requires
        m.wf(),
    ensures
        m.advanced().wf(),
{
    let next = next_cells(m.cells, m.width as int, m.height as int);
    lemma_population_le(next, m.width as int);
    assert(next.len() * m.width == m.width * m.height) by (nonlinear_arith)
        requires
            next.len() == m.height,
    ;
}

/// The next generation depends on the cells and the dimensions alone: two
/// states that agree on them advance to the same cells and population,
/// whatever their run flags and counters.
pub proof fn lemma_update_deterministic(a: Life, b: Life)
    requires
        a.cells == b.cells,
        a.width == b.width,
        a.height == b.height,
    ensures
        a.advanced().cells == b.advanced().cells,
        a.advanced().stats.current_population == b.advanced().stats.current_population,
{
}

/// The grid wraps at its edges: a live cell in the first column is a
/// neighbour of the cell in the last column of its row and the other way
/// round, and likewise a live cell in the first row for the cell in the last
/// row of its column and the other way round.
pub proof fn lemma_toroidal_wrap(g: Seq<Seq<bool>>, w: int, h: int, x: int, y: int)
    requires
        w >= 1,
        h >= 1,
        is_rect(g, w, h),
        0 <= x < w,
        0 <= y < h,
    ensures
        g[y][0] ==> neighbor_count(g, w, h, w - 1, y) >= 1,
        g[y][w - 1] ==> neighbor_count(g, w, h, 0, y) >= 1,
        g[0][x] ==> neighbor_count(g, w, h, x, h - 1) >= 1,
        g[h - 1][x] ==> neighbor_count(g, w, h, x, 0) >= 1,
{
    lemma_small_mod(x as nat, w as nat);
    lemma_small_mod(y as nat, h as nat);
    lemma_fundamental_div_mod_converse(w, w, 1, 0);
    lemma_fundamental_div_mod_converse(h, h, 1, 0);
    lemma_fundamental_div_mod_converse(-1, w, -1, w - 1);
    lemma_fundamental_div_mod_converse(-1, h, -1, h - 1);
    assert(live_at(g, w, h, w - 1 + 1, y) == if g[y][0] { 1nat } else { 0nat });
    assert(live_at(g, w, h, 0 - 1, y) == if g[y][w - 1] { 1nat } else { 0nat });
    assert(live_at(g, w, h, x, h - 1 + 1) == if g[0][x] { 1nat } else { 0nat });
    assert(live_at(g, w, h, x, 0 - 1) == if g[h - 1][x] { 1nat } else { 0nat });
}

/// A row has no live cell exactly when its count is zero.
pub proof fn lemma_row_count_zero(r: Seq<bool>)
    ensures
        row_count(r) == 0 <==> forall|x: int| 0 <= x < r.len() ==> !(#[trigger] r[x]),
    decreases r.len(),
{
    if r.len() > 0 {
        let init = r.drop_last();
        lemma_row_count_zero(init);
        if row_count(r) == 0 {
            assert forall|x: int| 0 <= x < r.len() implies !(#[trigger] r[x]) by {
                if x < r.len() - 1 {
                    assert(init[x] == r[x]);
                }
            }
        }
        if forall|x: int| 0 <= x < r.len() ==> !(#[trigger] r[x]) {
            assert forall|x: int| 0 <= x < init.len() implies !(#[trigger] init[x]) by {
                assert(init[x] == r[x]);
            }
            assert(!r[r.len() - 1]);
        }
    }
}

/// A grid has no live cell exactly when its population is zero.
pub proof fn lemma_population_zero(g: Seq<Seq<bool>>)
    ensures
        population(g) == 0 <==> forall|y: int, x: int|
            0 <= y < g.len() && 0 <= x < g[y].len() ==> !(#[trigger] g[y][x]),
    decreases g.len(),
{
    if g.len() > 0 {
        let init = g.drop_last();
        lemma_population_zero(init);
        lemma_row_count_zero(g.last());
        if population(g) == 0 {
            assert forall|y: int, x: int| 0 <= y < g.len() && 0 <= x < g[y].len() implies !(
            #[trigger] g[y][x]) by {
                if y < g.len() - 1 {
                    assert(init[y] == g[y]);
                }
            }
        }
        if forall|y: int, x: int| 0 <= y < g.len() && 0 <= x < g[y].len() ==> !(#[trigger] g[y][x]) {
            assert forall|y: int, x: int| 0 <= y < init.len() && 0 <= x < init[y].len() implies !(
            #[trigger] init[y][x]) by {
                assert(init[y] == g[y]);
            }
            assert forall|x: int| 0 <= x < g.last().len() implies !(#[trigger] g.last()[x]) by {
                assert(!g[g.len() - 1][x]);
            }
        }
    }
}

/// A grid with no live cell stays without one: the next generation is all
/// dead, and no cell is born or dies, so the birth and death counters keep
/// their values.
pub proof fn lemma_all_dead_stays_dead(m: Life)
    requires
        m.wf(),
        population(m.cells) == 0,
    ensures
        population(m.advanced().cells) == 0,
        m.advanced().stats.current_population == 0,
        m.advanced().stats.cells_created == m.stats.cells_created,
        m.advanced().stats.cells_destroyed == m.stats.cells_destroyed,
{
    let g = m.cells;
    let w = m.width as int;
    let h = m.height as int;
    let next = next_cells(g, w, h);
    lemma_population_zero(g);
    assert forall|y: int, x: int| 0 <= y < h && 0 <= x < w implies neighbor_count(g, w, h, x, y)
        == 0 by {
        assert forall|i: int, j: int| #![trigger live_at(g, w, h, i, j)] live_at(g, w, h, i, j) == 0 by {
            let yy = j % h;
            let xx = i % w;
            assert(0 <= yy < h);
            assert(g[yy].len() == w);
            assert(!g[yy][xx]);
        }
    }
    assert forall|y: int, x: int| 0 <= y < next.len() && 0 <= x < next[y].len() implies !(
    #[trigger] next[y][x]) by {
        assert(!g[y][x]);
        assert(neighbor_count(g, w, h, x, y) == 0);
    }
    lemma_population_zero(next);
    let b = births(g, next);
    let d = deaths(g, next);
    assert forall|y: int, x: int| 0 <= y < b.len() && 0 <= x < b[y].len() implies !(
    #[trigger] b[y][x]) by {
        assert(!next[y][x]);
    }
    assert forall|y: int, x: int| 0 <= y < d.len() && 0 <= x < d[y].len() implies !(
    #[trigger] d[y][x]) by {
        assert(!g[y][x]);
    }
    lemma_population_zero(b);
    lemma_population_zero(d);
}

/// Over one generation the population is the exact count of the new cells,
/// and no counter goes down.
pub proof fn lemma_statistics_invariants(m: Life)
    requires
        m.wf(),
    ensures
        m.advanced().wf(),
        m.advanced().stats.current_population == population(m.advanced().cells),
        m.advanced().stats.generation >= m.stats.generation,
        m.advanced().stats.cells_created >= m.stats.cells_created,
        m.advanced().stats.cells_destroyed >= m.stats.cells_destroyed,
        m.stats.generation < u64::MAX ==> m.advanced().stats.generation == m.stats.generation + 1,
{
    lemma_advanced_wf(m);
}

/// `a * c <= b * c` when `a <= b` and `c` is not negative.
pub proof fn lemma_mul_le(a: int, b: int, c: int)
    requires
        a <= b,
        0 <= c,
    ensures
        a * c <= b * c,
{
    assert(a * c <= b * c) by (nonlinear_arith)
        requires
            a <= b,
            0 <= c,
    ;
}

} // verus!
