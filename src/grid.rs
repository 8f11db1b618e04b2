//! The generation engine: a toroidal grid of cells, the transition rule and
//! the statistics it keeps.
use crate::model::{
    births, deaths, is_rect, lemma_advanced_wf, lemma_mul_le, lemma_population_le, neighbor_count, next_cells,
    population, row_count, valid_cells, Life,
};
use crate::random::gen_ratio;
use crate::stats::Stats;
use vstd::arithmetic::div_mod::{lemma_fundamental_div_mod_converse, lemma_small_mod};
use vstd::prelude::*;

verus! {

/// The rows of `g` as sequences.
pub open spec fn cells_of(g: Seq<Vec<bool>>) -> Seq<Seq<bool>> {
    g.map_values(|r: Vec<bool>| r@)
}

/// The index before `v` on a ring of `n` positions.
fn wrap_back(v: usize, n: usize) -> (r: usize)
    requires
        v < n,
    ensures
        r == (v - 1) % (n as int),
{
    if v == 0 {
        proof { lemma_fundamental_div_mod_converse(-1, n as int, -1, n - 1); }
        n - 1
    } else {
        proof { lemma_small_mod((v - 1) as nat, n as nat); }
        v - 1
    }
}

/// The index after `v` on a ring of `n` positions.
fn wrap_forward(v: usize, n: usize) -> (r: usize)
    requires
        v < n,
    ensures
        r == (v + 1) % (n as int),
{
    if v + 1 == n {
        proof { lemma_fundamental_div_mod_converse(n as int, n as int, 1, 0); }
        0
    } else {
        proof { lemma_small_mod((v + 1) as nat, n as nat); }
        v + 1
    }
}

/// Live cells of a grid of `height` rows of `width` cells.
fn count_alive(grid: &Vec<Vec<bool>>, width: usize, height: usize) -> (r: u64)
    requires
        is_rect(cells_of(grid@), width as int, height as int),
        width * height <= usize::MAX,
    ensures
        r == population(cells_of(grid@)),
{
    let ghost g = cells_of(grid@);
    let mut total: usize = 0;
    let mut y: usize = 0;
    while y < height
        invariant
            y <= height,
            is_rect(g, width as int, height as int),
            g == cells_of(grid@),
            width * height <= usize::MAX,
            total == population(g.subrange(0, y as int)),
            total <= y * width,
        decreases height - y,
    {
        let row = &grid[y];
        assert(row@ == g[y as int]);
        let mut here: usize = 0;
        let mut x: usize = 0;
        while x < width
            invariant
                x <= width,
                row@.len() == width,
                here == row_count(row@.subrange(0, x as int)),
                here <= x,
            decreases width - x,
        {
            assert(row@.subrange(0, x + 1).drop_last() =~= row@.subrange(0, x as int));
            if row[x] {
                here = here + 1;
            }
            x = x + 1;
        }
        assert(row@.subrange(0, width as int) =~= row@);
        proof {
            lemma_mul_le(y + 1, height as int, width as int);
            assert((y + 1) * width == y * width + width) by (nonlinear_arith);
            assert(height * width == width * height) by (nonlinear_arith);
            assert(g.subrange(0, y + 1).drop_last() =~= g.subrange(0, y as int));
        }
        total = total + here;
        y = y + 1;
    }
    assert(g.subrange(0, height as int) =~= g);
    total as u64
}


/// Chance, as numerator over denominator, that a cell of a new random grid
/// starts alive.
pub const LIVE_NUMERATOR: u32 = 3;
pub const LIVE_DENOMINATOR: u32 = 10;

/// A grid of `height` rows of `width` cells, each cell drawn alive
/// independently with chance `LIVE_NUMERATOR / LIVE_DENOMINATOR`.
fn random_cells(width: usize, height: usize) -> (r: Vec<Vec<bool>>)
    ensures
        is_rect(cells_of(r@), width as int, height as int),
{
    let mut rng = rand::thread_rng();
    let mut grid: Vec<Vec<bool>> = Vec::new();
    let mut y: usize = 0;
    while y < height
        invariant
            y <= height,
            grid@.len() == y,
            forall|j: int| 0 <= j < y ==> (#[trigger] grid@[j])@.len() == width,
        decreases height - y,
    {
        let mut row: Vec<bool> = Vec::new();
        let mut x: usize = 0;
        while x < width
            invariant
                x <= width,
                row@.len() == x,
            decreases width - x,
        {
            row.push(gen_ratio(&mut rng, LIVE_NUMERATOR, LIVE_DENOMINATOR));
            x = x + 1;
        }
        grid.push(row);
        y = y + 1;
    }
    grid
}

/// A Game of Life simulation: the grid, its dimensions, the run flag and the
/// running statistics.
#[derive(Debug)]
pub struct App {
    grid: Vec<Vec<bool>>,
    width: usize,
    height: usize,
    running: bool,
    stats: Stats,
}

impl View for App {
    type V = Life;

    closed spec fn view(&self) -> Life {
        Life {
            cells: cells_of(self.grid@),
            width: self.width as nat,
            height: self.height as nat,
            running: self.running,
            stats: self.stats,
        }
    }
}

impl App {
    /// The state is well formed (see `Life::wf`).
    pub open spec fn wf(&self) -> bool {
        self@.wf()
    }

    /// A paused simulation at generation zero over a grid of the given
    /// dimensions whose cells are each alive with chance
    /// `LIVE_NUMERATOR / LIVE_DENOMINATOR`.
    pub fn new(width: usize, height: usize) -> (r: App)
        requires
            width >= 1,
            height >= 1,
            width * height <= usize::MAX,
        ensures
            r.wf(),
            r@.width == width,
            r@.height == height,
            r@ == Life::initial(r@.cells),
    {
        let grid = random_cells(width, height);
        App::start(grid, width, height)
    }

    /// A paused simulation at generation zero over the given rows; `None`
    /// unless the rows form a non-empty rectangle whose cell count fits in
    /// `usize`.
    pub fn from_grid(grid: Vec<Vec<bool>>) -> (r: Option<App>)
        ensures
            r is Some <==> valid_cells(cells_of(grid@)),
            r matches Some(a) ==> a.wf() && a@ == Life::initial(cells_of(grid@)),
    {
        let height = grid.len();
        if height == 0 {
            return None;
        }
        let width = grid[0].len();
        if width == 0 {
            return None;
        }
        let mut y: usize = 1;
        while y < height
            invariant
                1 <= y <= height,
                height == grid@.len(),
                width == grid@[0]@.len(),
                forall|j: int| 0 <= j < y ==> (#[trigger] grid@[j])@.len() == width,
            decreases height - y,
        {
            if grid[y].len() != width {
                assert(cells_of(grid@)[y as int].len() != width);
                return None;
            }
            y = y + 1;
        }
        if width.checked_mul(height).is_none() {
            return None;
        }
        Some(App::start(grid, width, height))
    }

    /// A paused simulation at generation zero over `grid`.
    fn start(grid: Vec<Vec<bool>>, width: usize, height: usize) -> (r: App)
        requires
            width >= 1,
            height >= 1,
            width * height <= usize::MAX,
            is_rect(cells_of(grid@), width as int, height as int),
        ensures
            r.wf(),
            r@ == Life::initial(cells_of(grid@)),
    {
        let population = count_alive(&grid, width, height);
        proof {
            lemma_population_le(cells_of(grid@), width as int);
            assert(height * width == width * height) by (nonlinear_arith);
        }
        let stats = Stats { generation: 0, cells_created: 0, cells_destroyed: 0, current_population: population };
        App { grid, width, height, running: false, stats }
    }

    /// Flips the run flag; nothing else changes.
    pub fn toggle_running(&mut self)
        ensures
            final(self)@ == old(self)@.toggled(),
    {
        self.running = !self.running;
    }

    /// Number of cells in a row.
    pub fn width(&self) -> (r: usize)
        ensures
            r == self@.width,
    {
        self.width
    }

    /// Number of rows.
    pub fn height(&self) -> (r: usize)
        ensures
            r == self@.height,
    {
        self.height
    }

    /// The running statistics.
    pub fn stats(&self) -> (r: Stats)
        ensures
            r == self@.stats,
    {
        self.stats
    }

    /// The rows of cells, `true` for a live cell.
    pub fn grid(&self) -> (r: &Vec<Vec<bool>>)
        ensures
            cells_of(r@) == self@.cells,
    {
        &self.grid
    }

    /// Whether the cell at column `x`, row `y` is alive.
    pub fn is_alive(&self, x: usize, y: usize) -> (r: bool)
        requires
            self.wf(),
            x < self@.width,
            y < self@.height,
        ensures
            r == self@.cells[y as int][x as int],
    {
        assert(self.grid@[y as int]@ == self@.cells[y as int]);
        self.grid[y][x]
    }

    /// Whether the simulation advances on its own.
    pub fn is_running(&self) -> (r: bool)
        ensures
            r == self@.running,
    {
        self.running
    }

    /// Live cells among the eight neighbours of `(x, y)`, each neighbour's
    /// coordinates wrapped around the grid's edges.
    pub fn count_neighbors(&self, x: usize, y: usize) -> (r: u8)
        requires
            self.wf(),
            x < self@.width,
            y < self@.height,
        ensures
            r == neighbor_count(self@.cells, self@.width as int, self@.height as int, x as int, y as int),
    {
        let w = self.width;
        let h = self.height;
        let left = wrap_back(x, w);
        let right = wrap_forward(x, w);
        let up = wrap_back(y, h);
        let down = wrap_forward(y, h);
        proof {
            lemma_small_mod(x as nat, w as nat);
            lemma_small_mod(y as nat, h as nat);
            assert(self.grid@[up as int]@ == self@.cells[up as int]);
            assert(self.grid@[y as int]@ == self@.cells[y as int]);
            assert(self.grid@[down as int]@ == self@.cells[down as int]);
        }
        let mut count: u8 = 0;
        if self.grid[up][left] {
            count = count + 1;
        }
        if self.grid[up][x] {
            count = count + 1;
        }
        if self.grid[up][right] {
            count = count + 1;
        }
        if self.grid[y][left] {
            count = count + 1;
        }
        if self.grid[y][right] {
            count = count + 1;
        }
        if self.grid[down][left] {
            count = count + 1;
        }
        if self.grid[down][x] {
            count = count + 1;
        }
        if self.grid[down][right] {
            count = count + 1;
        }
        count
    }

    /// Advances one generation: every cell follows the rule against the
    /// neighbour counts of the previous generation, the counters take the
    /// births and deaths of the step, and the population is counted afresh.
    /// Counters stop at `u64::MAX`.
    pub fn update(&mut self)
        requires
            old(self).wf(),
        ensures
            final(self).wf(),
            final(self)@ == old(self)@.advanced(),
    {
        let w = self.width;
        let h = self.height;
        let ghost g = self@.cells;
        let ghost n = next_cells(g, w as int, h as int);
        let ghost b = births(g, n);
        let ghost d = deaths(g, n);
        let mut next: Vec<Vec<bool>> = Vec::new();
        let mut created: usize = 0;
        let mut destroyed: usize = 0;
        let mut y: usize = 0;
        while y < h
            invariant
                y <= h,
                self.wf(),
                self@.cells == g,
                w == self@.width,
                h == self@.height,
                n == next_cells(g, w as int, h as int),
                b == births(g, n),
                d == deaths(g, n),
                next@.len() == y,
                forall|j: int| 0 <= j < y ==> (#[trigger] next@[j])@ == n[j],
                created == population(b.subrange(0, y as int)),
                destroyed == population(d.subrange(0, y as int)),
                created <= y * w,
                destroyed <= y * w,
            decreases h - y,
        {
            let mut row: Vec<bool> = Vec::new();
            let mut born: usize = 0;
            let mut died: usize = 0;
            let mut x: usize = 0;
            while x < w
                invariant
                    x <= w,
                    y < h,
                    self.wf(),
                    self@.cells == g,
                    w == self@.width,
                    h == self@.height,
                    n == next_cells(g, w as int, h as int),
                    b == births(g, n),
                    d == deaths(g, n),
                    row@ == n[y as int].subrange(0, x as int),
                    born == row_count(b[y as int].subrange(0, x as int)),
                    died == row_count(d[y as int].subrange(0, x as int)),
                    born <= x,
                    died <= x,
                decreases w - x,
            {
                let k = self.count_neighbors(x, y);
                assert(self.grid@[y as int]@ == g[y as int]);
                let cell = self.grid[y][x];
                let alive = if cell {
                    if k < 2 {
                        died = died + 1;
                        false
                    } else if k <= 3 {
                        true
                    } else {
                        died = died + 1;
                        false
                    }
                } else if k == 3 {
                    born = born + 1;
                    true
                } else {
                    false
                };
                proof {
                    assert(b[y as int].subrange(0, x + 1).drop_last() =~= b[y as int].subrange(0, x as int));
                    assert(d[y as int].subrange(0, x + 1).drop_last() =~= d[y as int].subrange(0, x as int));
                }
                row.push(alive);
                assert(row@ =~= n[y as int].subrange(0, x + 1));
                x = x + 1;
            }
            proof {
                assert(row@ =~= n[y as int]);
                assert(b[y as int].subrange(0, w as int) =~= b[y as int]);
                assert(d[y as int].subrange(0, w as int) =~= d[y as int]);
                assert(b.subrange(0, y + 1).drop_last() =~= b.subrange(0, y as int));
                assert(d.subrange(0, y + 1).drop_last() =~= d.subrange(0, y as int));
                lemma_mul_le(y + 1, h as int, w as int);
                assert((y + 1) * w == y * w + w) by (nonlinear_arith);
                assert(h * w == w * h) by (nonlinear_arith);
            }
            created = created + born;
            destroyed = destroyed + died;
            next.push(row);
            y = y + 1;
        }
        proof {
            assert(cells_of(next@) =~= n);
            assert(b.subrange(0, h as int) =~= b);
            assert(d.subrange(0, h as int) =~= d);
            lemma_advanced_wf(self@);
        }
        self.grid = next;
        self.stats.generation = self.stats.generation.saturating_add(1);
        self.stats.cells_created = self.stats.cells_created.saturating_add(created as u64);
        self.stats.cells_destroyed = self.stats.cells_destroyed.saturating_add(destroyed as u64);
        self.stats.current_population = count_alive(&self.grid, w, h);
    }

    /// Number of live cells, counted afresh over the whole grid.
    pub fn count_total_alive(&self) -> (r: u64)
        requires
            self.wf(),
        ensures
            r == population(self@.cells),
            r == self@.stats.current_population,
    {
        count_alive(&self.grid, self.width, self.height)
    }
}

} // verus!
