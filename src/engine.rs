//! The simulation engine: the current generation and the one before it.

use crate::clock::clock_nanos;
use crate::pattern::{
    gun_offsets, gun_table, in_gun_prefix, lemma_gun_offsets_bounded, lemma_take_one_more,
    place_gun, place_gun_prefix, GUN_COL, GUN_COLS, GUN_ROW, GUN_ROWS,
};
use crate::random::{lemma_seed_after_add, seed_after, seeded_grid, seeded_row};
use crate::rules::{
    apply_rule, dead_grid, dead_row, height, is_grid, lemma_step_shape, live, neighbor_count,
    next_cell, same_shape, step, width, CellState, Grid,
};
use vstd::prelude::*;

verus! {

/// A Game of Life: the current grid and the previous one, of the same size.
pub struct GameOfLife {
    grid: Vec<Vec<CellState>>,
    prev_grid: Vec<Vec<CellState>>,
}

/// The model of a grid stored as rows of `Vec`.
pub open spec fn rows_view(v: Vec<Vec<CellState>>) -> Grid {
    v@.map_values(|row: Vec<CellState>| row@)
}

/// A row of `width` dead cells.
fn new_dead_row(width: usize) -> (row: Vec<CellState>)
    ensures
        row@ == dead_row(width as nat),
{
    let mut row: Vec<CellState> = Vec::new();
    let mut c: usize = 0;
    while c < width
        invariant
            c <= width,
            row@ =~= Seq::new(c as nat, |j: int| CellState::Dead),
        decreases width - c,
    {
        row.push(CellState::Dead);
        c = c + 1;
    }
    assert(row@ =~= dead_row(width as nat));
    row
}

/// A grid of `height` rows of `width` dead cells.
fn dead_rows(width: usize, height: usize) -> (v: Vec<Vec<CellState>>)
    ensures
        rows_view(v) == dead_grid(width as nat, height as nat),
{
    let mut v: Vec<Vec<CellState>> = Vec::new();
    let mut r: usize = 0;
    while r < height
        invariant
            r <= height,
            v@.len() == r,
            forall|i: int| 0 <= i < r ==> (#[trigger] v@[i])@ == dead_row(width as nat),
        decreases height - r,
    {
        v.push(new_dead_row(width));
        r = r + 1;
    }
    assert(rows_view(v) =~= dead_grid(width as nat, height as nat));
    v
}

impl View for GameOfLife {
    type V = Grid;

    /// The current generation.
    closed spec fn view(&self) -> Grid {
        rows_view(self.grid)
    }
}

impl GameOfLife {
    /// The generation before the current one.
    pub closed spec fn previous(&self) -> Grid {
        rows_view(self.prev_grid)
    }

    /// Both grids are non-empty rectangles of the same size.
    pub open spec fn wf(&self) -> bool {
        &&& is_grid(self@)
        &&& same_shape(self@, self.previous())
    }

    /// A game of `height` rows of `width` cells, every cell dead, with an
    /// identical previous grid.
    pub fn new(width: usize, height: usize) -> (g: GameOfLife)
        requires
            width > 0,
            height > 0,
        ensures
            g.wf(),
            g@ == dead_grid(width as nat, height as nat),
            g.previous() == dead_grid(width as nat, height as nat),
    {
        GameOfLife { grid: dead_rows(width, height), prev_grid: dead_rows(width, height) }
    }

    /// The number of rows.
    pub fn height(&self) -> (h: usize)
        requires
            self.wf(),
        ensures
            h == height(self@),
    {
        self.grid.len()
    }

    /// The number of columns.
    pub fn width(&self) -> (w: usize)
        requires
            self.wf(),
        ensures
            w == width(self@),
    {
        self.grid[0].len()
    }

    /// The cell at `(row, col)`.
    pub fn cell(&self, row: usize, col: usize) -> (s: CellState)
        requires
            self.wf(),
            row < height(self@),
            col < width(self@),
        ensures
            s == self@[row as int][col as int],
    {
        self.grid[row][col]
    }

    /// Sets the cell at `(row, col)` to `state`; every other cell, and the previous
    /// grid, are kept.
    pub fn set_cell(&mut self, row: usize, col: usize, state: CellState)
        requires
            old(self).wf(),
            row < height(old(self)@),
            col < width(old(self)@),
        ensures
            final(self).wf(),
            final(self)@ == old(self)@.update(row as int, old(self)@[row as int].update(col as int, state)),
            final(self).previous() == old(self).previous(),
    {
        assert(self@[row as int] == self.grid@[row as int]@);
        self.grid[row][col] = state;
        assert(self@ =~~= old(self)@.update(row as int, old(self)@[row as int].update(col as int, state)));
    }

    /// The cell at `(row, col)` of the previous generation.
    pub fn previous_cell(&self, row: usize, col: usize) -> (s: CellState)
        requires
            self.wf(),
            row < height(self@),
            col < width(self@),
        ensures
            s == self.previous()[row as int][col as int],
    {
        assert(self@[row as int].len() == self.previous()[row as int].len());
        self.prev_grid[row][col]
    }

    /// One if the neighbour at `(row + dr - 1, col + dc - 1)` lies on the grid and
    /// is alive, zero otherwise.
    fn live_at_offset(&self, row: usize, col: usize, dr: usize, dc: usize) -> (n: u8)
        requires
            self.wf(),
            row < height(self@),
            col < width(self@),
            dr <= 2,
            dc <= 2,
        ensures
            n == live(self@, row + dr - 1, col + dc - 1),
    {
        assert(self@[row as int] == self.grid@[row as int]@);
        let h = self.grid.len();
        let w = self.grid[row].len();
        if (dr == 0 && row == 0) || (dr == 2 && row + 1 == h) || (dc == 0 && col == 0) || (dc == 2
            && col + 1 == w) {
            return 0;
        }
        let r = if dr == 0 { row - 1 } else { row + (dr - 1) };
        let c = if dc == 0 { col - 1 } else { col + (dc - 1) };
        assert(self@[r as int] == self.grid@[r as int]@);
        if self.grid[r][c] == CellState::Alive {
            1
        } else {
            0
        }
    }

    /// The number of live cells among the eight around `(row, col)`; positions off
    /// the grid count as dead, with no wrapping round the edges.
    pub fn count_alive_neighbors(&self, row: usize, col: usize) -> (n: u8)
        requires
            self.wf(),
            row < height(self@),
            col < width(self@),
        ensures
            n <= 8,
            n == neighbor_count(self@, row as int, col as int),
    {
        self.live_at_offset(row, col, 0, 0) + self.live_at_offset(row, col, 0, 1)
            + self.live_at_offset(row, col, 0, 2) + self.live_at_offset(row, col, 1, 0)
            + self.live_at_offset(row, col, 1, 2) + self.live_at_offset(row, col, 2, 0)
            + self.live_at_offset(row, col, 2, 1) + self.live_at_offset(row, col, 2, 2)
    }

    /// Row `i` of the next generation, computed from the current grid alone.
    fn next_row(&self, i: usize) -> (row: Vec<CellState>)
        requires
            self.wf(),
            i < height(self@),
        ensures
            row@ == step(self@)[i as int],
    {
        assert(self@[i as int] == self.grid@[i as int]@);
        let w = self.grid[i].len();
        let mut row: Vec<CellState> = Vec::new();
        let mut j: usize = 0;
        while j < w
            invariant
                self.wf(),
                i < height(self@),
                w == self@[i as int].len(),
                j <= w,
                row@.len() == j,
                forall|b: int| 0 <= b < j ==> #[trigger] row@[b] == next_cell(self@, i as int, b),
            decreases w - j,
        {
            let n = self.count_alive_neighbors(i, j);
            row.push(apply_rule(self.grid[i][j], n));
            j = j + 1;
        }
        assert(row@ =~= step(self@)[i as int]);
        row
    }

    /// The whole next generation, computed from the current grid alone.
    fn next_rows(&self) -> (v: Vec<Vec<CellState>>)
        requires
            self.wf(),
        ensures
            rows_view(v) == step(self@),
    {
        let h = self.grid.len();
        let mut v: Vec<Vec<CellState>> = Vec::new();
        let mut i: usize = 0;
        while i < h
            invariant
                self.wf(),
                h == height(self@),
                i <= h,
                v@.len() == i,
                forall|a: int| 0 <= a < i ==> (#[trigger] v@[a])@ == step(self@)[a],
            decreases h - i,
        {
            v.push(self.next_row(i));
            i = i + 1;
        }
        assert(rows_view(v) =~= step(self@));
        v
    }

    /// Advances one generation: every cell follows the rule, with all neighbour
    /// counts taken from the grid as it was before the step. The old grid becomes
    /// the previous one.
    pub fn next_generation(&mut self) -> (r: &mut Self)
        requires
            old(self).wf(),
        ensures
            r.wf(),
            r@ == step(old(self)@),
            r.previous() == old(self)@,
            *final(self) == *final(r),
    {
        let mut next = self.next_rows();
        std::mem::swap(&mut self.grid, &mut next);
        self.prev_grid = next;
        proof {
            lemma_step_shape(old(self)@);
        }
        self
    }

    /// Sets the cells of the Gosper glider gun alive, at the anchor
    /// `(GUN_ROW, GUN_COL)`; every other cell keeps its state.
    pub fn add_gosper_glider_gun(&mut self)
        requires
            old(self).wf(),
            height(old(self)@) >= GUN_ROW + GUN_ROWS,
            width(old(self)@) >= GUN_COL + GUN_COLS,
        ensures
            final(self).wf(),
            final(self)@ == place_gun(old(self)@),
            final(self).previous() == old(self).previous(),
    {
        let table = gun_table();
        proof {
            lemma_gun_offsets_bounded();
        }
        assert(place_gun_prefix(old(self)@, 0) =~~= old(self)@);
        let mut k: usize = 0;
        while k < 36
            invariant
                k <= 36,
                self.wf(),
                same_shape(self@, old(self)@),
                self.previous() == old(self).previous(),
                self@ == place_gun_prefix(old(self)@, k as int),
                is_grid(old(self)@),
                height(old(self)@) >= GUN_ROW + GUN_ROWS,
                width(old(self)@) >= GUN_COL + GUN_COLS,
                forall|j: int|
                    0 <= j < 36 ==> (table@[j].0 as int, table@[j].1 as int) == #[trigger] gun_offsets()[j],
                forall|j: int|
                    0 <= j < 36 ==> 0 <= (#[trigger] gun_offsets()[j]).0 < GUN_ROWS && 0
                        <= gun_offsets()[j].1 < GUN_COLS,
            decreases 36 - k,
        {
            let (dr, dc) = table[k];
            assert(gun_offsets()[k as int] == (dr as int, dc as int));
            let r = GUN_ROW + dr;
            let c = GUN_COL + dc;
            let ghost before = self@;
            assert(self@[r as int] == self.grid@[r as int]@);
            self.grid[r][c] = CellState::Alive;
            proof {
                assert(self@ =~~= before.update(r as int, before[r as int].update(c as int, CellState::Alive)));
                assert forall|r2: int, c2: int|
                    #![auto]
                    in_gun_prefix(k + 1, r2, c2) == (in_gun_prefix(k as int, r2, c2) || (r2 == r
                        && c2 == c)) by {
                    lemma_take_one_more(k as int, (r2 - GUN_ROW, c2 - GUN_COL));
                }
                assert(self@ =~~= place_gun_prefix(old(self)@, k + 1));
            }
            k = k + 1;
        }
        assert(gun_offsets().take(36) =~= gun_offsets());
        assert(self@ =~~= place_gun(old(self)@));
    }

    /// Fills the current grid from the generator seeded with `seed`: each cell, in
    /// row-major order, steps the generator once and is alive when the new state
    /// is below `LIVE_PERCENT` modulo one hundred. The previous grid is kept.
    pub fn randomize_from_seed(&mut self, seed: u128) -> (r: &mut Self)
        requires
            old(self).wf(),
        ensures
            r.wf(),
            r@ == seeded_grid(width(old(self)@) as nat, height(old(self)@) as nat, seed),
            r.previous() == old(self).previous(),
            *final(self) == *final(r),
    {
        let h = self.grid.len();
        let w = self.grid[0].len();
        let ghost target = seeded_grid(w as nat, h as nat, seed);
        let mut v: Vec<Vec<CellState>> = Vec::new();
        let mut x = seed;
        let mut i: usize = 0;
        while i < h
            invariant
                old(self).wf(),
                h == height(old(self)@),
                w == width(old(self)@),
                target == seeded_grid(w as nat, h as nat, seed),
                i <= h,
                v@.len() == i,
                x == seed_after(seed, (i * w) as nat),
                forall|a: int| 0 <= a < i ==> (#[trigger] v@[a])@ == target[a],
            decreases h - i,
        {
            let (row, next) = seeded_row(w, x);
            proof {
                assert forall|c: int| 0 <= c < w implies #[trigger] row@[c] == target[i as int][c] by {
                    lemma_seed_after_add(seed, (i * w) as nat, (c + 1) as nat);
                }
                assert(row@ =~= target[i as int]);
                lemma_seed_after_add(seed, (i * w) as nat, w as nat);
                assert((i * w) + w == (i + 1) * w) by (nonlinear_arith);
            }
            v.push(row);
            x = next;
            i = i + 1;
        }
        assert(rows_view(v) =~= target);
        self.grid = v;
        assert(forall|a: int| 0 <= a < h ==> (#[trigger] self.previous()[a]).len() == old(self)@[a].len());
        assert(forall|a: int| 0 <= a < h ==> (#[trigger] target[a]).len() == w);
        self
    }

    /// Fills the current grid at random, seeding the generator from the system
    /// clock: the result is the fill from some seed, and varies from run to run.
    /// The previous grid is kept.
    pub fn randomize(&mut self) -> (r: &mut Self)
        requires
            old(self).wf(),
        ensures
            r.wf(),
            exists|seed: u128|
                r@ == #[trigger] seeded_grid(width(old(self)@) as nat, height(old(self)@) as nat, seed),
            r.previous() == old(self).previous(),
            *final(self) == *final(r),
    {
        let seed = clock_nanos();
        self.randomize_from_seed(seed)
    }
}

} // verus!
