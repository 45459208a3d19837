//! A random fill of the grid: a xorshift generator, seeded from the clock.

use crate::rules::{CellState, Grid};
use vstd::prelude::*;

verus! {

/// Chance, in percent, that a cell of a random fill is alive.
pub const LIVE_PERCENT: u128 = 15;

/// One step of the xorshift generator.
pub open spec fn xorshift(s: u128) -> u128 {
    let a = s ^ (s << 13u128);
    let b = a ^ (a >> 7u128);
    b ^ (b << 17u128)
}

/// The generator's state after `n` steps from `seed`.
pub open spec fn seed_after(seed: u128, n: nat) -> u128
    decreases n,
{
    if n == 0 {
        seed
    } else {
        xorshift(seed_after(seed, (n - 1) as nat))
    }
}

/// The cell that a generator state gives: alive for `LIVE_PERCENT` of the
/// residues modulo one hundred.
pub open spec fn random_cell(x: u128) -> CellState {
    if x % 100 < LIVE_PERCENT {
        CellState::Alive
    } else {
        CellState::Dead
    }
}

/// The grid of `h` rows of `w` cells that a fill from `seed` gives: the generator
/// steps once before each cell, in row-major order.
pub open spec fn seeded_grid(w: nat, h: nat, seed: u128) -> Grid {
    Seq::new(h, |r: int| Seq::new(w, |c: int| random_cell(seed_after(seed, (r * w + c + 1) as nat))))
}

/// Stepping `a` times and then `b` times is stepping `a + b` times.
pub proof fn lemma_seed_after_add(seed: u128, a: nat, b: nat)
    ensures
        seed_after(seed_after(seed, a), b) == seed_after(seed, a + b),
    decreases b,
{
    if b > 0 {
        lemma_seed_after_add(seed, a, (b - 1) as nat);
    }
}

/// One step of the xorshift generator.
pub fn next_seed(s: u128) -> (r: u128)
    ensures
        r == xorshift(s),
{
    let mut x = s;
    x ^= x << 13u128;
    x ^= x >> 7u128;
    x ^= x << 17u128;
    x
}

/// The cell that a generator state gives.
pub fn cell_from_seed(x: u128) -> (c: CellState)
    ensures
        c == random_cell(x),
{
    if x % 100 < LIVE_PERCENT {
        CellState::Alive
    } else {
        CellState::Dead
    }
}

/// A row of `width` cells filled from the generator state `s`, and the state
/// after the row.
pub fn seeded_row(width: usize, s: u128) -> (res: (Vec<CellState>, u128))
    ensures
        res.0@.len() == width,
        forall|c: int| 0 <= c < width ==> #[trigger] res.0@[c] == random_cell(seed_after(s, (c + 1) as nat)),
        res.1 == seed_after(s, width as nat),
{
    let mut row: Vec<CellState> = Vec::new();
    let mut x = s;
    let mut c: usize = 0;
    while c < width
        invariant
            c <= width,
            row@.len() == c,
            x == seed_after(s, c as nat),
            forall|j: int| 0 <= j < c ==> #[trigger] row@[j] == random_cell(seed_after(s, (j + 1) as nat)),
        decreases width - c,
    {
        x = next_seed(x);
        row.push(cell_from_seed(x));
        c = c + 1;
    }
    (row, x)
}

} // verus!
