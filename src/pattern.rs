//! The Gosper glider gun: a fixed set of cells that, under the rule, keeps
//! emitting gliders.

use crate::rules::{alive_exactly, dead_grid, dead_row, CellState, Grid};
use vstd::prelude::*;

verus! {

/// Row of the anchor that the pattern's offsets are taken from.
pub const GUN_ROW: usize = 5;

/// Column of the anchor that the pattern's offsets are taken from.
pub const GUN_COL: usize = 1;

/// Rows below the anchor that the pattern reaches.
pub const GUN_ROWS: usize = 9;

/// Columns right of the anchor that the pattern reaches.
pub const GUN_COLS: usize = 36;

/// The pattern's cells as (row, column) offsets from the anchor.
pub open spec fn gun_offsets() -> Seq<(int, int)> {
    seq![
        (0, 24),
        (1, 22), (1, 24),
        (2, 12), (2, 13), (2, 20), (2, 21), (2, 34), (2, 35),
        (3, 11), (3, 15), (3, 20), (3, 21), (3, 34), (3, 35),
        (4, 0), (4, 1), (4, 10), (4, 16), (4, 20), (4, 21),
        (5, 0), (5, 1), (5, 10), (5, 14), (5, 16), (5, 17), (5, 22), (5, 24),
        (6, 10), (6, 16), (6, 24),
        (7, 11), (7, 15),
        (8, 12), (8, 13),
    ]
}

/// Whether `(r, c)` is one of the cells of the `k` first offsets, placed at the anchor.
pub open spec fn in_gun_prefix(k: int, r: int, c: int) -> bool {
    gun_offsets().take(k).contains((r - GUN_ROW, c - GUN_COL))
}

/// Whether `(r, c)` is a cell of the pattern placed at the anchor.
pub open spec fn in_gun(r: int, c: int) -> bool {
    gun_offsets().contains((r - GUN_ROW, c - GUN_COL))
}

/// `g` with the cells of the `k` first offsets set alive and every other cell kept.
pub open spec fn place_gun_prefix(g: Grid, k: int) -> Grid {
    Seq::new(
        g.len(),
        |r: int|
            Seq::new(
                g[r].len(),
                |c: int|
                    if in_gun_prefix(k, r, c) {
                        CellState::Alive
                    } else {
                        g[r][c]
                    },
            ),
    )
}

/// `g` with the pattern's cells set alive and every other cell kept.
pub open spec fn place_gun(g: Grid) -> Grid {
    Seq::new(
        g.len(),
        |r: int|
            Seq::new(
                g[r].len(),
                |c: int|
                    if in_gun(r, c) {
                        CellState::Alive
                    } else {
                        g[r][c]
                    },
            ),
    )
}

/// Every offset lies in the box of `GUN_ROWS` rows and `GUN_COLS` columns past the anchor.
pub proof fn lemma_gun_offsets_bounded()
    ensures
        gun_offsets().len() == 36,
        forall|k: int|
            0 <= k < 36 ==> 0 <= (#[trigger] gun_offsets()[k]).0 < GUN_ROWS && 0
                <= gun_offsets()[k].1 < GUN_COLS,
{
}

/// Taking one more offset adds exactly that offset.
pub proof fn lemma_take_one_more(k: int, p: (int, int))
    requires
        0 <= k < gun_offsets().len(),
    ensures
        gun_offsets().take(k + 1).contains(p) == (gun_offsets().take(k).contains(p)
            || gun_offsets()[k] == p),
{
    let s = gun_offsets();
    if s.take(k + 1).contains(p) {
        let i = choose|i: int| 0 <= i < k + 1 && #[trigger] s.take(k + 1)[i] == p;
        if i < k {
            assert(s.take(k)[i] == p);
        }
    }
    if s.take(k).contains(p) {
        let i = choose|i: int| 0 <= i < k && #[trigger] s.take(k)[i] == p;
        assert(s.take(k + 1)[i] == p);
    }
    if s[k] == p {
        assert(s.take(k + 1)[k] == p);
    }
}

/// The offsets as a table.
pub fn gun_table() -> (t: [(usize, usize); 36])
    ensures
        forall|k: int|
            0 <= k < 36 ==> (t@[k].0 as int, t@[k].1 as int) == #[trigger] gun_offsets()[k],
{
    [
        (0, 24),
        (1, 22), (1, 24),
        (2, 12), (2, 13), (2, 20), (2, 21), (2, 34), (2, 35),
        (3, 11), (3, 15), (3, 20), (3, 21), (3, 34), (3, 35),
        (4, 0), (4, 1), (4, 10), (4, 16), (4, 20), (4, 21),
        (5, 0), (5, 1), (5, 10), (5, 14), (5, 16), (5, 17), (5, 22), (5, 24),
        (6, 10), (6, 16), (6, 24),
        (7, 11), (7, 15),
        (8, 12), (8, 13),
    ]
}

/// The pattern has 36 distinct cells, and on a grid that was all dead, placing it
/// leaves exactly those cells alive.
pub proof fn lemma_gun_on_dead_grid(w: nat, h: nat)
    requires
        h >= GUN_ROW + GUN_ROWS,
        w >= GUN_COL + GUN_COLS,
    ensures
        gun_offsets().len() == 36,
        gun_offsets().no_duplicates(),
        alive_exactly(place_gun(dead_grid(w, h)), |i: int, j: int| in_gun(i, j)),
{
}

} // verus!
