//! Cells, the mathematical model of a grid, and the transition rule.

use vstd::prelude::*;

verus! {

/// The state of one cell.
#[derive(Debug, Clone, Copy, PartialEq, Eq, Structural)]
pub enum CellState {
    Dead,
    Alive,
}

/// A grid as rows of cells: `g[row][col]`.
pub type Grid = Seq<Seq<CellState>>;

/// A non-empty rectangle: at least one row, every row as long as the first and non-empty.
pub open spec fn is_grid(g: Grid) -> bool {
    &&& g.len() > 0
    &&& g[0].len() > 0
    &&& forall|r: int| 0 <= r < g.len() ==> (#[trigger] g[r]).len() == g[0].len()
}

/// The number of rows.
pub open spec fn height(g: Grid) -> int {
    g.len() as int
}

/// The number of columns.
pub open spec fn width(g: Grid) -> int {
    if g.len() > 0 { g[0].len() as int } else { 0 }
}

/// Two grids with the same number of rows and columns.
pub open spec fn same_shape(a: Grid, b: Grid) -> bool {
    &&& a.len() == b.len()
    &&& forall|r: int| 0 <= r < a.len() ==> (#[trigger] a[r]).len() == b[r].len()
}

/// Whether `(r, c)` lies on the grid.
pub open spec fn in_bounds(g: Grid, r: int, c: int) -> bool {
    0 <= r < g.len() && 0 <= c < g[r].len()
}

/// A position is live when it lies on the grid and holds an `Alive` cell;
/// positions off the grid count as dead.
pub open spec fn alive_at(g: Grid, r: int, c: int) -> bool {
    in_bounds(g, r, c) && g[r][c] == CellState::Alive
}

/// One for a live position, zero otherwise.
pub open spec fn live(g: Grid, r: int, c: int) -> int {
    if alive_at(g, r, c) { 1 } else { 0 }
}

/// The number of live positions among the eight around `(r, c)`.
pub open spec fn neighbor_count(g: Grid, r: int, c: int) -> int {
    live(g, r - 1, c - 1) + live(g, r - 1, c) + live(g, r - 1, c + 1)
        + live(g, r, c - 1) + live(g, r, c + 1)
        + live(g, r + 1, c - 1) + live(g, r + 1, c) + live(g, r + 1, c + 1)
}

/// The rule for one cell: a live cell with two or three live neighbours stays
/// alive, a dead cell with exactly three becomes alive, every other cell is dead.
pub open spec fn rule(cell: CellState, n: int) -> CellState {
    if (cell == CellState::Alive && (n == 2 || n == 3)) || (cell == CellState::Dead && n == 3) {
        CellState::Alive
    } else {
        CellState::Dead
    }
}

/// The state of `(r, c)` in the next generation of `g`.
pub open spec fn next_cell(g: Grid, r: int, c: int) -> CellState {
    rule(g[r][c], neighbor_count(g, r, c))
}

/// The next generation: every cell follows the rule, reading only `g`.
pub open spec fn step(g: Grid) -> Grid {
    Seq::new(g.len(), |r: int| Seq::new(g[r].len(), |c: int| next_cell(g, r, c)))
}

/// A row of `w` dead cells.
pub open spec fn dead_row(w: nat) -> Seq<CellState> {
    Seq::new(w, |c: int| CellState::Dead)
}

/// A grid of `h` rows of `w` cells, all dead.
pub open spec fn dead_grid(w: nat, h: nat) -> Grid {
    Seq::new(h, |r: int| dead_row(w))
}

/// Executable form of `rule`.
pub fn apply_rule(cell: CellState, n: u8) -> (r: CellState)
    ensures
        r == rule(cell, n as int),
{
    match (cell, n) {
        (CellState::Alive, 2) | (CellState::Alive, 3) => CellState::Alive,
        (CellState::Dead, 3) => CellState::Alive,
        _ => CellState::Dead,
    }
}

/// The next generation has the same size as the grid it came from.
pub proof fn lemma_step_shape(g: Grid)
    requires
        is_grid(g),
    ensures
        is_grid(step(g)),
        same_shape(step(g), g),
{
    assert(step(g)[0].len() == g[0].len());
}

/// The cells of `g` that are alive are exactly those that `p` holds of.
pub open spec fn alive_exactly(g: Grid, p: spec_fn(int, int) -> bool) -> bool {
    forall|i: int, j: int| in_bounds(g, i, j) ==> (#[trigger] g[i][j] == CellState::Alive <==> p(i, j))
}

/// The 2x2 block whose top-left cell is `(r, c)`.
pub open spec fn block(r: int, c: int) -> spec_fn(int, int) -> bool {
    |i: int, j: int| r <= i <= r + 1 && c <= j <= c + 1
}

/// The 2x2 block at `(r, c)` without its cell `(a, b)`: an L of three cells.
pub open spec fn block_without(r: int, c: int, a: int, b: int) -> spec_fn(int, int) -> bool {
    |i: int, j: int| r <= i <= r + 1 && c <= j <= c + 1 && !(i == a && j == b)
}

/// Three cells in a row, centred on `(r, c)`.
pub open spec fn horizontal_line(r: int, c: int) -> spec_fn(int, int) -> bool {
    |i: int, j: int| i == r && c - 1 <= j <= c + 1
}

/// Three cells in a column, centred on `(r, c)`.
pub open spec fn vertical_line(r: int, c: int) -> spec_fn(int, int) -> bool {
    |i: int, j: int| j == c && r - 1 <= i <= r + 1
}

/// Every cell has between zero and eight live neighbours.
pub proof fn lemma_neighbor_count_bounds(g: Grid, r: int, c: int)
    ensures
        0 <= neighbor_count(g, r, c) <= 8,
{
}

/// A cell in a corner has only its three neighbours on the grid to count: positions
/// off the edge are dead, and nothing wraps round to the far side.
pub proof fn lemma_corner_neighbors(g: Grid)
    requires
        is_grid(g),
    ensures
        neighbor_count(g, 0, 0) == live(g, 0, 1) + live(g, 1, 0) + live(g, 1, 1),
        neighbor_count(g, 0, 0) <= 3,
{
}

/// A cell with no live neighbours is dead in the next generation.
pub proof fn lemma_isolated_cell_dies(g: Grid, r: int, c: int)
    requires
        is_grid(g),
        in_bounds(g, r, c),
        neighbor_count(g, r, c) == 0,
    ensures
        step(g)[r][c] == CellState::Dead,
{
}

/// A 2x2 block of live cells on an otherwise dead grid is a still life: the next
/// generation is the same grid.
pub proof fn lemma_block_is_still(g: Grid, r: int, c: int)
    requires
        is_grid(g),
        0 <= r,
        r + 1 < height(g),
        0 <= c,
        c + 1 < width(g),
        alive_exactly(g, block(r, c)),
    ensures
        step(g) == g,
{
    assert forall|i: int, j: int| in_bounds(g, i, j) implies #[trigger] step(g)[i][j] == g[i][j] by {
        assert(g[i].len() == g[0].len());
    }
    assert(step(g) =~~= g);
}

/// Three live cells in an L round a dead corner, on an otherwise dead grid: the
/// corner, with three live neighbours, is born, and the three stay alive with
/// two each; every other cell has fewer than three and stays dead. The next
/// generation is the full 2x2 block.
pub proof fn lemma_l_shape_fills_corner(g: Grid, r: int, c: int, a: int, b: int)
    requires
        is_grid(g),
        0 <= r,
        r + 1 < height(g),
        0 <= c,
        c + 1 < width(g),
        a == r || a == r + 1,
        b == c || b == c + 1,
        alive_exactly(g, block_without(r, c, a, b)),
    ensures
        neighbor_count(g, a, b) == 3,
        step(g)[a][b] == CellState::Alive,
        alive_exactly(step(g), block(r, c)),
{
    assert(g[a].len() == g[0].len());
    assert forall|i: int, j: int| in_bounds(step(g), i, j) implies (#[trigger] step(g)[i][j]
        == CellState::Alive <==> block(r, c)(i, j)) by {
        assert(g[i].len() == g[0].len());
    }
}

/// A blinker: a line of three live cells on an otherwise dead grid turns into the
/// perpendicular line through the same middle cell.
pub proof fn lemma_blinker_turns(g: Grid, r: int, c: int, horizontal: bool)
    requires
        is_grid(g),
        1 <= r,
        r + 1 < height(g),
        1 <= c,
        c + 1 < width(g),
        alive_exactly(g, if horizontal { horizontal_line(r, c) } else { vertical_line(r, c) }),
    ensures
        alive_exactly(step(g), if horizontal { vertical_line(r, c) } else { horizontal_line(r, c) }),
{
    assert forall|i: int, j: int| in_bounds(step(g), i, j) implies (#[trigger] step(g)[i][j]
        == CellState::Alive <==> (if horizontal { vertical_line(r, c) } else { horizontal_line(r, c) })(i, j)) by {
        assert(g[i].len() == g[0].len());
    }
}

/// A blinker oscillates with period two: a horizontal line of three live cells on
/// an otherwise dead grid becomes vertical after one generation and horizontal
/// again after the second. Each generation reads only the one before it, so the
/// cells of a step never see each other's new states.
pub proof fn lemma_blinker_period_two(g: Grid, r: int, c: int)
    requires
        is_grid(g),
        1 <= r,
        r + 1 < height(g),
        1 <= c,
        c + 1 < width(g),
        alive_exactly(g, horizontal_line(r, c)),
    ensures
        alive_exactly(step(g), vertical_line(r, c)),
        alive_exactly(step(step(g)), horizontal_line(r, c)),
        step(step(g)) == g,
{
    lemma_blinker_turns(g, r, c, true);
    lemma_step_shape(g);
    lemma_blinker_turns(step(g), r, c, false);
    lemma_step_shape(step(g));
    let g2 = step(step(g));
    assert forall|i: int, j: int| in_bounds(g, i, j) implies #[trigger] g2[i][j] == g[i][j] by {
        assert(g[i].len() == g[0].len());
        assert(g2[i].len() == g[i].len());
    }
    assert(g2 =~~= g);
}

} // verus!
