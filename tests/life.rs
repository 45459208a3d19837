use game_of_life::pattern::{GUN_COL, GUN_ROW};
use game_of_life::random::{cell_from_seed, next_seed};
use game_of_life::render::cell_glyph;
use game_of_life::rules::apply_rule;
use game_of_life::{CellState, GameOfLife};

fn game_with(width: usize, height: usize, cells: &[(usize, usize)]) -> GameOfLife {
    let mut g = GameOfLife::new(width, height);
    for &(r, c) in cells {
        g.set_cell(r, c, CellState::Alive);
    }
    g
}

fn alive_cells(g: &GameOfLife) -> Vec<(usize, usize)> {
    let mut v = Vec::new();
    for r in 0..g.height() {
        for c in 0..g.width() {
            if g.cell(r, c) == CellState::Alive {
                v.push((r, c));
            }
        }
    }
    v
}

fn previous_alive_cells(g: &GameOfLife) -> Vec<(usize, usize)> {
    let mut v = Vec::new();
    for r in 0..g.height() {
        for c in 0..g.width() {
            if g.previous_cell(r, c) == CellState::Alive {
                v.push((r, c));
            }
        }
    }
    v
}

#[test]
fn new_grid_is_dead_with_given_size() {
    let g = GameOfLife::new(7, 4);
    assert_eq!(g.width(), 7);
    assert_eq!(g.height(), 4);
    assert!(alive_cells(&g).is_empty());
    assert!(previous_alive_cells(&g).is_empty());
}

#[test]
fn neighbor_count_of_full_grid_centre_is_eight() {
    let mut cells = Vec::new();
    for r in 0..3 {
        for c in 0..3 {
            cells.push((r, c));
        }
    }
    let g = game_with(3, 3, &cells);
    assert_eq!(g.count_alive_neighbors(1, 1), 8);
    assert_eq!(g.count_alive_neighbors(0, 0), 3);
    assert_eq!(g.count_alive_neighbors(0, 1), 5);
    assert_eq!(g.count_alive_neighbors(2, 2), 3);
}

#[test]
fn neighbor_count_excludes_the_cell_itself() {
    let g = game_with(5, 5, &[(2, 2)]);
    assert_eq!(g.count_alive_neighbors(2, 2), 0);
    assert_eq!(g.count_alive_neighbors(1, 1), 1);
    assert_eq!(g.count_alive_neighbors(0, 0), 0);
}

#[test]
fn corner_counts_only_in_bounds_neighbors() {
    // Cells on the opposite edges would be neighbours if the grid wrapped.
    let g = game_with(5, 5, &[(0, 0), (0, 1), (1, 1), (4, 4), (0, 4), (4, 0), (4, 1), (1, 4)]);
    assert_eq!(g.count_alive_neighbors(0, 0), 2);
    assert_eq!(game_with(4, 4, &[]).count_alive_neighbors(0, 0), 0);
    let full = game_with(2, 2, &[(0, 0), (0, 1), (1, 0), (1, 1)]);
    assert_eq!(full.count_alive_neighbors(0, 0), 3);
}

#[test]
fn block_is_still_life() {
    let cells = [(2, 2), (2, 3), (3, 2), (3, 3)];
    let mut g = game_with(6, 6, &cells);
    g.next_generation();
    assert_eq!(alive_cells(&g), cells.to_vec());
}

#[test]
fn l_shape_fills_its_corner() {
    let mut g = game_with(6, 6, &[(2, 2), (2, 3), (3, 2)]);
    assert_eq!(g.count_alive_neighbors(3, 3), 3);
    g.next_generation();
    assert_eq!(alive_cells(&g), vec![(2, 2), (2, 3), (3, 2), (3, 3)]);
}

#[test]
fn isolated_cell_dies() {
    let mut g = game_with(5, 5, &[(2, 2)]);
    g.next_generation();
    assert!(alive_cells(&g).is_empty());
}

#[test]
fn crowded_cell_dies() {
    // The centre has four live neighbours.
    let mut g = game_with(5, 5, &[(2, 2), (1, 2), (3, 2), (2, 1), (2, 3)]);
    assert_eq!(g.count_alive_neighbors(2, 2), 4);
    g.next_generation();
    assert_eq!(g.cell(2, 2), CellState::Dead);
}

#[test]
fn blinker_has_period_two() {
    let horizontal = vec![(2, 1), (2, 2), (2, 3)];
    let vertical = vec![(1, 2), (2, 2), (3, 2)];
    let mut g = game_with(5, 5, &horizontal);
    g.next_generation();
    assert_eq!(alive_cells(&g), vertical);
    g.next_generation();
    assert_eq!(alive_cells(&g), horizontal);
}

#[test]
fn next_generation_keeps_previous_grid_and_chains() {
    let horizontal = vec![(2, 1), (2, 2), (2, 3)];
    let mut g = game_with(5, 5, &horizontal);
    g.next_generation().next_generation();
    assert_eq!(alive_cells(&g), horizontal);
    assert_eq!(previous_alive_cells(&g), vec![(1, 2), (2, 2), (3, 2)]);
}

#[test]
fn glider_gun_places_its_cells() {
    let offsets: [(usize, usize); 36] = [
        (0, 24),
        (1, 22), (1, 24),
        (2, 12), (2, 13), (2, 20), (2, 21), (2, 34), (2, 35),
        (3, 11), (3, 15), (3, 20), (3, 21), (3, 34), (3, 35),
        (4, 0), (4, 1), (4, 10), (4, 16), (4, 20), (4, 21),
        (5, 0), (5, 1), (5, 10), (5, 14), (5, 16), (5, 17), (5, 22), (5, 24),
        (6, 10), (6, 16), (6, 24),
        (7, 11), (7, 15),
        (8, 12), (8, 13),
    ];
    let mut expected: Vec<(usize, usize)> =
        offsets.iter().map(|&(r, c)| (GUN_ROW + r, GUN_COL + c)).collect();
    expected.sort();
    let mut g = GameOfLife::new(45, 45);
    g.add_gosper_glider_gun();
    let alive = alive_cells(&g);
    assert_eq!(alive.len(), 36);
    assert_eq!(alive, expected);
    assert_eq!(g.cell(5, 25), CellState::Alive);
    assert_eq!(g.cell(13, 14), CellState::Alive);
    assert!(previous_alive_cells(&g).is_empty());
}

#[test]
fn glider_gun_fits_smallest_grid_and_keeps_other_cells() {
    let mut g = game_with(37, 14, &[(0, 0), (13, 36)]);
    g.add_gosper_glider_gun();
    let alive = alive_cells(&g);
    assert_eq!(alive.len(), 38);
    assert_eq!(g.cell(0, 0), CellState::Alive);
    assert_eq!(g.cell(13, 36), CellState::Alive);
}

#[test]
fn glider_gun_keeps_running() {
    let mut g = GameOfLife::new(40, 40);
    g.add_gosper_glider_gun();
    for _ in 0..30 {
        g.next_generation();
    }
    // After one period of thirty generations the gun is whole again and a glider
    // has left it.
    assert!(alive_cells(&g).len() > 36);
    assert_eq!(g.cell(5, 25), CellState::Alive);
}

#[test]
fn rule_table() {
    for n in 0..=8u8 {
        let survives = n == 2 || n == 3;
        let born = n == 3;
        assert_eq!(apply_rule(CellState::Alive, n) == CellState::Alive, survives);
        assert_eq!(apply_rule(CellState::Dead, n) == CellState::Alive, born);
    }
}

#[test]
fn xorshift_step_exact() {
    assert_eq!(next_seed(1), 1_082_269_761);
    assert_eq!(next_seed(0), 0);
    assert_eq!(cell_from_seed(1_082_269_761), CellState::Dead);
    assert_eq!(cell_from_seed(114), CellState::Alive);
    assert_eq!(cell_from_seed(115), CellState::Dead);
    assert_eq!(cell_from_seed(0), CellState::Alive);
}

#[test]
fn seeded_fill_follows_the_generator() {
    let seed: u128 = 0x1234_5678_9abc_def0;
    let mut g = GameOfLife::new(6, 4);
    g.set_cell(1, 1, CellState::Alive);
    g.next_generation();
    g.set_cell(0, 0, CellState::Alive);
    g.randomize_from_seed(seed);
    let mut x = seed;
    for r in 0..4 {
        for c in 0..6 {
            x ^= x << 13;
            x ^= x >> 7;
            x ^= x << 17;
            let expected = if x % 100 < 15 { CellState::Alive } else { CellState::Dead };
            assert_eq!(g.cell(r, c), expected);
        }
    }
    // The previous grid is untouched by the fill.
    assert_eq!(previous_alive_cells(&g), vec![(1, 1)]);
}

#[test]
fn seed_zero_fills_all_alive() {
    // Zero is a fixed point of xorshift, and zero is below the live threshold.
    let mut g = game_with(5, 5, &[(1, 1), (2, 2)]);
    g.randomize_from_seed(0);
    assert_eq!(alive_cells(&g).len(), 25);
}

#[test]
fn randomize_keeps_size_and_previous() {
    let mut g = game_with(10, 8, &[(3, 3)]);
    g.next_generation();
    g.set_cell(4, 4, CellState::Alive);
    g.randomize().next_generation();
    assert_eq!(g.width(), 10);
    assert_eq!(g.height(), 8);
    let mut h = GameOfLife::new(20, 20);
    h.randomize();
    assert!(previous_alive_cells(&h).is_empty());
}

#[test]
fn render_draws_rows_in_order() {
    let g = game_with(2, 2, &[(0, 0), (1, 1)]);
    assert_eq!(g.render(), "\u{2588}\u{2588}  \n  \u{2588}\u{2588}\n");
    assert_eq!(cell_glyph(CellState::Dead), "  ");
    assert_eq!(cell_glyph(CellState::Alive), "\u{2588}\u{2588}");
}
