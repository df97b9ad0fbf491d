use life_runner::{CellState, Grid, Size};

fn grid(width: u32, height: u32) -> Grid {
    Grid::new(Size { width, height })
}

fn live_cells(g: &Grid) -> Vec<(u32, u32, CellState)> {
    let mut out = Vec::new();
    for y in 0..g.size.height {
        for x in 0..g.size.width {
            let c = g.get(x, y);
            if c != CellState::Off {
                out.push((x, y, c));
            }
        }
    }
    out
}

#[test]
fn new_grid_is_all_off() {
    let g = grid(7, 5);
    assert_eq!(g.buffer.len(), 35);
    assert!(g.buffer.iter().all(|c| *c == CellState::Off));
}

#[test]
fn set_then_get_is_row_major() {
    let mut g = grid(4, 3);
    g.set(2, 1, CellState::On);
    assert_eq!(g.get(2, 1), CellState::On);
    assert_eq!(g.buffer[1 * 4 + 2], CellState::On);
    assert_eq!(live_cells(&g).len(), 1);
}

#[test]
fn swap_exchanges_two_cells() {
    let mut g = grid(4, 4);
    g.set(0, 0, CellState::On);
    g.set(3, 2, CellState::Dying);
    g.swap(0, 0, 3, 2);
    assert_eq!(g.get(0, 0), CellState::Dying);
    assert_eq!(g.get(3, 2), CellState::On);
}

#[test]
fn corner_sees_opposite_corner() {
    let mut g = grid(6, 5);
    g.set(5, 4, CellState::On);
    assert_eq!(g.live_neighbor_count(0, 0), 1);
    assert_eq!(g.live_neighbor_count(0, 4), 1);
    assert_eq!(g.live_neighbor_count(5, 0), 1);
    assert_eq!(g.live_neighbor_count(4, 3), 1);
    assert_eq!(g.live_neighbor_count(2, 2), 0);
}

#[test]
fn edges_wrap_on_both_axes() {
    let mut g = grid(6, 5);
    g.set(0, 2, CellState::On);
    g.set(3, 0, CellState::On);
    assert_eq!(g.live_neighbor_count(5, 2), 1);
    assert_eq!(g.live_neighbor_count(3, 4), 1);
}

#[test]
fn rotated_grid_counts_the_same() {
    let (w, h) = (7u32, 6u32);
    let mut g = grid(w, h);
    for (x, y) in [(0, 0), (6, 5), (3, 0), (0, 4), (2, 2), (6, 1)] {
        g.set(x, y, CellState::On);
    }
    g.set(5, 5, CellState::Dying);
    let (a, b) = (3u32, 4u32);
    let mut r = grid(w, h);
    for y in 0..h {
        for x in 0..w {
            r.set((x + a) % w, (y + b) % h, g.get(x, y));
        }
    }
    for y in 0..h {
        for x in 0..w {
            assert_eq!(
                r.live_neighbor_count((x + a) % w, (y + b) % h),
                g.live_neighbor_count(x, y)
            );
        }
    }
}

#[test]
fn count_skips_the_cell_itself_and_counts_dying() {
    let mut g = grid(5, 5);
    g.set(2, 2, CellState::On);
    assert_eq!(g.live_neighbor_count(2, 2), 0);
    g.set(1, 1, CellState::Dying);
    g.set(3, 3, CellState::Spawning);
    assert_eq!(g.live_neighbor_count(2, 2), 1);
}

#[test]
fn resolve_settles_transient_cells() {
    let mut g = grid(4, 4);
    g.set(0, 0, CellState::Spawning);
    g.set(1, 0, CellState::Dying);
    g.set(2, 0, CellState::On);
    g.half_step(true);
    assert_eq!(g.get(0, 0), CellState::On);
    assert_eq!(g.get(1, 0), CellState::Off);
    assert_eq!(g.get(2, 0), CellState::On);
    assert_eq!(g.get(3, 3), CellState::Off);
}

#[test]
fn mark_leaves_transient_cells_for_the_next_resolve() {
    let mut g = grid(5, 5);
    g.set(1, 1, CellState::Spawning);
    g.set(3, 3, CellState::Dying);
    g.half_step(false);
    assert_eq!(g.get(1, 1), CellState::Spawning);
    assert_eq!(g.get(3, 3), CellState::Dying);
    g.half_step(true);
    assert_eq!(g.get(1, 1), CellState::On);
    assert_eq!(g.get(3, 3), CellState::Off);
}

#[test]
fn mark_applies_birth_and_death() {
    let mut g = grid(6, 6);
    // A horizontal blinker.
    g.set(1, 2, CellState::On);
    g.set(2, 2, CellState::On);
    g.set(3, 2, CellState::On);
    g.half_step(false);
    assert_eq!(g.get(1, 2), CellState::Dying);
    assert_eq!(g.get(2, 2), CellState::On);
    assert_eq!(g.get(3, 2), CellState::Dying);
    assert_eq!(g.get(2, 1), CellState::Spawning);
    assert_eq!(g.get(2, 3), CellState::Spawning);
    assert_eq!(live_cells(&g).len(), 5);
    g.half_step(true);
    assert_eq!(
        live_cells(&g),
        vec![(2, 1, CellState::On), (2, 2, CellState::On), (2, 3, CellState::On)]
    );
}

#[test]
fn overcrowded_cell_dies() {
    let mut g = grid(5, 5);
    for (x, y) in [(2, 2), (1, 1), (2, 1), (3, 1), (1, 2)] {
        g.set(x, y, CellState::On);
    }
    g.half_step(false);
    assert_eq!(g.get(2, 2), CellState::Dying);
}

#[test]
fn bytes_are_one_little_endian_word_per_cell() {
    let mut g = grid(3, 1);
    g.set(0, 0, CellState::On);
    g.set(1, 0, CellState::Dying);
    g.set(2, 0, CellState::Spawning);
    assert_eq!(g.to_bytes(), vec![1, 0, 0, 0, 2, 0, 0, 0, 3, 0, 0, 0]);
    let empty = grid(2, 1);
    assert_eq!(empty.to_bytes(), vec![0; 8]);
}
