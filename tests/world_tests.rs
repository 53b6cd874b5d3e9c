use life::cell::{Cell, ALIVE_GLYPH, DEAD_GLYPH};
use life::world::{live_from_draws, next_alive, DimensionError, World};

fn world_with(width: usize, height: usize, live: &[(usize, usize)]) -> World {
    let mut mask = vec![false; width * height];
    for &(x, y) in live {
        mask[y * width + x] = true;
    }
    World::from_interior(width, height, &mask)
}

fn live_cells(world: &World) -> Vec<(usize, usize)> {
    let mut out = Vec::new();
    for y in 0..world.height {
        for x in 0..world.width {
            if world.is_alive(x, y) {
                out.push((x, y));
            }
        }
    }
    out
}

fn border_is_dead(world: &World) -> bool {
    for y in 0..world.height {
        for x in 0..world.width {
            let on_border = x == 0 || y == 0 || x == world.width - 1 || y == world.height - 1;
            if on_border && world.is_alive(x, y) {
                return false;
            }
        }
    }
    true
}

#[test]
fn cell_new_keeps_flag() {
    assert!(Cell::new(true).alive);
    assert!(!Cell::new(false).alive);
}

#[test]
fn cell_glyphs() {
    assert_eq!(Cell::new(true).glyph(), '⬛');
    assert_eq!(Cell::new(false).glyph(), '⬜');
    assert_eq!(ALIVE_GLYPH, '⬛');
    assert_eq!(DEAD_GLYPH, '⬜');
}

#[test]
fn new_world_is_dead_with_right_size() {
    let w = World::new(7, 4);
    assert_eq!(w.cells.len(), 28);
    assert_eq!(w.width, 7);
    assert_eq!(w.height, 4);
    assert_eq!(w.tick_time_ms, 0);
    assert!(live_cells(&w).is_empty());
}

#[test]
fn try_new_rejects_bad_dimensions() {
    assert_eq!(World::try_new(0, 5).unwrap_err(), DimensionError::ZeroWidth);
    assert_eq!(World::try_new(5, 0).unwrap_err(), DimensionError::ZeroHeight);
    assert_eq!(World::try_new(0, 0).unwrap_err(), DimensionError::ZeroWidth);
    assert_eq!(World::try_new(usize::MAX, 2).unwrap_err(), DimensionError::TooLarge);
    let w = World::try_new(3, 2).unwrap();
    assert_eq!(w.cells.len(), 6);
    assert!(live_cells(&w).is_empty());
}

#[test]
fn rule_table() {
    assert!(!next_alive(true, 0));
    assert!(!next_alive(true, 1));
    assert!(next_alive(true, 2));
    assert!(next_alive(true, 3));
    assert!(!next_alive(true, 4));
    assert!(!next_alive(true, 8));
    assert!(!next_alive(false, 2));
    assert!(next_alive(false, 3));
    assert!(!next_alive(false, 4));
    assert!(!next_alive(false, 0));
}

#[test]
fn from_interior_forces_frame_dead() {
    let w = World::from_interior(4, 4, &vec![true; 16]);
    assert_eq!(live_cells(&w), vec![(1, 1), (2, 1), (1, 2), (2, 2)]);
}

#[test]
fn blinker_turns_vertical() {
    let w = world_with(5, 5, &[(1, 2), (2, 2), (3, 2)]);
    let next = w.tick();
    assert_eq!(next.width, 5);
    assert_eq!(next.height, 5);
    assert_eq!(next.cells.len(), 25);
    assert_eq!(live_cells(&next), vec![(2, 1), (2, 2), (2, 3)]);
    assert!(!next.is_alive(1, 2));
    assert!(!next.is_alive(3, 2));
    let back = next.tick();
    assert_eq!(live_cells(&back), vec![(1, 2), (2, 2), (3, 2)]);
}

#[test]
fn block_is_still_life() {
    let block = [(2, 2), (3, 2), (2, 3), (3, 3)];
    let w = world_with(6, 6, &block);
    let next = w.tick();
    assert_eq!(next.cells, w.cells);
    assert_eq!(live_cells(&next), block.to_vec());
}

#[test]
fn neighbor_counts() {
    let w = world_with(5, 5, &[(1, 2), (2, 2), (3, 2)]);
    assert_eq!(w.count_alive_neighbors(2, 2), 2);
    assert_eq!(w.count_alive_neighbors(2, 1), 3);
    assert_eq!(w.count_alive_neighbors(2, 3), 3);
    assert_eq!(w.count_alive_neighbors(1, 2), 1);
    assert_eq!(w.count_alive_neighbors(0, 0), 0);
    assert_eq!(w.count_alive_neighbors(usize::MAX, usize::MAX), 0);
    let full = World::from_interior(5, 5, &vec![true; 25]);
    assert_eq!(full.count_alive_neighbors(2, 2), 8);
    for y in 0..5 {
        for x in 0..5 {
            assert!(full.count_alive_neighbors(x, y) <= 8);
        }
    }
}

#[test]
fn compute_count_in_index_order() {
    let w = world_with(5, 5, &[(1, 2), (2, 2), (3, 2)]);
    let counts = w.compute_count();
    let expected: Vec<usize> = vec![
        0, 0, 0, 0, 0, //
        0, 2, 3, 2, 0, //
        0, 1, 2, 1, 0, //
        0, 2, 3, 2, 0, //
        0, 0, 0, 0, 0,
    ];
    assert_eq!(counts, expected);
}

#[test]
fn advance_is_deterministic() {
    let w = World::new_random_seeded(40, 30, 7);
    let a = w.clone();
    let b = w.clone();
    assert_eq!(a.tick().cells, b.tick().cells);
}

#[test]
fn clear_is_idempotent() {
    let w = World::new_random_seeded(20, 10, 3);
    let once = w.clear();
    let twice = once.clear();
    assert_eq!(once.width, 20);
    assert_eq!(once.height, 10);
    assert_eq!(once.tick_time_ms, 0);
    assert!(live_cells(&once).is_empty());
    assert_eq!(once.cells, twice.cells);
}

#[test]
fn random_fraction_near_quarter() {
    let w = World::new_random_seeded(1000, 1000, 42);
    let interior = 998 * 998;
    let live = w.cells.iter().filter(|c| c.alive).count();
    let fraction = live as f64 / interior as f64;
    assert!((fraction - 0.25).abs() <= 0.02, "fraction {}", fraction);
    assert!(border_is_dead(&w));
}

#[test]
fn seeded_worlds_repeat() {
    let a = World::new_random_seeded(30, 20, 99);
    let b = World::new_random_seeded(30, 20, 99);
    assert_eq!(a.cells, b.cells);
}

#[test]
fn random_worlds_keep_frame_dead() {
    let w = World::new_random(50, 40);
    assert_eq!(w.cells.len(), 2000);
    assert!(border_is_dead(&w));
    let r = w.random();
    assert_eq!(r.width, 50);
    assert_eq!(r.height, 40);
    assert_eq!(r.cells.len(), 2000);
    assert!(border_is_dead(&r));
}

#[test]
fn out_of_bounds_reads_dead() {
    let w = World::from_interior(4, 3, &vec![true; 12]);
    assert!(w.is_alive(1, 1));
    assert!(!w.is_alive(4, 0));
    assert!(!w.is_alive(0, 3));
    assert!(!w.is_alive(usize::MAX, 0));
    assert!(!w.is_alive(0, usize::MAX));
    assert!(!w.is_alive(usize::MAX, usize::MAX));
    assert!(!w.cell_live(4, 1));
    assert!(w.cell_live(2, 1));
}

#[test]
fn border_stays_dead_over_generations() {
    let mut w = World::new_random_seeded(25, 25, 11);
    for _ in 0..20 {
        w = w.tick();
        assert_eq!(w.cells.len(), 625);
        assert!(border_is_dead(&w));
    }
}

#[test]
fn text_rendering() {
    let w = world_with(3, 3, &[(1, 1)]);
    assert_eq!(w.to_string(), "⬜⬜⬜\n⬜⬛⬜\n⬜⬜⬜\n");
    let wide = World::new(2, 1);
    assert_eq!(wide.to_string(), "⬜⬜\n");
}

#[test]
fn live_from_draws_uses_zero_draws_inside_frame() {
    let draws = vec![
        None, None, None, None, //
        None, Some(0), Some(3), None, //
        None, Some(1), Some(0), None, //
        None, None, None, None,
    ];
    let live = live_from_draws(4, 4, &draws);
    let expected = vec![
        false, false, false, false, //
        false, true, false, false, //
        false, false, true, false, //
        false, false, false, false,
    ];
    assert_eq!(live, expected);
    let frame_zero = vec![Some(0); 16];
    let live = live_from_draws(4, 4, &frame_zero);
    assert_eq!(live.iter().filter(|b| **b).count(), 4);
    assert!(!live[0] && !live[3] && !live[12] && !live[15]);
}

#[test]
fn from_draws_builds_world() {
    let draws = vec![None, None, None, None, Some(0), None, None, None, None];
    let w = World::from_draws(3, 3, &draws);
    assert_eq!(live_cells(&w), vec![(1, 1)]);
    assert_eq!(w.tick_time_ms, 0);
    let none_zero = vec![None, None, None, None, Some(2), None, None, None, None];
    assert!(live_cells(&World::from_draws(3, 3, &none_zero)).is_empty());
}
