use glyph_rain::diff::{diff_viewports, Change};
use glyph_rain::engine::Game;

fn change_coords(c: &Change) -> (u16, u16) {
    match c {
        Change::Update(x, y, _, _) => (*x, *y),
        Change::Remove(x, y) => (*x, *y),
    }
}

fn at_full_density(width: u16, height: u16) -> Game {
    let mut g = Game::new(width, height);
    for _ in 0..10 {
        g.increase_density();
    }
    assert_eq!(g.density(), 10);
    g
}

#[test]
fn density_saturates_upward() {
    let mut g = Game::new(10, 10);
    assert_eq!(g.density(), 5);
    for _ in 0..10 {
        g.increase_density();
    }
    assert_eq!(g.density(), 10);
}

#[test]
fn density_saturates_downward() {
    let mut g = Game::new(10, 10);
    for _ in 0..10 {
        g.decrease_density();
    }
    assert_eq!(g.density(), 1);
}

#[test]
fn max_stack_height_clamps() {
    let mut g = Game::new(10, 10);
    assert_eq!(g.max_stack_height(), 10);
    for _ in 0..15 {
        g.increase_max_stack_height();
    }
    assert_eq!(g.max_stack_height(), 10);
    for _ in 0..15 {
        g.decrease_max_stack_height();
    }
    assert_eq!(g.max_stack_height(), 1);
}

#[test]
fn speed_clamps() {
    let mut g = Game::new(10, 10);
    assert_eq!(g.speed(), 5);
    for _ in 0..60 {
        g.increase_speed();
    }
    assert_eq!(g.speed(), 50);
    for _ in 0..60 {
        g.decrease_speed();
    }
    assert_eq!(g.speed(), 1);
}

#[test]
fn full_density_first_tick_only_sets() {
    // On an empty 10x10 grid with guaranteed spawning, the first tick
    // paints at least one cell and clears none.
    let mut g = at_full_density(10, 10);
    let changes = g.update_and_get_changes(0);
    assert!(!changes.is_empty());
    for c in &changes {
        assert!(matches!(c, Change::Update(_, _, _, _)));
    }
}

#[test]
fn every_change_is_inside_the_viewport() {
    let mut g = at_full_density(30, 20);
    for step in 0..200u64 {
        let changes = g.update_and_get_changes(step * 40);
        for c in &changes {
            let (x, y) = change_coords(c);
            assert!(x < 30);
            assert!(y < 20);
        }
    }
}

#[test]
fn tick_changes_equal_snapshot_diff() {
    let mut g = at_full_density(16, 12);
    for step in 0..50u64 {
        let before = g.current_view().clone();
        let changes = g.update_and_get_changes(step * 60);
        let after = g.current_view().clone();
        assert_eq!(changes, diff_viewports(&before, &after));
    }
}

#[test]
fn resize_drops_trails_outside_the_new_bounds() {
    let mut g = at_full_density(80, 24);
    for step in 0..120u64 {
        g.update_and_get_changes(step * 30);
    }
    assert!(!g.stacks().is_empty());
    g.resize(40, 24);
    let (w, h) = g.get_dimensions();
    assert_eq!((w, h), (40, 24));
    for s in g.stacks() {
        assert!(s.x < 40);
        assert!(s.min_y < 24);
    }
    // The snapshot was cleared wholesale; the next rebuilt snapshot stays
    // inside the new bounds.
    for y in 0..24 {
        for x in 0..80 {
            assert_eq!(g.current_view().get(x, y), None);
        }
    }
    let changes = g.update_and_get_changes(4000);
    for c in &changes {
        let (x, y) = change_coords(c);
        assert!(x < 40);
        assert!(y < 24);
    }
}

#[test]
fn trails_live_in_even_columns() {
    let mut g = at_full_density(31, 10);
    for step in 0..40u64 {
        g.update_and_get_changes(step * 30);
    }
    for s in g.stacks() {
        assert_eq!(s.x % 2, 0);
        assert!(s.x < 31);
    }
}

#[test]
fn spawned_cadences_respect_the_speed_window() {
    let mut g = at_full_density(20, 20);
    for step in 0..30u64 {
        g.update_and_get_changes(step * 25);
    }
    assert!(!g.stacks().is_empty());
    for s in g.stacks() {
        // Default speed level 5: cadence drawn from [50, 50 + 1000/5).
        assert!((50..250).contains(&s.update_interval));
    }
}

#[test]
fn telemetry_mirrors_the_settings() {
    let mut g = at_full_density(12, 12);
    g.update_and_get_changes(0);
    assert_eq!(g.debug_info.density, 10);
    assert_eq!(g.debug_info.max_stack_height, 10);
    assert_eq!(g.debug_info.speed, 5);
    assert_eq!(g.debug_info.stacks_per_update, 1);
    assert!(g.debug_info.glyphs_per_update >= 1);
}

#[test]
fn telemetry_min_max_delay_bracket_the_trails() {
    let mut g = at_full_density(20, 20);
    for step in 0..10u64 {
        g.update_and_get_changes(step * 30);
    }
    let lo = g.debug_info.min_glyph_delay;
    let hi = g.debug_info.max_glyph_delay;
    assert!(lo <= hi);
    for s in g.stacks() {
        assert!(lo <= s.update_interval);
        assert!(s.update_interval <= hi);
    }
}

#[test]
fn updates_per_sec_counts_the_window() {
    let mut g = Game::new(6, 6);
    g.update_and_get_changes(0);
    g.update_and_get_changes(500);
    assert_eq!(g.debug_info.updates_per_sec, 0);
    g.update_and_get_changes(1500);
    // Three ticks in a 1500 ms window: 3 * 1000 / 1500 = 2 per second.
    assert_eq!(g.debug_info.updates_per_sec, 2);
}

#[test]
fn toggle_debug_flips_the_flag() {
    let mut g = Game::new(5, 5);
    assert!(!g.debug);
    g.toggle_debug();
    assert!(g.debug);
    g.toggle_debug();
    assert!(!g.debug);
}

#[test]
fn one_column_viewport_never_spawns() {
    // A viewport too narrow for an even spawn column stays empty.
    let mut g = at_full_density(1, 10);
    for step in 0..20u64 {
        let changes = g.update_and_get_changes(step * 30);
        assert!(changes.is_empty());
    }
    assert!(g.stacks().is_empty());
}

#[test]
fn trails_eventually_fall_out() {
    // With spawning effectively off and a short viewport, the trails that
    // exist fall past the bottom and are dropped.
    let mut g = at_full_density(10, 3);
    g.update_and_get_changes(0);
    assert!(!g.stacks().is_empty());
    for _ in 0..10 {
        g.decrease_density();
    }
    let mut step: u64 = 0;
    let mut spawned_none_yet_empty = false;
    while step < 4000 {
        step += 1;
        g.update_and_get_changes(step * 300);
        if g.stacks().is_empty() {
            spawned_none_yet_empty = true;
            break;
        }
    }
    // Density 0.1 still spawns sometimes, but every trail advances every
    // 300 ms step and a 3-row viewport is exited within a few steps, so
    // an empty state is reached quickly with overwhelming probability.
    assert!(spawned_none_yet_empty);
}
