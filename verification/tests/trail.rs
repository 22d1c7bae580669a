use glyph_rain::cell::AnsiColor;
use glyph_rain::trail::GlyphStack;

fn bare_trail(max_length: u16, interval: u64) -> GlyphStack {
    GlyphStack {
        x: 0,
        min_y: 0,
        stack: Vec::new(),
        length: max_length,
        last_update: 0,
        update_interval: interval,
    }
}

#[test]
fn five_advances_with_cap_three() {
    // A trail capped at 3 glyphs, advanced 5 times, holds exactly 3
    // glyphs and has dropped its tail twice.
    let mut t = bare_trail(3, 10);
    for step in 1..=5u64 {
        t.update(step * 10);
    }
    assert_eq!(t.stack.len(), 3);
    assert_eq!(t.min_y, 2);
}

#[test]
fn glyph_count_never_exceeds_cap() {
    let mut t = bare_trail(4, 10);
    for step in 1..=20u64 {
        t.update(step * 10);
        assert!(t.stack.len() <= 4);
    }
    assert_eq!(t.stack.len(), 4);
}

#[test]
fn at_cap_each_advance_preserves_count_and_descends() {
    let mut t = bare_trail(2, 10);
    t.update(10);
    t.update(20);
    assert_eq!(t.stack.len(), 2);
    let min_y_before = t.min_y;
    t.update(30);
    assert_eq!(t.stack.len(), 2);
    assert_eq!(t.min_y, min_y_before + 1);
}

#[test]
fn first_advance_is_never_gated() {
    let mut t = bare_trail(5, 1000);
    t.update(1);
    assert_eq!(t.stack.len(), 1);
    assert_eq!(t.min_y, 0);
}

#[test]
fn cadence_gates_later_advances() {
    let mut t = bare_trail(5, 100);
    t.update(50);
    assert_eq!(t.stack.len(), 1);
    t.update(60);
    t.update(149);
    assert_eq!(t.stack.len(), 1);
    t.update(150);
    assert_eq!(t.stack.len(), 2);
}

#[test]
fn head_is_bright_and_from_the_glyph_block() {
    let mut t = bare_trail(6, 10);
    for step in 1..=4u64 {
        t.update(step * 10);
        let head = t.stack.last().unwrap();
        assert_eq!(head.color, AnsiColor::White);
        let code = head.value as u32;
        assert!((0x30A0..0x30FF).contains(&code));
    }
    for g in &t.stack {
        let code = g.value as u32;
        assert!((0x30A0..0x30FF).contains(&code));
    }
}

#[test]
fn previous_head_turns_mid_gradient() {
    let mut t = bare_trail(10, 10);
    t.update(10);
    t.update(20);
    t.update(30);
    t.update(40);
    // With 4 glyphs the mid-dimming touches index 4 - 1 - 4 / 2 = 1, so
    // the glyph right behind the head stays mid-gradient.
    let behind_head = t.stack[t.stack.len() - 2];
    assert_eq!(behind_head.color, AnsiColor::Green);
}

#[test]
fn gradient_colors_follow_the_advance_rule() {
    // Colors are deterministic (the flicker only touches characters).
    // Oldest first: after each advance the previous head turns Green and
    // the glyph nearest the middle dims if it is Green at that point.
    let mut t = bare_trail(10, 10);
    t.update(10);
    let colors: Vec<AnsiColor> = t.stack.iter().map(|g| g.color).collect();
    assert_eq!(colors, vec![AnsiColor::White]);
    t.update(20);
    let colors: Vec<AnsiColor> = t.stack.iter().map(|g| g.color).collect();
    assert_eq!(colors, vec![AnsiColor::Green, AnsiColor::White]);
    t.update(30);
    let colors: Vec<AnsiColor> = t.stack.iter().map(|g| g.color).collect();
    assert_eq!(colors, vec![AnsiColor::Green, AnsiColor::DarkGreen, AnsiColor::White]);
    t.update(40);
    let colors: Vec<AnsiColor> = t.stack.iter().map(|g| g.color).collect();
    assert_eq!(
        colors,
        vec![AnsiColor::Green, AnsiColor::DarkGreen, AnsiColor::Green, AnsiColor::White]
    );
}

#[test]
fn drop_and_recolor_balance_at_the_cap() {
    // At the cap the oldest glyph drops as the new head arrives, so the
    // stack keeps one bright head at the end after every advance.
    let mut t = bare_trail(3, 10);
    for step in 1..=8u64 {
        t.update(step * 10);
        assert_eq!(t.stack.last().unwrap().color, AnsiColor::White);
    }
    assert_eq!(t.stack.len(), 3);
    assert_eq!(t.min_y, 5);
}

#[test]
fn spawned_trail_starts_empty_at_its_column() {
    let t = GlyphStack::new(6, 24, 10, 5, 123);
    assert_eq!(t.x, 6);
    assert_eq!(t.min_y, 0);
    assert!(t.stack.is_empty());
    assert_eq!(t.last_update, 123);
    assert!(t.length >= 1);
    assert!(t.length <= 24 * 3 / 4);
    assert!((50..250).contains(&t.update_interval));
}

#[test]
fn spawn_cap_scales_with_max_height_parameter() {
    for _ in 0..50 {
        let t = GlyphStack::new(0, 100, 2, 5, 0);
        // 100 * 3/4 = 75, scaled by 2 tenths: at most 15.
        assert!(t.length >= 1);
        assert!(t.length <= 15);
    }
}

#[test]
fn spawn_cadence_narrows_with_speed() {
    for _ in 0..50 {
        let slow = GlyphStack::new(0, 24, 10, 1, 0);
        assert!((50..1050).contains(&slow.update_interval));
        let fast = GlyphStack::new(0, 24, 10, 50, 0);
        assert!((50..70).contains(&fast.update_interval));
    }
}

#[test]
fn tiny_viewport_still_spawns() {
    let t = GlyphStack::new(0, 1, 1, 25, 0);
    assert_eq!(t.length, 1);
}
