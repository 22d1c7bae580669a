use glyph_rain::cell::{AnsiColor, Cell};
use glyph_rain::diff::{diff_viewports, Change};
use glyph_rain::viewport::Viewport;

#[test]
fn diff_of_identical_snapshots_is_empty() {
    let mut v = Viewport::new(6, 6);
    v.set(1, 2, Cell { ch: 'x', color: AnsiColor::White });
    v.set(5, 5, Cell { ch: 'y', color: AnsiColor::Green });
    let changes = diff_viewports(&v, &v);
    assert!(changes.is_empty());
}

#[test]
fn diff_of_empty_snapshots_is_empty() {
    let a = Viewport::new(10, 10);
    let b = Viewport::new(10, 10);
    assert!(diff_viewports(&a, &b).is_empty());
}

#[test]
fn new_cell_becomes_update() {
    let old = Viewport::new(5, 5);
    let mut new = Viewport::new(5, 5);
    new.set(2, 3, Cell { ch: 'z', color: AnsiColor::DarkGreen });
    let changes = diff_viewports(&old, &new);
    assert_eq!(changes.len(), 1);
    assert_eq!(changes[0], Change::Update(2, 3, 'z', AnsiColor::DarkGreen));
}

#[test]
fn removed_cell_becomes_remove() {
    let mut old = Viewport::new(5, 5);
    old.set(4, 0, Cell { ch: 'q', color: AnsiColor::White });
    let new = Viewport::new(5, 5);
    let changes = diff_viewports(&old, &new);
    assert_eq!(changes.len(), 1);
    assert_eq!(changes[0], Change::Remove(4, 0));
}

#[test]
fn changed_cell_becomes_update() {
    let mut old = Viewport::new(3, 3);
    old.set(1, 1, Cell { ch: 'a', color: AnsiColor::White });
    let mut new = Viewport::new(3, 3);
    new.set(1, 1, Cell { ch: 'a', color: AnsiColor::Green });
    let changes = diff_viewports(&old, &new);
    assert_eq!(changes.len(), 1);
    assert_eq!(changes[0], Change::Update(1, 1, 'a', AnsiColor::Green));
}

#[test]
fn changes_come_in_row_major_order() {
    let old = Viewport::new(4, 4);
    let mut new = Viewport::new(4, 4);
    new.set(3, 0, Cell { ch: 'a', color: AnsiColor::White });
    new.set(0, 1, Cell { ch: 'b', color: AnsiColor::White });
    new.set(2, 1, Cell { ch: 'c', color: AnsiColor::White });
    new.set(1, 3, Cell { ch: 'd', color: AnsiColor::White });
    let changes = diff_viewports(&old, &new);
    assert_eq!(
        changes,
        vec![
            Change::Update(3, 0, 'a', AnsiColor::White),
            Change::Update(0, 1, 'b', AnsiColor::White),
            Change::Update(2, 1, 'c', AnsiColor::White),
            Change::Update(1, 3, 'd', AnsiColor::White),
        ]
    );
}

#[test]
fn diff_scans_the_new_snapshot_bounds() {
    // The scan runs over the new snapshot's dimensions: a cell of the old
    // snapshot outside them is never reported.
    let mut old = Viewport::new(6, 6);
    old.set(5, 5, Cell { ch: 'x', color: AnsiColor::White });
    old.set(1, 1, Cell { ch: 'y', color: AnsiColor::White });
    let new = Viewport::new(3, 3);
    let changes = diff_viewports(&old, &new);
    assert_eq!(changes, vec![Change::Remove(1, 1)]);
}

#[test]
fn diff_is_deterministic() {
    let mut old = Viewport::new(7, 7);
    old.set(0, 0, Cell { ch: 'm', color: AnsiColor::Green });
    let mut new = Viewport::new(7, 7);
    new.set(6, 6, Cell { ch: 'n', color: AnsiColor::White });
    let first = diff_viewports(&old, &new);
    let second = diff_viewports(&old, &new);
    assert_eq!(first, second);
}
