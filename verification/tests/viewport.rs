use glyph_rain::cell::{AnsiColor, Cell};
use glyph_rain::viewport::Viewport;

#[test]
fn new_viewport_is_blank() {
    let v = Viewport::new(4, 3);
    assert_eq!(v.width(), 4);
    assert_eq!(v.height(), 3);
    for y in 0..3 {
        for x in 0..4 {
            assert_eq!(v.get(x, y), None);
        }
    }
}

#[test]
fn set_then_get_roundtrip() {
    let mut v = Viewport::new(8, 8);
    let cell = Cell { ch: 'a', color: AnsiColor::Green };
    v.set(3, 5, cell);
    assert_eq!(v.get(3, 5), Some(cell));
    assert_eq!(v.get(5, 3), None);
}

#[test]
fn set_out_of_bounds_is_dropped() {
    let mut v = Viewport::new(4, 4);
    let cell = Cell { ch: 'b', color: AnsiColor::White };
    v.set(4, 0, cell);
    v.set(0, 4, cell);
    v.set(100, 100, cell);
    for y in 0..4 {
        for x in 0..4 {
            assert_eq!(v.get(x, y), None);
        }
    }
}

#[test]
fn get_out_of_bounds_is_blank() {
    let mut v = Viewport::new(2, 2);
    v.set(1, 1, Cell { ch: 'c', color: AnsiColor::DarkGreen });
    assert_eq!(v.get(2, 1), None);
    assert_eq!(v.get(1, 2), None);
    assert_eq!(v.get(60000, 60000), None);
}

#[test]
fn zero_sized_viewport() {
    let mut v = Viewport::new(0, 5);
    v.set(0, 0, Cell { ch: 'd', color: AnsiColor::White });
    assert_eq!(v.get(0, 0), None);
    let w = Viewport::new(5, 0);
    assert_eq!(w.get(0, 0), None);
}
