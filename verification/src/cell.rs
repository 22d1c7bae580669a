use vstd::prelude::*;

verus! {

/// The three-tier color gradient of a trail, brightest to dimmest.
/// Mapping these tiers to real terminal colors is the renderer's concern.
#[derive(Clone, Copy, Debug, PartialEq, Eq, Structural)]
pub enum AnsiColor {
    White,
    Green,
    DarkGreen,
}

/// One glyph of a trail: a character and its gradient tier.
#[derive(Clone, Copy, Debug, PartialEq, Eq, Structural)]
pub struct Glyph {
    pub value: char,
    pub color: AnsiColor,
}

/// One occupied screen cell.
#[derive(Clone, Copy, Debug, PartialEq, Eq, Structural)]
pub struct Cell {
    pub ch: char,
    pub color: AnsiColor,
}

} // verus!
