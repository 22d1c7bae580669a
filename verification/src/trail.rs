use vstd::prelude::*;
use vstd::pervasive::VecAdditionalExecFns;
use crate::cell::{AnsiColor, Glyph};
use crate::rng::{char_from_code, random_below};

verus! {

/// The inclusive lowest code point a glyph is drawn from (a katakana block).
pub const GLYPH_CODE_LO: u32 = 0x30A0;

/// The exclusive highest code point a glyph is drawn from.
pub const GLYPH_CODE_HI: u32 = 0x30FF;

/// A random character from the glyph block.
fn random_glyph() -> (c: char)
    ensures
        GLYPH_CODE_LO <= c as u32 && (c as u32) < GLYPH_CODE_HI,
{
    let off = random_below((GLYPH_CODE_HI - GLYPH_CODE_LO) as u64);
    char_from_code(GLYPH_CODE_LO + off as u32)
}

/// One falling trail of glyphs in a fixed column.
///
/// `stack` keeps the glyphs oldest first: the glyph at index `i` sits on
/// screen row `min_y + i`, so the newest glyph (the bright head) is the
/// last element and falls one row per effective advance.  `min_y` counts
/// the tail glyphs dropped so far; it is also the row of the oldest glyph
/// still held.  A freshly spawned trail holds no glyph: its first advance,
/// which is never gated by the cadence, pushes the bright head.
pub struct GlyphStack {
    /// The fixed column of the trail.
    pub x: u16,
    /// How far the trail's tail has descended: the row of the oldest glyph.
    pub min_y: u16,
    /// The glyphs, oldest first.
    pub stack: Vec<Glyph>,
    /// The maximum number of glyphs the trail may hold.
    pub length: u16,
    /// When the trail last advanced, in caller-supplied milliseconds.
    pub last_update: u64,
    /// The trail's cadence: milliseconds between advances.
    pub update_interval: u64,
}

/// The glyph characters of `s` agree with those of `base` at every index
/// of `base` other than `f`.  The flicker of an advance changes at most
/// one glyph's character, so an advance guarantees this for some index.
pub open spec fn values_match_except(s: Seq<Glyph>, base: Seq<Glyph>, f: int) -> bool {
    forall|i: int| 0 <= i < base.len() && i != f ==> (#[trigger] s[i]).value == base[i].value
}

/// The color a surviving glyph carries after an advance: the previous head
/// turns mid-gradient, and afterwards the glyph nearest the middle of the
/// grown stack turns dim if it is mid-gradient at that point.  `base` is
/// the old stack minus the dropped tail glyph, `i` an index into it.
pub open spec fn advanced_color(base: Seq<Glyph>, i: int) -> AnsiColor {
    let m = base.len() as int;
    let c0 = if i == m - 1 {
        AnsiColor::Green
    } else {
        base[i].color
    };
    let n = m + 1;
    if n > 2 && i == n - 1 - n / 2 && c0 == AnsiColor::Green {
        AnsiColor::DarkGreen
    } else {
        c0
    }
}

impl GlyphStack {
    /// Well-formedness: the cap is positive and never exceeded.
    pub open spec fn wf(self) -> bool {
        1 <= self.length && self.stack@.len() <= self.length
    }

    /// Does an advance at time `now` take a step?  An empty trail always
    /// does; otherwise its cadence gates it.
    pub open spec fn fires(self, now: u64) -> bool {
        self.stack@.len() == 0
            || (now >= self.last_update && now - self.last_update >= self.update_interval)
    }

    /// The glyphs that survive an advance: all of them, minus the oldest
    /// when the trail is already at its maximum length.
    pub open spec fn surviving(self) -> Seq<Glyph> {
        if self.stack@.len() == self.length {
            self.stack@.skip(1)
        } else {
            self.stack@
        }
    }

    /// Does this trail put a glyph on (x, y)?
    pub open spec fn covers(self, x: int, y: int) -> bool {
        x == self.x && self.min_y <= y < self.min_y + self.stack@.len()
    }

    /// The glyph this trail puts on row y.
    pub open spec fn glyph_at(self, y: int) -> Glyph
        recommends
            self.min_y <= y < self.min_y + self.stack@.len(),
    {
        self.stack@[y - self.min_y]
    }

    /// The largest initial length a spawn may draw: three quarters of the
    /// viewport height, scaled by the max-height parameter in tenths, and
    /// at least one.
    pub open spec fn spec_max_spawn_len(height: u16, max_height_tenths: u8) -> int {
        let scaled = (height as int) * 3 / 4 * (max_height_tenths as int) / 10;
        if scaled < 1 {
            1
        } else {
            scaled
        }
    }

    /// Spawn a trail in the given column.  The initial length cap is drawn
    /// from [1, spec_max_spawn_len(height, max_height_tenths)]; the cadence
    /// is drawn from a window of at least 50 ms that narrows as the speed
    /// parameter grows.  The trail holds no glyph yet.
    pub fn new(x: u16, height: u16, max_height_tenths: u8, speed: u8, now: u64) -> (t: GlyphStack)
        requires
            1 <= max_height_tenths <= 10,
            1 <= speed <= 50,
        ensures
            t.wf(),
            t.x == x,
            t.min_y == 0,
            t.stack@.len() == 0,
            t.last_update == now,
            1 <= t.length <= Self::spec_max_spawn_len(height, max_height_tenths),
            50 <= t.update_interval < 50 + 1000int / (speed as int),
    {
        proof {
            assert((height as int) * 3 / 4 * (max_height_tenths as int) <= 49151 * 10)
                by (nonlinear_arith)
                requires
                    0 <= (height as int) <= 0xffff,
                    1 <= (max_height_tenths as int) <= 10,
            ;
        }
        let scaled: u32 = (height as u32) * 3 / 4 * (max_height_tenths as u32) / 10;
        let cap: u32 = if scaled < 1 {
            1
        } else {
            scaled
        };
        let draw = random_below(cap as u64);
        proof {
            assert(1 + draw <= 0xffff);
        }
        let length: u16 = (1 + draw) as u16;
        proof {
            assert(1000int / (speed as int) >= 20) by (nonlinear_arith)
                requires
                    1 <= (speed as int) <= 50,
            ;
        }
        let span: u64 = 1000 / (speed as u64);
        let interval: u64 = 50 + random_below(span);
        GlyphStack {
            x,
            min_y: 0,
            stack: Vec::new(),
            length,
            last_update: now,
            update_interval: interval,
        }
    }

    /// Advance the trail by one step if its cadence allows it (an empty,
    /// freshly spawned trail always advances): push a new bright head,
    /// turn the previous head mid-gradient, drop the oldest glyph once the
    /// trail is at its maximum length, dim the glyph nearest the middle if
    /// it is mid-gradient, and occasionally flicker one glyph's character
    /// without touching its color.
    ///
    /// Once at the maximum length, every advance both pushes and drops, so
    /// the glyph count stays at the maximum and `min_y` grows by one.
    #[verifier::rlimit(30)]
    pub fn update(&mut self, now: u64)
        requires
            old(self).wf(),
            old(self).min_y < 0xffff,
        ensures
            final(self).wf(),
            final(self).x == old(self).x,
            final(self).length == old(self).length,
            final(self).update_interval == old(self).update_interval,
            !old(self).fires(now) ==> *final(self) == *old(self),
            old(self).fires(now) ==> {
                let base = old(self).surviving();
                &&& final(self).last_update == now
                &&& final(self).min_y == old(self).min_y + (
                    if old(self).stack@.len() == old(self).length {
                        1int
                    } else {
                        0int
                    })
                &&& final(self).stack@.len() == base.len() + 1
                &&& final(self).stack@.last().color == AnsiColor::White
                &&& GLYPH_CODE_LO <= final(self).stack@.last().value as u32
                &&& (final(self).stack@.last().value as u32) < GLYPH_CODE_HI
                &&& forall|i: int| 0 <= i < base.len()
                    ==> (#[trigger] final(self).stack@[i]).color == advanced_color(base, i)
                &&& exists|f: int| #[trigger] values_match_except(final(self).stack@, base, f)
            },
            old(self).stack@.len() == old(self).length
                ==> final(self).stack@.len() == old(self).length,
    {
        let fire = self.stack.len() == 0
            || (now >= self.last_update && now - self.last_update >= self.update_interval);
        if fire {
            let ghost base = self.surviving();
            let ghost at_cap = self.stack@.len() == self.length;
            self.last_update = now;

            // Push a new bright head glyph.
            let head = Glyph { value: random_glyph(), color: AnsiColor::White };
            self.stack.push(head);

            // The previous head turns mid-gradient.
            if self.stack.len() > 1 {
                let idx = self.stack.len() - 2;
                let g = self.stack[idx];
                self.stack.set(idx, Glyph { value: g.value, color: AnsiColor::Green });
            }

            // Over the maximum length: drop the oldest glyph.
            if self.stack.len() > self.length as usize {
                self.stack.remove(0);
                self.min_y = self.min_y + 1;
            }

            proof {
                assert(self.stack@.len() == base.len() + 1);
                assert forall|i: int| 0 <= i < base.len() implies {
                    &&& (#[trigger] self.stack@[i]).value == base[i].value
                    &&& self.stack@[i].color == (
                        if i == base.len() - 1 {
                            AnsiColor::Green
                        } else {
                            base[i].color
                        })
                } by {
                }
            }

            // The glyph nearest the middle dims if it is mid-gradient.
            let n = self.stack.len();
            if n > 2 {
                let idx = n - 1 - n / 2;
                let g = self.stack[idx];
                if g.color == AnsiColor::Green {
                    self.stack.set(idx, Glyph { value: g.value, color: AnsiColor::DarkGreen });
                }
            }

            proof {
                assert forall|i: int| 0 <= i < base.len() implies (
                    #[trigger] self.stack@[i]).color == advanced_color(base, i) by {
                }
            }

            // Occasional flicker: one glyph changes character, not color.
            if self.stack.len() > 1 && random_below(20) == 0 {
                let fi = random_below(self.stack.len() as u64) as usize;
                let g = self.stack[fi];
                self.stack.set(fi, Glyph { value: random_glyph(), color: g.color });
                proof {
                    assert(values_match_except(self.stack@, base, fi as int));
                }
            } else {
                proof {
                    assert(values_match_except(self.stack@, base, base.len() as int));
                }
            }
        }
    }
}

} // verus!
