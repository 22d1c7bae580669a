use vstd::prelude::*;
use crate::cell::Cell;
use crate::diff::{change_x, change_y, diff_viewports, spec_diff, Change};
use crate::rng::random_below;
use crate::trail::GlyphStack;
use crate::viewport::Viewport;

verus! {

/// Read-only statistics recomputed on every tick for optional display.
/// They have no effect on the simulation.
#[derive(Clone, Copy, Debug, PartialEq, Eq, Structural)]
pub struct DebugInfo {
    /// The spawn probability per tick, in tenths.
    pub density: u8,
    /// The max-stack-height parameter, in tenths.
    pub max_stack_height: u8,
    /// The speed level.
    pub speed: u8,
    /// Ticks per second over the last whole window.
    pub updates_per_sec: u64,
    /// Trail advances per second over the last whole window.
    pub glyphs_per_sec: u64,
    /// Trails that grew during this tick.
    pub glyphs_per_update: u64,
    /// Trails spawned during this tick (0 or 1).
    pub stacks_per_update: u64,
    /// The smallest cadence among the active trails, 0 when none.
    pub min_glyph_delay: u64,
    /// The largest cadence among the active trails, 0 when none.
    pub max_glyph_delay: u64,
}

impl Default for DebugInfo {
    fn default() -> (d: DebugInfo)
        ensures
            d == (DebugInfo {
                density: 0u8,
                max_stack_height: 0u8,
                speed: 0u8,
                updates_per_sec: 0u64,
                glyphs_per_sec: 0u64,
                glyphs_per_update: 0u64,
                stacks_per_update: 0u64,
                min_glyph_delay: 0u64,
                max_glyph_delay: 0u64,
            }),
    {
        DebugInfo {
            density: 0,
            max_stack_height: 0,
            speed: 0,
            updates_per_sec: 0,
            glyphs_per_sec: 0,
            glyphs_per_update: 0,
            stacks_per_update: 0,
            min_glyph_delay: 0,
            max_glyph_delay: 0,
        }
    }
}

/// Addition on u64 that sticks at the maximum instead of wrapping.
pub open spec fn sat_add_u64(a: u64, b: u64) -> u64 {
    if a + b > u64::MAX {
        u64::MAX
    } else {
        (a + b) as u64
    }
}

/// The cell that a sequence of trails paints on (x, y): the glyph of the
/// last trail in the sequence covering the coordinate (a later trail
/// paints over an earlier one), or blank when none covers it.
pub open spec fn rendered_cell(stacks: Seq<GlyphStack>, x: int, y: int) -> Option<Cell>
    decreases stacks.len(),
{
    if stacks.len() == 0 {
        None
    } else {
        let s = stacks.last();
        if s.covers(x, y) {
            Some(Cell { ch: s.glyph_at(y).value, color: s.glyph_at(y).color })
        } else {
            rendered_cell(stacks.drop_last(), x, y)
        }
    }
}

/// How many of the trails grow on an advance at time `now`: those whose
/// cadence lets them step while they are still below their maximum length.
pub open spec fn count_grown(stacks: Seq<GlyphStack>, now: u64) -> int
    decreases stacks.len(),
{
    if stacks.len() == 0 {
        0
    } else {
        count_grown(stacks.drop_last(), now) + (
        if stacks.last().fires(now) && stacks.last().stack@.len() < stacks.last().length {
            1int
        } else {
            0int
        })
    }
}

/// Keep only the trails that still intersect a viewport of the given
/// dimensions: their column inside the width, their oldest glyph's row
/// above the bottom.  Survivors keep their relative order.
fn retain_inside(stacks: &mut Vec<GlyphStack>, width: u16, height: u16)
    ensures
        final(stacks)@ == old(stacks)@.filter(
            |s: GlyphStack| s.x < width && s.min_y < height,
        ),
{
    let ghost orig = stacks@;
    let ghost pred = |s: GlyphStack| s.x < width && s.min_y < height;
    let mut kept: Vec<GlyphStack> = Vec::new();
    while stacks.len() > 0
        invariant
            stacks@.len() <= orig.len(),
            stacks@ == orig.skip(orig.len() - stacks@.len()),
            kept@ == orig.take(orig.len() - stacks@.len()).filter(pred),
            pred == (|s: GlyphStack| s.x < width && s.min_y < height),
        decreases stacks@.len(),
    {
        let ghost i = orig.len() - stacks@.len();
        let s = stacks.remove(0);
        proof {
            assert(s == orig[i]);
            assert(stacks@ =~= orig.skip(i + 1));
            reveal(Seq::filter);
            assert(orig.take(i + 1).drop_last() =~= orig.take(i));
            assert(orig.take(i + 1).last() == orig[i]);
        }
        if s.x < width && s.min_y < height {
            kept.push(s);
        }
        proof {
            assert(kept@ == orig.take(i + 1).filter(pred));
        }
    }
    proof {
        assert(orig.take(orig.len() as int) =~= orig);
    }
    *stacks = kept;
}

/// Every trail a filter keeps comes from the filtered sequence itself.
proof fn lemma_filter_is_subset(s: Seq<GlyphStack>, pred: spec_fn(GlyphStack) -> bool)
    ensures
        forall|i: int| 0 <= i < s.filter(pred).len() ==> s.contains(#[trigger] s.filter(pred)[i]),
    decreases s.len(),
{
    reveal(Seq::filter);
    if s.len() > 0 {
        lemma_filter_is_subset(s.drop_last(), pred);
        let f = s.filter(pred);
        let fd = s.drop_last().filter(pred);
        assert forall|i: int| 0 <= i < f.len() implies s.contains(#[trigger] f[i]) by {
            if i < fd.len() {
                assert(s.drop_last().contains(fd[i]));
                let j = choose|j: int| 0 <= j < s.drop_last().len() && s.drop_last()[j] == fd[i];
                assert(s[j] == f[i]);
            } else {
                assert(s[s.len() - 1] == f[i]);
            }
        }
    }
}

/// Well-formedness is kept when only the tunable parameters change,
/// as long as they stay inside their ranges.
proof fn lemma_wf_params_only(a: Game, b: Game)
    requires
        a.wf(),
        b.spec_stacks() == a.spec_stacks(),
        b.spec_width() == a.spec_width(),
        b.spec_height() == a.spec_height(),
        b.spec_view() == a.spec_view(),
        1 <= b.spec_density() <= 10,
        1 <= b.spec_max_stack_height() <= 10,
        1 <= b.spec_speed() <= 50,
    ensures
        b.wf(),
{
    assert forall|i: int| 0 <= i < b.spec_stacks().len() implies {
        &&& (#[trigger] b.spec_stacks()[i]).wf()
        &&& b.spec_stacks()[i].x < b.spec_width()
        &&& b.spec_stacks()[i].min_y < b.spec_height()
    } by {
        assert(a.spec_stacks()[i].wf());
        assert(a.spec_stacks()[i].x < a.spec_width());
        assert(a.spec_stacks()[i].min_y < a.spec_height());
    }
}

/// The milliseconds of the telemetry window already passed at `now`; a
/// timestamp before the window start counts as no time passed.
pub open spec fn window_elapsed(start: u64, now: u64) -> int {
    if now >= start {
        now - start
    } else {
        0
    }
}

/// What one advance call leaves of a trail: its identity (column, cap,
/// cadence) is kept, it stays well-formed, its tail descends at most one
/// row, and a freshly spawned empty trail gains its bright head without
/// descending.
pub open spec fn stepped(pre: GlyphStack, post: GlyphStack) -> bool {
    &&& post.wf()
    &&& post.x == pre.x
    &&& post.length == pre.length
    &&& post.update_interval == pre.update_interval
    &&& post.min_y <= pre.min_y + 1
    &&& (pre.stack@.len() == 0 ==> post.min_y == pre.min_y && post.stack@.len() == 1)
}

/// How one tick transforms the trail set: each old trail advances in
/// place (`mid[i]` is `pre[i]` stepped once), at most one spawned trail
/// is appended, and what remains is exactly the trails still inside the
/// viewport, in their original order.
pub open spec fn tick_trail_evolution(
    pre: Seq<GlyphStack>,
    spawned: int,
    mid: Seq<GlyphStack>,
    post: Seq<GlyphStack>,
    width: u16,
    height: u16,
) -> bool {
    &&& 0 <= spawned <= 1
    &&& mid.len() == pre.len() + spawned
    &&& (forall|i: int| 0 <= i < pre.len() ==> stepped(pre[i], #[trigger] mid[i]))
    &&& post == mid.filter(|s: GlyphStack| s.x < width && s.min_y < height)
}

/// One tick's trail set evolution, with the intermediate advanced set
/// left existential: it holds the random outcomes of the advance calls.
pub open spec fn tick_evolves(
    pre: Seq<GlyphStack>,
    spawned: int,
    post: Seq<GlyphStack>,
    width: u16,
    height: u16,
) -> bool {
    exists|mid: Seq<GlyphStack>|
        #[trigger] tick_trail_evolution(pre, spawned, mid, post, width, height)
}

/// Advance every trail once on its own cadence, in place, keeping the
/// order.  Returns how many trails grew by a glyph.
fn advance_stacks(stacks: &mut Vec<GlyphStack>, now: u64) -> (grown: u64)
    requires
        forall|i: int| 0 <= i < old(stacks)@.len() ==> (#[trigger] old(stacks)@[i]).wf()
            && old(stacks)@[i].min_y < 0xffff,
    ensures
        final(stacks)@.len() == old(stacks)@.len(),
        grown == count_grown(old(stacks)@, now),
        grown <= old(stacks)@.len(),
        forall|i: int| 0 <= i < old(stacks)@.len()
            ==> stepped(old(stacks)@[i], #[trigger] final(stacks)@[i]),
{
    let ghost orig = stacks@;
    let n = stacks.len();
    proof {
        assert(orig.len() == n as int);
    }
    let mut done: Vec<GlyphStack> = Vec::new();
    let mut grown: u64 = 0;
    while stacks.len() > 0
        invariant
            forall|i: int| 0 <= i < orig.len() ==> (#[trigger] orig[i]).wf()
                && orig[i].min_y < 0xffff,
            orig.len() <= usize::MAX,
            stacks@.len() <= orig.len(),
            stacks@ == orig.skip(orig.len() - stacks@.len()),
            done@.len() == orig.len() - stacks@.len(),
            grown == count_grown(orig.take(done@.len() as int), now),
            grown <= done@.len(),
            forall|k: int| 0 <= k < done@.len() ==> stepped(orig[k], #[trigger] done@[k]),
        decreases stacks@.len(),
    {
        let ghost i = orig.len() - stacks@.len();
        let mut s = stacks.remove(0);
        proof {
            assert(s == orig[i]);
            assert(stacks@ =~= orig.skip(i + 1));
        }
        let ghost s_pre = orig[i];
        let before = s.stack.len();
        s.update(now);
        proof {
            assert(s.wf());
            if s_pre.stack@.len() == 0 {
                assert(s.min_y == s_pre.min_y && s.stack@.len() == 1);
            }
            assert(stepped(s_pre, s));
            assert(grown <= i && i < orig.len() && orig.len() <= usize::MAX);
        }
        if s.stack.len() > before {
            grown = grown + 1;
        }
        let ghost done_prev = done@;
        done.push(s);
        proof {
            assert(orig.take(i + 1).drop_last() =~= orig.take(i));
            assert(orig.take(i + 1).last() == orig[i]);
            assert(grown == count_grown(orig.take(i + 1), now));
            assert forall|k: int| 0 <= k < done@.len()
                implies stepped(orig[k], #[trigger] done@[k]) by {
                if k < done@.len() - 1 {
                    assert(done@[k] == done_prev[k]);
                    assert(stepped(orig[k], done_prev[k]));
                } else {
                    assert(done@[k] == s);
                }
            }
        }
    }
    proof {
        assert(orig.take(orig.len() as int) =~= orig);
    }
    *stacks = done;
    grown
}

/// Rebuild the full snapshot from the trails: each trail paints its
/// glyphs down its column, later trails painting over earlier ones; rows
/// outside the viewport are dropped.
fn rebuild_view(stacks: &Vec<GlyphStack>, width: u16, height: u16) -> (v: Viewport)
    requires
        forall|i: int| 0 <= i < stacks@.len() ==> (#[trigger] stacks@[i]).wf(),
    ensures
        v.wf(),
        v.spec_width() == width,
        v.spec_height() == height,
        forall|x: int, y: int| 0 <= x < width && 0 <= y < height
            ==> #[trigger] v.spec_cell(x, y) == rendered_cell(stacks@, x, y),
{
    let mut v = Viewport::new(width, height);
    let mut i: usize = 0;
    while i < stacks.len()
        invariant
            i <= stacks@.len(),
            forall|k: int| 0 <= k < stacks@.len() ==> (#[trigger] stacks@[k]).wf(),
            v.wf(),
            v.spec_width() == width,
            v.spec_height() == height,
            forall|x: int, y: int| 0 <= x < width && 0 <= y < height
                ==> #[trigger] v.spec_cell(x, y) == rendered_cell(stacks@.take(i as int), x, y),
        decreases stacks@.len() - i,
    {
        let sx = stacks[i].x;
        let smin = stacks[i].min_y;
        let glyph_count = stacks[i].stack.len();
        let mut j: usize = 0;
        while j < glyph_count
            invariant
                i < stacks@.len(),
                j <= glyph_count,
                glyph_count <= 0xffff,
                glyph_count == stacks@[i as int].stack@.len(),
                sx == stacks@[i as int].x,
                smin == stacks@[i as int].min_y,
                v.wf(),
                v.spec_width() == width,
                v.spec_height() == height,
                forall|x: int, y: int| 0 <= x < width && 0 <= y < height
                    ==> #[trigger] v.spec_cell(x, y) == (
                    if x == sx && smin <= y < smin + j {
                        Some(Cell {
                            ch: stacks@[i as int].stack@[y - smin].value,
                            color: stacks@[i as int].stack@[y - smin].color,
                        })
                    } else {
                        rendered_cell(stacks@.take(i as int), x, y)
                    }),
            decreases glyph_count - j,
        {
            let ghost v0 = v;
            let row64: u64 = (smin as u64) + (j as u64);
            let row_in = row64 < (height as u64);
            if row_in {
                let g = stacks[i].stack[j];
                v.set(sx, row64 as u16, Cell { ch: g.value, color: g.color });
            }
            proof {
                let st = stacks@[i as int];
                assert forall|x: int, y: int| 0 <= x < width && 0 <= y < height
                    implies #[trigger] v.spec_cell(x, y) == (
                    if x == sx && smin <= y < smin + j + 1 {
                        Some(Cell {
                            ch: st.stack@[y - smin].value,
                            color: st.stack@[y - smin].color,
                        })
                    } else {
                        rendered_cell(stacks@.take(i as int), x, y)
                    }) by {
                    if row_in {
                        if x == sx && y == smin + j {
                            assert(v.spec_cell(x, y) == Some(Cell {
                                ch: st.stack@[j as int].value,
                                color: st.stack@[j as int].color,
                            }));
                        } else {
                            assert(v.spec_cell(x, y) == v0.spec_cell(x, y));
                        }
                    } else {
                        assert(v.spec_cell(x, y) == v0.spec_cell(x, y));
                        if x == sx && smin <= y < smin + j + 1 {
                            assert(y < smin + j);
                        }
                    }
                }
            }
            j = j + 1;
        }
        proof {
            assert(stacks@.take(i + 1).drop_last() =~= stacks@.take(i as int));
            assert(stacks@.take(i + 1).last() == stacks@[i as int]);
            assert forall|x: int, y: int| 0 <= x < width && 0 <= y < height
                implies #[trigger] v.spec_cell(x, y) == rendered_cell(
                stacks@.take(i + 1),
                x,
                y,
            ) by {
                let st = stacks@[i as int];
                if st.covers(x, y) {
                    assert(v.spec_cell(x, y) == Some(Cell {
                        ch: st.glyph_at(y).value,
                        color: st.glyph_at(y).color,
                    }));
                }
            }
        }
        i = i + 1;
    }
    proof {
        assert(stacks@.take(stacks@.len() as int) =~= stacks@);
    }
    v
}

/// The smallest and largest cadence among the trails; (0, 0) when there
/// is none.
fn min_max_interval(stacks: &Vec<GlyphStack>) -> (r: (u64, u64))
    ensures
        stacks@.len() == 0 ==> r.0 == 0 && r.1 == 0,
        stacks@.len() > 0 ==> {
            &&& exists|i: int|
                0 <= i < stacks@.len() && r.0 == (#[trigger] stacks@[i]).update_interval
            &&& exists|i: int|
                0 <= i < stacks@.len() && r.1 == (#[trigger] stacks@[i]).update_interval
            &&& forall|i: int| 0 <= i < stacks@.len()
                ==> r.0 <= (#[trigger] stacks@[i]).update_interval <= r.1
        },
{
    if stacks.len() == 0 {
        return (0, 0);
    }
    let mut lo = stacks[0].update_interval;
    let mut hi = lo;
    let mut i: usize = 1;
    while i < stacks.len()
        invariant
            1 <= i <= stacks@.len(),
            exists|k: int| 0 <= k < i && lo == (#[trigger] stacks@[k]).update_interval,
            exists|k: int| 0 <= k < i && hi == (#[trigger] stacks@[k]).update_interval,
            forall|k: int| 0 <= k < i ==> lo <= (#[trigger] stacks@[k]).update_interval <= hi,
        decreases stacks@.len() - i,
    {
        let d = stacks[i].update_interval;
        if d < lo {
            lo = d;
        }
        if d > hi {
            hi = d;
        }
        i = i + 1;
    }
    (lo, hi)
}

/// The simulation engine: the active trails, the current grid snapshot,
/// and the tunable parameters.  All timing is supplied by the caller as
/// millisecond timestamps on one monotone clock of its choice.
pub struct Game {
    width: u16,
    height: u16,
    stacks: Vec<GlyphStack>,
    current_view: Viewport,
    /// Spawn probability per tick, in tenths: 1 ..= 10.
    density: u8,
    /// Scales the largest initial trail length, in tenths: 1 ..= 10.
    max_stack_height: u8,
    /// Speed level: 1 ..= 50; higher levels draw shorter cadences.
    speed: u8,
    pub debug: bool,
    pub debug_info: DebugInfo,
    last_window_start: u64,
    update_counter: u64,
    glyph_counter: u64,
}

impl Game {
    pub closed spec fn spec_width(self) -> u16 {
        self.width
    }

    pub closed spec fn spec_height(self) -> u16 {
        self.height
    }

    pub closed spec fn spec_density(self) -> u8 {
        self.density
    }

    pub closed spec fn spec_max_stack_height(self) -> u8 {
        self.max_stack_height
    }

    pub closed spec fn spec_speed(self) -> u8 {
        self.speed
    }

    pub closed spec fn spec_stacks(self) -> Seq<GlyphStack> {
        self.stacks@
    }

    pub closed spec fn spec_view(self) -> Viewport {
        self.current_view
    }

    pub closed spec fn spec_window_start(self) -> u64 {
        self.last_window_start
    }

    pub closed spec fn spec_update_counter(self) -> u64 {
        self.update_counter
    }

    pub closed spec fn spec_glyph_counter(self) -> u64 {
        self.glyph_counter
    }

    pub closed spec fn spec_debug(self) -> bool {
        self.debug
    }

    pub closed spec fn spec_debug_info(self) -> DebugInfo {
        self.debug_info
    }

    /// Everything but the tunable parameters and the debug flag agrees
    /// between the two engine states.
    pub open spec fn same_core(a: Game, b: Game) -> bool {
        &&& a.spec_width() == b.spec_width()
        &&& a.spec_height() == b.spec_height()
        &&& a.spec_stacks() == b.spec_stacks()
        &&& a.spec_view() == b.spec_view()
        &&& a.spec_window_start() == b.spec_window_start()
        &&& a.spec_update_counter() == b.spec_update_counter()
        &&& a.spec_glyph_counter() == b.spec_glyph_counter()
        &&& a.spec_debug_info() == b.spec_debug_info()
    }

    /// Well-formedness: the snapshot matches the viewport dimensions, the
    /// parameters sit in their ranges, and every trail is intact and still
    /// intersects the viewport.
    pub open spec fn wf(self) -> bool {
        &&& self.spec_view().wf()
        &&& self.spec_view().spec_width() == self.spec_width()
        &&& self.spec_view().spec_height() == self.spec_height()
        &&& 1 <= self.spec_density() <= 10
        &&& 1 <= self.spec_max_stack_height() <= 10
        &&& 1 <= self.spec_speed() <= 50
        &&& forall|i: int| 0 <= i < self.spec_stacks().len() ==> {
            &&& (#[trigger] self.spec_stacks()[i]).wf()
            &&& self.spec_stacks()[i].x < self.spec_width()
            &&& self.spec_stacks()[i].min_y < self.spec_height()
        }
    }

    /// A fresh engine with an empty snapshot, no trails, density 0.5,
    /// full stack height and the middle speed level.  Its clock starts
    /// at zero: the caller's first timestamps should start there too.
    pub fn new(width: u16, height: u16) -> (g: Game)
        ensures
            g.wf(),
            g.spec_width() == width,
            g.spec_height() == height,
            g.spec_density() == 5,
            g.spec_max_stack_height() == 10,
            g.spec_speed() == 5,
            g.spec_stacks().len() == 0,
            forall|x: int, y: int| g.spec_view().spec_cell(x, y) == None::<Cell>,
            !g.spec_debug(),
            g.spec_window_start() == 0,
            g.spec_update_counter() == 0,
            g.spec_glyph_counter() == 0,
    {
        Game {
            width,
            height,
            stacks: Vec::new(),
            current_view: Viewport::new(width, height),
            density: 5,
            max_stack_height: 10,
            speed: 5,
            debug: false,
            debug_info: Default::default(),
            last_window_start: 0,
            update_counter: 0,
            glyph_counter: 0,
        }
    }

    pub fn toggle_debug(&mut self)
        ensures
            final(self).spec_debug() == !old(self).spec_debug(),
            Game::same_core(*old(self), *final(self)),
            final(self).spec_density() == old(self).spec_density(),
            final(self).spec_max_stack_height() == old(self).spec_max_stack_height(),
            final(self).spec_speed() == old(self).spec_speed(),
    {
        self.debug = !self.debug;
    }

    pub fn get_dimensions(&self) -> (dims: (u16, u16))
        ensures
            dims.0 == self.spec_width(),
            dims.1 == self.spec_height(),
    {
        (self.width, self.height)
    }

    pub fn density(&self) -> (d: u8)
        ensures
            d == self.spec_density(),
    {
        self.density
    }

    pub fn max_stack_height(&self) -> (m: u8)
        ensures
            m == self.spec_max_stack_height(),
    {
        self.max_stack_height
    }

    pub fn speed(&self) -> (s: u8)
        ensures
            s == self.spec_speed(),
    {
        self.speed
    }

    /// The current grid snapshot, as last rebuilt by a tick.
    pub fn current_view(&self) -> (v: &Viewport)
        ensures
            *v == self.spec_view(),
    {
        &self.current_view
    }

    /// The active trails, in spawn order.
    pub fn stacks(&self) -> (s: &Vec<GlyphStack>)
        ensures
            s@ == self.spec_stacks(),
    {
        &self.stacks
    }

    /// Change the viewport dimensions: the snapshot is cleared, and every
    /// trail that no longer lies inside the new bounds is dropped.
    pub fn resize(&mut self, width: u16, height: u16)
        requires
            old(self).wf(),
        ensures
            final(self).wf(),
            final(self).spec_width() == width,
            final(self).spec_height() == height,
            final(self).spec_stacks() == old(self).spec_stacks().filter(
                |s: GlyphStack| s.x < width && s.min_y < height,
            ),
            forall|x: int, y: int| final(self).spec_view().spec_cell(x, y) == None::<Cell>,
            final(self).spec_density() == old(self).spec_density(),
            final(self).spec_max_stack_height() == old(self).spec_max_stack_height(),
            final(self).spec_speed() == old(self).spec_speed(),
            final(self).spec_debug() == old(self).spec_debug(),
            final(self).spec_debug_info() == old(self).spec_debug_info(),
    {
        self.width = width;
        self.height = height;
        self.current_view = Viewport::new(width, height);
        retain_inside(&mut self.stacks, width, height);
        proof {
            let pred = |s: GlyphStack| s.x < width && s.min_y < height;
            let orig = old(self).spec_stacks();
            let kept = orig.filter(pred);
            lemma_filter_is_subset(orig, pred);
            assert forall|i: int| 0 <= i < kept.len() implies {
                &&& (#[trigger] kept[i]).wf()
                &&& kept[i].x < width
                &&& kept[i].min_y < height
            } by {
                orig.lemma_filter_pred(pred, i);
                assert(orig.contains(kept[i]));
                let k = kept[i];
                let j = choose|j: int| 0 <= j < orig.len() && orig[j] == k;
                assert(orig[j].wf());
            }
        }
    }

    /// Raise the spawn density one tenth, saturating at 1.0.
    pub fn increase_density(&mut self)
        requires
            old(self).wf(),
        ensures
            final(self).wf(),
            final(self).spec_density() == (
            if old(self).spec_density() < 10 {
                (old(self).spec_density() + 1) as u8
            } else {
                10u8
            }),
            Game::same_core(*old(self), *final(self)),
            final(self).spec_debug() == old(self).spec_debug(),
            final(self).spec_max_stack_height() == old(self).spec_max_stack_height(),
            final(self).spec_speed() == old(self).spec_speed(),
    {
        if self.density < 10 {
            self.density = self.density + 1;
        }
        proof {
            lemma_wf_params_only(*old(self), *self);
        }
    }

    /// Lower the spawn density one tenth, saturating at 0.1.
    pub fn decrease_density(&mut self)
        requires
            old(self).wf(),
        ensures
            final(self).wf(),
            final(self).spec_density() == (
            if old(self).spec_density() > 1 {
                (old(self).spec_density() - 1) as u8
            } else {
                1u8
            }),
            Game::same_core(*old(self), *final(self)),
            final(self).spec_debug() == old(self).spec_debug(),
            final(self).spec_max_stack_height() == old(self).spec_max_stack_height(),
            final(self).spec_speed() == old(self).spec_speed(),
    {
        if self.density > 1 {
            self.density = self.density - 1;
        }
        proof {
            lemma_wf_params_only(*old(self), *self);
        }
    }

    /// Raise the max-stack-height parameter one tenth, saturating at 1.0.
    pub fn increase_max_stack_height(&mut self)
        requires
            old(self).wf(),
        ensures
            final(self).wf(),
            final(self).spec_max_stack_height() == (
            if old(self).spec_max_stack_height() < 10 {
                (old(self).spec_max_stack_height() + 1) as u8
            } else {
                10u8
            }),
            Game::same_core(*old(self), *final(self)),
            final(self).spec_debug() == old(self).spec_debug(),
            final(self).spec_density() == old(self).spec_density(),
            final(self).spec_speed() == old(self).spec_speed(),
    {
        if self.max_stack_height < 10 {
            self.max_stack_height = self.max_stack_height + 1;
        }
        proof {
            lemma_wf_params_only(*old(self), *self);
        }
    }

    /// Lower the max-stack-height parameter one tenth, saturating at 0.1.
    pub fn decrease_max_stack_height(&mut self)
        requires
            old(self).wf(),
        ensures
            final(self).wf(),
            final(self).spec_max_stack_height() == (
            if old(self).spec_max_stack_height() > 1 {
                (old(self).spec_max_stack_height() - 1) as u8
            } else {
                1u8
            }),
            Game::same_core(*old(self), *final(self)),
            final(self).spec_debug() == old(self).spec_debug(),
            final(self).spec_density() == old(self).spec_density(),
            final(self).spec_speed() == old(self).spec_speed(),
    {
        if self.max_stack_height > 1 {
            self.max_stack_height = self.max_stack_height - 1;
        }
        proof {
            lemma_wf_params_only(*old(self), *self);
        }
    }

    /// Raise the speed level one step, saturating at 50.
    pub fn increase_speed(&mut self)
        requires
            old(self).wf(),
        ensures
            final(self).wf(),
            final(self).spec_speed() == (
            if old(self).spec_speed() < 50 {
                (old(self).spec_speed() + 1) as u8
            } else {
                50u8
            }),
            Game::same_core(*old(self), *final(self)),
            final(self).spec_debug() == old(self).spec_debug(),
            final(self).spec_density() == old(self).spec_density(),
            final(self).spec_max_stack_height() == old(self).spec_max_stack_height(),
    {
        if self.speed < 50 {
            self.speed = self.speed + 1;
        }
        proof {
            lemma_wf_params_only(*old(self), *self);
        }
    }

    /// Lower the speed level one step, saturating at 1.
    pub fn decrease_speed(&mut self)
        requires
            old(self).wf(),
        ensures
            final(self).wf(),
            final(self).spec_speed() == (
            if old(self).spec_speed() > 1 {
                (old(self).spec_speed() - 1) as u8
            } else {
                1u8
            }),
            Game::same_core(*old(self), *final(self)),
            final(self).spec_debug() == old(self).spec_debug(),
            final(self).spec_density() == old(self).spec_density(),
            final(self).spec_max_stack_height() == old(self).spec_max_stack_height(),
    {
        if self.speed > 1 {
            self.speed = self.speed - 1;
        }
        proof {
            lemma_wf_params_only(*old(self), *self);
        }
    }

    /// Advance the simulation one tick at the given timestamp and return
    /// the cell changes between the previous and the new snapshot, in
    /// row-major order.
    ///
    /// One tick: with probability density/10 spawn one trail in a random
    /// even column, advance every trail on its own cadence, drop the
    /// trails that fell out of the viewport, rebuild the snapshot, diff
    /// it against the previous one, and refresh the telemetry.
    pub fn update_and_get_changes(&mut self, now: u64) -> (changes: Vec<Change>)
        requires
            old(self).wf(),
        ensures
            final(self).wf(),
            final(self).spec_width() == old(self).spec_width(),
            final(self).spec_height() == old(self).spec_height(),
            final(self).spec_density() == old(self).spec_density(),
            final(self).spec_max_stack_height() == old(self).spec_max_stack_height(),
            final(self).spec_speed() == old(self).spec_speed(),
            final(self).spec_debug() == old(self).spec_debug(),
            changes@ == spec_diff(old(self).spec_view(), final(self).spec_view()),
            forall|i: int| 0 <= i < changes@.len()
                ==> change_x(#[trigger] changes@[i]) < old(self).spec_width()
                    && change_y(changes@[i]) < old(self).spec_height(),
            forall|x: int, y: int|
                0 <= x < old(self).spec_width() && 0 <= y < old(self).spec_height()
                    ==> #[trigger] final(self).spec_view().spec_cell(x, y) == rendered_cell(
                    final(self).spec_stacks(), x, y),
            final(self).spec_stacks().len() <= old(self).spec_stacks().len() + 1,
            tick_evolves(
                old(self).spec_stacks(),
                final(self).spec_debug_info().stacks_per_update as int,
                final(self).spec_stacks(),
                old(self).spec_width(),
                old(self).spec_height(),
            ),
            old(self).spec_density() == 10 && old(self).spec_width() >= 2 && old(self).spec_height() >= 1 ==> final(self).spec_stacks().len() >= 1,
            final(self).spec_debug_info().density == old(self).spec_density(),
            final(self).spec_debug_info().max_stack_height == old(self).spec_max_stack_height(),
            final(self).spec_debug_info().speed == old(self).spec_speed(),
            final(self).spec_debug_info().stacks_per_update <= 1,
            old(self).spec_density() == 10 && old(self).spec_width() >= 2 ==> final(self).spec_debug_info().stacks_per_update == 1,
            final(self).spec_debug_info().glyphs_per_update as int == count_grown(
                old(self).spec_stacks(), now,
            ) + final(self).spec_debug_info().stacks_per_update,
            final(self).spec_stacks().len() == 0 ==> final(self).spec_debug_info().min_glyph_delay == 0 && final(self).spec_debug_info().max_glyph_delay == 0,
            final(self).spec_stacks().len() > 0 ==> {
                &&& exists|i: int|
                    0 <= i < final(self).spec_stacks().len() && final(self).spec_debug_info().min_glyph_delay == (
                    #[trigger] final(self).spec_stacks()[i]).update_interval
                &&& exists|i: int|
                    0 <= i < final(self).spec_stacks().len() && final(self).spec_debug_info().max_glyph_delay == (
                    #[trigger] final(self).spec_stacks()[i]).update_interval
                &&& forall|i: int|
                    0 <= i < final(self).spec_stacks().len() ==> final(self).spec_debug_info().min_glyph_delay <= (
                    #[trigger] final(self).spec_stacks()[i]).update_interval <= final(self).spec_debug_info().max_glyph_delay
            },
            window_elapsed(old(self).spec_window_start(), now) >= 1000 ==> {
                &&& final(self).spec_window_start() == now
                &&& final(self).spec_update_counter() == 0
                &&& final(self).spec_glyph_counter() == 0
                &&& final(self).spec_debug_info().updates_per_sec as int == (sat_add_u64(
                    old(self).spec_update_counter(), 1) as int) * 1000 / window_elapsed(
                    old(self).spec_window_start(), now)
                &&& final(self).spec_debug_info().glyphs_per_sec as int == (sat_add_u64(
                    old(self).spec_glyph_counter(),
                    final(self).spec_debug_info().glyphs_per_update,
                ) as int) * 1000 / window_elapsed(old(self).spec_window_start(), now)
            },
            window_elapsed(old(self).spec_window_start(), now) < 1000 ==> {
                &&& final(self).spec_window_start() == old(self).spec_window_start()
                &&& final(self).spec_update_counter() == sat_add_u64(
                    old(self).spec_update_counter(), 1)
                &&& final(self).spec_glyph_counter() == sat_add_u64(
                    old(self).spec_glyph_counter(),
                    final(self).spec_debug_info().glyphs_per_update,
                )
                &&& final(self).spec_debug_info().updates_per_sec == old(self).spec_debug_info().updates_per_sec
                &&& final(self).spec_debug_info().glyphs_per_sec == old(self).spec_debug_info().glyphs_per_sec
            },
    {
        let ghost old_stacks = self.stacks@;
        let mut stacks_this_update: u64 = 0;

        // With probability density/10, spawn one trail at an even column.
        if self.width >= 2 {
            let draw = random_below(10);
            if draw < self.density as u64 {
                let half = random_below((self.width / 2) as u64);
                proof {
                    assert(2 * (self.width as int / 2) <= self.width as int);
                }
                let x: u16 = (half as u16) * 2;
                let t = GlyphStack::new(x, self.height, self.max_stack_height, self.speed, now);
                self.stacks.push(t);
                stacks_this_update = 1;
            }
        }
        let ghost pre_update = self.stacks@;

        // Advance every trail.
        proof {
            assert forall|i: int| 0 <= i < self.stacks@.len() implies (
                #[trigger] self.stacks@[i]).wf() && self.stacks@[i].min_y < 0xffff by {
                if i < old_stacks.len() {
                    assert(old_stacks == old(self).spec_stacks());
                    assert(old(self).spec_stacks()[i].wf());
                    assert(old(self).spec_stacks()[i].min_y < old(self).spec_height());
                }
            }
        }
        let glyphs_this_update = advance_stacks(&mut self.stacks, now);
        let ghost advanced = self.stacks@;
        proof {
            if stacks_this_update == 1 {
                assert(pre_update.drop_last() =~= old_stacks);
                assert(pre_update.last().stack@.len() == 0);
                assert(count_grown(pre_update, now) == count_grown(old_stacks, now) + 1);
            } else {
                assert(pre_update == old_stacks);
            }
        }

        // Drop the trails that fell out of the viewport.
        retain_inside(&mut self.stacks, self.width, self.height);
        proof {
            let pred = |s: GlyphStack| s.x < self.width && s.min_y < self.height;
            let kept = advanced.filter(pred);
            assert(self.stacks@ == kept);
            lemma_filter_is_subset(advanced, pred);
            advanced.lemma_filter_len(pred);
            assert forall|i: int| 0 <= i < kept.len() implies {
                &&& (#[trigger] kept[i]).wf()
                &&& kept[i].x < self.width
                &&& kept[i].min_y < self.height
            } by {
                advanced.lemma_filter_pred(pred, i);
                assert(advanced.contains(kept[i]));
                let k = kept[i];
                let j = choose|j: int| 0 <= j < advanced.len() && advanced[j] == k;
                assert(stepped(pre_update[j], advanced[j]));
            }
            assert forall|i: int| 0 <= i < old_stacks.len()
                implies stepped(old_stacks[i], #[trigger] advanced[i]) by {
                assert(pre_update[i] == old_stacks[i]);
                assert(stepped(pre_update[i], advanced[i]));
            }
            assert(tick_trail_evolution(
                old_stacks,
                stacks_this_update as int,
                advanced,
                self.stacks@,
                self.width,
                self.height,
            ));
            if stacks_this_update == 1 && self.height >= 1 {
                let last = advanced.len() - 1;
                assert(stepped(pre_update[last], advanced[last]));
                assert(pre_update[last].stack@.len() == 0);
                assert(pre_update[last].min_y == 0);
                assert(pred(advanced[last]));
                advanced.lemma_filter_contains(pred, last);
                assert(kept.contains(advanced[last]));
                assert(kept.len() >= 1);
            }
        }

        // Rebuild the snapshot and diff it against the previous one.
        let next_view = rebuild_view(&self.stacks, self.width, self.height);
        let changes = diff_viewports(&self.current_view, &next_view);
        proof {
            crate::diff::lemma_diff_in_bounds(self.current_view, next_view);
        }
        self.current_view = next_view;

        // Refresh the telemetry counters and the 1-second window rates.
        if self.update_counter < u64::MAX {
            self.update_counter = self.update_counter + 1;
        }
        if glyphs_this_update > u64::MAX - self.glyph_counter {
            self.glyph_counter = u64::MAX;
        } else {
            self.glyph_counter = self.glyph_counter + glyphs_this_update;
        }
        let elapsed: u64 = if now >= self.last_window_start {
            now - self.last_window_start
        } else {
            0
        };
        if elapsed >= 1000 {
            proof {
                assert((self.update_counter as int) * 1000 / (elapsed as int)
                    <= self.update_counter as int) by (nonlinear_arith)
                    requires
                        elapsed >= 1000,
                        self.update_counter >= 0,
                ;
                assert((self.glyph_counter as int) * 1000 / (elapsed as int)
                    <= self.glyph_counter as int) by (nonlinear_arith)
                    requires
                        elapsed >= 1000,
                        self.glyph_counter >= 0,
                ;
            }
            let ups = (((self.update_counter as u128) * 1000) / (elapsed as u128)) as u64;
            let gps = (((self.glyph_counter as u128) * 1000) / (elapsed as u128)) as u64;
            self.debug_info.updates_per_sec = ups;
            self.debug_info.glyphs_per_sec = gps;
            self.update_counter = 0;
            self.glyph_counter = 0;
            self.last_window_start = now;
        }
        self.debug_info.density = self.density;
        self.debug_info.max_stack_height = self.max_stack_height;
        self.debug_info.speed = self.speed;
        self.debug_info.glyphs_per_update = glyphs_this_update;
        self.debug_info.stacks_per_update = stacks_this_update;
        let mm = min_max_interval(&self.stacks);
        self.debug_info.min_glyph_delay = mm.0;
        self.debug_info.max_glyph_delay = mm.1;

        proof {
            assert(old_stacks == old(self).spec_stacks());
            assert(tick_trail_evolution(
                old(self).spec_stacks(),
                self.debug_info.stacks_per_update as int,
                advanced,
                self.stacks@,
                self.width,
                self.height,
            ));
            assert(tick_evolves(
                old(self).spec_stacks(),
                self.debug_info.stacks_per_update as int,
                self.stacks@,
                self.width,
                self.height,
            ));
        }
        changes
    }
}

} // verus!
