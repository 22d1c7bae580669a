use vstd::prelude::*;
use crate::cell::AnsiColor;
use crate::viewport::Viewport;

verus! {

/// One required cell update between two snapshots: either set a character
/// with its color tier, or clear the cell back to blank.
#[derive(Clone, Copy, Debug, PartialEq, Eq, Structural)]
pub enum Change {
    Update(u16, u16, char, AnsiColor),
    Remove(u16, u16),
}

pub open spec fn change_x(c: Change) -> u16 {
    match c {
        Change::Update(x, _, _, _) => x,
        Change::Remove(x, _) => x,
    }
}

pub open spec fn change_y(c: Change) -> u16 {
    match c {
        Change::Update(_, y, _, _) => y,
        Change::Remove(_, y) => y,
    }
}

/// The changes (none or one) that coordinate (x, y) contributes to a diff.
pub open spec fn cell_change(old: Viewport, new: Viewport, x: int, y: int) -> Seq<Change> {
    if old.spec_cell(x, y) == new.spec_cell(x, y) {
        Seq::empty()
    } else {
        match new.spec_cell(x, y) {
            Some(c) => seq![Change::Update(x as u16, y as u16, c.ch, c.color)],
            None => seq![Change::Remove(x as u16, y as u16)],
        }
    }
}

/// The changes of row y at columns [0, x), in column order.
pub open spec fn spec_diff_row(old: Viewport, new: Viewport, y: int, x: int) -> Seq<Change>
    decreases x,
{
    if x <= 0 {
        Seq::empty()
    } else {
        spec_diff_row(old, new, y, x - 1) + cell_change(old, new, x - 1, y)
    }
}

/// The changes of the complete rows [0, y), row-major.
pub open spec fn spec_diff_rows(old: Viewport, new: Viewport, y: int) -> Seq<Change>
    decreases y,
{
    if y <= 0 {
        Seq::empty()
    } else {
        spec_diff_rows(old, new, y - 1)
            + spec_diff_row(old, new, y - 1, new.spec_width() as int)
    }
}

/// The row-major diff of two snapshots, scanned over the new snapshot's
/// bounds: exactly one entry per coordinate whose cell differs.
pub open spec fn spec_diff(old: Viewport, new: Viewport) -> Seq<Change> {
    spec_diff_rows(old, new, new.spec_height() as int)
}

/// Compare two snapshots and report every cell that changed, row 0 first,
/// each row left to right.  Coordinates equal in both snapshots are omitted.
pub fn diff_viewports(old: &Viewport, new: &Viewport) -> (changes: Vec<Change>)
    requires
        old.wf(),
        new.wf(),
    ensures
        changes@ == spec_diff(*old, *new),
{
    let w = new.width();
    let h = new.height();
    let mut changes: Vec<Change> = Vec::new();
    let mut y: u16 = 0;
    while y < h
        invariant
            y <= h,
            w == new.spec_width(),
            h == new.spec_height(),
            old.wf(),
            new.wf(),
            changes@ == spec_diff_rows(*old, *new, y as int),
        decreases h - y,
    {
        let mut x: u16 = 0;
        while x < w
            invariant
                x <= w,
                y < h,
                w == new.spec_width(),
                h == new.spec_height(),
                old.wf(),
                new.wf(),
                changes@ == spec_diff_rows(*old, *new, y as int)
                    + spec_diff_row(*old, *new, y as int, x as int),
            decreases w - x,
        {
            let old_cell = old.get(x, y);
            let new_cell = new.get(x, y);
            let differ = match (old_cell, new_cell) {
                (None, None) => false,
                (Some(a), Some(b)) => !(a.ch == b.ch && a.color == b.color),
                _ => true,
            };
            if differ {
                match new_cell {
                    Some(c) => changes.push(Change::Update(x, y, c.ch, c.color)),
                    None => changes.push(Change::Remove(x, y)),
                }
            }
            proof {
                assert(changes@ =~= spec_diff_rows(*old, *new, y as int)
                    + spec_diff_row(*old, *new, y as int, x as int + 1));
            }
            x = x + 1;
        }
        y = y + 1;
    }
    changes
}

proof fn lemma_diff_row_self_empty(v: Viewport, y: int, x: int)
    ensures
        spec_diff_row(v, v, y, x) =~= Seq::<Change>::empty(),
    decreases x,
{
    if x > 0 {
        lemma_diff_row_self_empty(v, y, x - 1);
    }
}

/// A snapshot diffed against itself yields no changes.
pub proof fn lemma_diff_self_empty(v: Viewport)
    ensures
        spec_diff(v, v) =~= Seq::<Change>::empty(),
{
    lemma_diff_rows_self_empty(v, v.spec_height() as int);
}

proof fn lemma_diff_rows_self_empty(v: Viewport, y: int)
    ensures
        spec_diff_rows(v, v, y) =~= Seq::<Change>::empty(),
    decreases y,
{
    if y > 0 {
        lemma_diff_rows_self_empty(v, y - 1);
        lemma_diff_row_self_empty(v, y - 1, v.spec_width() as int);
    }
}

proof fn lemma_diff_row_in_bounds(old: Viewport, new: Viewport, y: int, x: int)
    requires
        0 <= y < new.spec_height(),
        0 <= x <= new.spec_width(),
    ensures
        forall|i: int| 0 <= i < spec_diff_row(old, new, y, x).len() ==> {
            let c = #[trigger] spec_diff_row(old, new, y, x)[i];
            change_x(c) < x && change_y(c) == y
        },
    decreases x,
{
    if x > 0 {
        lemma_diff_row_in_bounds(old, new, y, x - 1);
    }
}

proof fn lemma_diff_rows_in_bounds(old: Viewport, new: Viewport, y: int)
    requires
        0 <= y <= new.spec_height(),
    ensures
        forall|i: int| 0 <= i < spec_diff_rows(old, new, y).len() ==> {
            let c = #[trigger] spec_diff_rows(old, new, y)[i];
            change_x(c) < new.spec_width() && change_y(c) < y
        },
    decreases y,
{
    if y > 0 {
        lemma_diff_rows_in_bounds(old, new, y - 1);
        lemma_diff_row_in_bounds(old, new, y - 1, new.spec_width() as int);
    }
}

/// Every change a diff emits lies inside the new snapshot's bounds.
pub proof fn lemma_diff_in_bounds(old: Viewport, new: Viewport)
    ensures
        forall|i: int| 0 <= i < spec_diff(old, new).len() ==> {
            let c = #[trigger] spec_diff(old, new)[i];
            change_x(c) < new.spec_width() && change_y(c) < new.spec_height()
        },
{
    lemma_diff_rows_in_bounds(old, new, new.spec_height() as int);
}

/// The diff is a pure function of the two snapshots: running it again on
/// the same pair of snapshots yields the same change sequence.
pub proof fn lemma_diff_deterministic(old: Viewport, new: Viewport, a: Seq<Change>, b: Seq<Change>)
    requires
        a == spec_diff(old, new),
        b == spec_diff(old, new),
    ensures
        a == b,
{
}

/// How many of the changes in `s` target the coordinate (x, y).
pub open spec fn count_changes_at(s: Seq<Change>, x: int, y: int) -> int
    decreases s.len(),
{
    if s.len() == 0 {
        0
    } else {
        count_changes_at(s.drop_last(), x, y) + (
        if change_x(s.last()) == x && change_y(s.last()) == y {
            1int
        } else {
            0int
        })
    }
}

proof fn lemma_count_concat(a: Seq<Change>, b: Seq<Change>, x: int, y: int)
    ensures
        count_changes_at(a + b, x, y) == count_changes_at(a, x, y) + count_changes_at(b, x, y),
    decreases b.len(),
{
    if b.len() == 0 {
        assert(a + b =~= a);
    } else {
        lemma_count_concat(a, b.drop_last(), x, y);
        assert((a + b).drop_last() =~= a + b.drop_last());
        assert((a + b).last() == b.last());
    }
}

proof fn lemma_diff_row_count(old: Viewport, new: Viewport, y0: int, xb: int, x: int, y: int)
    requires
        0 <= y0 <= 0xffff,
        0 <= xb <= 0xffff,
    ensures
        count_changes_at(spec_diff_row(old, new, y0, xb), x, y) == (
        if y == y0 && 0 <= x < xb && old.spec_cell(x, y) != new.spec_cell(x, y) {
            1int
        } else {
            0int
        }),
    decreases xb,
{
    if xb > 0 {
        lemma_diff_row_count(old, new, y0, xb - 1, x, y);
        let prefix = spec_diff_row(old, new, y0, xb - 1);
        let cc = cell_change(old, new, xb - 1, y0);
        lemma_count_concat(prefix, cc, x, y);
        assert(spec_diff_row(old, new, y0, xb) == prefix + cc);
        if old.spec_cell(xb - 1, y0) != new.spec_cell(xb - 1, y0) {
            assert(cc.len() == 1);
            assert(cc.drop_last() =~= Seq::<Change>::empty());
            assert(change_x(cc.last()) == xb - 1);
            assert(change_y(cc.last()) == y0);
            assert(count_changes_at(Seq::<Change>::empty(), x, y) == 0);
            assert(count_changes_at(cc.drop_last(), x, y) == 0);
            assert(count_changes_at(cc, x, y) == (
            if x == xb - 1 && y == y0 {
                1int
            } else {
                0int
            }));
        } else {
            assert(cc.len() == 0);
            assert(count_changes_at(cc, x, y) == 0);
        }
    }
}

proof fn lemma_diff_rows_count(old: Viewport, new: Viewport, yb: int, x: int, y: int)
    requires
        0 <= yb <= 0xffff,
    ensures
        count_changes_at(spec_diff_rows(old, new, yb), x, y) == (
        if 0 <= y < yb && 0 <= x < new.spec_width() && old.spec_cell(x, y) != new.spec_cell(
            x,
            y,
        ) {
            1int
        } else {
            0int
        }),
    decreases yb,
{
    if yb > 0 {
        lemma_diff_rows_count(old, new, yb - 1, x, y);
        lemma_count_concat(
            spec_diff_rows(old, new, yb - 1),
            spec_diff_row(old, new, yb - 1, new.spec_width() as int),
            x,
            y,
        );
        lemma_diff_row_count(old, new, yb - 1, new.spec_width() as int, x, y);
    }
}

/// The diff is minimal and complete: a coordinate inside the new
/// snapshot's bounds appears exactly once among the changes when its cell
/// differs between the snapshots, and never when it does not.
pub proof fn lemma_diff_minimal(old: Viewport, new: Viewport, x: int, y: int)
    ensures
        count_changes_at(spec_diff(old, new), x, y) == (
        if 0 <= x < new.spec_width() && 0 <= y < new.spec_height() && old.spec_cell(x, y)
            != new.spec_cell(x, y) {
            1int
        } else {
            0int
        }),
{
    lemma_diff_rows_count(old, new, new.spec_height() as int, x, y);
}

proof fn lemma_diff_row_entries(old: Viewport, new: Viewport, y0: int, xb: int)
    requires
        0 <= y0 <= 0xffff,
        0 <= xb <= 0xffff,
    ensures
        forall|i: int| 0 <= i < spec_diff_row(old, new, y0, xb).len() ==> {
            let c = #[trigger] spec_diff_row(old, new, y0, xb)[i];
            c == cell_change(old, new, change_x(c) as int, change_y(c) as int)[0]
        },
    decreases xb,
{
    if xb > 0 {
        lemma_diff_row_entries(old, new, y0, xb - 1);
    }
}

proof fn lemma_diff_rows_entries(old: Viewport, new: Viewport, yb: int)
    requires
        0 <= yb <= 0xffff,
    ensures
        forall|i: int| 0 <= i < spec_diff_rows(old, new, yb).len() ==> {
            let c = #[trigger] spec_diff_rows(old, new, yb)[i];
            c == cell_change(old, new, change_x(c) as int, change_y(c) as int)[0]
        },
    decreases yb,
{
    if yb > 0 {
        lemma_diff_rows_entries(old, new, yb - 1);
        lemma_diff_row_entries(old, new, yb - 1, new.spec_width() as int);
    }
}

/// Every emitted change is truthful: it targets a cell that really
/// differs, and it carries the new snapshot's content for that cell (the
/// character and color for a set, nothing for a clear).
pub proof fn lemma_diff_entries_truthful(old: Viewport, new: Viewport)
    ensures
        forall|i: int| 0 <= i < spec_diff(old, new).len() ==> {
            let c = #[trigger] spec_diff(old, new)[i];
            c == cell_change(old, new, change_x(c) as int, change_y(c) as int)[0]
        },
{
    lemma_diff_rows_entries(old, new, new.spec_height() as int);
}

} // verus!
