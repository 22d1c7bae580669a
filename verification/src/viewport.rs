use vstd::prelude::*;
use vstd::pervasive::VecAdditionalExecFns;
use crate::cell::Cell;

verus! {

/// A rectangular grid snapshot.  Every in-bounds coordinate maps to an
/// optional cell (absent = blank); the cells are stored row-major.
#[derive(Clone)]
pub struct Viewport {
    width: u16,
    height: u16,
    grid: Vec<Option<Cell>>,
}

impl Viewport {
    /// Well-formedness: the grid holds exactly one slot per coordinate.
    pub closed spec fn wf(self) -> bool {
        self.grid.len() == self.width as int * self.height as int
    }

    pub closed spec fn spec_width(self) -> u16 {
        self.width
    }

    pub closed spec fn spec_height(self) -> u16 {
        self.height
    }

    /// The cell at (x, y); blank outside the bounds.
    pub closed spec fn spec_cell(self, x: int, y: int) -> Option<Cell> {
        if 0 <= x < self.width && 0 <= y < self.height {
            self.grid[y * self.width as int + x]
        } else {
            None
        }
    }

    pub fn width(&self) -> (w: u16)
        ensures
            w == self.spec_width(),
    {
        self.width
    }

    pub fn height(&self) -> (h: u16)
        ensures
            h == self.spec_height(),
    {
        self.height
    }

    /// A fresh snapshot of the given dimensions with every cell blank.
    pub fn new(width: u16, height: u16) -> (v: Viewport)
        ensures
            v.wf(),
            v.spec_width() == width,
            v.spec_height() == height,
            forall|x: int, y: int| v.spec_cell(x, y) == None::<Cell>,
    {
        proof {
            assert((width as int) * (height as int) <= 0xffff * 0xffff) by (nonlinear_arith)
                requires
                    0 <= (width as int) <= 0xffff,
                    0 <= (height as int) <= 0xffff,
            ;
        }
        let len: usize = (width as usize) * (height as usize);
        let mut grid: Vec<Option<Cell>> = Vec::new();
        let mut i: usize = 0;
        while i < len
            invariant
                i <= len,
                grid@.len() == i,
                forall|k: int| 0 <= k < i ==> grid@[k] == None::<Cell>,
            decreases len - i,
        {
            grid.push(None);
            i = i + 1;
        }
        let v = Viewport { width, height, grid };
        proof {
            assert forall|x: int, y: int| #[trigger] v.spec_cell(x, y) == None::<Cell> by {
                if 0 <= x < width && 0 <= y < height {
                    assert(0 <= y * (width as int) + x < (width as int) * (height as int))
                        by (nonlinear_arith)
                        requires
                            0 <= x < (width as int),
                            0 <= y < (height as int),
                    ;
                }
            }
        }
        v
    }

    /// Read a cell; out-of-bounds coordinates read as blank.
    pub fn get(&self, x: u16, y: u16) -> (r: Option<Cell>)
        requires
            self.wf(),
        ensures
            r == self.spec_cell(x as int, y as int),
    {
        if x < self.width && y < self.height {
            proof {
                assert((y as int) * (self.width as int) + (x as int)
                    < (self.width as int) * (self.height as int)
                    && (self.width as int) * (self.height as int) <= 0xffff * 0xffff)
                    by (nonlinear_arith)
                    requires
                        0 <= (x as int) < (self.width as int) <= 0xffff,
                        0 <= (y as int) < (self.height as int) <= 0xffff,
                ;
            }
            let idx: usize = (y as usize) * (self.width as usize) + (x as usize);
            self.grid[idx]
        } else {
            None
        }
    }

    /// Write a cell; writes outside the bounds are silently dropped.
    pub fn set(&mut self, x: u16, y: u16, cell: Cell)
        requires
            old(self).wf(),
        ensures
            final(self).wf(),
            final(self).spec_width() == old(self).spec_width(),
            final(self).spec_height() == old(self).spec_height(),
            forall|i: int, j: int| final(self).spec_cell(i, j) == (
                if i == x && j == y && x < old(self).spec_width() && y < old(self).spec_height() {
                    Some(cell)
                } else {
                    old(self).spec_cell(i, j)
                }),
    {
        if x < self.width && y < self.height {
            proof {
                assert((y as int) * (self.width as int) + (x as int)
                    < (self.width as int) * (self.height as int)
                    && (self.width as int) * (self.height as int) <= 0xffff * 0xffff)
                    by (nonlinear_arith)
                    requires
                        0 <= (x as int) < (self.width as int) <= 0xffff,
                        0 <= (y as int) < (self.height as int) <= 0xffff,
                ;
            }
            let idx: usize = (y as usize) * (self.width as usize) + (x as usize);
            let ghost pre = *self;
            self.grid.set(idx, Some(cell));
            proof {
                assert forall|i: int, j: int| #[trigger] self.spec_cell(i, j) == (
                    if i == x && j == y { Some(cell) } else { pre.spec_cell(i, j) }) by {
                    if 0 <= i < self.width && 0 <= j < self.height {
                        assert(0 <= j * (self.width as int) + i
                            < (self.width as int) * (self.height as int)
                            && ((i != x as int || j != y as int) ==> j * (self.width as int) + i
                                != (y as int) * (self.width as int) + (x as int)))
                            by (nonlinear_arith)
                            requires
                                0 <= i < (self.width as int),
                                0 <= j < (self.height as int),
                                0 <= (x as int) < (self.width as int),
                                0 <= (y as int) < (self.height as int),
                        ;
                    }
                }
            }
        }
    }
}

} // verus!
