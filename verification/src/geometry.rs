//! Rectangular regions of the terminal cell grid, and the safe sub-region
//! derivations the layout engine is built on: a symmetric inset and a
//! single-row slice. Both are total: margins that are too large, or a row
//! outside the rectangle, yield a degenerate (zero-sized) rectangle rather
//! than an error or a wrapped coordinate.

use vstd::prelude::*;

verus! {

/// A rectangular region, measured in terminal cells. Width or height may be
/// zero: such a rectangle is degenerate and renders nothing.
#[derive(Clone, Copy, PartialEq, Eq, Structural, Debug)]
pub struct Rect {
    pub x: u16,
    pub y: u16,
    pub width: u16,
    pub height: u16,
}

impl Rect {
    /// The rectangle stays addressable: its right and bottom edges still fit
    /// in a `u16` cell coordinate.
    pub open spec fn wf(self) -> bool {
        self.x + self.width <= u16::MAX && self.y + self.height <= u16::MAX
    }

    /// First row of the rectangle.
    pub open spec fn top(self) -> int {
        self.y as int
    }

    /// One past the last row of the rectangle.
    pub open spec fn bottom(self) -> int {
        self.y + self.height
    }

    /// `row` is one of the rectangle's rows.
    pub open spec fn contains_row(self, row: int) -> bool {
        self.top() <= row < self.bottom()
    }

    /// A rectangle that renders nothing.
    pub open spec fn is_degenerate(self) -> bool {
        self.width == 0 || self.height == 0
    }

    /// What `inset` returns: each axis either shrinks symmetrically by the
    /// margin, or, when twice the margin exceeds the extent, clamps to size
    /// zero anchored at the original centre of that axis.
    pub open spec fn spec_inset(self, horizontal: u16, vertical: u16) -> Rect {
        Rect {
            x: if 2 * horizontal <= self.width {
                (self.x + horizontal) as u16
            } else {
                (self.x + self.width as int / 2) as u16
            },
            width: if 2 * horizontal <= self.width {
                (self.width - 2 * horizontal) as u16
            } else {
                0
            },
            y: if 2 * vertical <= self.height {
                (self.y + vertical) as u16
            } else {
                (self.y + self.height as int / 2) as u16
            },
            height: if 2 * vertical <= self.height {
                (self.height - 2 * vertical) as u16
            } else {
                0
            },
        }
    }

    /// What `row_slice` returns: the width-by-one rectangle at `row` when
    /// `row` lies inside, and a zero-height rectangle otherwise.
    pub open spec fn spec_row_slice(self, row: u16) -> Rect {
        if self.contains_row(row as int) {
            Rect { x: self.x, y: row, width: self.width, height: 1 }
        } else {
            Rect { x: self.x, y: self.y, width: self.width, height: 0 }
        }
    }

    pub fn new(x: u16, y: u16, width: u16, height: u16) -> (r: Rect)
        requires
            x + width <= u16::MAX,
            y + height <= u16::MAX,
        ensures
            r == (Rect { x, y, width, height }),
            r.wf(),
    {
        Rect { x, y, width, height }
    }

    /// Shrink the rectangle symmetrically by the given margins. Margins of
    /// half the extent or more clamp that axis to zero instead of going
    /// negative, and the result always stays inside `self`.
    pub fn inset(self, horizontal: u16, vertical: u16) -> (r: Rect)
        requires
            self.wf(),
        ensures
            r == self.spec_inset(horizontal, vertical),
            r.wf(),
            self.left() <= r.left() && r.right() <= self.right(),
            self.top() <= r.top() && r.bottom() <= self.bottom(),
    {
        let (x, width) = if horizontal <= self.width / 2 {
            (self.x + horizontal, self.width - 2 * horizontal)
        } else {
            (self.x + self.width / 2, 0)
        };
        let (y, height) = if vertical <= self.height / 2 {
            (self.y + vertical, self.height - 2 * vertical)
        } else {
            (self.y + self.height / 2, 0)
        };
        Rect { x, y, width, height }
    }

    /// First column of the rectangle.
    pub open spec fn left(self) -> int {
        self.x as int
    }

    /// One past the last column of the rectangle.
    pub open spec fn right(self) -> int {
        self.x + self.width
    }

    /// The width-by-one sub-rectangle at row `row`, or a degenerate rectangle
    /// when `row` lies outside `self` — never a panic.
    pub fn row_slice(self, row: u16) -> (r: Rect)
        requires
            self.wf(),
        ensures
            r == self.spec_row_slice(row),
            r.wf(),
            !self.contains_row(row as int) ==> r.is_degenerate(),
    {
        if self.height > 0 && row >= self.y && row - self.y < self.height {
            Rect { x: self.x, y: row, width: self.width, height: 1 }
        } else {
            Rect { x: self.x, y: self.y, width: self.width, height: 0 }
        }
    }
}

/// Law: `inset` never produces negative dimensions. A margin of at least half
/// the width (resp. height) collapses that axis to zero, so the result is a
/// degenerate rectangle that renders nothing.
pub proof fn lemma_inset_clamps_to_zero(r: Rect, horizontal: u16, vertical: u16)
    requires
        r.wf(),
        2 * horizontal >= r.width || 2 * vertical >= r.height,
    ensures
        2 * horizontal >= r.width ==> r.spec_inset(horizontal, vertical).width == 0,
        2 * vertical >= r.height ==> r.spec_inset(horizontal, vertical).height == 0,
        r.spec_inset(horizontal, vertical).is_degenerate(),
{
}

} // verus!
