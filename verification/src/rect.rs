//! Axis-aligned rectangles in character-grid coordinates.

use vstd::prelude::*;

verus! {

/// A rectangle of grid cells: position and size, both in cells.
#[derive(Clone, Copy, PartialEq, Eq, Structural, Debug)]
pub struct Rect {
    pub x: u16,
    pub y: u16,
    pub width: u16,
    pub height: u16,
}

impl Rect {
    /// A rectangle's corners must stay inside the 16-bit grid the
    /// terminal backend addresses.
    pub open spec fn wf(self) -> bool {
        self.x + self.width <= 0xFFFF && self.y + self.height <= 0xFFFF
    }

    /// Whether the grid position `(x, y)` lies inside the rectangle.
    pub open spec fn contains_cell(self, x: int, y: int) -> bool {
        self.x <= x < self.x + self.width && self.y <= y < self.y + self.height
    }

    /// Whether `other` lies entirely inside `self`.
    pub open spec fn covers(self, other: Rect) -> bool {
        &&& self.x <= other.x
        &&& self.y <= other.y
        &&& other.x + other.width <= self.x + self.width
        &&& other.y + other.height <= self.y + self.height
    }

    /// The content rectangle left inside a 1-cell border drawn on all
    /// four sides of `self`; collapses to an empty rectangle rather than
    /// going negative when `self` is thinner than the border.
    pub open spec fn inner_spec(self) -> Rect {
        Rect {
            x: if self.width > 0 { (self.x + 1) as u16 } else { self.x },
            y: if self.height > 0 { (self.y + 1) as u16 } else { self.y },
            width: if self.width >= 2 { (self.width - 2) as u16 } else { 0 },
            height: if self.height >= 2 { (self.height - 2) as u16 } else { 0 },
        }
    }

    /// Computes [`Rect::inner_spec`]: the rectangle inset by a 1-cell
    /// border on every side.
    pub fn inner(&self) -> (r: Rect)
        requires
            self.wf(),
        ensures
            r == self.inner_spec(),
    {
        Rect {
            x: if self.width > 0 { self.x + 1 } else { self.x },
            y: if self.height > 0 { self.y + 1 } else { self.y },
            width: if self.width >= 2 { self.width - 2 } else { 0 },
            height: if self.height >= 2 { self.height - 2 } else { 0 },
        }
    }
}

/// Law: a rectangle of width and height at least 2 has its 1-cell-border
/// content rectangle at offset (1, 1) from its origin, measuring exactly
/// two cells less in each direction.
pub proof fn lemma_inner_inset(r: Rect)
    requires
        r.width >= 2,
        r.height >= 2,
        r.wf(),
    ensures
        r.inner_spec().x == r.x + 1,
        r.inner_spec().y == r.y + 1,
        r.inner_spec().width == r.width - 2,
        r.inner_spec().height == r.height - 2,
{
}

/// A covering rectangle contains every cell the covered one does.
pub proof fn lemma_covers_cells(outer: Rect, inner: Rect, x: int, y: int)
    requires
        outer.covers(inner),
        inner.contains_cell(x, y),
    ensures
        outer.contains_cell(x, y),
{
}

/// Law: the content rectangle always lies inside its outer rectangle, and
/// a well-formed rectangle has a well-formed content rectangle.
pub proof fn lemma_inner_covered(r: Rect)
    requires
        r.wf(),
    ensures
        r.covers(r.inner_spec()),
        r.inner_spec().wf(),
{
}

} // verus!
