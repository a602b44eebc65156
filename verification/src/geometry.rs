//! Rectangles, sizes and positions in terminal cells.

use vstd::prelude::*;
use crate::style::Padding;

verus! {

/// A rectangle of terminal cells.
#[derive(Debug, Clone, Copy, PartialEq, Eq, Structural)]
pub struct Rect {
    pub x: u16,
    pub y: u16,
    pub width: u16,
    pub height: u16,
}

/// Whether two rectangles share a cell.
pub open spec fn rects_intersect(a: Rect, b: Rect) -> bool {
    a.x < b.x + b.width && a.x + a.width > b.x && a.y < b.y + b.height && a.y + a.height > b.y
}

/// Whether `intersects` can add the coordinates it compares without overflow.
pub open spec fn intersects_ok(a: Rect, b: Rect) -> bool {
    &&& b.x + b.width <= u16::MAX
    &&& a.x < b.x + b.width ==> a.x + a.width <= u16::MAX
    &&& (a.x < b.x + b.width && a.x + a.width > b.x) ==> b.y + b.height <= u16::MAX
    &&& (a.x < b.x + b.width && a.x + a.width > b.x && a.y < b.y + b.height) ==> a.y + a.height
        <= u16::MAX
}

/// `a - b`, or 0 where `b` is larger.
pub open spec fn sat_sub(a: int, b: int) -> int {
    if a >= b {
        a - b
    } else {
        0
    }
}

impl Rect {
    pub fn new(x: u16, y: u16, width: u16, height: u16) -> (r: Self)
        ensures
            r == (Rect { x, y, width, height }),
    {
        Rect { x, y, width, height }
    }

    /// Number of cells.
    pub fn area(&self) -> (a: usize)
        ensures
            a == self.width * self.height,
    {
        assert((self.width as usize) * (self.height as usize) <= 65535 * 65535) by (nonlinear_arith)
            requires
                self.width <= 65535,
                self.height <= 65535,
        ;
        (self.width as usize) * (self.height as usize)
    }

    /// Whether the two rectangles share a cell.
    pub fn intersects(&self, other: &Rect) -> (b: bool)
        requires
            intersects_ok(*self, *other),
        ensures
            b == rects_intersect(*self, *other),
    {
        self.x < other.x + other.width && self.x + self.width > other.x && self.y < other.y
            + other.height && self.y + self.height > other.y
    }

    /// The rectangle inside the padding; width and height do not go below zero.
    pub fn shrink(&self, amount: Padding) -> (r: Rect)
        requires
            self.x + amount.left <= u16::MAX,
            self.y + amount.top <= u16::MAX,
            amount.left + amount.right <= u16::MAX,
            amount.top + amount.bottom <= u16::MAX,
        ensures
            r.x == self.x + amount.left,
            r.y == self.y + amount.top,
            r.width == sat_sub(self.width as int, amount.left + amount.right),
            r.height == sat_sub(self.height as int, amount.top + amount.bottom),
    {
        let new_x = self.x + amount.left;
        let new_y = self.y + amount.top;
        let new_width = self.width.saturating_sub(amount.left + amount.right);
        let new_height = self.height.saturating_sub(amount.top + amount.bottom);
        Rect::new(new_x, new_y, new_width, new_height)
    }
}

/// Intersection is symmetric.
pub proof fn law_intersects_symmetric(a: Rect, b: Rect)
    ensures
        rects_intersect(a, b) == rects_intersect(b, a),
{
}

/// A rectangle with a cell intersects itself.
pub proof fn law_intersects_self(a: Rect)
    requires
        a.width > 0,
        a.height > 0,
    ensures
        rects_intersect(a, a),
{
}

/// A 2D size.
#[derive(Debug, Clone, Copy, PartialEq, Eq, Structural)]
pub struct Size {
    pub width: u16,
    pub height: u16,
}

impl Size {
    pub fn new(width: u16, height: u16) -> (s: Self)
        ensures
            s == (Size { width, height }),
    {
        Size { width, height }
    }
}

/// A 2D position.
#[derive(Debug, Clone, Copy, PartialEq, Eq, Structural)]
pub struct Position {
    pub x: u16,
    pub y: u16,
}

impl Position {
    pub fn new(x: u16, y: u16) -> (p: Self)
        ensures
            p == (Position { x, y }),
    {
        Position { x, y }
    }
}

} // verus!
