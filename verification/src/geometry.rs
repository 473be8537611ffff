//! Points, extents and rectangles of the desk, in whole units.
//!
//! A rectangle is given by its centre and its size. Its corners lie half a
//! size away from the centre, so every corner is kept doubled: an odd size
//! then loses nothing, and all comparisons are exact.

use vstd::prelude::*;

verus! {

/// A point of the desk, or a displacement between two points.
#[derive(Clone, Copy, Debug, PartialEq, Eq, Structural)]
pub struct Vec2 {
    pub x: i64,
    pub y: i64,
}

/// The extent of a rectangle. An extent is never negative.
#[derive(Clone, Copy, Debug, PartialEq, Eq, Structural)]
pub struct Size {
    pub width: u64,
    pub height: u64,
}

/// An axis-aligned rectangle: `size` spread evenly around `center`.
#[derive(Clone, Copy, Debug, PartialEq, Eq, Structural)]
pub struct Rect {
    pub center: Vec2,
    pub size: Size,
}

impl Vec2 {
    /// The point at the origin, and the displacement that moves nothing.
    pub open spec fn zero() -> Vec2 {
        Vec2 { x: 0, y: 0 }
    }

    /// Whether `self + other` can be held, coordinate by coordinate.
    pub open spec fn can_add(self, other: Vec2) -> bool {
        &&& i64::MIN <= self.x + other.x <= i64::MAX
        &&& i64::MIN <= self.y + other.y <= i64::MAX
    }

    /// `self + other`, where `can_add` holds.
    pub open spec fn plus(self, other: Vec2) -> Vec2 {
        Vec2 { x: (self.x + other.x) as i64, y: (self.y + other.y) as i64 }
    }

    /// Whether `self - other` can be held, coordinate by coordinate.
    pub open spec fn can_sub(self, other: Vec2) -> bool {
        &&& i64::MIN <= self.x - other.x <= i64::MAX
        &&& i64::MIN <= self.y - other.y <= i64::MAX
    }

    /// `self - other`, where `can_sub` holds.
    pub open spec fn minus(self, other: Vec2) -> Vec2 {
        Vec2 { x: (self.x - other.x) as i64, y: (self.y - other.y) as i64 }
    }

    /// The vector with these coordinates.
    pub fn new(x: i64, y: i64) -> (v: Vec2)
        ensures
            v == (Vec2 { x, y }),
    {
        Vec2 { x, y }
    }

    /// The sum of two vectors, or `None` where a coordinate of it cannot be held.
    pub fn checked_add(self, other: Vec2) -> (sum: Option<Vec2>)
        ensures
            sum == if self.can_add(other) {
                Some(self.plus(other))
            } else {
                None::<Vec2>
            },
    {
        let x: i128 = self.x as i128 + other.x as i128;
        let y: i128 = self.y as i128 + other.y as i128;
        if in_range(x) && in_range(y) {
            Some(Vec2 { x: x as i64, y: y as i64 })
        } else {
            None
        }
    }

    /// The difference of two vectors, or `None` where a coordinate of it cannot
    /// be held.
    pub fn checked_sub(self, other: Vec2) -> (difference: Option<Vec2>)
        ensures
            difference == if self.can_sub(other) {
                Some(self.minus(other))
            } else {
                None::<Vec2>
            },
    {
        let x: i128 = self.x as i128 - other.x as i128;
        let y: i128 = self.y as i128 - other.y as i128;
        if in_range(x) && in_range(y) {
            Some(Vec2 { x: x as i64, y: y as i64 })
        } else {
            None
        }
    }
}

fn in_range(v: i128) -> (ok: bool)
    ensures
        ok == (i64::MIN <= v <= i64::MAX),
{
    -0x8000_0000_0000_0000 <= v && v <= 0x7fff_ffff_ffff_ffff
}

impl Size {
    /// The extent of this width and height.
    pub fn new(width: u64, height: u64) -> (s: Size)
        ensures
            s == (Size { width, height }),
    {
        Size { width, height }
    }
}

impl Rect {
    /// Twice the x coordinate of the left edge.
    pub open spec fn left2(self) -> int {
        2 * self.center.x - self.size.width
    }

    /// Twice the x coordinate of the right edge.
    pub open spec fn right2(self) -> int {
        2 * self.center.x + self.size.width
    }

    /// Twice the y coordinate of the bottom edge.
    pub open spec fn bottom2(self) -> int {
        2 * self.center.y - self.size.height
    }

    /// Twice the y coordinate of the top edge.
    pub open spec fn top2(self) -> int {
        2 * self.center.y + self.size.height
    }

    /// Whether `inner` lies within `self`: its lower left corner is not below
    /// or left of this rectangle's, its upper right corner not above or right
    /// of it. Edges that touch are within.
    pub open spec fn encloses(self, inner: Rect) -> bool {
        &&& self.left2() <= inner.left2()
        &&& self.bottom2() <= inner.bottom2()
        &&& inner.right2() <= self.right2()
        &&& inner.top2() <= self.top2()
    }

    /// Whether `point` lies strictly inside the rectangle. A point on an edge
    /// is outside.
    pub open spec fn surrounds(self, point: Vec2) -> bool {
        &&& self.left2() < 2 * point.x < self.right2()
        &&& self.bottom2() < 2 * point.y < self.top2()
    }

    /// The rectangle of this size around this centre.
    pub fn from_center_size(center: Vec2, size: Size) -> (r: Rect)
        ensures
            r == (Rect { center, size }),
    {
        Rect { center, size }
    }

    fn left2_exec(&self) -> (v: i128)
        ensures
            v == self.left2(),
    {
        2 * (self.center.x as i128) - self.size.width as i128
    }

    fn right2_exec(&self) -> (v: i128)
        ensures
            v == self.right2(),
    {
        2 * (self.center.x as i128) + self.size.width as i128
    }

    fn bottom2_exec(&self) -> (v: i128)
        ensures
            v == self.bottom2(),
    {
        2 * (self.center.y as i128) - self.size.height as i128
    }

    fn top2_exec(&self) -> (v: i128)
        ensures
            v == self.top2(),
    {
        2 * (self.center.y as i128) + self.size.height as i128
    }

    /// Whether `point` lies strictly inside the rectangle.
    pub fn contains_point(&self, point: Vec2) -> (inside: bool)
        ensures
            inside == self.surrounds(point),
    {
        let x2: i128 = 2 * (point.x as i128);
        let y2: i128 = 2 * (point.y as i128);
        self.left2_exec() < x2 && x2 < self.right2_exec() && self.bottom2_exec() < y2 && y2
            < self.top2_exec()
    }
}

/// Whether `inner` lies within `outer`, edges included.
pub fn fits(outer: Rect, inner: Rect) -> (within: bool)
    ensures
        within == outer.encloses(inner),
{
    outer.left2_exec() <= inner.left2_exec() && outer.bottom2_exec() <= inner.bottom2_exec()
        && inner.right2_exec() <= outer.right2_exec() && inner.top2_exec() <= outer.top2_exec()
}

} // verus!
