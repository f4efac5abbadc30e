//! Screen geometry for the pane layout: axes, points and rectangles,
//! measured in whole pixels.

use vstd::prelude::*;

verus! {

/// Direction along which a split divides its rectangle.
#[derive(Clone, Copy, Debug, PartialEq, Eq, Structural)]
pub enum Axis {
    Horizontal,
    Vertical,
}

/// A point on the screen, in pixel coordinates.
#[derive(Clone, Copy, Debug, PartialEq, Eq, Structural)]
pub struct Point {
    pub x: i64,
    pub y: i64,
}

/// Width and height of a rectangle, in pixels.
#[derive(Clone, Copy, Debug, PartialEq, Eq, Structural)]
pub struct Size {
    pub width: i64,
    pub height: i64,
}

/// An axis-aligned rectangle: where it starts and how large it is.
#[derive(Clone, Copy, Debug, PartialEq, Eq, Structural)]
pub struct Bounds {
    pub origin: Point,
    pub size: Size,
}

impl Point {
    /// The coordinate of this point along the given axis.
    pub open spec fn spec_along(self, axis: Axis) -> i64 {
        match axis {
            Axis::Horizontal => self.x,
            Axis::Vertical => self.y,
        }
    }

    pub fn along(&self, axis: Axis) -> (r: i64)
        ensures
            r == self.spec_along(axis),
    {
        match axis {
            Axis::Horizontal => self.x,
            Axis::Vertical => self.y,
        }
    }
}

impl Bounds {
    /// A rectangle is well formed when neither extent is negative.
    pub open spec fn wf(self) -> bool {
        self.size.width >= 0 && self.size.height >= 0
    }

    /// The rectangle's extent along the given axis: its width when the axis
    /// is horizontal, its height when it is vertical.
    pub open spec fn spec_extent_along(self, axis: Axis) -> i64 {
        match axis {
            Axis::Horizontal => self.size.width,
            Axis::Vertical => self.size.height,
        }
    }

    pub fn extent_along(&self, axis: Axis) -> (r: i64)
        ensures
            r == self.spec_extent_along(axis),
    {
        match axis {
            Axis::Horizontal => self.size.width,
            Axis::Vertical => self.size.height,
        }
    }

    /// The rectangle's starting coordinate along the given axis.
    pub open spec fn spec_origin_along(self, axis: Axis) -> i64 {
        self.origin.spec_along(axis)
    }

    pub fn origin_along(&self, axis: Axis) -> (r: i64)
        ensures
            r == self.spec_origin_along(axis),
    {
        self.origin.along(axis)
    }

    /// The rectangle at the origin with no extent.
    pub open spec fn spec_default() -> Bounds {
        Bounds { origin: Point { x: 0, y: 0 }, size: Size { width: 0, height: 0 } }
    }

    /// Builds a rectangle from its four scalars.
    pub fn new(x: i64, y: i64, width: i64, height: i64) -> (r: Bounds)
        ensures
            r == (Bounds { origin: Point { x, y }, size: Size { width, height } }),
    {
        Bounds { origin: Point { x, y }, size: Size { width, height } }
    }
}

impl Default for Bounds {
    fn default() -> (r: Bounds)
        ensures
            r == Bounds::spec_default(),
    {
        Bounds { origin: Point { x: 0, y: 0 }, size: Size { width: 0, height: 0 } }
    }
}

} // verus!
