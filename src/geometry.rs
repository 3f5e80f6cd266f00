//! Rectangles in the shared integer coordinate space and point tests on them.
use vstd::prelude::*;

verus! {

/// An axis-aligned rectangle: origin `(x, y)` and a size.
#[derive(Clone, Copy, Debug, PartialEq, Eq, Structural)]
pub struct Bounds {
    pub x: i32,
    pub y: i32,
    pub width: u32,
    pub height: u32,
}

impl Bounds {
    /// A rectangle that describes a real output has a positive size.
    pub open spec fn wf(self) -> bool {
        self.width > 0 && self.height > 0
    }

    pub open spec fn right(self) -> int {
        self.x + self.width
    }

    pub open spec fn bottom(self) -> int {
        self.y + self.height
    }
}

/// The point lies in the rectangle, edges included on all four sides.
pub open spec fn point_in_bounds(p: (i32, i32), b: Bounds) -> bool {
    &&& b.x <= p.0 <= b.right()
    &&& b.y <= p.1 <= b.bottom()
}

/// The point lies on one of the four edges of the rectangle.
pub open spec fn on_boundary(p: (i32, i32), b: Bounds) -> bool {
    ||| (p.0 == b.x || p.0 == b.right()) && b.y <= p.1 <= b.bottom()
    ||| (p.1 == b.y || p.1 == b.bottom()) && b.x <= p.0 <= b.right()
}

/// Every point on the boundary of a rectangle is inside it: the test is
/// closed on all four edges, not half-open.
pub proof fn boundary_is_inside(p: (i32, i32), b: Bounds)
    requires
        on_boundary(p, b),
    ensures
        point_in_bounds(p, b),
{
}

/// Whether `point` lies in `bounds`, edges included.
pub fn check_inside(point: (i32, i32), bounds: &Bounds) -> (r: bool)
    ensures
        r == point_in_bounds(point, *bounds),
{
    let px = point.0 as i64;
    let py = point.1 as i64;
    let left = bounds.x as i64;
    let top = bounds.y as i64;
    left <= px && px <= left + bounds.width as i64 && top <= py && py <= top + bounds.height as i64
}

} // verus!
