use vstd::prelude::*;

verus! {

/// Integer division rounding toward zero, as Rust's `/` does on signed integers.
pub open spec fn trunc_div(a: int, b: int) -> int {
    if a >= 0 {
        a / b
    } else {
        -((-a) / b)
    }
}

/// Signed integer division rounding toward zero, for any non-zero divisor.
pub open spec fn trunc_div_signed(a: int, b: int) -> int {
    if b > 0 {
        trunc_div(a, b)
    } else {
        -trunc_div(a, -b)
    }
}

/// Rust's signed division `a / b`, rounding toward zero.
pub fn div_trunc(a: i32, b: i32) -> (r: i32)
    requires
        b != 0,
        !(a == i32::MIN && b == -1),
    ensures
        r == trunc_div_signed(a as int, b as int),
{
    if b > 0 {
        a / b
    } else if b == i32::MIN {
        if a == i32::MIN {
            1
        } else {
            0
        }
    } else {
        let d: i32 = -b;
        let q = a / d;
        assert(q != i32::MIN) by {
            if a >= 0 {
            } else if d == 1 {
            } else {
                assert((-(a as int)) / (d as int) <= (-(a as int)) / 2) by (nonlinear_arith)
                    requires
                        d >= 2,
                        -(a as int) >= 0,
                ;
            }
        }
        -q
    }
}

/// True when `v` fits in an `i32`.
pub open spec fn fits_i32(v: int) -> bool {
    i32::MIN <= v <= i32::MAX
}

/// An axis-aligned rectangle in integer screen coordinates.
#[derive(Clone, Copy, Debug, PartialEq, Eq, Structural)]
pub struct Rect {
    pub left: i32,
    pub top: i32,
    pub right: i32,
    pub bottom: i32,
}

/// A point (or a velocity) in integer screen coordinates.
#[derive(Clone, Copy, Debug, PartialEq, Eq, Structural)]
pub struct Point {
    pub x: i32,
    pub y: i32,
}

impl Point {
    /// The origin.
    pub fn new() -> (p: Point)
        ensures
            p == (Point { x: 0, y: 0 }),
    {
        Point { x: 0, y: 0 }
    }
}

/// The rectangle grown by `dx` on the left and right and by `dy` on the top and bottom.
pub open spec fn spec_inflate(r: Rect, dx: int, dy: int) -> Rect {
    Rect {
        left: (r.left - dx) as i32,
        top: (r.top - dy) as i32,
        right: (r.right + dx) as i32,
        bottom: (r.bottom + dy) as i32,
    }
}

/// True when growing `r` by `dx`, `dy` stays within `i32`.
pub open spec fn inflate_fits(r: Rect, dx: int, dy: int) -> bool {
    &&& fits_i32(r.left - dx)
    &&& fits_i32(r.right + dx)
    &&& fits_i32(r.top - dy)
    &&& fits_i32(r.bottom + dy)
}

/// The rectangle moved by `dx`, `dy`.
pub open spec fn spec_offset(r: Rect, dx: int, dy: int) -> Rect {
    Rect {
        left: (r.left + dx) as i32,
        top: (r.top + dy) as i32,
        right: (r.right + dx) as i32,
        bottom: (r.bottom + dy) as i32,
    }
}

/// True when moving `r` by `dx`, `dy` stays within `i32`.
pub open spec fn offset_fits(r: Rect, dx: int, dy: int) -> bool {
    &&& fits_i32(r.left + dx)
    &&& fits_i32(r.right + dx)
    &&& fits_i32(r.top + dy)
    &&& fits_i32(r.bottom + dy)
}

/// True when the point lies in the closed rectangle (edges included).
pub open spec fn spec_contains(r: Rect, x: int, y: int) -> bool {
    r.left <= x <= r.right && r.top <= y <= r.bottom
}

/// True when the two closed rectangles share at least one point.
pub open spec fn spec_overlaps(a: Rect, b: Rect) -> bool {
    a.left <= b.right && b.left <= a.right && a.top <= b.bottom && b.top <= a.bottom
}

impl Rect {
    pub fn new(left: i32, top: i32, right: i32, bottom: i32) -> (r: Rect)
        ensures
            r == (Rect { left, top, right, bottom }),
    {
        Rect { left, top, right, bottom }
    }

    pub fn zero() -> (r: Rect)
        ensures
            r == (Rect { left: 0, top: 0, right: 0, bottom: 0 }),
    {
        Rect { left: 0, top: 0, right: 0, bottom: 0 }
    }

    /// Grows the rectangle by `dx` horizontally on each side and by `dy` vertically.
    pub fn inflate(&mut self, dx: i32, dy: i32)
        requires
            inflate_fits(*old(self), dx as int, dy as int),
        ensures
            *final(self) == spec_inflate(*old(self), dx as int, dy as int),
    {
        self.left = self.left - dx;
        self.right = self.right + dx;
        self.top = self.top - dy;
        self.bottom = self.bottom + dy;
    }

    /// Moves the rectangle by `dx`, `dy`.
    pub fn offset(&mut self, dx: i32, dy: i32)
        requires
            offset_fits(*old(self), dx as int, dy as int),
        ensures
            *final(self) == spec_offset(*old(self), dx as int, dy as int),
    {
        self.left = self.left + dx;
        self.right = self.right + dx;
        self.top = self.top + dy;
        self.bottom = self.bottom + dy;
    }

    /// Whether the point lies inside the rectangle, edges included.
    pub fn contain(&self, x: i32, y: i32) -> (b: bool)
        ensures
            b == spec_contains(*self, x as int, y as int),
    {
        x >= self.left && x <= self.right && y >= self.top && y <= self.bottom
    }
}

} // verus!
