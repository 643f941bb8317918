//! Points, rectangles and the circle-against-rectangle overlap test.
use vstd::prelude::*;

verus! {

/// Sub-units per pixel.
pub const SCALE: i64 = 600;

/// Largest magnitude of a coordinate or a velocity component; values that
/// would go past it stop at it.
pub const LIMIT: i64 = 0x100_0000_0000;

/// Whether `v` lies within the representable range `[-LIMIT, LIMIT]`.
pub open spec fn in_range(v: int) -> bool {
    -LIMIT <= v <= LIMIT
}

/// `v` held to the representable range.
pub open spec fn saturate(v: int) -> int {
    if v > LIMIT {
        LIMIT as int
    } else if v < -LIMIT {
        -LIMIT
    } else {
        v
    }
}

/// Integer division rounding toward zero.
pub open spec fn div_trunc(a: int, d: int) -> int
    recommends
        d > 0,
{
    if a >= 0 {
        a / d
    } else {
        -((-a) / d)
    }
}

pub open spec fn clamp(v: int, lo: int, hi: int) -> int {
    if v < lo {
        lo
    } else if v > hi {
        hi
    } else {
        v
    }
}

/// A 2D point or velocity.
#[derive(Clone, Copy, Debug, PartialEq, Eq, Structural)]
pub struct Vec2 {
    pub x: i64,
    pub y: i64,
}

impl Vec2 {
    pub open spec fn wf(&self) -> bool {
        in_range(self.x as int) && in_range(self.y as int)
    }

    pub fn new(x: i64, y: i64) -> (r: Vec2)
        ensures
            r.x == x,
            r.y == y,
    {
        Vec2 { x, y }
    }
}

/// An axis-aligned rectangle; `(x, y)` is its top-left corner.
#[derive(Clone, Copy, Debug, PartialEq, Eq, Structural)]
pub struct Rect {
    pub x: i64,
    pub y: i64,
    pub w: i64,
    pub h: i64,
}

/// Signed distance from `v` to the nearest point of `[lo, lo + len]`.
pub open spec fn gap(v: int, lo: int, len: int) -> int {
    v - clamp(v, lo, lo + len)
}

impl Rect {
    pub open spec fn wf(&self) -> bool {
        in_range(self.x as int) && in_range(self.y as int) && 0 <= self.w <= LIMIT && 0
            <= self.h <= LIMIT
    }

    /// Horizontal center, rounded toward negative infinity.
    pub open spec fn center_x_spec(&self) -> int {
        self.x + self.w / 2
    }

    /// Whether the closed disc of `radius` around `c` meets the rectangle.
    pub open spec fn overlaps_circle_spec(&self, c: Vec2, radius: int) -> bool {
        let dx = gap(c.x as int, self.x as int, self.w as int);
        let dy = gap(c.y as int, self.y as int, self.h as int);
        dx * dx + dy * dy <= radius * radius
    }

    pub fn new(x: i64, y: i64, w: i64, h: i64) -> (r: Rect)
        ensures
            r == (Rect { x, y, w, h }),
    {
        Rect { x, y, w, h }
    }

    pub fn center_x(&self) -> (r: i64)
        requires
            self.wf(),
        ensures
            r == self.center_x_spec(),
    {
        self.x + self.w / 2
    }

    /// Whether the closed disc of `radius` around `c` meets the rectangle.
    pub fn overlaps_circle(&self, c: Vec2, radius: i64) -> (r: bool)
        requires
            self.wf(),
            c.wf(),
            0 <= radius <= SCALE * 1000,
        ensures
            r == self.overlaps_circle_spec(c, radius as int),
    {
        let right = self.x + self.w;
        let bottom = self.y + self.h;
        let nx = if c.x < self.x {
            self.x
        } else if c.x > right {
            right
        } else {
            c.x
        };
        let ny = if c.y < self.y {
            self.y
        } else if c.y > bottom {
            bottom
        } else {
            c.y
        };
        let dx = c.x - nx;
        let dy = c.y - ny;
        if dx > radius || dx < -radius || dy > radius || dy < -radius {
            proof {
                let (a, b, rr) = (dx as int, dy as int, radius as int);
                assert(a * a + b * b > rr * rr) by (nonlinear_arith)
                    requires
                        a > rr || a < -rr || b > rr || b < -rr,
                        rr >= 0,
                ;
            }
            false
        } else {
            proof {
                let (a, b, rr) = (dx as int, dy as int, radius as int);
                assert(0 <= a * a <= rr * rr && 0 <= b * b <= rr * rr
                    && rr * rr <= 360_000_000_000) by (nonlinear_arith)
                    requires
                        -rr <= a <= rr,
                        -rr <= b <= rr,
                        0 <= rr <= 600_000,
                ;
            }
            dx * dx + dy * dy <= radius * radius
        }
    }
}

} // verus!
