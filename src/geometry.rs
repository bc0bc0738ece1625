//! Fixed-point plane geometry: points, axis-aligned boxes, squared distances
//! and headings scaled to a speed.
//!
//! One world unit is `UNIT` sub-units; every coordinate is an `i64` number of
//! sub-units, kept within `[-COORD_LIMIT, COORD_LIMIT]` so that all arithmetic
//! on coordinates stays in range.

use vstd::prelude::*;

verus! {

/// Sub-units per world unit.
pub const UNIT: i64 = 1000;

/// Largest absolute value a coordinate may take.
pub const COORD_LIMIT: i64 = 1_099_511_627_776;

/// Largest speed (sub-units per tick) a heading may be scaled to.
pub const SPEED_LIMIT: i64 = 1_000_000;

#[derive(Clone, Copy, Debug, PartialEq, Eq, Structural)]
pub struct Vec2 {
    pub x: i64,
    pub y: i64,
}

/// Axis-aligned rectangle: top-left corner, width and height.
#[derive(Clone, Copy, Debug, PartialEq, Eq, Structural)]
pub struct Rect {
    pub x: i64,
    pub y: i64,
    pub w: i64,
    pub h: i64,
}

pub open spec fn in_coord_range(v: int) -> bool {
    -COORD_LIMIT <= v <= COORD_LIMIT
}

impl Vec2 {
    pub open spec fn in_range(self) -> bool {
        in_coord_range(self.x as int) && in_coord_range(self.y as int)
    }

    pub fn new(x: i64, y: i64) -> (r: Vec2)
        ensures
            r.x == x,
            r.y == y,
    {
        Vec2 { x, y }
    }
}

/// Whether two boxes touch or intersect: their projections meet on both axes.
pub open spec fn overlaps_spec(a: Rect, b: Rect) -> bool {
    &&& a.x <= b.x + b.w
    &&& a.x + a.w >= b.x
    &&& a.y <= b.y + b.h
    &&& a.y + a.h >= b.y
}

impl Rect {
    /// The box of size `w` x `h` whose corner is `p` shifted by `(dx, dy)`.
    pub open spec fn at_spec(p: Vec2, dx: int, dy: int, w: int, h: int) -> Rect {
        Rect { x: (p.x + dx) as i64, y: (p.y + dy) as i64, w: w as i64, h: h as i64 }
    }

    pub fn at(p: Vec2, dx: i64, dy: i64, w: i64, h: i64) -> (r: Rect)
        requires
            p.in_range(),
            0 <= dx <= UNIT * 1000,
            0 <= dy <= UNIT * 1000,
            0 <= w <= UNIT * 1000,
            0 <= h <= UNIT * 1000,
        ensures
            r == Rect::at_spec(p, dx as int, dy as int, w as int, h as int),
    {
        Rect { x: p.x + dx, y: p.y + dy, w, h }
    }

    pub open spec fn bounded(self) -> bool {
        &&& -2 * COORD_LIMIT <= self.x <= 2 * COORD_LIMIT
        &&& -2 * COORD_LIMIT <= self.y <= 2 * COORD_LIMIT
        &&& 0 <= self.w <= 2 * COORD_LIMIT
        &&& 0 <= self.h <= 2 * COORD_LIMIT
    }

    pub fn overlaps(&self, other: &Rect) -> (r: bool)
        requires
            self.bounded(),
            other.bounded(),
        ensures
            r == overlaps_spec(*self, *other),
    {
        self.x <= other.x + other.w && self.x + self.w >= other.x && self.y <= other.y + other.h
            && self.y + self.h >= other.y
    }
}

/// Squared Euclidean distance between two points.
pub open spec fn dist_sq(a: Vec2, b: Vec2) -> int {
    (a.x - b.x) * (a.x - b.x) + (a.y - b.y) * (a.y - b.y)
}

/// `dist_sq` computed exactly.
pub fn distance_sq(a: Vec2, b: Vec2) -> (r: u128)
    requires
        a.in_range(),
        b.in_range(),
    ensures
        r == dist_sq(a, b),
{
    let dx: i128 = a.x as i128 - b.x as i128;
    let dy: i128 = a.y as i128 - b.y as i128;
    let ax: u128 = if dx < 0 { (-dx) as u128 } else { dx as u128 };
    let ay: u128 = if dy < 0 { (-dy) as u128 } else { dy as u128 };
    assert(ax * ax <= 0x40_0000_0000_0000_0000_0000) by (nonlinear_arith)
        requires ax <= 0x200_0000_0000,
    ;
    assert(ay * ay <= 0x40_0000_0000_0000_0000_0000) by (nonlinear_arith)
        requires ay <= 0x200_0000_0000,
    ;
    assert(ax * ax == dx * dx && ay * ay == dy * dy) by (nonlinear_arith)
        requires ax == dx || ax == -dx, ay == dy || ay == -dy,
    ;
    ax * ax + ay * ay
}

/// Whether `r` is the integer square root of `n`.
pub open spec fn is_floor_sqrt(n: int, r: int) -> bool {
    0 <= r && r * r <= n < (r + 1) * (r + 1)
}

/// The integer square root (rounded down) of a non-negative `n`.
pub open spec fn floor_sqrt(n: int) -> int {
    choose|r: int| is_floor_sqrt(n, r)
}

/// The integer square root is unique, so `floor_sqrt` names any root found.
pub proof fn lemma_floor_sqrt_unique(n: int, r: int)
    requires
        is_floor_sqrt(n, r),
    ensures
        floor_sqrt(n) == r,
{
    let q = floor_sqrt(n);
    assert(is_floor_sqrt(n, q));
    if q < r {
        assert((q + 1) * (q + 1) <= r * r) by (nonlinear_arith)
            requires 0 <= q, q + 1 <= r,
        ;
    } else if q > r {
        assert((r + 1) * (r + 1) <= q * q) by (nonlinear_arith)
            requires 0 <= r, r + 1 <= q,
        ;
    }
}

/// Integer square root by bisection.
pub fn isqrt(n: u128) -> (r: u64)
    requires
        n < 0x4000_0000_0000_0000_0000_0000_0000_0000,
    ensures
        is_floor_sqrt(n as int, r as int),
        r == floor_sqrt(n as int),
{
    let mut lo: u128 = 0;
    let mut hi: u128 = 0x8000_0000_0000_0000;
    assert(hi * hi == 0x4000_0000_0000_0000_0000_0000_0000_0000) by (nonlinear_arith)
        requires hi == 0x8000_0000_0000_0000u128,
    ;
    while lo + 1 < hi
        invariant
            lo < hi <= 0x8000_0000_0000_0000,
            lo * lo <= n,
            n < hi * hi,
        decreases hi - lo,
    {
        let mid: u128 = lo + (hi - lo) / 2;
        assert(mid * mid <= 0x4000_0000_0000_0000_0000_0000_0000_0000) by (nonlinear_arith)
            requires mid <= 0x8000_0000_0000_0000,
        ;
        if mid * mid <= n {
            lo = mid;
        } else {
            hi = mid;
        }
    }
    proof {
        lemma_floor_sqrt_unique(n as int, lo as int);
    }
    lo as u64
}

/// One coordinate of a heading: `d * speed / len`, rounded toward zero.
pub open spec fn scaled(d: int, speed: int, len: int) -> int {
    if d >= 0 {
        (d * speed) / len
    } else {
        -(((-d) * speed) / len)
    }
}

/// The vector `d` scaled to length `speed` (each coordinate rounded toward
/// zero), or the zero vector when `d` is zero.
pub open spec fn heading_spec(d: Vec2, speed: int) -> Vec2 {
    let len = floor_sqrt(d.x * d.x + d.y * d.y);
    if len == 0 {
        Vec2 { x: 0, y: 0 }
    } else {
        Vec2 { x: scaled(d.x as int, speed, len) as i64, y: scaled(d.y as int, speed, len) as i64 }
    }
}

/// Every coordinate of a heading lies within `[-speed, speed]`.
pub open spec fn within_speed(v: Vec2, speed: int) -> bool {
    -speed <= v.x <= speed && -speed <= v.y <= speed
}

proof fn lemma_scaled_bound(d: int, other: int, speed: int, len: int)
    requires
        0 <= speed,
        is_floor_sqrt(d * d + other * other, len),
        len > 0,
    ensures
        -speed <= scaled(d, speed, len) <= speed,
{
    let a = if d >= 0 { d } else { -d };
    assert(a * a == d * d) by (nonlinear_arith)
        requires a == d || a == -d,
    ;
    assert(a * a <= d * d + other * other) by (nonlinear_arith)
        requires a * a == d * d,
    ;
    assert(a <= len) by (nonlinear_arith)
        requires 0 <= a, 0 <= len, a * a < (len + 1) * (len + 1),
    ;
    assert(a * speed <= len * speed) by (nonlinear_arith)
        requires a <= len, 0 <= speed,
    ;
    assert(0 <= a * speed) by (nonlinear_arith)
        requires 0 <= a, 0 <= speed,
    ;
    vstd::arithmetic::div_mod::lemma_div_is_ordered(a * speed, len * speed, len);
    vstd::arithmetic::div_mod::lemma_div_by_multiple(speed, len);
    assert(len * speed == speed * len) by (nonlinear_arith);
    vstd::arithmetic::div_mod::lemma_div_is_ordered(0, a * speed, len);
}

/// `heading_spec` computed exactly.
pub fn heading(d: Vec2, speed: i64) -> (r: Vec2)
    requires
        -2 * COORD_LIMIT <= d.x <= 2 * COORD_LIMIT,
        -2 * COORD_LIMIT <= d.y <= 2 * COORD_LIMIT,
        0 <= speed <= SPEED_LIMIT,
    ensures
        r == heading_spec(d, speed as int),
        within_speed(r, speed as int),
{
    let ax: u64 = if d.x < 0 { (-(d.x as i128)) as u64 } else { d.x as u64 };
    let ay: u64 = if d.y < 0 { (-(d.y as i128)) as u64 } else { d.y as u64 };
    assert((ax as u128) * (ax as u128) <= 0x10_0000_0000_0000_0000_0000) by (nonlinear_arith)
        requires ax <= 0x200_0000_0000,
    ;
    assert((ay as u128) * (ay as u128) <= 0x10_0000_0000_0000_0000_0000) by (nonlinear_arith)
        requires ay <= 0x200_0000_0000,
    ;
    let sq: u128 = (ax as u128) * (ax as u128) + (ay as u128) * (ay as u128);
    assert(sq == d.x * d.x + d.y * d.y) by (nonlinear_arith)
        requires
            ax == d.x || ax == -d.x,
            ay == d.y || ay == -d.y,
            sq == ax * ax + ay * ay,
    ;
    let len = isqrt(sq);
    if len == 0 {
        return Vec2 { x: 0, y: 0 };
    }
    let s: u64 = speed as u64;
    assert(ax * s <= 0x200_0000_0000 * 1_000_000) by (nonlinear_arith)
        requires ax <= 0x200_0000_0000, s <= 1_000_000,
    ;
    assert(ay * s <= 0x200_0000_0000 * 1_000_000) by (nonlinear_arith)
        requires ay <= 0x200_0000_0000, s <= 1_000_000,
    ;
    let qx: u64 = ax * s / len;
    let qy: u64 = ay * s / len;
    proof {
        lemma_scaled_bound(d.x as int, d.y as int, speed as int, len as int);
        assert(d.y * d.y + d.x * d.x == d.x * d.x + d.y * d.y);
        lemma_scaled_bound(d.y as int, d.x as int, speed as int, len as int);
    }
    let x: i64 = if d.x < 0 { -(qx as i64) } else { qx as i64 };
    let y: i64 = if d.y < 0 { -(qy as i64) } else { qy as i64 };
    Vec2 { x, y }
}

} // verus!
