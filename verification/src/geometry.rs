//! Geometry primitives: 2-D fixed-point vectors, axis-aligned boxes, and
//! the circle-versus-box closest-point test used by the collision
//! resolver.

use vstd::prelude::*;

verus! {

/// A 2-D vector of fixed-point scalars.  Positions and half-extents are
/// in position subunits (`crate::POS_SCALE` per world unit).
#[derive(Clone, Copy, PartialEq, Eq, Structural, Debug)]
pub struct Vec2 {
    pub x: i64,
    pub y: i64,
}

impl Vec2 {
    pub fn new(x: i64, y: i64) -> (v: Vec2)
        ensures
            v.x == x,
            v.y == y,
    {
        Vec2 { x, y }
    }
}

/// An axis-aligned box given by its center and half-extents.
#[derive(Clone, Copy, PartialEq, Eq, Structural, Debug)]
pub struct Aabb {
    pub center: Vec2,
    pub half: Vec2,
}

impl Aabb {
    /// Well-formed: strictly positive area, and all four edges
    /// representable as `i64`.
    pub open spec fn wf(self) -> bool {
        &&& 0 < self.half.x
        &&& 0 < self.half.y
        &&& i64::MIN <= self.center.x - self.half.x
        &&& self.center.x + self.half.x <= i64::MAX
        &&& i64::MIN <= self.center.y - self.half.y
        &&& self.center.y + self.half.y <= i64::MAX
    }

    pub open spec fn spec_min_x(self) -> int {
        self.center.x - self.half.x
    }

    pub open spec fn spec_max_x(self) -> int {
        self.center.x + self.half.x
    }

    pub open spec fn spec_min_y(self) -> int {
        self.center.y - self.half.y
    }

    pub open spec fn spec_max_y(self) -> int {
        self.center.y + self.half.y
    }

    pub fn min_x(&self) -> (r: i64)
        requires
            self.wf(),
        ensures
            r == self.spec_min_x(),
    {
        self.center.x - self.half.x
    }

    pub fn max_x(&self) -> (r: i64)
        requires
            self.wf(),
        ensures
            r == self.spec_max_x(),
    {
        self.center.x + self.half.x
    }

    pub fn min_y(&self) -> (r: i64)
        requires
            self.wf(),
        ensures
            r == self.spec_min_y(),
    {
        self.center.y - self.half.y
    }

    pub fn max_y(&self) -> (r: i64)
        requires
            self.wf(),
        ensures
            r == self.spec_max_y(),
    {
        self.center.y + self.half.y
    }

    /// Builds a box from its center and full size, as level setup states
    /// sizes; the half-extents are half the size.
    pub fn from_center_size(center: Vec2, size: Vec2) -> (b: Aabb)
        requires
            0 < size.x,
            0 < size.y,
            i64::MIN <= center.x - size.x / 2,
            center.x + size.x / 2 <= i64::MAX,
            i64::MIN <= center.y - size.y / 2,
            center.y + size.y / 2 <= i64::MAX,
            2 <= size.x,
            2 <= size.y,
        ensures
            b.center == center,
            b.half.x == size.x / 2,
            b.half.y == size.y / 2,
            b.wf(),
    {
        let hx = ((size.x as u64) / 2) as i64;
        let hy = ((size.y as u64) / 2) as i64;
        Aabb { center, half: Vec2 { x: hx, y: hy } }
    }
}

/// The point of `[lo, hi]` closest to `c`.
pub open spec fn clamp_spec(c: int, lo: int, hi: int) -> int {
    if c < lo {
        lo
    } else if c > hi {
        hi
    } else {
        c
    }
}

pub fn clamp(c: i64, lo: i64, hi: i64) -> (r: i64)
    requires
        lo <= hi,
    ensures
        r == clamp_spec(c as int, lo as int, hi as int),
{
    if c < lo {
        lo
    } else if c > hi {
        hi
    } else {
        c
    }
}

/// X coordinate of the point of box `b` closest to `p` (per-axis clamp).
pub open spec fn closest_x_spec(b: Aabb, p: Vec2) -> int {
    clamp_spec(p.x as int, b.spec_min_x(), b.spec_max_x())
}

/// Y coordinate of the point of box `b` closest to `p`.
pub open spec fn closest_y_spec(b: Aabb, p: Vec2) -> int {
    clamp_spec(p.y as int, b.spec_min_y(), b.spec_max_y())
}

/// The point of box `b` closest to `p`.
pub fn closest_point(b: &Aabb, p: Vec2) -> (r: Vec2)
    requires
        b.wf(),
    ensures
        r.x == closest_x_spec(*b, p),
        r.y == closest_y_spec(*b, p),
{
    Vec2 { x: clamp(p.x, b.min_x(), b.max_x()), y: clamp(p.y, b.min_y(), b.max_y()) }
}

/// Whether the circle of radius `radius` centered at `p` touches box
/// `b`: the squared distance from `p` to the closest point of `b` is at
/// most `radius` squared.
pub open spec fn circle_box_overlap(b: Aabb, p: Vec2, radius: int) -> bool {
    let dx = p.x - closest_x_spec(b, p);
    let dy = p.y - closest_y_spec(b, p);
    dx * dx + dy * dy <= radius * radius
}

pub fn overlaps(b: &Aabb, p: Vec2, radius: i64) -> (r: bool)
    requires
        b.wf(),
        0 <= radius,
    ensures
        r == circle_box_overlap(*b, p, radius as int),
{
    let c = closest_point(b, p);
    let dx: i128 = p.x as i128 - c.x as i128;
    let dy: i128 = p.y as i128 - c.y as i128;
    let rr: i128 = radius as i128;
    if dx > rr || dx < -rr || dy > rr || dy < -rr {
        // One axis alone is further out than the radius, so the squared
        // distance already exceeds the squared radius.
        proof {
            lemma_far_axis_excludes(dx as int, dy as int, rr as int);
        }
        false
    } else {
        proof {
            lemma_square_bound(dx as int, rr as int);
            lemma_square_bound(dy as int, rr as int);
            lemma_square_bound(rr as int, i64::MAX as int);
        }
        dx * dx + dy * dy <= rr * rr
    }
}

/// If one axis offset exceeds the radius in magnitude, the squared
/// distance exceeds the squared radius.
proof fn lemma_far_axis_excludes(dx: int, dy: int, r: int)
    requires
        0 <= r,
        dx > r || dx < -r || dy > r || dy < -r,
    ensures
        dx * dx + dy * dy > r * r,
{
    assert(dx * dx + dy * dy > r * r) by (nonlinear_arith)
        requires
            0 <= r,
            dx > r || dx < -r || dy > r || dy < -r,
    ;
}

/// A magnitude bound on a factor bounds its square.
proof fn lemma_square_bound(d: int, m: int)
    requires
        -m <= d <= m,
    ensures
        0 <= d * d <= m * m,
{
    assert(0 <= d * d <= m * m) by (nonlinear_arith)
        requires
            -m <= d <= m,
    ;
}

} // verus!
