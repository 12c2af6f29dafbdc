//! Geometry primitives: a 2D integer vector and an axis-aligned bounding
//! box, with the arithmetic and containment tests the widget tree uses.

use vstd::prelude::*;

verus! {

/// A scale factor of exactly one: scale factors are in thousandths.
pub const SCALE_ONE: i64 = 1000;

/// Upper bound on layout option lengths (padding, margin, spacing, fixed
/// sizes, font sizes) accepted by well-formed widgets.
pub const LEN_LIMIT: i64 = 1000000;

/// Upper bound on each component of a scale factor (a thousandfold zoom).
pub const SCALE_LIMIT: i64 = 1000000;

/// An ordered pair of integer scalars: a point, a size, or a per-axis
/// scale factor in thousandths.
#[derive(Debug, Clone, Copy, PartialEq, Eq, Structural)]
pub struct Vector2 {
    pub x: i64,
    pub y: i64,
}

impl Vector2 {
    pub fn new(x: i64, y: i64) -> (r: Self)
        ensures
            r.x == x && r.y == y,
    {
        Self { x, y }
    }

    pub fn from_scalar(scalar: i64) -> (r: Self)
        ensures
            r.x == scalar && r.y == scalar,
    {
        Self { x: scalar, y: scalar }
    }

    /// The origin.
    pub fn zero() -> (r: Self)
        ensures
            r.x == 0 && r.y == 0,
    {
        Self { x: 0, y: 0 }
    }

    /// One whole pixel on each axis.
    pub fn unit() -> (r: Self)
        ensures
            r.x == 1 && r.y == 1,
    {
        Self { x: 1, y: 1 }
    }

    /// The identity scale factor, `SCALE_ONE` on each axis.
    pub fn unit_scale() -> (r: Self)
        ensures
            r.x == SCALE_ONE && r.y == SCALE_ONE,
    {
        Self { x: SCALE_ONE, y: SCALE_ONE }
    }

    /// Componentwise sum.
    pub fn add(self, other: Self) -> (r: Self)
        requires
            i64::MIN <= self.x + other.x <= i64::MAX,
            i64::MIN <= self.y + other.y <= i64::MAX,
        ensures
            r.x == self.x + other.x,
            r.y == self.y + other.y,
    {
        Self { x: self.x + other.x, y: self.y + other.y }
    }

    /// Componentwise difference.
    pub fn sub(self, other: Self) -> (r: Self)
        requires
            i64::MIN <= self.x - other.x <= i64::MAX,
            i64::MIN <= self.y - other.y <= i64::MAX,
        ensures
            r.x == self.x - other.x,
            r.y == self.y - other.y,
    {
        Self { x: self.x - other.x, y: self.y - other.y }
    }

    /// Componentwise product.
    pub fn mul(self, other: Self) -> (r: Self)
        requires
            i64::MIN <= self.x * other.x <= i64::MAX,
            i64::MIN <= self.y * other.y <= i64::MAX,
        ensures
            r.x == self.x * other.x,
            r.y == self.y * other.y,
    {
        Self { x: self.x * other.x, y: self.y * other.y }
    }

    /// Product with a scalar on both axes.
    pub fn mul_scalar(self, other: i64) -> (r: Self)
        requires
            i64::MIN <= self.x * other <= i64::MAX,
            i64::MIN <= self.y * other <= i64::MAX,
        ensures
            r.x == self.x * other,
            r.y == self.y * other,
    {
        Self { x: self.x * other, y: self.y * other }
    }

    /// The length of the vector in whole pixels, rounded down: the
    /// integer square root of the sum of squared components.
    pub fn len(&self) -> (r: i64)
        requires
            self.x * self.x + self.y * self.y <= i64::MAX,
        ensures
            r * r <= self.x * self.x + self.y * self.y < (r + 1) * (r + 1),
            r >= 0,
    {
        proof {
            assert(self.x * self.x >= 0 && self.y * self.y >= 0) by (nonlinear_arith);
        }
        floor_sqrt(self.x * self.x + self.y * self.y)
    }

    /// Componentwise quotient, rounded toward zero.
    pub fn div(self, other: Self) -> (r: Self)
        requires
            other.x != 0 && other.y != 0,
            self.x > i64::MIN && self.y > i64::MIN,
            other.x > i64::MIN && other.y > i64::MIN,
        ensures
            r.x == div_trunc(self.x as int, other.x as int),
            r.y == div_trunc(self.y as int, other.y as int),
    {
        Self { x: div_i64(self.x, other.x), y: div_i64(self.y, other.y) }
    }

    /// Quotient by a scalar on both axes, rounded toward zero.
    pub fn div_scalar(self, other: i64) -> (r: Self)
        requires
            other != 0,
            self.x > i64::MIN && self.y > i64::MIN,
            other > i64::MIN,
        ensures
            r.x == div_trunc(self.x as int, other as int),
            r.y == div_trunc(self.y as int, other as int),
    {
        Self { x: div_i64(self.x, other), y: div_i64(self.y, other) }
    }

    /// Scale a position or size by a per-axis scale factor in thousandths.
    pub fn scale_by(self, s: Self) -> (r: Self)
        requires
            0 <= self.x && 0 <= self.y,
            0 <= s.x && 0 <= s.y,
            self.x * s.x <= i64::MAX,
            self.y * s.y <= i64::MAX,
        ensures
            r.x == scale_len_spec(self.x as int, s.x as int),
            r.y == scale_len_spec(self.y as int, s.y as int),
            0 <= r.x <= self.x * s.x,
            0 <= r.y <= self.y * s.y,
    {
        Self { x: scale_len(self.x, s.x), y: scale_len(self.y, s.y) }
    }
}

impl From<(i64, i64)> for Vector2 {
    /// The vector with the pair's components.
    fn from(pair: (i64, i64)) -> (r: Self) {
        Self { x: pair.0, y: pair.1 }
    }
}

impl vstd::std_specs::convert::FromSpecImpl<(i64, i64)> for Vector2 {
    open spec fn obeys_from_spec() -> bool {
        true
    }

    open spec fn from_spec(pair: (i64, i64)) -> Self {
        Self { x: pair.0, y: pair.1 }
    }
}

impl From<[i64; 2]> for Vector2 {
    /// The vector with the array's components.
    fn from(arr: [i64; 2]) -> (r: Self) {
        Self { x: arr[0], y: arr[1] }
    }
}

impl vstd::std_specs::convert::FromSpecImpl<[i64; 2]> for Vector2 {
    open spec fn obeys_from_spec() -> bool {
        true
    }

    open spec fn from_spec(arr: [i64; 2]) -> Self {
        Self { x: arr[0], y: arr[1] }
    }
}

impl From<i64> for Vector2 {
    /// The vector with the scalar on both axes.
    fn from(scalar: i64) -> (r: Self) {
        Self { x: scalar, y: scalar }
    }
}

impl vstd::std_specs::convert::FromSpecImpl<i64> for Vector2 {
    open spec fn obeys_from_spec() -> bool {
        true
    }

    open spec fn from_spec(scalar: i64) -> Self {
        Self { x: scalar, y: scalar }
    }
}

/// Division rounded toward zero, as the machine division does.
pub open spec fn div_trunc(a: int, b: int) -> int {
    if a >= 0 && b > 0 {
        a / b
    } else if a < 0 && b > 0 {
        -((-a) / b)
    } else if a >= 0 {
        -(a / (-b))
    } else {
        (-a) / (-b)
    }
}

/// Truncating machine division of two scalars.
pub fn div_i64(a: i64, b: i64) -> (r: i64)
    requires
        b != 0,
        a > i64::MIN,
        b > i64::MIN,
    ensures
        r == div_trunc(a as int, b as int),
{
    if a >= 0 && b > 0 {
        a / b
    } else if a < 0 && b > 0 {
        -((-a) / b)
    } else if a >= 0 {
        -(a / (-b))
    } else {
        (-a) / (-b)
    }
}

/// The integer square root: the largest scalar whose square does not
/// exceed the argument.
pub fn floor_sqrt(v: i64) -> (r: i64)
    requires
        v >= 0,
    ensures
        0 <= r,
        r * r <= v < (r + 1) * (r + 1),
{
    proof {
        assert(9223372036854775807int < 3037000500int * 3037000500int) by (nonlinear_arith);
    }
    let mut lo: i64 = 0;
    let mut hi: i64 = 3037000499;
    while lo < hi
        invariant
            0 <= lo <= hi <= 3037000499,
            lo * lo <= v,
            v < (hi + 1) * (hi + 1),
        decreases hi - lo,
    {
        let mid = lo + (hi - lo + 1) / 2;
        proof {
            assert(mid * mid <= 3037000499int * 3037000499int) by (nonlinear_arith)
                requires
                    0 <= mid <= 3037000499,
            ;
            assert(3037000499int * 3037000499int < 9223372036854775807int) by (nonlinear_arith);
        }
        if mid * mid <= v {
            lo = mid;
        } else {
            hi = mid - 1;
        }
    }
    lo
}

/// A length scaled by a factor in thousandths, rounded toward zero.
pub open spec fn scale_len_spec(len: int, s: int) -> int {
    (len * s) / (SCALE_ONE as int)
}

/// Scale a nonnegative whole-pixel length by a nonnegative factor in
/// thousandths.
pub fn scale_len(len: i64, s: i64) -> (r: i64)
    requires
        0 <= len,
        0 <= s,
        len * s <= i64::MAX,
    ensures
        r == scale_len_spec(len as int, s as int),
        0 <= r <= len * s,
{
    proof {
        lemma_scale_len_bounds(len as int, s as int);
    }
    (len * s) / SCALE_ONE
}

/// Bounds of `scale_len_spec` on nonnegative inputs.
pub proof fn lemma_scale_len_bounds(len: int, s: int)
    requires
        0 <= len,
        0 <= s,
    ensures
        0 <= scale_len_spec(len, s) <= len * s,
{
    assert(len * s >= 0) by (nonlinear_arith)
        requires
            0 <= len,
            0 <= s,
    ;
    let p = len * s;
    assert(0 <= p / 1000 <= p) by (nonlinear_arith)
        requires
            p >= 0,
    ;
}

/// The per-axis scale factor, in thousandths, between the window's
/// current size and the nominal design size: the ratio of the two,
/// rounded toward zero.
pub fn compute_scale_factor(window: (u32, u32), nominal: (u32, u32)) -> (s: Vector2)
    requires
        nominal.0 > 0,
        nominal.1 > 0,
    ensures
        s.x == (window.0 * 1000) as int / nominal.0 as int,
        s.y == (window.1 * 1000) as int / nominal.1 as int,
{
    Vector2 {
        x: ((window.0 as i64) * 1000) / (nominal.0 as i64),
        y: ((window.1 as i64) * 1000) / (nominal.1 as i64),
    }
}

/// An axis-aligned rectangle given by two corners in its parent's
/// coordinate space. Well-behaved widgets return boxes with
/// `min.x <= max.x` and `min.y <= max.y`.
#[derive(Debug, Clone, Copy, PartialEq, Eq, Structural)]
pub struct BBox {
    pub min: Vector2,
    pub max: Vector2,
}

/// Whether a point lies in the box, inclusive on all four edges.
pub open spec fn contains_spec(b: BBox, p: Vector2) -> bool {
    b.min.x <= p.x <= b.max.x && b.min.y <= p.y <= b.max.y
}

impl BBox {
    pub fn new(min: Vector2, max: Vector2) -> (r: Self)
        ensures
            r.min == min && r.max == max,
    {
        Self { min, max }
    }

    /// The box with corner `pos` and extents `size`.
    pub fn from_wh(pos: Vector2, size: Vector2) -> (r: Self)
        requires
            i64::MIN <= pos.x + size.x <= i64::MAX,
            i64::MIN <= pos.y + size.y <= i64::MAX,
        ensures
            r.min == pos,
            r.max.x == pos.x + size.x,
            r.max.y == pos.y + size.y,
    {
        Self { min: pos, max: pos.add(size) }
    }

    pub fn width(&self) -> (r: i64)
        requires
            i64::MIN <= self.max.x - self.min.x <= i64::MAX,
        ensures
            r == self.max.x - self.min.x,
    {
        self.max.x - self.min.x
    }

    pub fn height(&self) -> (r: i64)
        requires
            i64::MIN <= self.max.y - self.min.y <= i64::MAX,
        ensures
            r == self.max.y - self.min.y,
    {
        self.max.y - self.min.y
    }

    pub fn size(&self) -> (r: Vector2)
        requires
            i64::MIN <= self.max.x - self.min.x <= i64::MAX,
            i64::MIN <= self.max.y - self.min.y <= i64::MAX,
        ensures
            r.x == self.max.x - self.min.x,
            r.y == self.max.y - self.min.y,
    {
        self.max.sub(self.min)
    }

    /// The midpoint of the box, each coordinate rounded toward zero.
    pub fn center(&self) -> (r: Vector2)
        requires
            i64::MIN < self.min.x + self.max.x <= i64::MAX,
            i64::MIN < self.min.y + self.max.y <= i64::MAX,
        ensures
            r.x == div2_trunc(self.min.x + self.max.x),
            r.y == div2_trunc(self.min.y + self.max.y),
    {
        Vector2 { x: half(self.min.x + self.max.x), y: half(self.min.y + self.max.y) }
    }

    /// Whether `point` lies in the box, inclusive on all four edges.
    pub fn contains(&self, point: Vector2) -> (r: bool)
        ensures
            r == contains_spec(*self, point),
    {
        point.x >= self.min.x && point.x <= self.max.x && point.y >= self.min.y && point.y
            <= self.max.y
    }

    /// The box flattened to `(x, y, width, height)`.
    pub fn to_tuple(&self) -> (r: (i64, i64, i64, i64))
        requires
            i64::MIN <= self.max.x - self.min.x <= i64::MAX,
            i64::MIN <= self.max.y - self.min.y <= i64::MAX,
        ensures
            r.0 == self.min.x,
            r.1 == self.min.y,
            r.2 == self.max.x - self.min.x,
            r.3 == self.max.y - self.min.y,
    {
        (self.min.x, self.min.y, self.max.x - self.min.x, self.max.y - self.min.y)
    }

    /// The box with corner `(t.0, t.1)`, width `t.2` and height `t.3`.
    pub fn from_tuple(t: (i64, i64, i64, i64)) -> (r: Self)
        requires
            i64::MIN <= t.0 + t.2 <= i64::MAX,
            i64::MIN <= t.1 + t.3 <= i64::MAX,
        ensures
            r.min.x == t.0,
            r.min.y == t.1,
            r.max.x == t.0 + t.2,
            r.max.y == t.1 + t.3,
    {
        Self { min: Vector2 { x: t.0, y: t.1 }, max: Vector2 { x: t.0 + t.2, y: t.1 + t.3 } }
    }
}

/// Halving rounded toward zero, as the machine division does.
pub open spec fn div2_trunc(v: int) -> int {
    if v >= 0 {
        v / 2
    } else {
        -((-v) / 2)
    }
}

fn half(v: i64) -> (r: i64)
    requires
        v > i64::MIN,
    ensures
        r == div2_trunc(v as int),
{
    if v >= 0 {
        v / 2
    } else {
        -((-v) / 2)
    }
}

/// Adding a vector and then subtracting it again returns the first
/// operand: `a + b - b == a`, exactly, whenever both operations meet
/// their contracts.
pub proof fn lemma_add_sub_cancel(a: Vector2, b: Vector2, sum: Vector2, back: Vector2)
    requires
        sum.x == a.x + b.x,
        sum.y == a.y + b.y,
        back.x == sum.x - b.x,
        back.y == sum.y - b.y,
    ensures
        back == a,
{
}

/// Rebuilding a box from its corner and its size returns the same box:
/// `BBox::from_wh(b.min, b.size()) == b`.
pub proof fn lemma_from_wh_size_roundtrip(b: BBox, size: Vector2, rebuilt: BBox)
    requires
        size.x == b.max.x - b.min.x,
        size.y == b.max.y - b.min.y,
        rebuilt.min == b.min,
        rebuilt.max.x == b.min.x + size.x,
        rebuilt.max.y == b.min.y + size.y,
    ensures
        rebuilt == b,
{
}

/// Containment is reflexive on the corners of any non-degenerate box:
/// `b.contains(b.min)` and `b.contains(b.max)`.
pub proof fn lemma_contains_corners(b: BBox)
    requires
        b.min.x <= b.max.x,
        b.min.y <= b.max.y,
    ensures
        contains_spec(b, b.min),
        contains_spec(b, b.max),
{
}

/// Flattening a box to `(x, y, width, height)` and rebuilding it is the
/// identity, and so is the converse round trip.
pub proof fn lemma_tuple_roundtrip(b: BBox, t: (i64, i64, i64, i64), rebuilt: BBox)
    requires
        t.0 == b.min.x,
        t.1 == b.min.y,
        t.2 == b.max.x - b.min.x,
        t.3 == b.max.y - b.min.y,
        rebuilt.min.x == t.0,
        rebuilt.min.y == t.1,
        rebuilt.max.x == t.0 + t.2,
        rebuilt.max.y == t.1 + t.3,
    ensures
        rebuilt == b,
        rebuilt.min.x == t.0,
        rebuilt.min.y == t.1,
        rebuilt.max.x - rebuilt.min.x == t.2,
        rebuilt.max.y - rebuilt.min.y == t.3,
{
}

} // verus!
