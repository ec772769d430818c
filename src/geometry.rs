//! Fixed-point geometry on the ground plane.
//!
//! Positions are whole numbers of thousandths of a world unit, so a distance
//! of `1.5` units is written `1500`. Velocities are thousandths of a unit per
//! second. Square roots round down.
use vstd::arithmetic::div_mod::{lemma_div_by_multiple, lemma_div_is_ordered, lemma_small_div_converse};
use vstd::arithmetic::mul::lemma_mul_inequality;
use vstd::prelude::*;

verus! {

/// One world unit in the fixed-point scale.
pub const UNIT: u32 = 1000;

/// A point on the ground plane: `x` and `y` here are the world's `x` and
/// `z` axes.
#[derive(Clone, Copy, Debug, PartialEq, Eq, Structural)]
pub struct Point2 {
    pub x: i32,
    pub y: i32,
}

/// A horizontal vector: a velocity, a force or a direction.
#[derive(Clone, Copy, Debug, PartialEq, Eq, Structural)]
pub struct Vec2 {
    pub x: i64,
    pub y: i64,
}

/// A vector in space; `y` is the vertical axis.
#[derive(Clone, Copy, Debug, PartialEq, Eq, Structural)]
pub struct Vec3 {
    pub x: i64,
    pub y: i64,
    pub z: i64,
}

impl Vec2 {
    pub open spec fn is_zero(self) -> bool {
        self.x == 0 && self.y == 0
    }

    /// The zero vector.
    pub fn zero() -> (r: Vec2)
        ensures
            r.is_zero(),
    {
        Vec2 { x: 0, y: 0 }
    }
}

/// A horizontal vector placed in space at height zero.
pub open spec fn flat(v: Vec2) -> Vec3 {
    Vec3 { x: v.x, y: 0, z: v.y }
}

/// A horizontal vector placed in space at height zero.
pub fn vec2_vec3(v: Vec2) -> (r: Vec3)
    ensures
        r == flat(v),
{
    Vec3 { x: v.x, y: 0, z: v.y }
}

/// A value brought into the range of `i32`.
pub open spec fn clamp_i32(v: int) -> i32 {
    if v < i32::MIN {
        i32::MIN
    } else if v > i32::MAX {
        i32::MAX
    } else {
        v as i32
    }
}

/// `p` moved by `v`, each coordinate kept within the range of `i32`.
pub open spec fn offset(p: Point2, v: Vec2) -> Point2 {
    Point2 { x: clamp_i32(p.x + v.x), y: clamp_i32(p.y + v.y) }
}

/// `p` moved by `v`, each coordinate kept within the range of `i32`.
pub fn offset_point(p: Point2, v: Vec2) -> (r: Point2)
    ensures
        r == offset(p, v),
{
    Point2 { x: clamp_coordinate(p.x as i128 + v.x as i128), y: clamp_coordinate(p.y as i128 + v.y as i128) }
}

fn clamp_coordinate(v: i128) -> (r: i32)
    ensures
        r == clamp_i32(v as int),
{
    if v < i32::MIN as i128 {
        i32::MIN
    } else if v > i32::MAX as i128 {
        i32::MAX
    } else {
        v as i32
    }
}

/// The squared distance between two points.
pub open spec fn dist_sq(a: Point2, b: Point2) -> int {
    (a.x - b.x) * (a.x - b.x) + (a.y - b.y) * (a.y - b.y)
}

/// `a` lies strictly closer than `r` to `b`.
pub open spec fn closer_than(a: Point2, b: Point2, r: int) -> bool {
    dist_sq(a, b) < r * r
}

/// `r` is the square root of `n`, rounded down.
pub open spec fn is_floor_sqrt(n: int, r: int) -> bool {
    0 <= r && r * r <= n && n < (r + 1) * (r + 1)
}

/// The square root of `n`, rounded down.
pub open spec fn floor_sqrt(n: nat) -> nat {
    choose|r: nat| is_floor_sqrt(n as int, r as int)
}

/// Division that rounds toward zero, by a positive divisor.
pub open spec fn div_toward_zero(a: int, b: int) -> int {
    if a >= 0 {
        a / b
    } else {
        -((-a) / b)
    }
}

/// The vector `(dx, dy)` brought to length `len`, each coordinate rounded
/// toward zero; the zero vector stays zero.
pub open spec fn scaled(dx: int, dy: int, len: int) -> Vec2 {
    let m = floor_sqrt((dx * dx + dy * dy) as nat) as int;
    if dx == 0 && dy == 0 {
        Vec2 { x: 0, y: 0 }
    } else {
        Vec2 { x: div_toward_zero(dx * len, m) as i64, y: div_toward_zero(dy * len, m) as i64 }
    }
}

/// The direction from `from` to `to`, brought to length `len`.
pub open spec fn toward(from: Point2, to: Point2, len: int) -> Vec2 {
    scaled(to.x - from.x, to.y - from.y, len)
}

/// A floor square root is unique.
pub proof fn lemma_floor_sqrt_unique(n: int, r1: int, r2: int)
    requires
        is_floor_sqrt(n, r1),
        is_floor_sqrt(n, r2),
    ensures
        r1 == r2,
{
    if r1 < r2 {
        lemma_mul_inequality(r1 + 1, r2, r1 + 1);
        lemma_mul_inequality(r1 + 1, r2, r2);
    } else if r2 < r1 {
        lemma_mul_inequality(r2 + 1, r1, r2 + 1);
        lemma_mul_inequality(r2 + 1, r1, r1);
    }
}

/// Whatever satisfies the floor-square-root property is `floor_sqrt`.
pub proof fn lemma_floor_sqrt_is(n: nat, r: nat)
    requires
        is_floor_sqrt(n as int, r as int),
    ensures
        floor_sqrt(n) == r,
{
    assert(exists|q: nat| is_floor_sqrt(n as int, q as int));
    let q = floor_sqrt(n);
    lemma_floor_sqrt_unique(n as int, q as int, r as int);
}

/// A coordinate of a vector is no longer than the floor of its length.
proof fn lemma_coordinate_below_sqrt(a: int, b: int, m: int)
    requires
        is_floor_sqrt(a * a + b * b, m),
    ensures
        -m <= a <= m,
{
    assert(b * b >= 0) by (nonlinear_arith);
    let c = if a >= 0 { a } else { -a };
    assert(c * c == a * a) by (nonlinear_arith)
        requires
            c == a || c == -a,
    ;
    if c > m {
        lemma_mul_inequality(m + 1, c, m + 1);
        lemma_mul_inequality(m + 1, c, c);
    }
}

/// The squared distance between two points, computed exactly.
pub fn distance_squared(a: Point2, b: Point2) -> (r: u128)
    ensures
        r == dist_sq(a, b),
{
    let dx: i64 = a.x as i64 - b.x as i64;
    let dy: i64 = a.y as i64 - b.y as i64;
    let ux: u128 = if dx >= 0 { dx as u128 } else { (-dx) as u128 };
    let uy: u128 = if dy >= 0 { dy as u128 } else { (-dy) as u128 };
    assert(ux * ux == dx * dx) by (nonlinear_arith)
        requires
            ux == dx || ux == -dx,
    ;
    assert(uy * uy == dy * dy) by (nonlinear_arith)
        requires
            uy == dy || uy == -dy,
    ;
    assert(ux * ux <= 0x1_0000_0000 * 0x1_0000_0000) by (nonlinear_arith)
        requires
            ux <= 0x1_0000_0000,
    ;
    assert(uy * uy <= 0x1_0000_0000 * 0x1_0000_0000) by (nonlinear_arith)
        requires
            uy <= 0x1_0000_0000,
    ;
    ux * ux + uy * uy
}

/// `a` lies strictly closer than `r` to `b`.
pub fn is_closer_than(a: Point2, b: Point2, r: u32) -> (res: bool)
    ensures
        res == closer_than(a, b, r as int),
{
    let d = distance_squared(a, b);
    assert(r * r <= 0xffff_ffff * 0xffff_ffff) by (nonlinear_arith)
        requires
            r <= 0xffff_ffff,
    ;
    let rr: u128 = r as u128 * r as u128;
    d < rr
}

/// The direction from `from` to `to`, brought to length `len`.
pub fn direction_to(from: Point2, to: Point2, len: u32) -> (r: Vec2)
    ensures
        r == toward(from, to, len as int),
        -len <= r.x <= len,
        -len <= r.y <= len,
        from == to || len == 0 ==> r.is_zero(),
        from != to && len >= 2 ==> !r.is_zero(),
{
    scale_to_length(to.x as i64 - from.x as i64, to.y as i64 - from.y as i64, len)
}

/// The square root of `n`, rounded down.
pub fn floor_sqrt_u128(n: u128) -> (r: u128)
    requires
        n < 0x4_0000_0000_0000_0000_0000,
    ensures
        r as nat == floor_sqrt(n as nat),
        is_floor_sqrt(n as int, r as int),
        r <= 0x200_0000_0000,
{
    let mut lo: u128 = 0;
    let mut hi: u128 = 0x200_0000_0000;
    assert(hi * hi == 0x4_0000_0000_0000_0000_0000) by (nonlinear_arith)
        requires
            hi == 0x200_0000_0000,
    ;
    while hi - lo > 1
        invariant
            lo < hi <= 0x200_0000_0000,
            lo * lo <= n,
            n < hi * hi,
        decreases hi - lo,
    {
        let mid: u128 = lo + (hi - lo) / 2;
        assert(mid * mid <= 0x200_0000_0000 * 0x200_0000_0000) by (nonlinear_arith)
            requires
                mid <= 0x200_0000_0000,
        ;
        if mid * mid <= n {
            lo = mid;
        } else {
            hi = mid;
        }
    }
    proof {
        lemma_floor_sqrt_is(n as nat, lo as nat);
    }
    lo
}

/// `a * len / m`, rounded toward zero, where `-m <= a <= m`.
fn scale_coordinate(a: i64, len: u32, m: u128) -> (r: i64)
    requires
        0 < m <= 0x200_0000_0000,
        -m <= a <= m,
    ensures
        r == div_toward_zero(a * len, m as int),
        -len <= r <= len,
{
    let mag: u128 = if a >= 0 { a as u128 } else { (-(a as i128)) as u128 };
    assert(mag * len <= m * len) by {
        lemma_mul_inequality(mag as int, m as int, len as int);
    }
    assert(m * len <= 0x1_0000_0000_0000_0000_0000_0000) by (nonlinear_arith)
        requires
            m <= 0x200_0000_0000,
            len <= 0xffff_ffff,
    ;
    let q: u128 = mag * (len as u128) / m;
    assert(q <= len) by {
        lemma_div_is_ordered(mag * len, m * len, m as int);
        lemma_div_by_multiple(len as int, m as int);
        assert(m * len == len * m) by (nonlinear_arith);
    }
    if a >= 0 {
        assert(a * len >= 0) by (nonlinear_arith)
            requires
                a >= 0,
        ;
        q as i64
    } else {
        assert(-(a * len) == mag * len) by (nonlinear_arith)
            requires
                mag == -a,
        ;
        if len == 0 {
            assert(a * len == 0);
        } else {
            assert(a * len < 0) by (nonlinear_arith)
                requires
                    a < 0,
                    len > 0,
            ;
        }
        -(q as i64)
    }
}

/// The vector `(dx, dy)` brought to length `len` (see `scaled`).
pub fn scale_to_length(dx: i64, dy: i64, len: u32) -> (r: Vec2)
    requires
        -0x100_0000_0000 <= dx <= 0x100_0000_0000,
        -0x100_0000_0000 <= dy <= 0x100_0000_0000,
    ensures
        r == scaled(dx as int, dy as int, len as int),
        -len <= r.x <= len,
        -len <= r.y <= len,
        (dx == 0 && dy == 0) || len == 0 ==> r.is_zero(),
        !(dx == 0 && dy == 0) && len >= 2 ==> !r.is_zero(),
{
    if dx == 0 && dy == 0 {
        return Vec2::zero();
    }
    let ux: u128 = if dx >= 0 { dx as u128 } else { (-dx) as u128 };
    let uy: u128 = if dy >= 0 { dy as u128 } else { (-dy) as u128 };
    assert(ux * ux == dx * dx) by (nonlinear_arith)
        requires
            ux == dx || ux == -dx,
    ;
    assert(uy * uy == dy * dy) by (nonlinear_arith)
        requires
            uy == dy || uy == -dy,
    ;
    assert(ux * ux <= 0x100_0000_0000 * 0x100_0000_0000) by (nonlinear_arith)
        requires
            ux <= 0x100_0000_0000,
    ;
    assert(uy * uy <= 0x100_0000_0000 * 0x100_0000_0000) by (nonlinear_arith)
        requires
            uy <= 0x100_0000_0000,
    ;
    let n: u128 = ux * ux + uy * uy;
    let m = floor_sqrt_u128(n);
    proof {
        lemma_coordinate_below_sqrt(dx as int, dy as int, m as int);
        lemma_coordinate_below_sqrt(dy as int, dx as int, m as int);
        assert(n >= 1) by (nonlinear_arith)
            requires
                n == dx * dx + dy * dy,
                dx != 0 || dy != 0,
        ;
        assert(m > 0) by (nonlinear_arith)
            requires
                n < (m + 1) * (m + 1),
                n >= 1,
                m >= 0,
        ;
    }
    let x = scale_coordinate(dx, len, m);
    let y = scale_coordinate(dy, len, m);
    proof {
        if len >= 2 && x == 0 && y == 0 {
            lemma_scaled_nonzero(dx as int, dy as int, len as int, m as int);
        }
    }
    Vec2 { x, y }
}

/// A nonzero vector keeps a nonzero coordinate when brought to a length of
/// at least two.
proof fn lemma_scaled_nonzero(dx: int, dy: int, len: int, m: int)
    requires
        len >= 2,
        m > 0,
        is_floor_sqrt(dx * dx + dy * dy, m),
        dx != 0 || dy != 0,
    ensures
        div_toward_zero(dx * len, m) != 0 || div_toward_zero(dy * len, m) != 0,
{
    if div_toward_zero(dx * len, m) != 0 || div_toward_zero(dy * len, m) != 0 {
        return;
    }
    let ax = if dx >= 0 { dx } else { -dx };
    let ay = if dy >= 0 { dy } else { -dy };
    lemma_quotient_zero(dx, len, m);
    lemma_quotient_zero(dy, len, m);
    assert(ax * ax == dx * dx && ay * ay == dy * dy) by (nonlinear_arith)
        requires
            ax == dx || ax == -dx,
            ay == dy || ay == -dy,
    ;
    let big = if ax >= ay { ax } else { ay };
    assert(dx * dx + dy * dy <= 2 * big * big) by (nonlinear_arith)
        requires
            ax * ax == dx * dx,
            ay * ay == dy * dy,
            big == ax || big == ay,
            big >= ax,
            big >= ay,
            ax >= 0,
            ay >= 0,
    ;
    assert(big * len < m);
    assert(false) by (nonlinear_arith)
        requires
            big * len < m,
            big >= 1,
            len >= 2,
            m * m <= dx * dx + dy * dy,
            dx * dx + dy * dy <= 2 * big * big,
    ;
}

/// A product whose quotient rounds to zero is smaller than the divisor.
proof fn lemma_quotient_zero(d: int, len: int, m: int)
    requires
        len > 0,
        m > 0,
        div_toward_zero(d * len, m) == 0,
    ensures
        (if d >= 0 { d } else { -d }) * len < m,
{
    let a = if d >= 0 { d } else { -d };
    assert(a * len >= 0 && (a * len == d * len || a * len == -(d * len))) by (nonlinear_arith)
        requires
            a == d || a == -d,
            a >= 0,
            len > 0,
    ;
    if d * len >= 0 {
        assert((d * len) / m == 0);
        lemma_small_div_converse(d * len, m);
        assert(d >= 0) by (nonlinear_arith)
            requires
                d * len >= 0,
                len > 0,
        ;
    } else {
        assert((-(d * len)) / m == 0);
        lemma_small_div_converse(-(d * len), m);
        assert(a * len == -(d * len)) by (nonlinear_arith)
            requires
                a == d || a == -d,
                a >= 0,
                d * len < 0,
                len > 0,
        ;
    }
}

} // verus!
