//! Integer plane geometry: grid points, squared distances, exact radius
//! tests, and fixed-speed motion along a direction.
//!
//! Positions live on a square grid addressed by `i32` coordinates. All
//! intermediate arithmetic is carried out in wider integers, so every
//! function here is total: no input can overflow.

use vstd::prelude::*;
use vstd::arithmetic::div_mod::{lemma_div_is_ordered, lemma_div_multiples_vanish, lemma_div_pos_is_pos};

verus! {

/// A position (or a displacement) on the integer grid.
#[derive(Clone, Copy, Debug, PartialEq, Eq, Structural)]
pub struct Point {
    pub x: i32,
    pub y: i32,
}

/// Squared Euclidean distance between two points.
pub open spec fn dist2(a: Point, b: Point) -> int {
    (a.x - b.x) * (a.x - b.x) + (a.y - b.y) * (a.y - b.y)
}

/// `a` lies within `radius` of `b`, the boundary included.
pub open spec fn within(a: Point, b: Point, radius: int) -> bool {
    dist2(a, b) <= radius * radius
}

/// The square of a coordinate difference fits comfortably in 128 bits.
proof fn lemma_square_bound(d: int)
    by (nonlinear_arith)
    requires
        -0x1_0000_0000 < d < 0x1_0000_0000,
    ensures
        0 <= d * d <= 0xffff_ffff * 0xffff_ffff,
{
}

/// Computes the squared Euclidean distance between two points.
pub fn squared_distance(a: Point, b: Point) -> (d: u128)
    ensures
        d == dist2(a, b),
        d <= 2 * (0xffff_ffff * 0xffff_ffff),
{
    let dx: i128 = a.x as i128 - b.x as i128;
    let dy: i128 = a.y as i128 - b.y as i128;
    proof {
        lemma_square_bound(dx as int);
        lemma_square_bound(dy as int);
    }
    (dx * dx + dy * dy) as u128
}

/// Decides whether `a` lies within `radius` of `b`, the boundary included.
pub fn in_radius(a: Point, b: Point, radius: u32) -> (inside: bool)
    ensures
        inside == within(a, b, radius as int),
{
    let r: u128 = radius as u128;
    assert(0 <= r * r <= 0xffff_ffff * 0xffff_ffff) by (nonlinear_arith)
        requires
            0 <= r <= 0xffff_ffff,
    ;
    squared_distance(a, b) <= r * r
}

/// `r` is the integer square root of `n`, rounded down.
pub open spec fn is_floor_sqrt(n: int, r: int) -> bool {
    0 <= r && r * r <= n && n < (r + 1) * (r + 1)
}

/// The integer square root of `n`, rounded down.
pub open spec fn floor_sqrt(n: int) -> int {
    choose|r: int| is_floor_sqrt(n, r)
}

/// A number has at most one rounded-down square root.
pub proof fn lemma_floor_sqrt_unique(n: int, a: int, b: int)
    by (nonlinear_arith)
    requires
        is_floor_sqrt(n, a),
        is_floor_sqrt(n, b),
    ensures
        a == b,
{
    if a < b {
        assert((a + 1) * (a + 1) <= b * b);
    } else if b < a {
        assert((b + 1) * (b + 1) <= a * a);
    }
}

/// Squaring preserves the order of non-negative numbers.
proof fn lemma_square_monotone(a: int, b: int)
    by (nonlinear_arith)
    requires
        0 <= a <= b,
    ensures
        a * a <= b * b,
{
}

/// Computes the integer square root of `n`, rounded down.
pub fn isqrt(n: u128) -> (r: u64)
    ensures
        is_floor_sqrt(n as int, r as int),
        r == floor_sqrt(n as int),
{
    let mut lo: u128 = 0;
    let mut hi: u128 = 0x1_0000_0000_0000_0000;
    assert(hi * hi == 0x1_0000_0000_0000_0000_0000_0000_0000_0000) by (nonlinear_arith)
        requires
            hi == 0x1_0000_0000_0000_0000,
    ;
    while hi - lo > 1
        invariant
            lo < hi <= 0x1_0000_0000_0000_0000,
            lo * lo <= n < hi * hi,
        decreases hi - lo,
    {
        let mid: u128 = lo + (hi - lo) / 2;
        proof {
            lemma_square_monotone(mid as int, 0xffff_ffff_ffff_ffff);
        }
        if mid * mid <= n {
            lo = mid;
        } else {
            hi = mid;
        }
    }
    proof {
        assert(is_floor_sqrt(n as int, lo as int));
        lemma_floor_sqrt_unique(n as int, lo as int, floor_sqrt(n as int));
    }
    lo as u64
}

/// Directions are normalised at this many times their own resolution, so
/// that even the shortest direction is scaled to the speed accurately.
pub const FINE: u64 = 0x4000_0000;

/// The length of the vector `(dx, dy)` in units of `1 / FINE`, rounded down.
pub open spec fn fine_length(dx: int, dy: int) -> int {
    floor_sqrt((dx * dx + dy * dy) * (FINE * FINE))
}

/// One axis of a step of length `speed` along a direction whose length, in
/// units of `1 / FINE`, is `len`: the component `d` scaled by the speed
/// over the length, rounded toward zero.
pub open spec fn stride(d: int, len: int, speed: int) -> int {
    if d >= 0 {
        (d * FINE * speed) / len
    } else {
        -(((-d) * FINE * speed) / len)
    }
}

/// The nearest representable coordinate to `v`.
pub open spec fn clamp_coord(v: int) -> int {
    if v < i32::MIN {
        i32::MIN as int
    } else if v > i32::MAX {
        i32::MAX as int
    } else {
        v
    }
}

/// The position reached from `pos` by one step of length `speed` in the
/// direction `(dx, dy)`. A zero direction yields no displacement; a step that
/// would leave the grid stops at its edge.
pub open spec fn advance_spec(pos: Point, dx: int, dy: int, speed: int) -> Point {
    if dx == 0 && dy == 0 {
        pos
    } else {
        let len = fine_length(dx, dy);
        Point {
            x: clamp_coord(pos.x + stride(dx, len, speed)) as i32,
            y: clamp_coord(pos.y + stride(dy, len, speed)) as i32,
        }
    }
}

/// The position reached from `pos` by one step of length `speed` toward
/// `target`.
pub open spec fn step_toward_spec(pos: Point, target: Point, speed: int) -> Point {
    advance_spec(pos, target.x - pos.x, target.y - pos.y, speed)
}

/// A component of a non-zero vector, taken at fine resolution, is no longer
/// than the vector's rounded-down fine length, and that length is positive.
proof fn lemma_component_le_length(d: int, n: int, len: int)
    by (nonlinear_arith)
    requires
        0 <= d,
        1 <= n,
        d * d <= n,
        is_floor_sqrt(n * (FINE * FINE), len),
    ensures
        len >= 1,
        d * FINE <= len,
{
    assert(n * (FINE * FINE) >= 1);
    assert((d * FINE) * (d * FINE) == (d * d) * (FINE * FINE));
    assert((d * d) * (FINE * FINE) <= n * (FINE * FINE));
    if d * FINE > len {
        assert((d * FINE) * (d * FINE) >= (len + 1) * (len + 1));
    }
}

/// The magnitude of a coordinate difference.
fn magnitude(d: i64) -> (m: u128)
    requires
        -0x1_0000_0000 < d < 0x1_0000_0000,
    ensures
        m == if d >= 0 { d as int } else { -(d as int) },
        m < 0x1_0000_0000,
        m * m == d * d,
{
    let m: u128 = if d >= 0 {
        d as u128
    } else {
        (-d) as u128
    };
    assert(m * m == d * d) by (nonlinear_arith)
        requires
            m == d || m == -d,
    ;
    m
}

/// Computes one axis of a step: `mag * FINE * speed / len`, which does not
/// exceed the speed.
fn stride_of(mag: u128, len: u64, speed: u32) -> (s: i64)
    requires
        len >= 1,
        mag < 0x1_0000_0000,
        mag * FINE <= len,
    ensures
        s == (mag * FINE * speed) / (len as int),
        0 <= s <= speed,
{
    let fine: u128 = mag * (FINE as u128);
    proof {
        assert(fine * speed <= len * speed) by (nonlinear_arith)
            requires
                0 <= fine <= len,
                0 <= speed,
        ;
        assert(0 <= fine * speed) by (nonlinear_arith)
            requires
                0 <= fine,
                0 <= speed,
        ;
        assert(len * speed <= 0xffff_ffff_ffff_ffff * 0xffff_ffff) by (nonlinear_arith)
            requires
                0 <= len <= 0xffff_ffff_ffff_ffff,
                0 <= speed <= 0xffff_ffff,
        ;
        lemma_div_is_ordered((fine * speed) as int, (len * speed) as int, len as int);
        lemma_div_multiples_vanish(speed as int, len as int);
        assert(len * speed == speed * len) by (nonlinear_arith);
        lemma_div_pos_is_pos((fine * speed) as int, len as int);
    }
    let q: u128 = (fine * (speed as u128)) / (len as u128);
    q as i64
}

/// Adds a bounded step to a coordinate, stopping at the edge of the grid.
fn shift_coord(c: i32, s: i64) -> (r: i32)
    requires
        -0x1_0000_0000 <= s <= 0x1_0000_0000,
    ensures
        r == clamp_coord(c + s),
{
    let v: i64 = c as i64 + s;
    if v < i32::MIN as i64 {
        i32::MIN
    } else if v > i32::MAX as i64 {
        i32::MAX
    } else {
        v as i32
    }
}

/// Moves `pos` by one step of length `speed` along `(dx, dy)`.
fn advance_by(pos: Point, dx: i64, dy: i64, speed: u32) -> (p: Point)
    requires
        -0x1_0000_0000 < dx < 0x1_0000_0000,
        -0x1_0000_0000 < dy < 0x1_0000_0000,
    ensures
        p == advance_spec(pos, dx as int, dy as int, speed as int),
{
    if dx == 0 && dy == 0 {
        return pos;
    }
    let mx: u128 = magnitude(dx);
    let my: u128 = magnitude(dy);
    proof {
        lemma_square_bound(mx as int);
        lemma_square_bound(my as int);
    }
    let n: u128 = mx * mx + my * my;
    assert(n >= 1) by (nonlinear_arith)
        requires
            n == mx * mx + my * my,
            mx != 0 || my != 0,
    ;
    assert(n * (FINE * FINE) <= 2 * (0xffff_ffff * 0xffff_ffff) * (FINE * FINE)) by (nonlinear_arith)
        requires
            n <= 2 * (0xffff_ffff * 0xffff_ffff),
    ;
    let len: u64 = isqrt(n * ((FINE as u128) * (FINE as u128)));
    proof {
        assert(mx * mx <= n && my * my <= n) by (nonlinear_arith)
            requires
                n == mx * mx + my * my,
        ;
        lemma_component_le_length(mx as int, n as int, len as int);
        lemma_component_le_length(my as int, n as int, len as int);
        assert(len == fine_length(dx as int, dy as int));
    }
    let ax: i64 = stride_of(mx, len, speed);
    let ay: i64 = stride_of(my, len, speed);
    let sx: i64 = if dx >= 0 { ax } else { -ax };
    let sy: i64 = if dy >= 0 { ay } else { -ay };
    Point { x: shift_coord(pos.x, sx), y: shift_coord(pos.y, sy) }
}

/// The position `offset` away from `center`, or the nearest position on the
/// grid if that one lies off it.
pub open spec fn displace_spec(center: Point, offset: Point) -> Point {
    Point {
        x: clamp_coord(center.x + offset.x) as i32,
        y: clamp_coord(center.y + offset.y) as i32,
    }
}

/// Computes the position `offset` away from `center`, stopping at the edge
/// of the grid.
pub fn displace(center: Point, offset: Point) -> (p: Point)
    ensures
        p == displace_spec(center, offset),
{
    Point { x: shift_coord(center.x, offset.x as i64), y: shift_coord(center.y, offset.y as i64) }
}

/// Moves `pos` by one step of length `speed` in the direction `dir`.
///
/// The direction is normalised with integer arithmetic: each component is
/// scaled by the speed over the length of `dir`, rounded toward zero. A zero
/// direction leaves `pos` where it is, and a step that would leave the grid
/// stops at its edge.
pub fn advance(pos: Point, dir: Point, speed: u32) -> (p: Point)
    ensures
        p == advance_spec(pos, dir.x as int, dir.y as int, speed as int),
{
    advance_by(pos, dir.x as i64, dir.y as i64, speed)
}

/// Moves `pos` by one step of length `speed` toward `target`. A point that
/// is already at its target stays there.
pub fn step_toward(pos: Point, target: Point, speed: u32) -> (p: Point)
    ensures
        p == step_toward_spec(pos, target, speed as int),
        pos == target ==> p == pos,
{
    advance_by(pos, target.x as i64 - pos.x as i64, target.y as i64 - pos.y as i64, speed)
}

} // verus!
