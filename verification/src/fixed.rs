//! Fixed-point arithmetic shared by every subsystem.
//!
//! Lengths are thousandths of a pixel, velocities thousandths of a pixel per
//! second, and ratios millionths. Divisions round toward zero, so that a
//! quantity and its mirror image are treated alike.

use vstd::prelude::*;

verus! {

/// Millionths per whole unit: ratios, microseconds and microradians.
pub const MICRO: i64 = 1_000_000;

/// Largest magnitude a coordinate may take; motion saturates here.
pub const COORD_LIMIT: i64 = 1_000_000_000_000;

/// Largest magnitude a velocity component may take, per second.
pub const SPEED_LIMIT: i64 = 1_000_000_000;

/// A pair of fixed-point components: a position, a velocity or a direction.
#[derive(Clone, Copy, Debug, PartialEq, Eq, Structural)]
pub struct Vec2 {
    pub x: i64,
    pub y: i64,
}

impl Vec2 {
    /// Both components lie within the magnitude `limit`.
    pub open spec fn within(self, limit: int) -> bool {
        abs(self.x as int) <= limit && abs(self.y as int) <= limit
    }

    /// Squared Euclidean length.
    pub open spec fn norm_sq(self) -> int {
        self.x * self.x + self.y * self.y
    }

    /// Tests whether both components lie within the magnitude `limit`.
    pub fn is_within(&self, limit: i64) -> (ok: bool)
        requires
            limit >= 0,
        ensures
            ok == self.within(limit as int),
    {
        -limit <= self.x && self.x <= limit && -limit <= self.y && self.y <= limit
    }

    /// The origin.
    pub fn zero() -> (v: Vec2)
        ensures
            v == (Vec2 { x: 0, y: 0 }),
    {
        Vec2 { x: 0, y: 0 }
    }

    /// Builds a vector from its components.
    pub fn new(x: i64, y: i64) -> (v: Vec2)
        ensures
            v == (Vec2 { x, y }),
    {
        Vec2 { x, y }
    }
}

/// Quotient rounded toward zero, for a positive divisor.
pub open spec fn div_trunc(n: int, d: int) -> int
    recommends
        d > 0,
{
    if n >= 0 {
        n / d
    } else {
        -((-n) / d)
    }
}

/// `x` confined to the closed interval from `lo` to `hi`.
pub open spec fn clamp(x: int, lo: int, hi: int) -> int
    recommends
        lo <= hi,
{
    if x < lo {
        lo
    } else if x > hi {
        hi
    } else {
        x
    }
}

/// `x` confined to the magnitude `limit`.
pub open spec fn clamp_abs(x: int, limit: int) -> int
    recommends
        limit >= 0,
{
    clamp(x, -limit, limit)
}

/// Absolute value.
pub open spec fn abs(x: int) -> int {
    if x < 0 {
        -x
    } else {
        x
    }
}

/// Truncating division of a wide intermediate by a positive divisor.
pub fn div_trunc_wide(n: i128, d: i128) -> (q: i128)
    requires
        d > 0,
        n > i128::MIN,
    ensures
        q == div_trunc(n as int, d as int),
        abs(q as int) <= abs(n as int),
{
    if n >= 0 {
        let q: i128 = n / d;
        proof {
            vstd::arithmetic::div_mod::lemma_div_is_ordered_by_denominator(n as int, 1, d as int);
            vstd::arithmetic::div_mod::lemma_div_basics(n as int);
        }
        q
    } else {
        let m: i128 = -n;
        let q: i128 = m / d;
        proof {
            vstd::arithmetic::div_mod::lemma_div_is_ordered_by_denominator(m as int, 1, d as int);
            vstd::arithmetic::div_mod::lemma_div_basics(m as int);
            vstd::arithmetic::div_mod::lemma_div_pos_is_pos(m as int, d as int);
        }
        -q
    }
}

/// Confines a wide intermediate to the magnitude `limit`.
pub fn clamp_abs_wide(x: i128, limit: i64) -> (r: i64)
    requires
        limit >= 0,
    ensures
        r == clamp_abs(x as int, limit as int),
{
    if x < -(limit as i128) {
        -limit
    } else if x > limit as i128 {
        limit
    } else {
        x as i64
    }
}

/// Product of two machine integers divided by a positive divisor, rounded
/// toward zero.
pub fn mul_div(a: i64, b: i64, d: i64) -> (q: i128)
    requires
        d > 0,
    ensures
        q == div_trunc(a * b, d as int),
        abs(q as int) <= abs(a * b),
{
    proof {
        lemma_product_bound(a as int, b as int, 0x8000_0000_0000_0000, 0x8000_0000_0000_0000);
    }
    let wide: i128 = (a as i128) * (b as i128);
    div_trunc_wide(wide, d as i128)
}

/// The magnitude of a product is bounded by the product of the bounds.
pub proof fn lemma_product_bound(a: int, b: int, la: int, lb: int)
    requires
        abs(a) <= la,
        abs(b) <= lb,
    ensures
        abs(a * b) <= la * lb,
        -(la * lb) <= a * b <= la * lb,
{
    assert(abs(a * b) == abs(a) * abs(b)) by (nonlinear_arith);
    assert(abs(a) * abs(b) <= la * lb) by (nonlinear_arith)
        requires
            0 <= abs(a) <= la,
            0 <= abs(b) <= lb,
    ;
}

/// Truncating division never increases a magnitude and keeps the sign.
pub proof fn lemma_div_trunc_bounds(n: int, d: int)
    requires
        d > 0,
    ensures
        abs(div_trunc(n, d)) <= abs(n),
        n >= 0 ==> div_trunc(n, d) >= 0,
        n <= 0 ==> div_trunc(n, d) <= 0,
        abs(div_trunc(n, d)) * d <= abs(n),
        div_trunc(-n, d) == -div_trunc(n, d),
{
    let m = abs(n);
    vstd::arithmetic::div_mod::lemma_div_pos_is_pos(m, d);
    vstd::arithmetic::div_mod::lemma_div_is_ordered_by_denominator(m, 1, d);
    vstd::arithmetic::div_mod::lemma_div_basics(m);
    vstd::arithmetic::div_mod::lemma_fundamental_div_mod(m, d);
    vstd::arithmetic::div_mod::lemma_mod_bound(m, d);
    assert((m / d) * d == d * (m / d)) by (nonlinear_arith);
}

/// `r` is the integer part of the square root of `n`.
pub open spec fn is_floor_sqrt(n: int, r: int) -> bool {
    r >= 0 && r * r <= n && n < (r + 1) * (r + 1)
}

/// Integer part of the square root of a natural number.
pub open spec fn floor_sqrt(n: int) -> int
    recommends
        n >= 0,
{
    choose|r: int| is_floor_sqrt(n, r)
}

/// Least integer whose square reaches `n`.
pub open spec fn ceil_sqrt(n: int) -> int
    recommends
        n >= 0,
{
    let r = floor_sqrt(n);
    if r * r == n {
        r
    } else {
        r + 1
    }
}

/// Every natural number has a floor square root.
pub proof fn lemma_floor_sqrt_exists(n: int)
    requires
        n >= 0,
    ensures
        is_floor_sqrt(n, floor_sqrt(n)),
    decreases n,
{
    if n == 0 {
        assert(is_floor_sqrt(0, 0));
    } else {
        lemma_floor_sqrt_exists(n - 1);
        let p = floor_sqrt(n - 1);
        let q = p + 1;
        if q * q <= n {
            assert((q + 1) * (q + 1) > n) by (nonlinear_arith)
                requires
                    n - 1 < q * q,
                    q >= 1,
            ;
            assert(is_floor_sqrt(n, q));
        } else {
            assert(p * p <= n);
            assert(n < (p + 1) * (p + 1));
            assert(is_floor_sqrt(n, p));
        }
    }
}

/// At most one integer is the floor square root of `n`.
pub proof fn lemma_floor_sqrt_unique(n: int, r: int)
    requires
        is_floor_sqrt(n, r),
    ensures
        floor_sqrt(n) == r,
{
    let c = floor_sqrt(n);
    assert(is_floor_sqrt(n, c));
    if c < r {
        assert((c + 1) * (c + 1) <= r * r) by (nonlinear_arith)
            requires
                0 <= c + 1 <= r,
        ;
    } else if r < c {
        assert((r + 1) * (r + 1) <= c * c) by (nonlinear_arith)
            requires
                0 <= r + 1 <= c,
        ;
    }
}

/// Integer part of the square root, by bisection.
pub fn isqrt(n: u128) -> (r: u64)
    ensures
        r == floor_sqrt(n as int),
        is_floor_sqrt(n as int, r as int),
{
    let mut lo: u128 = 0;
    let mut hi: u128 = 0x1_0000_0000_0000_0000;
    assert(hi * hi > n) by (nonlinear_arith)
        requires
            hi == 0x1_0000_0000_0000_0000,
            n <= u128::MAX,
    ;
    while hi - lo > 1
        invariant
            lo < hi <= 0x1_0000_0000_0000_0000,
            lo * lo <= n,
            n < hi * hi,
        decreases hi - lo,
    {
        let mid: u128 = lo + (hi - lo) / 2;
        assert(mid * mid <= 0xFFFF_FFFF_FFFF_FFFF * 0xFFFF_FFFF_FFFF_FFFF) by (nonlinear_arith)
            requires
                0 <= mid <= 0xFFFF_FFFF_FFFF_FFFF,
        ;
        let sq: u128 = mid * mid;
        if sq <= n {
            lo = mid;
        } else {
            hi = mid;
        }
    }
    proof {
        lemma_floor_sqrt_unique(n as int, lo as int);
    }
    lo as u64
}

/// Least integer whose square reaches `n`.
pub fn isqrt_ceil(n: u128) -> (r: u128)
    ensures
        r == ceil_sqrt(n as int),
        r * r >= n,
        r <= 0x1_0000_0000_0000_0000,
        n > 0 ==> r > 0,
{
    let f: u64 = isqrt(n);
    let wide: u128 = f as u128;
    assert(wide * wide <= n);
    assert(wide == 0 ==> wide * wide == 0);
    if wide * wide == n {
        wide
    } else {
        assert((wide + 1) * (wide + 1) > n);
        wide + 1
    }
}

/// A vector of millionths scaled to the length `speed`; the result is
/// confined to the speed limit.
pub open spec fn scaled(unit: (int, int), speed: int) -> Vec2 {
    Vec2 {
        x: clamp_abs(div_trunc(unit.0 * speed, MICRO as int), SPEED_LIMIT as int) as i64,
        y: clamp_abs(div_trunc(unit.1 * speed, MICRO as int), SPEED_LIMIT as int) as i64,
    }
}

/// A position displaced by an offset, confined to the coordinate limit.
pub open spec fn displaced(position: Vec2, offset: (int, int)) -> Vec2 {
    Vec2 {
        x: clamp_abs(position.x + offset.0, COORD_LIMIT as int) as i64,
        y: clamp_abs(position.y + offset.1, COORD_LIMIT as int) as i64,
    }
}

/// Scales a vector of millionths to the length `speed`.
pub fn scale_to(unit: Vec2, speed: i64) -> (v: Vec2)
    ensures
        v == scaled((unit.x as int, unit.y as int), speed as int),
        v.within(SPEED_LIMIT as int),
{
    let x: i128 = mul_div(unit.x, speed, 1_000_000);
    let y: i128 = mul_div(unit.y, speed, 1_000_000);
    Vec2 { x: clamp_abs_wide(x, SPEED_LIMIT), y: clamp_abs_wide(y, SPEED_LIMIT) }
}

/// Displaces a position by an offset.
pub fn displace(position: Vec2, offset: Vec2) -> (p: Vec2)
    ensures
        p == displaced(position, (offset.x as int, offset.y as int)),
        p.within(COORD_LIMIT as int),
{
    Vec2 {
        x: clamp_abs_wide(position.x as i128 + offset.x as i128, COORD_LIMIT),
        y: clamp_abs_wide(position.y as i128 + offset.y as i128, COORD_LIMIT),
    }
}

} // verus!
