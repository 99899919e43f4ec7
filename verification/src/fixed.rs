//! Fixed-point scalars.
//!
//! Every scalar of the renderer (a coordinate, a ray parameter, a light
//! intensity, a colour channel) is an `i128` storing its value times
//! `SCALE`.  Products and quotients rescale with truncation toward zero,
//! mirroring the rounding of a hardware divide.  The spec functions
//! `sfx_mul`, `sfx_div` and `sfx_sqrt` are the exact mathematical models of
//! the executable operations.

use vstd::prelude::*;
use vstd::arithmetic::div_mod::{lemma_div_is_ordered, lemma_div_nonincreasing, lemma_div_pos_is_pos};

verus! {

/// A scalar `s` stands for the real number `s / SCALE`.
pub const SCALE: i128 = 10_000;

/// Upper magnitude bound for world coordinates, directions, radii and ray
/// parameters accepted by the renderer: the representable world spans about
/// eight hundred and fifty thousand units either way from the origin.
pub const COORD_LIMIT: i128 = 8_589_934_592;

/// Sentinel ray parameter for "no intersection", and the upper window bound
/// used where an unbounded ray is wanted.  It plays the role an infinity
/// would play over unbounded numbers: a window check `t < t_max` with
/// `t_max <= T_FAR` can never accept it.
pub const T_FAR: i128 = 8_589_934_592;

/// Magnitude bound on a colour channel held by a scene (scene colours come
/// from 16-bit integers times `SCALE`, well inside this).
pub const COLOR_LIMIT: i128 = 536_870_912;

/// Magnitude bound on a light intensity held by a scene (one hundred in
/// real terms; ordinary scenes use intensities at most one).
pub const INTENSITY_LIMIT: i128 = 1_000_000;

/// Magnitude bound on the components of a surface normal handed to the
/// shading engine.  `Vec3::normalize` returns components of magnitude at
/// most `2 * SCALE`, well inside this.
pub const NORMAL_LIMIT: i128 = 32_768;

/// Magnitude of a mathematical integer.
pub open spec fn iabs(x: int) -> int {
    if x >= 0 {
        x
    } else {
        -x
    }
}

/// Division truncating toward zero, for a positive divisor: the rounding of
/// the executable operations.
pub open spec fn tz_div(n: int, d: int) -> int
    recommends
        d >= 1,
{
    if n >= 0 {
        n / d
    } else {
        -((-n) / d)
    }
}

/// Exact model of the fixed-point product: `(a * b) / SCALE`, truncated
/// toward zero.
pub open spec fn sfx_mul(a: int, b: int) -> int {
    tz_div(a * b, SCALE as int)
}

/// Exact model of the fixed-point quotient: `(a * SCALE) / b`, truncated
/// toward zero.
pub open spec fn sfx_div(a: int, b: int) -> int
    recommends
        b >= 1,
{
    tz_div(a * SCALE, b)
}

/// `r` is the rounded-down square root of `n`.
pub open spec fn is_sqrt_floor(n: int, r: int) -> bool {
    0 <= r && r * r <= n && n < (r + 1) * (r + 1)
}

/// The integer square root: the unique `r >= 0` with `r * r <= n < (r + 1) * (r + 1)`.
pub open spec fn sqrt_floor(n: int) -> int {
    choose|r: int| is_sqrt_floor(n, r)
}

/// Exact model of the fixed-point square root: `sqrt(x / SCALE) * SCALE`
/// rounded down is the integer square root of `x * SCALE`.
pub open spec fn sfx_sqrt(x: int) -> int
    recommends
        x >= 0,
{
    sqrt_floor(x * SCALE)
}

/// Exact model of the fixed-point power with a non-negative integer
/// exponent; `sfx_pow(b, 0) == SCALE`, the fixed-point one.
pub open spec fn sfx_pow(b: int, e: nat) -> int
    decreases e,
{
    if e == 0 {
        SCALE as int
    } else {
        sfx_mul(sfx_pow(b, (e - 1) as nat), b)
    }
}

/// A cosine-like ratio is capped at the fixed-point one.  The exact ratio
/// of a dot product to the product of the lengths never exceeds one, but
/// truncation of the divisor can push the quotient a hair above it.
pub open spec fn cap_ratio(x: int) -> int {
    if x > SCALE {
        SCALE as int
    } else {
        x
    }
}

/// The magnitude of a truncated quotient is the quotient of the magnitude.
pub proof fn lemma_tz_div_mag(n: int, d: int)
    requires
        d >= 1,
    ensures
        iabs(tz_div(n, d)) == iabs(n) / d,
        tz_div(n, d) >= 0 <==> (n >= 0 || iabs(n) / d == 0),
{
    if n >= 0 {
        lemma_div_pos_is_pos(n, d);
    } else {
        lemma_div_pos_is_pos(-n, d);
    }
}

/// A truncated quotient is bounded by any bound on the dividend's
/// magnitude, divided.
pub proof fn lemma_tz_div_bnd(n: int, d: int, m: int)
    requires
        d >= 1,
        iabs(n) <= m,
    ensures
        iabs(tz_div(n, d)) <= m / d,
        iabs(tz_div(n, d)) <= m,
{
    lemma_tz_div_mag(n, d);
    lemma_div_is_ordered(iabs(n), m, d);
    lemma_div_pos_is_pos(iabs(n), d);
    lemma_div_nonincreasing(m, d);
}

/// Magnitude bound on a product from bounds on its factors.
pub proof fn lemma_abs_mul(a: int, b: int, ma: int, mb: int)
    requires
        iabs(a) <= ma,
        iabs(b) <= mb,
    ensures
        iabs(a * b) <= ma * mb,
{
    assert(iabs(a * b) <= ma * mb) by (nonlinear_arith)
        requires
            iabs(a) <= ma,
            iabs(b) <= mb,
    ;
}

/// Magnitude bound on a fixed-point product from bounds on its factors.
pub proof fn lemma_sfx_mul_bnd(a: int, b: int, ma: int, mb: int)
    requires
        iabs(a) <= ma,
        iabs(b) <= mb,
    ensures
        iabs(sfx_mul(a, b)) <= (ma * mb) / (SCALE as int),
        iabs(sfx_mul(a, b)) <= ma * mb,
{
    lemma_abs_mul(a, b, ma, mb);
    lemma_tz_div_bnd(a * b, SCALE as int, ma * mb);
}

/// A non-negative dividend gives a non-negative truncated quotient.
pub proof fn lemma_tz_div_nonneg(n: int, d: int)
    requires
        d >= 1,
        n >= 0,
    ensures
        tz_div(n, d) >= 0,
{
    lemma_div_pos_is_pos(n, d);
}

/// A non-positive dividend gives a non-positive truncated quotient.
pub proof fn lemma_tz_div_nonpos(n: int, d: int)
    requires
        d >= 1,
        n <= 0,
    ensures
        tz_div(n, d) <= 0,
{
    if n >= 0 {
        vstd::arithmetic::div_mod::lemma_div_of0(d);
    } else {
        lemma_div_pos_is_pos(-n, d);
    }
}

/// A power of a base between zero and the fixed-point one stays between
/// zero and the fixed-point one.
pub proof fn lemma_sfx_pow_range(b: int, e: nat)
    requires
        0 <= b,
        b <= SCALE,
    ensures
        0 <= sfx_pow(b, e),
        sfx_pow(b, e) <= SCALE,
    decreases e,
{
    if e == 0 {
    } else {
        lemma_sfx_pow_range(b, (e - 1) as nat);
        let p = sfx_pow(b, (e - 1) as nat);
        assert(0 <= p * b <= SCALE * SCALE) by (nonlinear_arith)
            requires
                0 <= p <= SCALE,
                0 <= b <= SCALE,
        ;
        lemma_tz_div_nonneg(p * b, SCALE as int);
        lemma_tz_div_bnd(p * b, SCALE as int, (SCALE * SCALE) as int);
    }
}

/// A convex fixed-point blend of two scalars stays within any common
/// magnitude bound of the two.
pub proof fn lemma_blend_bnd(a: int, b: int, r: int, m: int)
    requires
        iabs(a) <= m,
        iabs(b) <= m,
        0 <= r,
        r <= SCALE,
    ensures
        iabs(sfx_mul(a, SCALE - r) + sfx_mul(b, r)) <= m,
{
    let s = SCALE as int;
    lemma_abs_mul(a, s - r, m, s - r);
    lemma_abs_mul(b, r, m, r);
    lemma_tz_div_mag(a * (s - r), s);
    lemma_tz_div_mag(b * r, s);
    assert(0 <= m * (s - r)) by (nonlinear_arith)
        requires
            0 <= m,
            0 <= s - r,
    ;
    assert(0 <= m * r) by (nonlinear_arith)
        requires
            0 <= m,
            0 <= r,
    ;
    lemma_div_is_ordered(iabs(a * (s - r)), m * (s - r), s);
    lemma_div_is_ordered(iabs(b * r), m * r, s);
    let q1 = (m * (s - r)) / s;
    let q2 = (m * r) / s;
    vstd::arithmetic::div_mod::lemma_remainder_lower(m * (s - r), s);
    vstd::arithmetic::div_mod::lemma_remainder_lower(m * r, s);
    assert(m * (s - r) + m * r == m * s) by (nonlinear_arith);
    assert(q1 + q2 <= m) by (nonlinear_arith)
        requires
            q1 * s <= m * (s - r),
            q2 * s <= m * r,
            m * (s - r) + m * r == m * s,
            s >= 1,
    ;
}

/// The integer square root is unique: any root that brackets `n` is the one
/// `sqrt_floor` denotes.
pub proof fn lemma_sqrt_floor_unique(n: int, r: int)
    requires
        0 <= r,
        r * r <= n,
        n < (r + 1) * (r + 1),
    ensures
        sqrt_floor(n) == r,
{
    assert(is_sqrt_floor(n, r));
    let w = sqrt_floor(n);
    assert(is_sqrt_floor(n, w));
    assert(w == r) by (nonlinear_arith)
        requires
            0 <= r,
            r * r <= n,
            n < (r + 1) * (r + 1),
            0 <= w,
            w * w <= n,
            n < (w + 1) * (w + 1),
    ;
}

/// A square root is monotone: a bound on the radicand by a square bounds
/// the root.
pub proof fn lemma_sqrt_floor_le(n: int, m: int)
    requires
        0 <= n,
        0 <= m,
        n <= m * m,
        sqrt_floor(n) * sqrt_floor(n) <= n,
        0 <= sqrt_floor(n),
    ensures
        sqrt_floor(n) <= m,
{
    let r = sqrt_floor(n);
    assert(r <= m) by (nonlinear_arith)
        requires
            0 <= r,
            0 <= m,
            r * r <= n,
            n <= m * m,
    ;
}

/// Division truncating toward zero, on machine integers.
pub(crate) fn div_tz(n: i128, d: i128) -> (r: i128)
    requires
        1 <= d,
        iabs(n as int) <= 0x40000000000000000000000000000000,
    ensures
        r as int == tz_div(n as int, d as int),
{
    proof {
        lemma_tz_div_mag(n as int, d as int);
        lemma_tz_div_bnd(n as int, d as int, 0x40000000000000000000000000000000);
    }
    if n >= 0 {
        ((n as u128) / (d as u128)) as i128
    } else {
        let m: i128 = -n;
        -(((m as u128) / (d as u128)) as i128)
    }
}

/// Fixed-point product.
pub fn fx_mul(a: i128, b: i128) -> (r: i128)
    requires
        iabs(a as int) <= 0x4000000000000000,
        iabs(b as int) <= 0x4000000000000000,
    ensures
        r as int == sfx_mul(a as int, b as int),
{
    proof {
        lemma_abs_mul(a as int, b as int, 0x4000000000000000, 0x4000000000000000);
    }
    let p: i128 = a * b;
    div_tz(p, SCALE)
}

/// Fixed-point quotient by a positive divisor.
pub fn fx_div(n: i128, d: i128) -> (r: i128)
    requires
        1 <= d,
        iabs(n as int) <= 0x10000000000000000000000000,
    ensures
        r as int == sfx_div(n as int, d as int),
{
    proof {
        lemma_abs_mul(n as int, SCALE as int, 0x10000000000000000000000000, SCALE as int);
    }
    let p: i128 = n * SCALE;
    div_tz(p, d)
}

/// Integer square root by bisection.
fn isqrt_u128(n: u128) -> (r: u128)
    ensures
        r * r <= n,
        n < (r + 1) * (r + 1),
{
    let mut lo: u128 = 0;
    let mut hi: u128 = 0x10000000000000000;
    assert(n < hi * hi) by (nonlinear_arith)
        requires
            n <= 0xffffffffffffffffffffffffffffffff,
            hi == 0x10000000000000000,
    ;
    while lo + 1 < hi
        invariant
            lo < hi,
            hi <= 0x10000000000000000,
            lo * lo <= n,
            n < hi * hi,
        decreases hi - lo,
    {
        let mid: u128 = lo + (hi - lo) / 2;
        assert(lo < mid < hi);
        assert(mid * mid <= 0xffffffffffffffffffffffffffffffff) by (nonlinear_arith)
            requires
                mid < 0x10000000000000000,
        ;
        if mid * mid <= n {
            lo = mid;
        } else {
            hi = mid;
        }
    }
    lo
}

/// Fixed-point square root of a non-negative scalar.
pub fn fx_sqrt(x: i128) -> (r: i128)
    requires
        0 <= x,
        x <= 0x4000000000000000000000000000,
    ensures
        r as int == sfx_sqrt(x as int),
        0 <= r,
        r <= 0x4000000000000000,
        is_sqrt_floor(x * SCALE, r as int),
{
    let p: i128 = x * SCALE;
    let ru: u128 = isqrt_u128(p as u128);
    proof {
        lemma_sqrt_floor_unique(p as int, ru as int);
        lemma_sqrt_floor_le(p as int, 0x4000000000000000);
        assert((p as int) <= 0x4000000000000000 * 0x4000000000000000) by (nonlinear_arith)
            requires
                p as int <= 0x4000000000000000000000000000 * (SCALE as int),
                SCALE == 10000,
        ;
    }
    ru as i128
}

/// Cap a non-negative cosine-like ratio at the fixed-point one.
pub fn cap_one(x: i128) -> (r: i128)
    ensures
        r as int == cap_ratio(x as int),
{
    if x > SCALE {
        SCALE
    } else {
        x
    }
}

/// Fixed-point power with a non-negative exponent, for a base between zero
/// and the fixed-point one; the result stays in that range.
pub fn fx_pow(b: i128, e: u32) -> (r: i128)
    requires
        0 <= b,
        b <= SCALE,
    ensures
        r as int == sfx_pow(b as int, e as nat),
        0 <= r,
        r <= SCALE,
{
    let mut r: i128 = SCALE;
    let mut k: u32 = 0;
    while k < e
        invariant
            0 <= b <= SCALE,
            k <= e,
            r as int == sfx_pow(b as int, k as nat),
            0 <= r,
            r <= SCALE,
        decreases e - k,
    {
        let next: i128 = fx_mul(r, b);
        proof {
            lemma_sfx_mul_bnd(r as int, b as int, SCALE as int, SCALE as int);
            lemma_tz_div_mag(r * b, SCALE as int);
            assert(r * b >= 0) by (nonlinear_arith)
                requires
                    r >= 0,
                    b >= 0,
            ;
        }
        r = next;
        k = k + 1;
    }
    r
}

} // verus!
