//! Camera-space vectors over fixed-point scalars.
//!
//! `Vec3` is the executable three-component vector; `V3` is its
//! mathematical model, with the exact spec-level counterparts of every
//! operation (`vadd3`, `sdot3`, `snorm3`, ...).  Dot products, lengths and
//! normalisation rescale by `SCALE` exactly as the executable code does.

use vstd::prelude::*;
use crate::fixed::{
    fx_div, fx_mul, fx_sqrt, iabs, is_sqrt_floor, lemma_abs_mul, lemma_tz_div_bnd,
    lemma_tz_div_mag, sfx_div, sfx_mul, sfx_sqrt, sqrt_floor, tz_div, SCALE,
};
use vstd::arithmetic::div_mod::lemma_div_is_ordered;

verus! {

/// Mathematical model of a vector: three unbounded fixed-point scalars.
pub struct V3 {
    pub x: int,
    pub y: int,
    pub z: int,
}

/// A vector in camera space; each component is a fixed-point scalar.
#[derive(Clone, Copy, Debug, PartialEq, Eq, Structural)]
pub struct Vec3 {
    pub x: i128,
    pub y: i128,
    pub z: i128,
}

impl View for Vec3 {
    type V = V3;

    open spec fn view(&self) -> V3 {
        V3 { x: self.x as int, y: self.y as int, z: self.z as int }
    }
}

/// Every component has magnitude at most `m`.
pub open spec fn bnd3(v: V3, m: int) -> bool {
    iabs(v.x) <= m && iabs(v.y) <= m && iabs(v.z) <= m
}

pub open spec fn vadd3(u: V3, v: V3) -> V3 {
    V3 { x: u.x + v.x, y: u.y + v.y, z: u.z + v.z }
}

pub open spec fn vsub3(u: V3, v: V3) -> V3 {
    V3 { x: u.x - v.x, y: u.y - v.y, z: u.z - v.z }
}

pub open spec fn vneg3(v: V3) -> V3 {
    V3 { x: -v.x, y: -v.y, z: -v.z }
}

/// Componentwise fixed-point scaling.
pub open spec fn vscale3(v: V3, k: int) -> V3 {
    V3 { x: sfx_mul(v.x, k), y: sfx_mul(v.y, k), z: sfx_mul(v.z, k) }
}

/// Fixed-point dot product: the raw component products, rescaled once.
pub open spec fn sdot3(u: V3, v: V3) -> int {
    tz_div(u.x * v.x + u.y * v.y + u.z * v.z, SCALE as int)
}

/// Fixed-point Euclidean length.
pub open spec fn slen3(v: V3) -> int {
    sfx_sqrt(sdot3(v, v))
}

/// Cap a component of a normalised vector at twice the fixed-point one.
/// Rounding keeps true unit-vector components well inside this; the cap
/// only pins down the representation for degenerate near-zero inputs.
pub open spec fn cap_unit(x: int) -> int {
    if x > 2 * SCALE {
        2 * (SCALE as int)
    } else if x < -2 * (SCALE as int) {
        -2 * (SCALE as int)
    } else {
        x
    }
}

/// Model of normalisation: scale each component by `SCALE / length`.  A
/// vector whose length rounds to zero is returned unchanged.
pub open spec fn snorm3(v: V3) -> V3 {
    let l = slen3(v);
    if l == 0 {
        v
    } else {
        V3 {
            x: cap_unit(sfx_div(v.x, l)),
            y: cap_unit(sfx_div(v.y, l)),
            z: cap_unit(sfx_div(v.z, l)),
        }
    }
}

/// Model of mirror reflection: `R = 2 * n * (n . r) - r`.
pub open spec fn srefl3(ray: V3, n: V3) -> V3 {
    let ndr = sdot3(n, ray);
    V3 {
        x: sfx_mul(n.x, 2 * ndr) - ray.x,
        y: sfx_mul(n.y, 2 * ndr) - ray.y,
        z: sfx_mul(n.z, 2 * ndr) - ray.z,
    }
}

/// An integer square root exists for every non-negative radicand, so
/// `sqrt_floor` denotes the bracketing root.
pub proof fn lemma_sqrt_floor_exists(n: int)
    requires
        0 <= n,
    ensures
        is_sqrt_floor(n, sqrt_floor(n)),
    decreases n,
{
    if n == 0 {
        assert(is_sqrt_floor(0, 0));
    } else {
        lemma_sqrt_floor_exists(n - 1);
        let r = sqrt_floor(n - 1);
        if (r + 1) * (r + 1) <= n {
            assert(is_sqrt_floor(n, r + 1)) by (nonlinear_arith)
                requires
                    0 <= r,
                    r * r <= n - 1,
                    n - 1 < (r + 1) * (r + 1),
                    (r + 1) * (r + 1) <= n,
            ;
        } else {
            assert(is_sqrt_floor(n, r));
        }
    }
}

/// Magnitude bound on a fixed-point dot product from componentwise bounds.
pub proof fn lemma_dot3_bnd(u: V3, v: V3, mu: int, mv: int)
    requires
        bnd3(u, mu),
        bnd3(v, mv),
    ensures
        iabs(sdot3(u, v)) <= (3 * mu * mv) / (SCALE as int),
        iabs(sdot3(u, v)) <= 3 * mu * mv,
{
    lemma_abs_mul(u.x, v.x, mu, mv);
    lemma_abs_mul(u.y, v.y, mu, mv);
    lemma_abs_mul(u.z, v.z, mu, mv);
    let p1 = u.x * v.x;
    let p2 = u.y * v.y;
    let p3 = u.z * v.z;
    assert(iabs(p1 + p2 + p3) <= iabs(p1) + iabs(p2) + iabs(p3));
    assert(3 * mu * mv == mu * mv + mu * mv + mu * mv) by (nonlinear_arith);
    lemma_tz_div_bnd(p1 + p2 + p3, SCALE as int, 3 * mu * mv);
}

/// A dot product of a vector with itself is non-negative.
pub proof fn lemma_dot3_self_nonneg(v: V3)
    ensures
        sdot3(v, v) >= 0,
        v.x * v.x + v.y * v.y + v.z * v.z >= 0,
{
    assert(v.x * v.x + v.y * v.y + v.z * v.z >= 0) by (nonlinear_arith);
    lemma_tz_div_mag(v.x * v.x + v.y * v.y + v.z * v.z, SCALE as int);
}

impl Vec3 {
    pub fn new(x: i128, y: i128, z: i128) -> (r: Vec3)
        ensures
            r@ == (V3 { x: x as int, y: y as int, z: z as int }),
    {
        Vec3 { x, y, z }
    }

    /// Componentwise sum.
    pub fn plus(self, o: Vec3) -> (r: Vec3)
        requires
            bnd3(self@, 0x1000000000000000000000000000000),
            bnd3(o@, 0x1000000000000000000000000000000),
        ensures
            r@ == vadd3(self@, o@),
    {
        Vec3 { x: self.x + o.x, y: self.y + o.y, z: self.z + o.z }
    }

    /// Componentwise difference.
    pub fn minus(self, o: Vec3) -> (r: Vec3)
        requires
            bnd3(self@, 0x1000000000000000000000000000000),
            bnd3(o@, 0x1000000000000000000000000000000),
        ensures
            r@ == vsub3(self@, o@),
    {
        Vec3 { x: self.x - o.x, y: self.y - o.y, z: self.z - o.z }
    }

    /// Componentwise negation.
    pub fn negate(self) -> (r: Vec3)
        requires
            bnd3(self@, 0x1000000000000000000000000000000),
        ensures
            r@ == vneg3(self@),
    {
        Vec3 { x: -self.x, y: -self.y, z: -self.z }
    }

    /// Fixed-point scaling of every component by `k`.
    pub fn scale(self, k: i128) -> (r: Vec3)
        requires
            bnd3(self@, 0x4000000000000000),
            iabs(k as int) <= 0x4000000000000000,
        ensures
            r@ == vscale3(self@, k as int),
    {
        Vec3 { x: fx_mul(self.x, k), y: fx_mul(self.y, k), z: fx_mul(self.z, k) }
    }

    /// Fixed-point dot product.
    pub fn dot(self, o: Vec3) -> (r: i128)
        requires
            bnd3(self@, 0x1000000000000000),
            bnd3(o@, 0x1000000000000000),
        ensures
            r as int == sdot3(self@, o@),
    {
        proof {
            lemma_abs_mul(self.x as int, o.x as int, 0x1000000000000000, 0x1000000000000000);
            lemma_abs_mul(self.y as int, o.y as int, 0x1000000000000000, 0x1000000000000000);
            lemma_abs_mul(self.z as int, o.z as int, 0x1000000000000000, 0x1000000000000000);
        }
        let p: i128 = self.x * o.x + self.y * o.y + self.z * o.z;
        crate::fixed::div_tz(p, SCALE)
    }

    /// Fixed-point length.
    pub fn length(self) -> (r: i128)
        requires
            bnd3(self@, 0x4000000000000),
        ensures
            r as int == slen3(self@),
            0 <= r,
            r <= 0x4000000000000000,
            is_sqrt_floor(sdot3(self@, self@) * SCALE, slen3(self@)),
    {
        let d: i128 = self.dot(self);
        proof {
            lemma_dot3_self_nonneg(self@);
            lemma_dot3_bnd(self@, self@, 0x4000000000000, 0x4000000000000);
        }
        fx_sqrt(d)
    }

    /// Normalise toward unit length; see `snorm3` for the exact model.  A
    /// vector whose length rounds to zero is returned unchanged, in place
    /// of the unbounded values the same division would produce over the
    /// reals.
    pub fn normalize(self) -> (r: Vec3)
        requires
            bnd3(self@, 0x10000000000),
        ensures
            r@ == snorm3(self@),
            bnd3(r@, 2 * SCALE),
    {
        let l: i128 = self.length();
        if l == 0 {
            proof {
                let s = self@;
                let q = s.x * s.x + s.y * s.y + s.z * s.z;
                let d = sdot3(s, s);
                lemma_dot3_self_nonneg(s);
                assert(d * SCALE < 1);
                assert(d == 0);
                lemma_tz_div_mag(q, SCALE as int);
                assert(q / (SCALE as int) == 0);
                if q >= SCALE {
                    lemma_div_is_ordered(SCALE as int, q, SCALE as int);
                    assert((SCALE as int) / (SCALE as int) == 1);
                    assert(false);
                }
                assert(bnd3(s, 2 * SCALE)) by (nonlinear_arith)
                    requires
                        s.x * s.x + s.y * s.y + s.z * s.z < SCALE,
                        SCALE == 10000,
                ;
            }
            self
        } else {
            Vec3 {
                x: clamp_unit(fx_div(self.x, l)),
                y: clamp_unit(fx_div(self.y, l)),
                z: clamp_unit(fx_div(self.z, l)),
            }
        }
    }
}

/// Componentwise magnitude bound on a scaled vector.
pub proof fn lemma_vscale3_bnd(v: V3, k: int, mv: int, mk: int)
    requires
        bnd3(v, mv),
        iabs(k) <= mk,
    ensures
        bnd3(vscale3(v, k), (mv * mk) / (SCALE as int)),
        bnd3(vscale3(v, k), mv * mk),
{
    crate::fixed::lemma_sfx_mul_bnd(v.x, k, mv, mk);
    crate::fixed::lemma_sfx_mul_bnd(v.y, k, mv, mk);
    crate::fixed::lemma_sfx_mul_bnd(v.z, k, mv, mk);
}

/// Componentwise magnitude bound on a reflected vector.
pub proof fn lemma_srefl3_bnd(ray: V3, n: V3, mray: int, mn: int)
    requires
        bnd3(ray, mray),
        bnd3(n, mn),
        0 <= mray,
        0 <= mn,
    ensures
        bnd3(
            srefl3(ray, n),
            (mn * (2 * ((3 * mn * mray) / (SCALE as int)))) / (SCALE as int) + mray,
        ),
{
    let ndr = sdot3(n, ray);
    lemma_dot3_bnd(n, ray, mn, mray);
    let dd = (3 * mn * mray) / (SCALE as int);
    assert(iabs(2 * ndr) <= 2 * dd);
    crate::fixed::lemma_sfx_mul_bnd(n.x, 2 * ndr, mn, 2 * dd);
    crate::fixed::lemma_sfx_mul_bnd(n.y, 2 * ndr, mn, 2 * dd);
    crate::fixed::lemma_sfx_mul_bnd(n.z, 2 * ndr, mn, 2 * dd);
}

/// Runtime check that every component lies within the representable world.
pub fn in_coord_range(v: Vec3) -> (b: bool)
    ensures
        b == bnd3(v@, crate::fixed::COORD_LIMIT as int),
{
    -crate::fixed::COORD_LIMIT <= v.x && v.x <= crate::fixed::COORD_LIMIT
        && -crate::fixed::COORD_LIMIT <= v.y && v.y <= crate::fixed::COORD_LIMIT
        && -crate::fixed::COORD_LIMIT <= v.z && v.z <= crate::fixed::COORD_LIMIT
}

/// Cap a component of a normalised vector at twice the fixed-point one.
pub fn clamp_unit(x: i128) -> (r: i128)
    ensures
        r as int == cap_unit(x as int),
        iabs(r as int) <= 2 * SCALE,
{
    if x > 2 * SCALE {
        2 * SCALE
    } else if x < -(2 * SCALE) {
        -(2 * SCALE)
    } else {
        x
    }
}

} // verus!
