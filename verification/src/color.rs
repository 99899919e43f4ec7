//! Colours as fixed-point RGB triples.
//!
//! Channels are unclamped during intermediate arithmetic — they may go
//! negative or far above the displayable range — and are clamped once, at
//! the pixel-write boundary.

use vstd::prelude::*;
use crate::fixed::{iabs, fx_mul, sfx_mul, SCALE};

verus! {

/// Mathematical model of a colour: three unbounded fixed-point channels.
pub struct C3 {
    pub red: int,
    pub green: int,
    pub blue: int,
}

/// An RGB colour; each channel is a fixed-point scalar, so the real
/// channel value 255.0 is stored as `255 * SCALE`.
#[derive(Clone, Copy, Debug, PartialEq, Eq, Structural)]
pub struct Rgb {
    pub red: i128,
    pub green: i128,
    pub blue: i128,
}

impl View for Rgb {
    type V = C3;

    open spec fn view(&self) -> C3 {
        C3 { red: self.red as int, green: self.green as int, blue: self.blue as int }
    }
}

/// Every channel has magnitude at most `m`.
pub open spec fn cbnd(c: C3, m: int) -> bool {
    iabs(c.red) <= m && iabs(c.green) <= m && iabs(c.blue) <= m
}

/// Channelwise fixed-point scaling.
pub open spec fn cmul3(c: C3, m: int) -> C3 {
    C3 { red: sfx_mul(c.red, m), green: sfx_mul(c.green, m), blue: sfx_mul(c.blue, m) }
}

/// Channelwise blend.
pub open spec fn cadd3(a: C3, b: C3) -> C3 {
    C3 { red: a.red + b.red, green: a.green + b.green, blue: a.blue + b.blue }
}

/// One channel clamped to the displayable range `[0, 255]`.
pub open spec fn sclamp(x: int) -> int {
    if x < 0 {
        0
    } else if x > 255 * (SCALE as int) {
        255 * (SCALE as int)
    } else {
        x
    }
}

/// All three channels clamped to the displayable range.
pub open spec fn cclamp3(c: C3) -> C3 {
    C3 { red: sclamp(c.red), green: sclamp(c.green), blue: sclamp(c.blue) }
}

impl Rgb {
    /// Individually multiplies the `red`, `green` and `blue` channels by
    /// the scalar passed, and returns a new `Rgb` with the result.
    pub fn multiply_by(&self, m: i128) -> (r: Rgb)
        requires
            cbnd(self@, 0x4000000000000000),
            iabs(m as int) <= 0x4000000000000000,
        ensures
            r@ == cmul3(self@, m as int),
    {
        Rgb {
            red: fx_mul(self.red, m),
            green: fx_mul(self.green, m),
            blue: fx_mul(self.blue, m),
        }
    }

    /// Individually adds the `red`, `green` and `blue` channels to the
    /// corresponding channels of the colour passed, and returns a new
    /// `Rgb` with the result.
    pub fn add(&self, a: &Rgb) -> (r: Rgb)
        requires
            cbnd(self@, 0x1000000000000000000000000000000),
            cbnd(a@, 0x1000000000000000000000000000000),
        ensures
            r@ == cadd3(self@, a@),
    {
        Rgb {
            red: self.red + a.red,
            green: self.green + a.green,
            blue: self.blue + a.blue,
        }
    }

    /// Individually clamps the `red`, `green` and `blue` channels to the
    /// displayable range: negative channels become zero and channels above
    /// 255 become 255.
    pub fn clamp(&self) -> (r: Rgb)
        ensures
            r@ == cclamp3(self@),
            0 <= r.red <= 255 * SCALE,
            0 <= r.green <= 255 * SCALE,
            0 <= r.blue <= 255 * SCALE,
    {
        Rgb {
            red: clamp_channel(self.red),
            green: clamp_channel(self.green),
            blue: clamp_channel(self.blue),
        }
    }

    /// Creates a new `Rgb` from integer channel values in real terms, so
    /// `from_ints(255, 0, 0)` is full red.
    pub fn from_ints(red: i16, green: i16, blue: i16) -> (r: Rgb)
        ensures
            r@ == (C3 {
                red: red * (SCALE as int),
                green: green * (SCALE as int),
                blue: blue * (SCALE as int),
            }),
    {
        Rgb {
            red: (red as i128) * SCALE,
            green: (green as i128) * SCALE,
            blue: (blue as i128) * SCALE,
        }
    }
}

/// One executable channel clamp.
fn clamp_channel(x: i128) -> (r: i128)
    ensures
        r as int == sclamp(x as int),
{
    if x < 0 {
        0
    } else if x > 255 * SCALE {
        255 * SCALE
    } else {
        x
    }
}

/// Channelwise magnitude bound on a scaled colour.
pub proof fn lemma_cmul3_bnd(c: C3, m: int, mc: int, mm: int)
    requires
        cbnd(c, mc),
        iabs(m) <= mm,
    ensures
        cbnd(cmul3(c, m), (mc * mm) / (SCALE as int)),
        cbnd(cmul3(c, m), mc * mm),
{
    crate::fixed::lemma_sfx_mul_bnd(c.red, m, mc, mm);
    crate::fixed::lemma_sfx_mul_bnd(c.green, m, mc, mm);
    crate::fixed::lemma_sfx_mul_bnd(c.blue, m, mc, mm);
}

/// A convex fixed-point blend of two colours stays within any common
/// channelwise bound of the two.
pub proof fn lemma_cblend_bnd(a: C3, b: C3, r: int, m: int)
    requires
        cbnd(a, m),
        cbnd(b, m),
        0 <= r,
        r <= SCALE,
    ensures
        cbnd(cadd3(cmul3(a, SCALE - r), cmul3(b, r)), m),
{
    crate::fixed::lemma_blend_bnd(a.red, b.red, r, m);
    crate::fixed::lemma_blend_bnd(a.green, b.green, r, m);
    crate::fixed::lemma_blend_bnd(a.blue, b.blue, r, m);
}

/// Clamping is idempotent, and a clamped colour has every channel in the
/// displayable range `[0, 255]` (in fixed-point terms, `[0, 255 * SCALE]`).
pub proof fn lemma_clamp_idempotent(c: C3)
    ensures
        cclamp3(cclamp3(c)) == cclamp3(c),
        0 <= cclamp3(c).red <= 255 * SCALE,
        0 <= cclamp3(c).green <= 255 * SCALE,
        0 <= cclamp3(c).blue <= 255 * SCALE,
{
}

} // verus!
