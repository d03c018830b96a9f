//! Fixed-point circular functions.
//!
//! The sine is Bhaskara's rational approximation on `[0, pi]`, extended to
//! the full circle by periodic reduction and sign symmetry, and clamped to
//! `[-1, 1]`. The cosine is the sine shifted a quarter turn; the tangent
//! is their guarded quotient. The contracts pin the exact fixed-point
//! value computed, so everything downstream of an angle is deterministic.

use vstd::prelude::*;

use crate::data::PI_RAW;
use crate::fixed::{abs_i, fits_raw, fx_div, fx_mul, Fx, FX_SCALE};

verus! {

/// Raw fixed-point value of two pi.
pub const TWO_PI_RAW: i64 = 411775;

/// Raw fixed-point value of half pi.
pub const HALF_PI_RAW: i64 = 102944;

/// Raw fixed-point value of five pi squared.
pub const FIVE_PI_SQ_RAW: i64 = 3234055;

/// Largest raw angle magnitude the circular functions accept.
pub const MAX_ANGLE: i64 = 0x1000_0000_0000_0000;

/// An angle reduced to one turn: the Euclidean remainder in `[0, 2 pi)`.
pub open spec fn angle_reduced(x: int) -> int {
    x % (TWO_PI_RAW as int)
}

/// Bhaskara's sine approximation for a reduced angle in `[0, pi]`:
/// `16 r (pi - r) / (5 pi^2 - 4 r (pi - r))`.
pub open spec fn bhaskara(r: int) -> int {
    let p = fx_mul(r, PI_RAW - r);
    fx_div(16 * p, FIVE_PI_SQ_RAW - 4 * p)
}

/// Raw value of the sine of a raw angle.
pub open spec fn sin_raw(x: int) -> int {
    let r = angle_reduced(x);
    let s = if r <= PI_RAW {
        bhaskara(r)
    } else {
        -bhaskara(r - PI_RAW)
    };
    if s > FX_SCALE {
        FX_SCALE as int
    } else if s < -FX_SCALE {
        -FX_SCALE as int
    } else {
        s
    }
}

/// Raw value of the cosine of a raw angle: the sine a quarter turn later.
pub open spec fn cos_raw(x: int) -> int {
    sin_raw(x + HALF_PI_RAW)
}

/// The Euclidean remainder of a negated nonnegative integer.
proof fn lemma_mod_of_neg(x: int, d: int)
    requires
        x >= 0,
        d > 0,
    ensures
        (-x) % d == if x % d == 0 {
            0int
        } else {
            d - (x % d)
        },
{
    vstd::arithmetic::div_mod::lemma_fundamental_div_mod(x, d);
    let q = x / d;
    let r = x % d;
    if r == 0 {
        assert(-x == (-q) * d + 0) by (nonlinear_arith)
            requires
                x == d * q + r,
                r == 0,
        ;
        vstd::arithmetic::div_mod::lemma_fundamental_div_mod_converse_mod(-x, d, -q, 0);
    } else {
        assert(-x == (-q - 1) * d + (d - r)) by (nonlinear_arith)
            requires
                x == d * q + r,
        ;
        vstd::arithmetic::div_mod::lemma_fundamental_div_mod_converse_mod(-x, d, -q - 1, d - r);
    }
}

/// Reduces a raw angle to `[0, 2 pi)`.
fn reduce_angle(x: Fx) -> (r: i64)
    requires
        abs_i(x.raw as int) <= 0x4000_0000_0000_0000,
    ensures
        r == angle_reduced(x.raw as int),
        0 <= r < TWO_PI_RAW,
{
    if x.raw >= 0 {
        let m: u64 = (x.raw as u64) % (TWO_PI_RAW as u64);
        m as i64
    } else {
        let m: u64 = ((-x.raw) as u64) % (TWO_PI_RAW as u64);
        proof {
            lemma_mod_of_neg(-(x.raw as int), TWO_PI_RAW as int);
        }
        if m == 0 {
            0
        } else {
            TWO_PI_RAW - (m as i64)
        }
    }
}

/// Bhaskara's approximation for a reduced angle in `[0, pi]`.
fn bhaskara_exec(r: i64) -> (s: Fx)
    requires
        0 <= r <= PI_RAW,
    ensures
        s.raw == bhaskara(r as int),
        0 <= s.raw,
{
    let rf = Fx::from_raw(r);
    let pr = Fx::from_raw(PI_RAW - r);
    let ghost a = (r as int) * ((PI_RAW - r) as int);
    proof {
        crate::fixed::lemma_fx_mul_abs(r as int, (PI_RAW - r) as int);
        assert(0 <= a && 4 * a <= (PI_RAW as int) * (PI_RAW as int)) by (nonlinear_arith)
            requires
                0 <= r <= PI_RAW,
                a == (r as int) * ((PI_RAW - r) as int),
        ;
        // 4 a <= pi^2 = 42389456769, so a <= 10597364192 and the scaled
        // product p = a / FX_SCALE is at most 161702.
        vstd::arithmetic::div_mod::lemma_div_is_ordered(a, 10597364192, FX_SCALE as int);
        vstd::arithmetic::div_mod::lemma_div_pos_is_pos(a, FX_SCALE as int);
    }
    let p = rf.mul(pr);
    let num = Fx::from_raw(16 * p.raw);
    let den = Fx::from_raw(FIVE_PI_SQ_RAW - 4 * p.raw);
    proof {
        crate::fixed::lemma_fx_div_bound(num.raw as int, den.raw as int, abs_i(num.raw as int));
        vstd::arithmetic::div_mod::lemma_div_pos_is_pos(
            (num.raw as int) * (FX_SCALE as int),
            den.raw as int,
        );
    }
    num.div(den)
}

/// The sine for any raw angle within the reduction range.
fn sin_inner(x: Fx) -> (r: Fx)
    requires
        abs_i(x.raw as int) <= 0x4000_0000_0000_0000,
    ensures
        r.raw == sin_raw(x.raw as int),
        -FX_SCALE <= r.raw <= FX_SCALE,
{
    let red = reduce_angle(x);
    let s: Fx = if red <= PI_RAW {
        bhaskara_exec(red)
    } else {
        bhaskara_exec(red - PI_RAW).neg()
    };
    if s.raw > FX_SCALE {
        Fx::one()
    } else if s.raw < -FX_SCALE {
        Fx::one().neg()
    } else {
        s
    }
}

/// The sine of an angle given in radians.
pub fn sin(x: Fx) -> (r: Fx)
    requires
        abs_i(x.raw as int) <= MAX_ANGLE,
    ensures
        r.raw == sin_raw(x.raw as int),
        -FX_SCALE <= r.raw <= FX_SCALE,
{
    sin_inner(x)
}

/// The cosine of an angle given in radians.
pub fn cos(x: Fx) -> (r: Fx)
    requires
        abs_i(x.raw as int) <= MAX_ANGLE,
    ensures
        r.raw == cos_raw(x.raw as int),
        -FX_SCALE <= r.raw <= FX_SCALE,
{
    sin_inner(x.add(Fx::from_raw(HALF_PI_RAW)))
}

/// The tangent of an angle given in radians, where the cosine is nonzero.
pub fn tan(x: Fx) -> (r: Option<Fx>)
    requires
        abs_i(x.raw as int) <= MAX_ANGLE,
    ensures
        r is Some <==> cos_raw(x.raw as int) != 0,
        r is Some ==> r->0.raw == fx_div(sin_raw(x.raw as int), cos_raw(x.raw as int)),
        r is Some ==> abs_i(r->0.raw as int) <= (FX_SCALE as int) * (FX_SCALE as int),
{
    let s = sin(x);
    let c = cos(x);
    if c.raw == 0 {
        None
    } else {
        proof {
            crate::fixed::lemma_fx_div_bound(s.raw as int, c.raw as int, FX_SCALE as int);
        }
        Some(s.div(c))
    }
}

} // verus!
