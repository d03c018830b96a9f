//! `Q47.16` fixed-point scalars over `i64`.
//!
//! A value `x` stands for the rational number `x.raw / FX_SCALE`. Every
//! operation has an exact contract over the raw integer representation, so
//! all geometric computations built on top of it are deterministic and can
//! be reasoned about precisely. Degenerate float behaviour (NaN, infinity)
//! has no counterpart here: operations instead carry preconditions that the
//! mathematical result fits the representation, and callers either prove or
//! test those bounds.

use vstd::prelude::*;

verus! {

/// Number of raw units per unit value: the fixed-point scale factor.
pub const FX_SCALE: i64 = 65536;

/// A fixed-point number: the rational `raw / FX_SCALE`.
#[derive(Clone, Copy, Debug, PartialEq, Eq, Structural)]
#[verifier::ext_equal]
pub struct Fx {
    pub raw: i64,
}

/// Magnitude of a mathematical integer.
pub open spec fn abs_i(a: int) -> int {
    if a >= 0 {
        a
    } else {
        -a
    }
}

/// Whether a mathematical integer is representable as a raw value.
/// The range is kept symmetric so that negation is always safe.
pub open spec fn fits_raw(v: int) -> bool {
    -(i64::MAX as int) <= v <= i64::MAX as int
}

/// Raw value of the fixed-point product: `a * b / FX_SCALE`, rounded
/// toward zero.
pub open spec fn fx_mul(a: int, b: int) -> int {
    if a * b >= 0 {
        (a * b) / (FX_SCALE as int)
    } else {
        -((-(a * b)) / (FX_SCALE as int))
    }
}

/// Raw value of the fixed-point quotient: `a * FX_SCALE / b`, rounded
/// toward zero.
pub open spec fn fx_div(a: int, b: int) -> int
    recommends
        b != 0,
{
    if (a >= 0) == (b >= 0) {
        (abs_i(a) * (FX_SCALE as int)) / abs_i(b)
    } else {
        -((abs_i(a) * (FX_SCALE as int)) / abs_i(b))
    }
}

/// The integer square root: the largest `r` with `r * r <= n`.
pub open spec fn sqrt_floor(n: int) -> int
    decreases n,
{
    if n < 1 {
        0
    } else {
        if (sqrt_floor(n - 1) + 1) * (sqrt_floor(n - 1) + 1) <= n {
            sqrt_floor(n - 1) + 1
        } else {
            sqrt_floor(n - 1)
        }
    }
}

/// Raw value of the fixed-point square root of a nonnegative raw value.
pub open spec fn fx_sqrt(a: int) -> int {
    sqrt_floor(a * (FX_SCALE as int))
}

/// `sqrt_floor(n)` squares to at most `n`, and is the largest such integer.
pub proof fn lemma_sqrt_floor_bounds(n: int)
    requires
        n >= 0,
    ensures
        0 <= sqrt_floor(n),
        sqrt_floor(n) * sqrt_floor(n) <= n,
        n < (sqrt_floor(n) + 1) * (sqrt_floor(n) + 1),
    decreases n,
{
    if n >= 1 {
        lemma_sqrt_floor_bounds(n - 1);
        let r = sqrt_floor(n - 1);
        assert((r + 2) * (r + 2) > (r + 1) * (r + 1)) by (nonlinear_arith)
            requires
                r >= 0,
        ;
    }
}

/// Any integer bracketing `n` between consecutive squares is the square root.
pub proof fn lemma_sqrt_floor_is(n: int, r: int)
    requires
        0 <= r,
        r * r <= n,
        n < (r + 1) * (r + 1),
    ensures
        r == sqrt_floor(n),
{
    lemma_sqrt_floor_bounds(n);
    let s = sqrt_floor(n);
    if r < s {
        assert((r + 1) * (r + 1) <= s * s) by (nonlinear_arith)
            requires
                0 <= r,
                r < s,
        ;
    }
    if s < r {
        assert((s + 1) * (s + 1) <= r * r) by (nonlinear_arith)
            requires
                0 <= s,
                s < r,
        ;
    }
}

/// The magnitude of a fixed-point product is the scaled magnitude of the
/// integer product.
pub proof fn lemma_fx_mul_abs(a: int, b: int)
    ensures
        abs_i(fx_mul(a, b)) == abs_i(a * b) / (FX_SCALE as int),
        a * b >= 0 ==> fx_mul(a, b) >= 0,
        a * b < 0 ==> fx_mul(a, b) <= 0,
{
    if a * b >= 0 {
        vstd::arithmetic::div_mod::lemma_div_pos_is_pos(a * b, FX_SCALE as int);
    } else {
        vstd::arithmetic::div_mod::lemma_div_pos_is_pos(-(a * b), FX_SCALE as int);
    }
}

/// Bounds on the operands bound the fixed-point product.
pub proof fn lemma_fx_mul_bound(a: int, b: int, ba: int, bb: int)
    requires
        abs_i(a) <= ba,
        abs_i(b) <= bb,
    ensures
        abs_i(fx_mul(a, b)) <= (ba * bb) / (FX_SCALE as int),
        (ba * bb) / (FX_SCALE as int) >= 0,
{
    lemma_fx_mul_abs(a, b);
    assert(abs_i(a * b) <= ba * bb) by (nonlinear_arith)
        requires
            abs_i(a) <= ba,
            abs_i(b) <= bb,
    ;
    vstd::arithmetic::div_mod::lemma_div_is_ordered(abs_i(a * b), ba * bb, FX_SCALE as int);
    vstd::arithmetic::div_mod::lemma_div_pos_is_pos(ba * bb, FX_SCALE as int);
}

/// A bound on the numerator bounds the fixed-point quotient, for any
/// nonzero denominator.
pub proof fn lemma_fx_div_bound(a: int, b: int, ba: int)
    requires
        b != 0,
        abs_i(a) <= ba,
    ensures
        abs_i(fx_div(a, b)) <= ba * (FX_SCALE as int),
{
    let s = FX_SCALE as int;
    let q = (abs_i(a) * s) / abs_i(b);
    vstd::arithmetic::div_mod::lemma_div_pos_is_pos(abs_i(a) * s, abs_i(b));
    vstd::arithmetic::div_mod::lemma_div_is_ordered_by_denominator(abs_i(a) * s, 1, abs_i(b));
    assert(abs_i(a) * s <= ba * s) by (nonlinear_arith)
        requires
            abs_i(a) <= ba,
            s > 0,
    ;
}

/// A larger denominator of like sign gives a smaller fixed-point quotient
/// magnitude.
pub proof fn lemma_fx_div_denominator(a: int, b: int, bl: int)
    requires
        0 < bl <= abs_i(b),
    ensures
        abs_i(fx_div(a, b)) <= (abs_i(a) * (FX_SCALE as int)) / bl,
{
    let s = FX_SCALE as int;
    vstd::arithmetic::div_mod::lemma_div_pos_is_pos(abs_i(a) * s, abs_i(b));
    vstd::arithmetic::div_mod::lemma_div_is_ordered_by_denominator(abs_i(a) * s, bl, abs_i(b));
}

/// Products of whole units are exact: no rounding occurs.
pub proof fn lemma_fx_mul_units(a: int, b: int)
    ensures
        fx_mul(a * (FX_SCALE as int), b * (FX_SCALE as int)) == a * b * (FX_SCALE as int),
{
    let s = FX_SCALE as int;
    let p = (a * s) * (b * s);
    assert(p == s * (a * b * s)) by (nonlinear_arith)
        requires
            p == (a * s) * (b * s),
    ;
    if p >= 0 {
        vstd::arithmetic::div_mod::lemma_div_multiples_vanish(a * b * s, s);
    } else {
        assert(-p == s * (-(a * b * s))) by (nonlinear_arith)
            requires
                p == (a * s) * (b * s),
        ;
        vstd::arithmetic::div_mod::lemma_div_multiples_vanish(-(a * b * s), s);
    }
}

/// Multiplying by one is exact.
pub proof fn lemma_fx_mul_one(a: int)
    ensures
        fx_mul(a, FX_SCALE as int) == a,
{
    let s = FX_SCALE as int;
    assert(a * s == s * a) by (nonlinear_arith);
    if a >= 0 {
        vstd::arithmetic::div_mod::lemma_div_multiples_vanish(a, s);
    } else {
        assert(-(a * s) == s * (-a)) by (nonlinear_arith);
        vstd::arithmetic::div_mod::lemma_div_multiples_vanish(-a, s);
    }
}

/// Dividing a positive value by itself gives exactly one.
pub proof fn lemma_fx_div_self(a: int)
    requires
        a >= 1,
    ensures
        fx_div(a, a) == FX_SCALE,
{
    vstd::arithmetic::div_mod::lemma_div_multiples_vanish(FX_SCALE as int, a);
}

/// The fixed-point product is monotone in nonnegative operands.
pub proof fn lemma_fx_mul_mono(a: int, b: int, a2: int, b2: int)
    requires
        0 <= a <= a2,
        0 <= b <= b2,
    ensures
        0 <= fx_mul(a, b) <= fx_mul(a2, b2),
{
    let s = FX_SCALE as int;
    assert(0 <= a * b <= a2 * b2) by (nonlinear_arith)
        requires
            0 <= a <= a2,
            0 <= b <= b2,
    ;
    vstd::arithmetic::div_mod::lemma_div_pos_is_pos(a * b, s);
    vstd::arithmetic::div_mod::lemma_div_pos_is_pos(a2 * b2, s);
    vstd::arithmetic::div_mod::lemma_div_is_ordered(a * b, a2 * b2, s);
}

/// A product of unit-interval values stays in the unit interval.
pub proof fn lemma_unit_mul(a: int, b: int)
    requires
        0 <= a <= FX_SCALE,
        0 <= b <= FX_SCALE,
    ensures
        0 <= fx_mul(a, b) <= FX_SCALE,
        fx_mul(a, b) <= a,
        fx_mul(a, b) <= b,
{
    let s = FX_SCALE as int;
    assert(a * b >= 0) by (nonlinear_arith)
        requires
            a >= 0,
            b >= 0,
    ;
    vstd::arithmetic::div_mod::lemma_div_pos_is_pos(a * b, s);
    assert(a * b <= a * s) by (nonlinear_arith)
        requires
            b <= s,
            a >= 0,
    ;
    assert(a * b <= b * s) by (nonlinear_arith)
        requires
            a <= s,
            b >= 0,
    ;
    vstd::arithmetic::div_mod::lemma_div_is_ordered(a * b, a * s, s);
    vstd::arithmetic::div_mod::lemma_div_is_ordered(a * b, b * s, s);
    vstd::arithmetic::div_mod::lemma_div_multiples_vanish(a, s);
    vstd::arithmetic::div_mod::lemma_div_multiples_vanish(b, s);
}

/// The integer square root never decreases.
pub proof fn lemma_sqrt_floor_mono(m: int, n: int)
    requires
        0 <= m <= n,
    ensures
        sqrt_floor(m) <= sqrt_floor(n),
{
    lemma_sqrt_floor_bounds(m);
    lemma_sqrt_floor_bounds(n);
    let rm = sqrt_floor(m);
    let rn = sqrt_floor(n);
    if rn < rm {
        assert((rn + 1) * (rn + 1) <= rm * rm) by (nonlinear_arith)
            requires
                0 <= rn,
                rn < rm,
        ;
    }
}

/// The square root of a positive fixed-point value is positive.
pub proof fn lemma_fx_sqrt_pos(a: int)
    requires
        a >= 1,
    ensures
        fx_sqrt(a) >= 1,
{
    let s = FX_SCALE as int;
    assert(a * s >= s) by (nonlinear_arith)
        requires
            a >= 1,
            s > 0,
    ;
    lemma_sqrt_floor_bounds(a * s);
    let r = sqrt_floor(a * s);
    if r < 1 {
        assert(r == 0);
        assert(a * s < (r + 1) * (r + 1));
        assert((r + 1) * (r + 1) == 1) by (nonlinear_arith)
            requires
                r == 0,
        ;
        assert(false);
    }
}

/// Integer square root of a 128-bit value, by bisection.
fn isqrt_u128(n: u128) -> (r: u64)
    ensures
        (r as int) * (r as int) <= n as int,
        (n as int) < ((r as int) + 1) * ((r as int) + 1),
{
    let mut lo: u128 = 0;
    let mut hi: u128 = 0x1_0000_0000_0000_0000;
    proof {
        assert((hi as int) * (hi as int) > n as int) by (nonlinear_arith)
            requires
                hi == 0x1_0000_0000_0000_0000u128,
                n <= u128::MAX,
        ;
    }
    while hi - lo > 1
        invariant
            lo < hi,
            hi <= 0x1_0000_0000_0000_0000,
            (lo as int) * (lo as int) <= n as int,
            (n as int) < (hi as int) * (hi as int),
        decreases hi - lo,
    {
        let mid: u128 = lo + (hi - lo) / 2;
        proof {
            assert((mid as int) * (mid as int) <= (0xffff_ffff_ffff_ffff as int)
                * (0xffff_ffff_ffff_ffff as int)) by (nonlinear_arith)
                requires
                    mid <= 0xffff_ffff_ffff_ffffu128,
            ;
        }
        if mid * mid <= n {
            lo = mid;
        } else {
            hi = mid;
        }
    }
    lo as u64
}

impl Fx {
    /// The value zero.
    pub fn zero() -> (r: Fx)
        ensures
            r.raw == 0,
    {
        Fx { raw: 0 }
    }

    /// The value one.
    pub fn one() -> (r: Fx)
        ensures
            r.raw == FX_SCALE,
    {
        Fx { raw: FX_SCALE }
    }

    /// Builds a value directly from its raw representation.
    pub fn from_raw(raw: i64) -> (r: Fx)
        ensures
            r.raw == raw,
    {
        Fx { raw }
    }

    /// Converts an integer to the fixed-point value that stands for it.
    pub fn from_int(v: i64) -> (r: Fx)
        requires
            fits_raw(v * (FX_SCALE as int)),
        ensures
            r.raw == v * (FX_SCALE as int),
    {
        Fx { raw: v * FX_SCALE }
    }

    /// Addition.
    pub fn add(self, rhs: Fx) -> (r: Fx)
        requires
            fits_raw(self.raw + rhs.raw),
        ensures
            r.raw == self.raw + rhs.raw,
    {
        Fx { raw: self.raw + rhs.raw }
    }

    /// Subtraction.
    pub fn sub(self, rhs: Fx) -> (r: Fx)
        requires
            fits_raw(self.raw - rhs.raw),
        ensures
            r.raw == self.raw - rhs.raw,
    {
        Fx { raw: self.raw - rhs.raw }
    }

    /// Negation.
    pub fn neg(self) -> (r: Fx)
        requires
            fits_raw(self.raw as int),
        ensures
            r.raw == -(self.raw as int),
    {
        Fx { raw: -self.raw }
    }

    /// Magnitude.
    pub fn abs(self) -> (r: Fx)
        requires
            fits_raw(self.raw as int),
        ensures
            r.raw == abs_i(self.raw as int),
    {
        if self.raw < 0 {
            Fx { raw: -self.raw }
        } else {
            self
        }
    }

    /// The smaller of two values.
    pub fn min(self, rhs: Fx) -> (r: Fx)
        ensures
            r.raw == if self.raw <= rhs.raw {
                self.raw
            } else {
                rhs.raw
            },
    {
        if self.raw <= rhs.raw {
            self
        } else {
            rhs
        }
    }

    /// The larger of two values.
    pub fn max(self, rhs: Fx) -> (r: Fx)
        ensures
            r.raw == if self.raw >= rhs.raw {
                self.raw
            } else {
                rhs.raw
            },
    {
        if self.raw >= rhs.raw {
            self
        } else {
            rhs
        }
    }

    /// Fixed-point multiplication, rounded toward zero.
    pub fn mul(self, rhs: Fx) -> (r: Fx)
        requires
            fits_raw(fx_mul(self.raw as int, rhs.raw as int)),
        ensures
            r.raw == fx_mul(self.raw as int, rhs.raw as int),
    {
        let p: i128 = (self.raw as i128) * (rhs.raw as i128);
        if p < 0 {
            let m: u128 = (-p) as u128;
            let q: u128 = m / 65536;
            Fx { raw: -(q as i64) }
        } else {
            let m: u128 = p as u128;
            let q: u128 = m / 65536;
            Fx { raw: q as i64 }
        }
    }

    /// Fixed-point division, rounded toward zero.
    pub fn div(self, rhs: Fx) -> (r: Fx)
        requires
            rhs.raw != 0,
            fits_raw(fx_div(self.raw as int, rhs.raw as int)),
        ensures
            r.raw == fx_div(self.raw as int, rhs.raw as int),
    {
        let a: i128 = self.raw as i128;
        let b: i128 = rhs.raw as i128;
        let ma: u128 = if a < 0 {
            (-a) as u128
        } else {
            a as u128
        };
        let mb: u128 = if b < 0 {
            (-b) as u128
        } else {
            b as u128
        };
        let q: u128 = (ma * 65536) / mb;
        if (a < 0) != (b < 0) {
            Fx { raw: -(q as i64) }
        } else {
            Fx { raw: q as i64 }
        }
    }

    /// Fixed-point square root of a nonnegative value, rounded down.
    pub fn sqrt(self) -> (r: Fx)
        requires
            self.raw >= 0,
        ensures
            r.raw == fx_sqrt(self.raw as int),
            r.raw >= 0,
    {
        let n: u128 = (self.raw as u128) * 65536;
        let s: u64 = isqrt_u128(n);
        proof {
            lemma_sqrt_floor_is(n as int, s as int);
            assert((s as int) * (s as int) <= n as int);
            assert((n as int) <= 0x7fff_ffff_ffff_ffff * 65536);
            assert(s as int <= 0x7fff_ffff_ffff) by (nonlinear_arith)
                requires
                    (s as int) * (s as int) <= 0x7fff_ffff_ffff_ffff * 65536,
                    s >= 0,
            ;
        }
        Fx { raw: s as i64 }
    }
}

} // verus!
