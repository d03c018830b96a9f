//! Three-component vectors.
//!
//! `Three<T>` is the generic point/direction/color carrier. All arithmetic
//! is provided on `Three<Fx>`, with exact contracts over the raw
//! fixed-point representation.

use vstd::prelude::*;

use crate::fixed::{abs_i, fits_raw, fx_div, fx_mul, fx_sqrt, Fx, FX_SCALE};
use crate::fixed::{lemma_fx_div_bound, lemma_fx_mul_bound};

verus! {

/// A triple of components: a point, a direction, or a color.
#[derive(Clone, Copy, Debug, PartialEq, Eq, Structural)]
#[verifier::ext_equal]
pub struct Three<T> {
    pub x: T,
    pub y: T,
    pub z: T,
}

impl<T> Three<T> {
    /// Builds a triple from its components.
    pub fn new(x: T, y: T, z: T) -> (r: Three<T>)
        ensures
            r.x == x,
            r.y == y,
            r.z == z,
    {
        Three { x, y, z }
    }
}

impl<T: Copy> Three<T> {
    /// Sets all three components to one value.
    pub fn fill(&mut self, value: T)
        ensures
            final(self).x == value,
            final(self).y == value,
            final(self).z == value,
    {
        self.x = value;
        self.y = value;
        self.z = value;
    }
}

/// Whether every component's magnitude is at most `m`.
pub open spec fn bounded3(v: Three<Fx>, m: int) -> bool {
    abs_i(v.x.raw as int) <= m && abs_i(v.y.raw as int) <= m && abs_i(v.z.raw as int) <= m
}

/// Raw value of the dot product of two vectors.
pub open spec fn dot3(a: Three<Fx>, b: Three<Fx>) -> int {
    fx_mul(a.x.raw as int, b.x.raw as int) + fx_mul(a.y.raw as int, b.y.raw as int) + fx_mul(
        a.z.raw as int,
        b.z.raw as int,
    )
}

/// Whether the dot product of two vectors can be computed without leaving
/// the representation.
pub open spec fn dot3_fits(a: Three<Fx>, b: Three<Fx>) -> bool {
    let px = fx_mul(a.x.raw as int, b.x.raw as int);
    let py = fx_mul(a.y.raw as int, b.y.raw as int);
    let pz = fx_mul(a.z.raw as int, b.z.raw as int);
    fits_raw(px) && fits_raw(py) && fits_raw(pz) && fits_raw(px + py) && fits_raw(px + py + pz)
}

/// Raw components of the cross product of two vectors.
pub open spec fn cross3_x(a: Three<Fx>, b: Three<Fx>) -> int {
    fx_mul(a.y.raw as int, b.z.raw as int) - fx_mul(a.z.raw as int, b.y.raw as int)
}

/// Raw components of the cross product of two vectors.
pub open spec fn cross3_y(a: Three<Fx>, b: Three<Fx>) -> int {
    fx_mul(a.z.raw as int, b.x.raw as int) - fx_mul(a.x.raw as int, b.z.raw as int)
}

/// Raw components of the cross product of two vectors.
pub open spec fn cross3_z(a: Three<Fx>, b: Three<Fx>) -> int {
    fx_mul(a.x.raw as int, b.y.raw as int) - fx_mul(a.y.raw as int, b.x.raw as int)
}

/// Whether the cross product of two vectors can be computed without
/// leaving the representation.
pub open spec fn cross3_fits(a: Three<Fx>, b: Three<Fx>) -> bool {
    fits_raw(fx_mul(a.y.raw as int, b.z.raw as int)) && fits_raw(
        fx_mul(a.z.raw as int, b.y.raw as int),
    ) && fits_raw(cross3_x(a, b)) && fits_raw(fx_mul(a.z.raw as int, b.x.raw as int)) && fits_raw(
        fx_mul(a.x.raw as int, b.z.raw as int),
    ) && fits_raw(cross3_y(a, b)) && fits_raw(fx_mul(a.x.raw as int, b.y.raw as int)) && fits_raw(
        fx_mul(a.y.raw as int, b.x.raw as int),
    ) && fits_raw(cross3_z(a, b))
}

/// Raw value of the squared length of a vector.
pub open spec fn len_sq3(v: Three<Fx>) -> int {
    dot3(v, v)
}

/// Raw value of the length of a vector.
pub open spec fn len3(v: Three<Fx>) -> int {
    fx_sqrt(len_sq3(v))
}

/// The componentwise sum, as a vector value.
pub open spec fn v3_add(a: Three<Fx>, b: Three<Fx>) -> Three<Fx> {
    Three {
        x: Fx { raw: (a.x.raw + b.x.raw) as i64 },
        y: Fx { raw: (a.y.raw + b.y.raw) as i64 },
        z: Fx { raw: (a.z.raw + b.z.raw) as i64 },
    }
}

/// The componentwise difference, as a vector value.
pub open spec fn v3_sub(a: Three<Fx>, b: Three<Fx>) -> Three<Fx> {
    Three {
        x: Fx { raw: (a.x.raw - b.x.raw) as i64 },
        y: Fx { raw: (a.y.raw - b.y.raw) as i64 },
        z: Fx { raw: (a.z.raw - b.z.raw) as i64 },
    }
}

/// The componentwise negation, as a vector value.
pub open spec fn v3_neg(a: Three<Fx>) -> Three<Fx> {
    Three {
        x: Fx { raw: (-a.x.raw) as i64 },
        y: Fx { raw: (-a.y.raw) as i64 },
        z: Fx { raw: (-a.z.raw) as i64 },
    }
}

/// The vector scaled by a raw scalar, as a vector value.
pub open spec fn v3_scale(a: Three<Fx>, s: int) -> Three<Fx> {
    Three {
        x: Fx { raw: fx_mul(a.x.raw as int, s) as i64 },
        y: Fx { raw: fx_mul(a.y.raw as int, s) as i64 },
        z: Fx { raw: fx_mul(a.z.raw as int, s) as i64 },
    }
}

/// The componentwise product, as a vector value.
pub open spec fn v3_mul(a: Three<Fx>, b: Three<Fx>) -> Three<Fx> {
    Three {
        x: Fx { raw: fx_mul(a.x.raw as int, b.x.raw as int) as i64 },
        y: Fx { raw: fx_mul(a.y.raw as int, b.y.raw as int) as i64 },
        z: Fx { raw: fx_mul(a.z.raw as int, b.z.raw as int) as i64 },
    }
}

/// The cross product, as a vector value.
pub open spec fn v3_cross(a: Three<Fx>, b: Three<Fx>) -> Three<Fx> {
    Three {
        x: Fx { raw: cross3_x(a, b) as i64 },
        y: Fx { raw: cross3_y(a, b) as i64 },
        z: Fx { raw: cross3_z(a, b) as i64 },
    }
}

/// The vector divided by its own length, as a vector value.
pub open spec fn v3_normalized(a: Three<Fx>) -> Three<Fx> {
    Three {
        x: Fx { raw: fx_div(a.x.raw as int, len3(a)) as i64 },
        y: Fx { raw: fx_div(a.y.raw as int, len3(a)) as i64 },
        z: Fx { raw: fx_div(a.z.raw as int, len3(a)) as i64 },
    }
}

impl Three<Fx> {
    /// The zero vector.
    pub fn zeros() -> (r: Three<Fx>)
        ensures
            r.x.raw == 0,
            r.y.raw == 0,
            r.z.raw == 0,
    {
        Three { x: Fx::zero(), y: Fx::zero(), z: Fx::zero() }
    }

    /// The all-ones vector.
    pub fn ones() -> (r: Three<Fx>)
        ensures
            r.x.raw == FX_SCALE,
            r.y.raw == FX_SCALE,
            r.z.raw == FX_SCALE,
    {
        Three { x: Fx::one(), y: Fx::one(), z: Fx::one() }
    }

    /// Componentwise addition.
    pub fn add(self, rhs: Three<Fx>) -> (r: Three<Fx>)
        requires
            fits_raw(self.x.raw + rhs.x.raw),
            fits_raw(self.y.raw + rhs.y.raw),
            fits_raw(self.z.raw + rhs.z.raw),
        ensures
            r.x.raw == self.x.raw + rhs.x.raw,
            r.y.raw == self.y.raw + rhs.y.raw,
            r.z.raw == self.z.raw + rhs.z.raw,
    {
        Three { x: self.x.add(rhs.x), y: self.y.add(rhs.y), z: self.z.add(rhs.z) }
    }

    /// Componentwise subtraction.
    pub fn sub(self, rhs: Three<Fx>) -> (r: Three<Fx>)
        requires
            fits_raw(self.x.raw - rhs.x.raw),
            fits_raw(self.y.raw - rhs.y.raw),
            fits_raw(self.z.raw - rhs.z.raw),
        ensures
            r.x.raw == self.x.raw - rhs.x.raw,
            r.y.raw == self.y.raw - rhs.y.raw,
            r.z.raw == self.z.raw - rhs.z.raw,
    {
        Three { x: self.x.sub(rhs.x), y: self.y.sub(rhs.y), z: self.z.sub(rhs.z) }
    }

    /// Componentwise negation.
    pub fn neg(self) -> (r: Three<Fx>)
        requires
            fits_raw(self.x.raw as int),
            fits_raw(self.y.raw as int),
            fits_raw(self.z.raw as int),
        ensures
            r.x.raw == -(self.x.raw as int),
            r.y.raw == -(self.y.raw as int),
            r.z.raw == -(self.z.raw as int),
    {
        Three { x: self.x.neg(), y: self.y.neg(), z: self.z.neg() }
    }

    /// Multiplication by a scalar.
    pub fn scale(self, rhs: Fx) -> (r: Three<Fx>)
        requires
            fits_raw(fx_mul(self.x.raw as int, rhs.raw as int)),
            fits_raw(fx_mul(self.y.raw as int, rhs.raw as int)),
            fits_raw(fx_mul(self.z.raw as int, rhs.raw as int)),
        ensures
            r.x.raw == fx_mul(self.x.raw as int, rhs.raw as int),
            r.y.raw == fx_mul(self.y.raw as int, rhs.raw as int),
            r.z.raw == fx_mul(self.z.raw as int, rhs.raw as int),
    {
        Three { x: self.x.mul(rhs), y: self.y.mul(rhs), z: self.z.mul(rhs) }
    }

    /// Componentwise (Hadamard) multiplication, as used for color
    /// attenuation.
    pub fn mul(self, rhs: Three<Fx>) -> (r: Three<Fx>)
        requires
            fits_raw(fx_mul(self.x.raw as int, rhs.x.raw as int)),
            fits_raw(fx_mul(self.y.raw as int, rhs.y.raw as int)),
            fits_raw(fx_mul(self.z.raw as int, rhs.z.raw as int)),
        ensures
            r.x.raw == fx_mul(self.x.raw as int, rhs.x.raw as int),
            r.y.raw == fx_mul(self.y.raw as int, rhs.y.raw as int),
            r.z.raw == fx_mul(self.z.raw as int, rhs.z.raw as int),
    {
        Three { x: self.x.mul(rhs.x), y: self.y.mul(rhs.y), z: self.z.mul(rhs.z) }
    }

    /// Division by a nonzero scalar.
    pub fn div(self, rhs: Fx) -> (r: Three<Fx>)
        requires
            rhs.raw != 0,
            fits_raw(fx_div(self.x.raw as int, rhs.raw as int)),
            fits_raw(fx_div(self.y.raw as int, rhs.raw as int)),
            fits_raw(fx_div(self.z.raw as int, rhs.raw as int)),
        ensures
            r.x.raw == fx_div(self.x.raw as int, rhs.raw as int),
            r.y.raw == fx_div(self.y.raw as int, rhs.raw as int),
            r.z.raw == fx_div(self.z.raw as int, rhs.raw as int),
    {
        Three { x: self.x.div(rhs), y: self.y.div(rhs), z: self.z.div(rhs) }
    }

    /// Dot product.
    pub fn dot(&self, rhs: &Three<Fx>) -> (r: Fx)
        requires
            dot3_fits(*self, *rhs),
        ensures
            r.raw == dot3(*self, *rhs),
    {
        self.x.mul(rhs.x).add(self.y.mul(rhs.y)).add(self.z.mul(rhs.z))
    }

    /// Squared length.
    pub fn length_squared(&self) -> (r: Fx)
        requires
            dot3_fits(*self, *self),
        ensures
            r.raw == len_sq3(*self),
            r.raw >= 0,
    {
        let r = self.dot(self);
        proof {
            lemma_len_sq3_nonneg(*self);
        }
        r
    }

    /// Cross product.
    pub fn cross(&self, other: &Three<Fx>) -> (r: Three<Fx>)
        requires
            cross3_fits(*self, *other),
        ensures
            r.x.raw == cross3_x(*self, *other),
            r.y.raw == cross3_y(*self, *other),
            r.z.raw == cross3_z(*self, *other),
    {
        Three {
            x: self.y.mul(other.z).sub(self.z.mul(other.y)),
            y: self.z.mul(other.x).sub(self.x.mul(other.z)),
            z: self.x.mul(other.y).sub(self.y.mul(other.x)),
        }
    }

    /// Length.
    pub fn length(&self) -> (r: Fx)
        requires
            dot3_fits(*self, *self),
        ensures
            r.raw == len3(*self),
            r.raw >= 0,
    {
        self.length_squared().sqrt()
    }

    /// The vector scaled to unit length.
    pub fn normalized(&self) -> (r: Three<Fx>)
        requires
            dot3_fits(*self, *self),
            len_sq3(*self) >= 1,
            fits_raw(self.x.raw * (FX_SCALE as int)),
            fits_raw(self.y.raw * (FX_SCALE as int)),
            fits_raw(self.z.raw * (FX_SCALE as int)),
        ensures
            r.x.raw == fx_div(self.x.raw as int, len3(*self)),
            r.y.raw == fx_div(self.y.raw as int, len3(*self)),
            r.z.raw == fx_div(self.z.raw as int, len3(*self)),
    {
        let len = self.length();
        proof {
            crate::fixed::lemma_fx_sqrt_pos(len_sq3(*self));
            lemma_fx_div_bound(self.x.raw as int, len.raw as int, abs_i(self.x.raw as int));
            lemma_fx_div_bound(self.y.raw as int, len.raw as int, abs_i(self.y.raw as int));
            lemma_fx_div_bound(self.z.raw as int, len.raw as int, abs_i(self.z.raw as int));
        }
        self.div(len)
    }

    /// Componentwise minimum.
    pub fn min(&self, other: &Three<Fx>) -> (r: Three<Fx>)
        ensures
            r.x.raw == if self.x.raw <= other.x.raw {
                self.x.raw
            } else {
                other.x.raw
            },
            r.y.raw == if self.y.raw <= other.y.raw {
                self.y.raw
            } else {
                other.y.raw
            },
            r.z.raw == if self.z.raw <= other.z.raw {
                self.z.raw
            } else {
                other.z.raw
            },
    {
        Three { x: self.x.min(other.x), y: self.y.min(other.y), z: self.z.min(other.z) }
    }

    /// Componentwise maximum.
    pub fn max(&self, other: &Three<Fx>) -> (r: Three<Fx>)
        ensures
            r.x.raw == if self.x.raw >= other.x.raw {
                self.x.raw
            } else {
                other.x.raw
            },
            r.y.raw == if self.y.raw >= other.y.raw {
                self.y.raw
            } else {
                other.y.raw
            },
            r.z.raw == if self.z.raw >= other.z.raw {
                self.z.raw
            } else {
                other.z.raw
            },
    {
        Three { x: self.x.max(other.x), y: self.y.max(other.y), z: self.z.max(other.z) }
    }

    /// Whether every component's magnitude is at most `m`.
    pub fn within(&self, m: i64) -> (r: bool)
        requires
            0 <= m,
        ensures
            r == bounded3(*self, m as int),
    {
        -m <= self.x.raw && self.x.raw <= m && -m <= self.y.raw && self.y.raw <= m && -m
            <= self.z.raw && self.z.raw <= m
    }

    /// Whether every component lies in the box spanned by `min` and `max`.
    pub fn between(&self, min: &Three<Fx>, max: &Three<Fx>) -> (r: bool)
        ensures
            r == (min.x.raw <= self.x.raw <= max.x.raw && min.y.raw <= self.y.raw <= max.y.raw
                && min.z.raw <= self.z.raw <= max.z.raw),
    {
        self.x.raw >= min.x.raw && self.x.raw <= max.x.raw && self.y.raw >= min.y.raw
            && self.y.raw <= max.y.raw && self.z.raw >= min.z.raw && self.z.raw <= max.z.raw
    }
}

/// The vector rotated about an axis by an angle in degrees, by
/// Rodrigues' formula:
/// `v cos(a) + (v x axis) sin(a) + axis (v . axis) (1 - cos(a))`.
#[verifier::opaque]
pub open spec fn spec_rotate(v: Three<Fx>, axis: Three<Fx>, angle: Fx) -> Three<Fx> {
    let theta = fx_mul(angle.raw as int, crate::data::RAD_PER_DEG_RAW as int);
    let c = crate::trig::cos_raw(theta);
    let s = crate::trig::sin_raw(theta);
    let k = fx_mul(dot3(v, axis), FX_SCALE - c);
    v3_add(v3_add(v3_scale(v, c), v3_scale(v3_cross(v, axis), s)), v3_scale(axis, k))
}

impl Three<Fx> {
    /// Rotates the vector about `axis` by `angle` degrees, by Rodrigues'
    /// formula. The axis should be unit length for the result to be a
    /// pure rotation.
    pub fn rotate(&self, axis: &Three<Fx>, angle: Fx) -> (r: Three<Fx>)
        requires
            bounded3(*self, crate::data::MAX_COORD as int),
            bounded3(*axis, crate::data::MAX_DIR as int),
            abs_i(angle.raw as int) <= 0x1_0000_0000,
        ensures
            r == spec_rotate(*self, *axis, angle),
    {
        proof {
            lemma_fx_mul_bound(
                angle.raw as int,
                crate::data::RAD_PER_DEG_RAW as int,
                0x1_0000_0000,
                crate::data::RAD_PER_DEG_RAW as int,
            );
        }
        let theta = angle.mul(Fx::from_raw(crate::data::RAD_PER_DEG_RAW));
        let c = crate::trig::cos(theta);
        let s = crate::trig::sin(theta);
        proof {
            lemma_scale_fit(*self, c.raw as int, crate::data::MAX_COORD as int, FX_SCALE as int);
            lemma_prod_fit(
                *self,
                *axis,
                crate::data::MAX_COORD as int,
                crate::data::MAX_DIR as int,
            );
            lemma_fx_mul_bound(
                dot3(*self, *axis),
                (FX_SCALE - c.raw) as int,
                0x1_0000_0000,
                2 * FX_SCALE,
            );
        }
        let vc = self.scale(c);
        let cr = self.cross(axis);
        proof {
            assert(cr =~~= v3_cross(*self, *axis));
            assert(bounded3(cr, 0x800_0000_0000));
            lemma_scale_fit(cr, s.raw as int, 0x800_0000_0000, FX_SCALE as int);
        }
        let crs = cr.scale(s);
        let k = self.dot(axis).mul(Fx::one().sub(c));
        proof {
            lemma_scale_fit(*axis, k.raw as int, crate::data::MAX_DIR as int, 0x4_0000_0000);
            assert(bounded3(vc, 0x1000_0000));
            assert(bounded3(crs, 0x800_0000_0000));
            lemma_ops_fit(vc, crs, 0x800_0000_0000);
        }
        let ak = axis.scale(k);
        let partial = vc.add(crs);
        proof {
            assert(bounded3(partial, 0x1000_0000_0000));
            assert(bounded3(ak, 0x1000_0000_0000));
            lemma_ops_fit(partial, ak, 0x1000_0000_0000);
        }
        let r = partial.add(ak);
        proof {
            reveal(crate::vec3::spec_rotate);
            assert(r =~~= spec_rotate(*self, *axis, angle));
        }
        r
    }
}

/// A vector dotted with itself is nonnegative.
pub proof fn lemma_len_sq3_nonneg(v: Three<Fx>)
    ensures
        len_sq3(v) >= 0,
        fx_mul(v.x.raw as int, v.x.raw as int) >= 0,
        fx_mul(v.y.raw as int, v.y.raw as int) >= 0,
        fx_mul(v.z.raw as int, v.z.raw as int) >= 0,
{
    assert(v.x.raw * v.x.raw >= 0) by (nonlinear_arith);
    assert(v.y.raw * v.y.raw >= 0) by (nonlinear_arith);
    assert(v.z.raw * v.z.raw >= 0) by (nonlinear_arith);
    crate::fixed::lemma_fx_mul_abs(v.x.raw as int, v.x.raw as int);
    crate::fixed::lemma_fx_mul_abs(v.y.raw as int, v.y.raw as int);
    crate::fixed::lemma_fx_mul_abs(v.z.raw as int, v.z.raw as int);
}

/// Componentwise bounds make every vector operation fit: the workhorse for
/// discharging arithmetic side conditions in the geometry.
pub proof fn lemma_ops_fit(a: Three<Fx>, b: Three<Fx>, m: int)
    requires
        0 <= m <= 0x2000_0000_0000_0000,
        bounded3(a, m),
        bounded3(b, m),
    ensures
        fits_raw(a.x.raw + b.x.raw),
        fits_raw(a.y.raw + b.y.raw),
        fits_raw(a.z.raw + b.z.raw),
        fits_raw(a.x.raw - b.x.raw),
        fits_raw(a.y.raw - b.y.raw),
        fits_raw(a.z.raw - b.z.raw),
{
}

/// Componentwise bounds make scaling by a bounded scalar fit.
pub proof fn lemma_scale_fit(a: Three<Fx>, s: int, ma: int, ms: int)
    requires
        0 <= ma,
        0 <= ms,
        bounded3(a, ma),
        abs_i(s) <= ms,
        ma * ms <= 0x1000_0000_0000_0000 * 0x1_0000,
    ensures
        fits_raw(fx_mul(a.x.raw as int, s)),
        fits_raw(fx_mul(a.y.raw as int, s)),
        fits_raw(fx_mul(a.z.raw as int, s)),
        abs_i(fx_mul(a.x.raw as int, s)) <= (ma * ms) / (FX_SCALE as int),
        abs_i(fx_mul(a.y.raw as int, s)) <= (ma * ms) / (FX_SCALE as int),
        abs_i(fx_mul(a.z.raw as int, s)) <= (ma * ms) / (FX_SCALE as int),
        (ma * ms) / (FX_SCALE as int) <= 0x1000_0000_0000_0000,
{
    lemma_fx_mul_bound(a.x.raw as int, s, ma, ms);
    lemma_fx_mul_bound(a.y.raw as int, s, ma, ms);
    lemma_fx_mul_bound(a.z.raw as int, s, ma, ms);
    vstd::arithmetic::div_mod::lemma_div_is_ordered(
        ma * ms,
        0x1000_0000_0000_0000int * 0x1_0000int,
        FX_SCALE as int,
    );
}

/// Componentwise bounds bound every product of components, and so the dot
/// and cross products.
pub proof fn lemma_prod_fit(a: Three<Fx>, b: Three<Fx>, ma: int, mb: int)
    requires
        0 <= ma,
        0 <= mb,
        ma * mb <= 0x1000_0000_0000_0000 * 0x1_0000,
        bounded3(a, ma),
        bounded3(b, mb),
    ensures
        dot3_fits(a, b),
        cross3_fits(a, b),
        abs_i(dot3(a, b)) <= 3 * ((ma * mb) / (FX_SCALE as int)),
        abs_i(cross3_x(a, b)) <= 2 * ((ma * mb) / (FX_SCALE as int)),
        abs_i(cross3_y(a, b)) <= 2 * ((ma * mb) / (FX_SCALE as int)),
        abs_i(cross3_z(a, b)) <= 2 * ((ma * mb) / (FX_SCALE as int)),
        (ma * mb) / (FX_SCALE as int) <= 0x1000_0000_0000_0000,
{
    let s = FX_SCALE as int;
    let cap = (ma * mb) / s;
    lemma_fx_mul_bound(a.x.raw as int, b.x.raw as int, ma, mb);
    lemma_fx_mul_bound(a.y.raw as int, b.y.raw as int, ma, mb);
    lemma_fx_mul_bound(a.z.raw as int, b.z.raw as int, ma, mb);
    lemma_fx_mul_bound(a.x.raw as int, b.y.raw as int, ma, mb);
    lemma_fx_mul_bound(a.x.raw as int, b.z.raw as int, ma, mb);
    lemma_fx_mul_bound(a.y.raw as int, b.x.raw as int, ma, mb);
    lemma_fx_mul_bound(a.y.raw as int, b.z.raw as int, ma, mb);
    lemma_fx_mul_bound(a.z.raw as int, b.x.raw as int, ma, mb);
    lemma_fx_mul_bound(a.z.raw as int, b.y.raw as int, ma, mb);
    vstd::arithmetic::div_mod::lemma_div_is_ordered(
        ma * mb,
        0x1000_0000_0000_0000int * 0x1_0000int,
        s,
    );
}

} // verus!
