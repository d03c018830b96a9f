//! Cosine-weighted hemisphere sampling.
//!
//! `CosinePDF` carries an orthonormal basis built around a surface
//! normal. Sampling draws two uniform values and maps them through the
//! standard cosine-weighted construction, so the sampled direction is an
//! exact function of the basis and the two draws. The density value is
//! `|cos(theta)| / pi`.

use vstd::prelude::*;

use crate::data::MAX_DIR;
use crate::fixed::{abs_i, fx_mul, fx_sqrt, Fx, FX_SCALE};
use crate::rng::{unit_from, xorshift_stream, SeededRng};
use crate::trig::{cos_raw, sin_raw, TWO_PI_RAW};
use crate::vec3::{
    bounded3, dot3, len_sq3, lemma_prod_fit, lemma_scale_fit, v3_add, v3_cross, v3_normalized,
    v3_scale, Three,
};

verus! {

/// Raw fixed-point value of `1 / pi`.
pub const FRAC_1_PI_RAW: i64 = 20861;

/// A cosine-weighted distribution of directions about a normal, carried
/// by an orthonormal basis `(u, v, normal)`.
#[derive(Clone, Copy, Debug, PartialEq, Eq, Structural)]
#[verifier::ext_equal]
pub struct CosinePDF {
    pub normal: Three<Fx>,
    pub u: Three<Fx>,
    pub v: Three<Fx>,
}

/// The helper axis used to seed the basis: whichever coordinate axis the
/// normal is least aligned with.
pub open spec fn pdf_axis(normal: Three<Fx>) -> Three<Fx> {
    if abs_i(normal.x.raw as int) > 58982 {
        Three { x: Fx { raw: 0 }, y: Fx { raw: FX_SCALE }, z: Fx { raw: 0 } }
    } else {
        Three { x: Fx { raw: FX_SCALE }, y: Fx { raw: 0 }, z: Fx { raw: 0 } }
    }
}

/// The first tangent of the basis.
pub open spec fn pdf_u(normal: Three<Fx>) -> Three<Fx> {
    v3_normalized(v3_cross(normal, pdf_axis(normal)))
}

/// The second tangent of the basis.
pub open spec fn pdf_v(normal: Three<Fx>) -> Three<Fx> {
    v3_normalized(v3_cross(normal, pdf_u(normal)))
}

/// Whether the basis construction succeeds: both cross products are long
/// enough to normalize, and the tangents stay within direction bounds.
pub open spec fn pdf_basis_ok(normal: Three<Fx>) -> bool {
    &&& len_sq3(v3_cross(normal, pdf_axis(normal))) >= 1
    &&& bounded3(pdf_u(normal), MAX_DIR as int)
    &&& len_sq3(v3_cross(normal, pdf_u(normal))) >= 1
    &&& bounded3(pdf_v(normal), MAX_DIR as int)
}

/// The basis built around a normal, as a value.
pub open spec fn pdf_basis(normal: Three<Fx>) -> CosinePDF {
    CosinePDF { normal, u: pdf_u(normal), v: pdf_v(normal) }
}

/// The direction sampled from two unit draws: `sqrt(1 - r1)` up the
/// normal and `sqrt(r1)` around the circle at angle `2 pi r2`.
pub open spec fn cosine_dir(pdf: CosinePDF, r1: int, r2: int) -> Three<Fx> {
    let z = fx_sqrt(FX_SCALE - r1);
    let phi = fx_mul(TWO_PI_RAW as int, r2);
    let sr = fx_sqrt(r1);
    let x = fx_mul(cos_raw(phi), sr);
    let y = fx_mul(sin_raw(phi), sr);
    v3_add(v3_add(v3_scale(pdf.u, x), v3_scale(pdf.v, y)), v3_scale(pdf.normal, z))
}

/// The direction produced by one sample call, as a function of the draw
/// stream position.
pub open spec fn cosine_sample_model(pdf: CosinePDF, seed: u64, index: nat) -> Three<Fx> {
    cosine_dir(
        pdf,
        unit_from(xorshift_stream(seed, index)),
        unit_from(xorshift_stream(seed, index + 1)),
    )
}

/// Whether a basis is within direction bounds.
pub open spec fn pdf_wf(pdf: CosinePDF) -> bool {
    bounded3(pdf.normal, MAX_DIR as int) && bounded3(pdf.u, MAX_DIR as int) && bounded3(
        pdf.v,
        MAX_DIR as int,
    )
}

impl CosinePDF {
    /// Builds the orthonormal basis around `normal`. A degenerate normal,
    /// whose tangents cannot be normalized within bounds, yields nothing.
    pub fn oriented_towards(normal: Three<Fx>) -> (r: Option<CosinePDF>)
        requires
            bounded3(normal, MAX_DIR as int),
        ensures
            r is Some <==> pdf_basis_ok(normal),
            r is Some ==> r->0 == pdf_basis(normal) && pdf_wf(r->0),
    {
        let a: Three<Fx> = if normal.x.raw > 58982 || normal.x.raw < -58982 {
            Three::new(Fx::zero(), Fx::one(), Fx::zero())
        } else {
            Three::new(Fx::one(), Fx::zero(), Fx::zero())
        };
        proof {
            assert(a =~~= pdf_axis(normal));
            lemma_prod_fit(normal, a, MAX_DIR as int, FX_SCALE as int);
        }
        let cu = normal.cross(&a);
        proof {
            assert(cu =~~= v3_cross(normal, pdf_axis(normal)));
            assert(bounded3(cu, 0x8_0000));
            lemma_prod_fit(cu, cu, 0x8_0000, 0x8_0000);
        }
        if cu.length_squared().raw < 1 {
            return None;
        }
        let u = cu.normalized();
        proof {
            assert(u =~~= pdf_u(normal));
        }
        if !u.within(MAX_DIR) {
            return None;
        }
        proof {
            lemma_prod_fit(normal, u, MAX_DIR as int, MAX_DIR as int);
        }
        let cv = normal.cross(&u);
        proof {
            assert(cv =~~= v3_cross(normal, pdf_u(normal)));
            assert(bounded3(cv, 0x20_0000));
            lemma_prod_fit(cv, cv, 0x20_0000, 0x20_0000);
        }
        if cv.length_squared().raw < 1 {
            return None;
        }
        let v = cv.normalized();
        proof {
            assert(v =~~= pdf_v(normal));
        }
        if !v.within(MAX_DIR) {
            return None;
        }
        Some(CosinePDF { normal, u, v })
    }

    /// The sampled direction for two given unit draws.
    pub fn direction_from(&self, r1: Fx, r2: Fx) -> (d: Three<Fx>)
        requires
            pdf_wf(*self),
            0 <= r1.raw < FX_SCALE,
            0 <= r2.raw < FX_SCALE,
        ensures
            d == cosine_dir(*self, r1.raw as int, r2.raw as int),
    {
        let zin = Fx::one().sub(r1);
        let z = zin.sqrt();
        let phi = Fx::from_raw(TWO_PI_RAW).mul(r2);
        proof {
            crate::fixed::lemma_fx_mul_bound(
                TWO_PI_RAW as int,
                r2.raw as int,
                TWO_PI_RAW as int,
                FX_SCALE as int,
            );
            crate::fixed::lemma_sqrt_floor_bounds((zin.raw as int) * (FX_SCALE as int));
            crate::fixed::lemma_sqrt_floor_bounds((r1.raw as int) * (FX_SCALE as int));
            assert(z.raw <= FX_SCALE) by (nonlinear_arith)
                requires
                    (z.raw as int) * (z.raw as int) <= (zin.raw as int) * (FX_SCALE as int),
                    0 <= zin.raw <= FX_SCALE,
                    z.raw >= 0,
                    FX_SCALE == 65536,
            ;
        }
        let sr = r1.sqrt();
        proof {
            assert(sr.raw <= FX_SCALE) by (nonlinear_arith)
                requires
                    (sr.raw as int) * (sr.raw as int) <= (r1.raw as int) * (FX_SCALE as int),
                    0 <= r1.raw <= FX_SCALE,
                    sr.raw >= 0,
                    FX_SCALE == 65536,
            ;
        }
        let c = crate::trig::cos(phi);
        let s = crate::trig::sin(phi);
        proof {
            crate::fixed::lemma_fx_mul_bound(
                c.raw as int,
                sr.raw as int,
                FX_SCALE as int,
                FX_SCALE as int,
            );
            crate::fixed::lemma_fx_mul_bound(
                s.raw as int,
                sr.raw as int,
                FX_SCALE as int,
                FX_SCALE as int,
            );
        }
        let x = c.mul(sr);
        let y = s.mul(sr);
        proof {
            lemma_scale_fit(self.u, x.raw as int, MAX_DIR as int, FX_SCALE as int);
            lemma_scale_fit(self.v, y.raw as int, MAX_DIR as int, FX_SCALE as int);
            lemma_scale_fit(self.normal, z.raw as int, MAX_DIR as int, FX_SCALE as int);
        }
        let d = self.u.scale(x).add(self.v.scale(y)).add(self.normal.scale(z));
        proof {
            assert(d =~~= cosine_dir(*self, r1.raw as int, r2.raw as int));
        }
        d
    }

    /// Samples a direction using two fresh draws.
    pub fn sample(&self, rng: &mut SeededRng) -> (d: Three<Fx>)
        requires
            pdf_wf(*self),
        ensures
            d == cosine_sample_model(*self, old(rng).seed(), old(rng).drawn()),
            final(rng).seed() == old(rng).seed(),
            final(rng).drawn() == old(rng).drawn() + 2,
    {
        let r1 = rng.next_unit();
        let r2 = rng.next_unit();
        self.direction_from(r1, r2)
    }

    /// The density of the distribution in direction `d`:
    /// `|cos(theta)| / pi`.
    pub fn value(&self, d: &Three<Fx>) -> (r: Fx)
        requires
            pdf_wf(*self),
            bounded3(*d, MAX_DIR as int),
        ensures
            r.raw == abs_i(fx_mul(dot3(*d, self.normal), FRAC_1_PI_RAW as int)),
    {
        proof {
            lemma_prod_fit(*d, self.normal, MAX_DIR as int, MAX_DIR as int);
            crate::fixed::lemma_fx_mul_bound(
                dot3(*d, self.normal),
                FRAC_1_PI_RAW as int,
                0x30_0000,
                FRAC_1_PI_RAW as int,
            );
        }
        d.dot(&self.normal).mul(Fx::from_raw(FRAC_1_PI_RAW)).abs()
    }
}

} // verus!
