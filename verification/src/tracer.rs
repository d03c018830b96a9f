//! Material scattering and the path-tracing integrator.
//!
//! Each material turns an incoming direction, a surface normal, and (for
//! the stochastic materials) one or two draws from the seeded stream into
//! either a scattered ray or an emission. Every interaction is an exact
//! function of its inputs and of the draw stream, so a whole traced path
//! is a mathematical function of the scene, the camera ray, and the seed.
//!
//! The integrator runs the bounce loop: intersect, consult the material,
//! multiply the running attenuation, and either continue, return the
//! attenuated emission, or return nothing when the ray escapes, the depth
//! budget runs out, or the path leaves the representable world box (the
//! fixed-point analogue of a non-finite float being filtered out).

use vstd::prelude::*;

use crate::data::{
    color_wf, material_wf, ray_wf, CanHit, Diffuse, Dielectric, Hit, Light, LightInteraction,
    Material, Mirror, Ray, MAX_DIR, MAX_T,
};
use crate::fixed::{abs_i, fits_raw, fx_div, fx_mul, fx_sqrt, Fx, FX_SCALE};
use crate::pdf::{cosine_dir, pdf_basis, pdf_basis_ok, CosinePDF};
use crate::rng::{unit_from, xorshift_stream, SeededRng};
use crate::scene::{lemma_scene_scan_props, scene_scan, Scene, SceneTracer};
use crate::vec3::{
    bounded3, dot3, len_sq3, lemma_prod_fit, lemma_scale_fit, v3_add, v3_mul, v3_neg,
    v3_normalized, v3_scale, v3_sub, Three,
};

verus! {

/// Rays start a little above the surface they scatter from.
pub const T_EPS: i64 = 66;

/// The mirror image of `d` about a unit normal:
/// `d - 2 (d . n) n`.
pub open spec fn spec_reflect(d: Three<Fx>, n: Three<Fx>) -> Three<Fx> {
    v3_sub(d, v3_scale(n, 2 * dot3(d, n)))
}

/// Reflects `d` about the unit normal `n`.
pub fn reflect(d: &Three<Fx>, n: &Three<Fx>) -> (r: Three<Fx>)
    requires
        bounded3(*d, MAX_DIR as int),
        bounded3(*n, MAX_DIR as int),
    ensures
        r == spec_reflect(*d, *n),
        bounded3(r, 0x200_0000),
{
    proof {
        lemma_prod_fit(*d, *n, MAX_DIR as int, MAX_DIR as int);
        lemma_scale_fit(*n, 2 * dot3(*d, *n), MAX_DIR as int, 0x60_0000);
    }
    let k = d.dot(n);
    let k2 = k.add(k);
    let scaled = n.scale(k2);
    let r = d.sub(scaled);
    proof {
        assert(r =~~= spec_reflect(*d, *n));
    }
    r
}

/// The direction a diffuse surface scatters into: a cosine-weighted
/// sample about the normal, or the normal itself if the basis is
/// degenerate.
pub open spec fn diffuse_dir(normal: Three<Fx>, b1: u64, b2: u64) -> Three<Fx> {
    if pdf_basis_ok(normal) {
        cosine_dir(pdf_basis(normal), unit_from(b1), unit_from(b2))
    } else {
        normal
    }
}

/// Scatters off a diffuse surface. Because the sampling density is
/// `cos(theta) / pi` and the reflectance is `albedo / pi`, the cosine and
/// density cancel exactly: the attenuation is the albedo itself,
/// identical for every sample. Consumes two draws.
pub fn diffuse_interaction(m: &Diffuse, normal: &Three<Fx>, rng: &mut SeededRng) -> (r:
    LightInteraction)
    requires
        bounded3(*normal, MAX_DIR as int),
    ensures
        r == (LightInteraction::Scatter {
            direction: diffuse_dir(
                *normal,
                xorshift_stream(old(rng).seed(), old(rng).drawn()),
                xorshift_stream(old(rng).seed(), old(rng).drawn() + 1),
            ),
            attenuation: m.rgb,
        }),
        final(rng).seed() == old(rng).seed(),
        final(rng).drawn() == old(rng).drawn() + 2,
{
    let r1 = rng.next_unit();
    let r2 = rng.next_unit();
    let direction = match CosinePDF::oriented_towards(*normal) {
        Some(pdf) => pdf.direction_from(r1, r2),
        None => *normal,
    };
    LightInteraction::Scatter { direction, attenuation: m.rgb }
}

/// Scatters off a mirror: the deterministic specular reflection, with the
/// mirror's tint as attenuation. Consumes no draws.
pub fn mirror_interaction(m: &Mirror, in_direction: &Three<Fx>, normal: &Three<Fx>) -> (r:
    LightInteraction)
    requires
        bounded3(*in_direction, MAX_DIR as int),
        bounded3(*normal, MAX_DIR as int),
    ensures
        r == (LightInteraction::Scatter {
            direction: spec_reflect(*in_direction, *normal),
            attenuation: m.rgb,
        }),
{
    LightInteraction::Scatter {
        direction: reflect(in_direction, normal),
        attenuation: m.rgb,
    }
}

/// The refraction ratio: the index when exiting, its reciprocal when
/// entering.
pub open spec fn diel_ratio(m: Dielectric, cos: int) -> int {
    if cos > 0 {
        m.ior.raw as int
    } else {
        fx_div(FX_SCALE as int, m.ior.raw as int)
    }
}

/// The outward normal: flipped when the ray exits the medium.
pub open spec fn diel_outward(n: Three<Fx>, cos: int) -> Three<Fx> {
    if cos > 0 {
        v3_neg(n)
    } else {
        n
    }
}

/// The sine of the incidence angle, from `sin^2 = 1 - cos^2` clamped at
/// zero.
pub open spec fn diel_sin(cos: int) -> int {
    let s2 = if FX_SCALE - fx_mul(cos, cos) >= 0 {
        FX_SCALE - fx_mul(cos, cos)
    } else {
        0
    };
    fx_sqrt(s2)
}

/// Whether total internal reflection is forced: the refracted sine would
/// exceed one.
pub open spec fn diel_tir(m: Dielectric, d: Three<Fx>, n: Three<Fx>) -> bool {
    let cos = dot3(d, n);
    fx_mul(diel_ratio(m, cos), diel_sin(cos)) > FX_SCALE
}

/// Schlick's approximation of the Fresnel reflectance:
/// `r0 + (1 - r0) (1 - cos)^5` with `r0 = ((1 - q) / (1 + q))^2` for
/// refraction ratio `q`.
pub open spec fn schlick(cos_abs: int, ratio: int) -> int {
    let r0 = fx_div(FX_SCALE - ratio, FX_SCALE + ratio);
    let r1 = fx_mul(r0, r0);
    let p = FX_SCALE - cos_abs;
    let p5 = fx_mul(fx_mul(fx_mul(fx_mul(p, p), p), p), p);
    r1 + fx_mul(FX_SCALE - r1, p5)
}

/// The refracted direction, before normalization.
pub open spec fn diel_refracted(m: Dielectric, d: Three<Fx>, n: Three<Fx>) -> Three<Fx> {
    let cos = dot3(d, n);
    let outward = diel_outward(n, cos);
    let ratio = diel_ratio(m, cos);
    let perp = v3_scale(v3_add(d, v3_scale(outward, abs_i(cos))), ratio);
    let k = abs_i(FX_SCALE - len_sq3(perp));
    let para = v3_scale(outward, -fx_sqrt(k));
    v3_add(perp, para)
}

/// The direction a dielectric scatters into, given the unit draw that
/// decides between reflection and refraction. Total internal reflection
/// and a reflectance above the draw reflect; otherwise the ray refracts,
/// falling back to reflection if the refracted direction degenerates.
pub open spec fn diel_dir(m: Dielectric, d: Three<Fx>, n: Three<Fx>, bu: u64) -> Three<Fx> {
    let cos = dot3(d, n);
    let outward = diel_outward(n, cos);
    if diel_tir(m, d, n) {
        spec_reflect(d, outward)
    } else if schlick(abs_i(cos), diel_ratio(m, cos)) > unit_from(bu) {
        spec_reflect(d, outward)
    } else {
        let refr = diel_refracted(m, d, n);
        if len_sq3(refr) < 1 || !bounded3(v3_normalized(refr), MAX_DIR as int) {
            spec_reflect(d, outward)
        } else {
            v3_normalized(refr)
        }
    }
}

/// Whatever directions are sampled, a diffuse surface attenuates by its
/// albedo exactly — never by the albedo scaled per sample. The cosine of
/// the sampled direction and the cosine-weighted sampling density cancel,
/// so re-multiplying by the cosine would count it twice.
pub proof fn lemma_diffuse_attenuation_is_albedo(
    m: Diffuse,
    d: Three<Fx>,
    n: Three<Fx>,
    seed: u64,
    index: nat,
)
    ensures
        interact_model(Material::Diffuse(m), d, n, seed, index).0 == (LightInteraction::Scatter {
            direction: diffuse_dir(
                n,
                xorshift_stream(seed, index),
                xorshift_stream(seed, index + 1),
            ),
            attenuation: m.rgb,
        }),
{
}

/// At normal incidence (cosine one) Schlick's reflectance is exactly
/// `r0 = ((1 - q) / (1 + q))^2`: the fifth power of `1 - cos` vanishes.
pub proof fn lemma_schlick_normal_incidence(ratio: int)
    ensures
        schlick(FX_SCALE as int, ratio) == fx_mul(
            fx_div(FX_SCALE - ratio, FX_SCALE + ratio),
            fx_div(FX_SCALE - ratio, FX_SCALE + ratio),
        ),
{
    let s = FX_SCALE as int;
    assert(fx_mul(0, 0) == 0) by {
        vstd::arithmetic::div_mod::lemma_div_of0(s);
    }
    let r1 = fx_mul(fx_div(s - ratio, s + ratio), fx_div(s - ratio, s + ratio));
    assert(fx_mul(s - r1, 0) == 0) by {
        assert((s - r1) * 0 == 0) by (nonlinear_arith);
        vstd::arithmetic::div_mod::lemma_div_of0(s);
    }
}

/// For a physical refraction ratio, `r0^2` stays in the unit interval,
/// strictly below one.
pub proof fn lemma_schlick_r1_bound(ratio: int)
    requires
        1 <= ratio,
    ensures
        0 <= fx_mul(fx_div(FX_SCALE - ratio, FX_SCALE + ratio), fx_div(FX_SCALE - ratio, FX_SCALE + ratio))
            < FX_SCALE,
{
    let s = FX_SCALE as int;
    let r0 = fx_div(s - ratio, s + ratio);
    // |r0| < 1, so r1 = r0^2 stays in [0, 1).
    assert(abs_i(s - ratio) * s < (s + ratio) * s) by (nonlinear_arith)
        requires
            abs_i(s - ratio) < s + ratio,
            s > 0,
    ;
    vstd::arithmetic::div_mod::lemma_multiply_divide_lt(abs_i(s - ratio) * s, s + ratio, s);
    assert(abs_i(r0) < s);
    crate::fixed::lemma_fx_mul_abs(r0, r0);
    assert(r0 * r0 >= 0) by (nonlinear_arith);
    let r1 = fx_mul(r0, r0);
    assert(r0 * r0 < s * s) by (nonlinear_arith)
        requires
            abs_i(r0) < s,
    ;
    vstd::arithmetic::div_mod::lemma_div_multiples_vanish(s, s);
    assert(r1 <= (s * s) / s) by {
        vstd::arithmetic::div_mod::lemma_div_is_ordered(r0 * r0, s * s, s);
    }
    assert(r1 < s) by {
        if r1 == s {
            assert(r0 * r0 >= s * s) by {
                vstd::arithmetic::div_mod::lemma_fundamental_div_mod(r0 * r0, s);
                vstd::arithmetic::div_mod::lemma_mod_division_less_than_divisor(r0 * r0, s);
                assert(s * ((r0 * r0) / s) == s * s ==> r0 * r0 >= s * s) by (nonlinear_arith)
                    requires
                        r0 * r0 == s * ((r0 * r0) / s) + (r0 * r0) % s,
                        (r0 * r0) % s >= 0,
                ;
            }
        }
    }
}

/// At grazing incidence (cosine zero) Schlick's reflectance is exactly
/// one, for any physical refraction ratio.
pub proof fn lemma_schlick_grazing(ratio: int)
    requires
        1 <= ratio,
    ensures
        schlick(0, ratio) == FX_SCALE,
{
    let s = FX_SCALE as int;
    lemma_schlick_r1_bound(ratio);
    let r0 = fx_div(s - ratio, s + ratio);
    let r1 = fx_mul(r0, r0);
    // (1 - 0)^5 is exactly one, and multiplying by one is exact.
    crate::fixed::lemma_fx_mul_units(1, 1);
    crate::fixed::lemma_fx_mul_one(s);
    assert(fx_mul(s, s) == s) by {
        crate::fixed::lemma_fx_mul_one(s);
    }
    crate::fixed::lemma_fx_mul_one(s - r1);
    assert(schlick(0, ratio) == r1 + (s - r1));
}

/// The reflectance never decreases as the incidence angle steepens:
/// for a physical refraction ratio, Schlick's formula is monotone
/// non-increasing in the cosine. Together with the exact endpoint
/// lemmas, the reflectance rises from `r0^2` at normal incidence toward
/// one at grazing incidence.
pub proof fn lemma_schlick_monotone(cos1: int, cos2: int, ratio: int)
    requires
        0 <= cos1 <= cos2 <= FX_SCALE,
        1 <= ratio,
    ensures
        schlick(cos2, ratio) <= schlick(cos1, ratio),
{
    let s = FX_SCALE as int;
    lemma_schlick_r1_bound(ratio);
    let r0 = fx_div(s - ratio, s + ratio);
    let r1 = fx_mul(r0, r0);
    let p1 = s - cos1;
    let p2 = s - cos2;
    // Each power stage preserves 0 <= p2-chain <= p1-chain.
    crate::fixed::lemma_fx_mul_mono(p2, p2, p1, p1);
    crate::fixed::lemma_fx_mul_mono(fx_mul(p2, p2), p2, fx_mul(p1, p1), p1);
    crate::fixed::lemma_fx_mul_mono(
        fx_mul(fx_mul(p2, p2), p2),
        p2,
        fx_mul(fx_mul(p1, p1), p1),
        p1,
    );
    crate::fixed::lemma_fx_mul_mono(
        fx_mul(fx_mul(fx_mul(p2, p2), p2), p2),
        p2,
        fx_mul(fx_mul(fx_mul(p1, p1), p1), p1),
        p1,
    );
    let p5_1 = fx_mul(fx_mul(fx_mul(fx_mul(p1, p1), p1), p1), p1);
    let p5_2 = fx_mul(fx_mul(fx_mul(fx_mul(p2, p2), p2), p2), p2);
    crate::fixed::lemma_fx_mul_mono(s - r1, p5_2, s - r1, p5_1);
}

/// Beyond the critical angle the scatter rule always reflects: total
/// internal reflection never refracts, and consumes no randomness.
pub proof fn lemma_tir_always_reflects(m: Dielectric, d: Three<Fx>, n: Three<Fx>, seed: u64, index: nat)
    requires
        diel_tir(m, d, n),
    ensures
        interact_model(Material::Dielectric(m), d, n, seed, index) == (
            (LightInteraction::Scatter {
                direction: spec_reflect(d, diel_outward(n, dot3(d, n))),
                attenuation: m.rgb,
            }),
            index,
        ),
        forall|bu: u64| diel_dir(m, d, n, bu) == spec_reflect(d, diel_outward(n, dot3(d, n))),
{
}

/// Scatters through a dielectric surface. Consumes one draw unless total
/// internal reflection forces a mirror bounce.
pub fn dielectric_interaction(
    m: &Dielectric,
    in_direction: &Three<Fx>,
    normal: &Three<Fx>,
    rng: &mut SeededRng,
) -> (r: LightInteraction)
    requires
        material_wf(Material::Dielectric(*m)),
        bounded3(*in_direction, MAX_DIR as int),
        bounded3(*normal, MAX_DIR as int),
    ensures
        r == (LightInteraction::Scatter {
            direction: if diel_tir(*m, *in_direction, *normal) {
                spec_reflect(*in_direction, diel_outward(*normal, dot3(*in_direction, *normal)))
            } else {
                diel_dir(
                    *m,
                    *in_direction,
                    *normal,
                    xorshift_stream(old(rng).seed(), old(rng).drawn()),
                )
            },
            attenuation: m.rgb,
        }),
        final(rng).seed() == old(rng).seed(),
        final(rng).drawn() == old(rng).drawn() + if diel_tir(*m, *in_direction, *normal) {
            0int
        } else {
            1int
        },
{
    proof {
        lemma_prod_fit(*in_direction, *normal, MAX_DIR as int, MAX_DIR as int);
    }
    let cos = in_direction.dot(normal);
    let exiting = cos.raw > 0;
    let outward = if exiting {
        normal.neg()
    } else {
        *normal
    };
    proof {
        assert(outward =~~= diel_outward(*normal, dot3(*in_direction, *normal)));
        // The reciprocal ratio (1 / ior) stays within one unit.
        crate::fixed::lemma_fx_div_denominator(FX_SCALE as int, m.ior.raw as int, FX_SCALE as int);
        vstd::arithmetic::div_mod::lemma_div_pos_is_pos(
            (FX_SCALE as int) * (FX_SCALE as int),
            m.ior.raw as int,
        );
    }
    let ratio = if exiting {
        m.ior
    } else {
        Fx::one().div(m.ior)
    };
    let cos_abs = cos.abs();
    proof {
        crate::fixed::lemma_fx_mul_bound(cos.raw as int, cos.raw as int, 0x30_0000, 0x30_0000);
        crate::fixed::lemma_fx_mul_abs(cos.raw as int, cos.raw as int);
        assert((cos.raw as int) * (cos.raw as int) >= 0) by (nonlinear_arith);
    }
    let cos2 = cos.mul(cos);
    let s2 = Fx::one().sub(cos2).max(Fx::zero());
    let sin = s2.sqrt();
    proof {
        crate::fixed::lemma_sqrt_floor_bounds((s2.raw as int) * (FX_SCALE as int));
        assert(sin.raw <= FX_SCALE) by (nonlinear_arith)
            requires
                (sin.raw as int) * (sin.raw as int) <= (s2.raw as int) * (FX_SCALE as int),
                0 <= s2.raw <= FX_SCALE,
                sin.raw >= 0,
                FX_SCALE == 65536,
        ;
        crate::fixed::lemma_fx_mul_bound(
            ratio.raw as int,
            sin.raw as int,
            0x10_0000,
            FX_SCALE as int,
        );
    }
    let rs = ratio.mul(sin);
    if rs.raw > FX_SCALE {
        // Total internal reflection: no refracted ray exists.
        return LightInteraction::Scatter {
            direction: reflect(in_direction, &outward),
            attenuation: m.rgb,
        };
    }
    let u = rng.next_unit();
    proof {
        crate::fixed::lemma_fx_div_denominator(
            FX_SCALE - ratio.raw,
            (FX_SCALE + ratio.raw) as int,
            FX_SCALE as int,
        );
        vstd::arithmetic::div_mod::lemma_div_multiples_vanish(
            abs_i(FX_SCALE - ratio.raw as int),
            FX_SCALE as int,
        );
    }
    let r0 = Fx::one().sub(ratio).div(Fx::one().add(ratio));
    proof {
        crate::fixed::lemma_fx_mul_bound(r0.raw as int, r0.raw as int, 0xF_0000, 0xF_0000);
    }
    let r1 = r0.mul(r0);
    let p = Fx::one().sub(cos_abs);
    proof {
        crate::fixed::lemma_fx_mul_bound(p.raw as int, p.raw as int, 0x31_0000, 0x31_0000);
        crate::fixed::lemma_fx_mul_bound(
            fx_mul(p.raw as int, p.raw as int),
            p.raw as int,
            0xA00_0000,
            0x31_0000,
        );
        crate::fixed::lemma_fx_mul_bound(
            fx_mul(fx_mul(p.raw as int, p.raw as int), p.raw as int),
            p.raw as int,
            0x2_0000_0000,
            0x31_0000,
        );
        crate::fixed::lemma_fx_mul_bound(
            fx_mul(fx_mul(fx_mul(p.raw as int, p.raw as int), p.raw as int), p.raw as int),
            p.raw as int,
            0x70_0000_0000,
            0x31_0000,
        );
    }
    let p5 = p.mul(p).mul(p).mul(p).mul(p);
    proof {
        crate::fixed::lemma_fx_mul_bound(
            FX_SCALE - r1.raw as int,
            p5.raw as int,
            0xE2_0000,
            0x1600_0000_0000,
        );
    }
    let refl = r1.add(Fx::one().sub(r1).mul(p5));
    let direction: Three<Fx> = if refl.raw > u.raw {
        reflect(in_direction, &outward)
    } else {
        proof {
            lemma_scale_fit(outward, cos_abs.raw as int, MAX_DIR as int, 0x30_0000);
        }
        let flipped = outward.scale(cos_abs);
        proof {
            assert(bounded3(flipped, 0x100_0000));
            crate::vec3::lemma_ops_fit(*in_direction, flipped, 0x100_0000);
        }
        let inner = in_direction.add(flipped);
        proof {
            assert(bounded3(inner, 0x200_0000));
            lemma_scale_fit(inner, ratio.raw as int, 0x200_0000, 0x10_0000);
        }
        let perp = inner.scale(ratio);
        proof {
            assert(bounded3(perp, 0x2000_0000));
            lemma_prod_fit(perp, perp, 0x2000_0000, 0x2000_0000);
        }
        let pls = perp.length_squared();
        let k = Fx::one().sub(pls).abs();
        let sq = k.sqrt();
        proof {
            crate::fixed::lemma_sqrt_floor_bounds((k.raw as int) * (FX_SCALE as int));
            assert(sq.raw <= 0x4000_0000) by (nonlinear_arith)
                requires
                    (sq.raw as int) * (sq.raw as int) <= (k.raw as int) * (FX_SCALE as int),
                    0 <= k.raw <= 0xD00_0000_0000,
                    sq.raw >= 0,
                    FX_SCALE == 65536,
            ;
            lemma_scale_fit(outward, -(sq.raw as int), MAX_DIR as int, 0x4000_0000);
        }
        let para = outward.scale(sq.neg());
        proof {
            assert(bounded3(para, 0x1_0000_0000));
            crate::vec3::lemma_ops_fit(perp, para, 0x1_0000_0000);
        }
        let refr = perp.add(para);
        proof {
            assert(refr =~~= diel_refracted(*m, *in_direction, *normal));
            assert(bounded3(refr, 0x2_0000_0000));
            lemma_prod_fit(refr, refr, 0x2_0000_0000, 0x2_0000_0000);
        }
        if refr.length_squared().raw < 1 {
            reflect(in_direction, &outward)
        } else {
            let nd = refr.normalized();
            proof {
                assert(nd =~~= v3_normalized(diel_refracted(*m, *in_direction, *normal)));
            }
            if !nd.within(MAX_DIR) {
                reflect(in_direction, &outward)
            } else {
                nd
            }
        }
    };
    LightInteraction::Scatter { direction, attenuation: m.rgb }
}

/// Ends the path at an emitter: the emitted radiance is `color * power`.
/// Consumes no draws.
pub fn light_interaction(l: &Light) -> (r: LightInteraction)
    requires
        material_wf(Material::Light(*l)),
    ensures
        r == (LightInteraction::Emit { emission: v3_scale(l.rgb, l.power.raw as int) }),
{
    proof {
        lemma_scale_fit(l.rgb, l.power.raw as int, FX_SCALE as int, crate::data::MAX_POWER as int);
    }
    let emission = l.rgb.scale(l.power);
    proof {
        assert(emission =~~= v3_scale(l.rgb, l.power.raw as int));
    }
    LightInteraction::Emit { emission }
}

/// What a material does with an incoming ray at position `index` of the
/// draw stream, and the stream position afterwards.
pub open spec fn interact_model(
    m: Material,
    d: Three<Fx>,
    n: Three<Fx>,
    seed: u64,
    index: nat,
) -> (LightInteraction, nat) {
    match m {
        Material::Diffuse(dm) => (
            LightInteraction::Scatter {
                direction: diffuse_dir(
                    n,
                    xorshift_stream(seed, index),
                    xorshift_stream(seed, index + 1),
                ),
                attenuation: dm.rgb,
            },
            index + 2,
        ),
        Material::Mirror(mm) => (
            LightInteraction::Scatter { direction: spec_reflect(d, n), attenuation: mm.rgb },
            index,
        ),
        Material::Dielectric(dm) => if diel_tir(dm, d, n) {
            (
                LightInteraction::Scatter {
                    direction: spec_reflect(d, diel_outward(n, dot3(d, n))),
                    attenuation: dm.rgb,
                },
                index,
            )
        } else {
            (
                LightInteraction::Scatter {
                    direction: diel_dir(dm, d, n, xorshift_stream(seed, index)),
                    attenuation: dm.rgb,
                },
                index + 1,
            )
        },
        Material::Light(lm) => (
            LightInteraction::Emit { emission: v3_scale(lm.rgb, lm.power.raw as int) },
            index,
        ),
    }
}

/// Dispatches to the material's scattering rule.
pub fn material_interaction(
    material: &Material,
    in_direction: &Three<Fx>,
    normal: &Three<Fx>,
    rng: &mut SeededRng,
) -> (r: LightInteraction)
    requires
        material_wf(*material),
        bounded3(*in_direction, MAX_DIR as int),
        bounded3(*normal, MAX_DIR as int),
    ensures
        r == interact_model(
            *material,
            *in_direction,
            *normal,
            old(rng).seed(),
            old(rng).drawn(),
        ).0,
        final(rng).seed() == old(rng).seed(),
        final(rng).drawn() == interact_model(
            *material,
            *in_direction,
            *normal,
            old(rng).seed(),
            old(rng).drawn(),
        ).1,
        r is Scatter ==> color_wf(r->Scatter_attenuation),
{
    match material {
        Material::Diffuse(m) => diffuse_interaction(m, normal, rng),
        Material::Mirror(m) => mirror_interaction(m, in_direction, normal),
        Material::Dielectric(m) => dielectric_interaction(m, in_direction, normal, rng),
        Material::Light(m) => light_interaction(m),
    }
}

/// The estimated radiance and final stream position of a path traced
/// with `depth` remaining bounces, a running attenuation, and draws
/// starting at `index`: the exact unrolling of the bounce loop.
pub open spec fn trace_rec(
    scene: Scene,
    ray: Ray,
    atten: Three<Fx>,
    depth: int,
    seed: u64,
    index: nat,
) -> (Option<Three<Fx>>, nat)
    decreases depth,
{
    if depth <= 0 {
        (None, index)
    } else {
        match scene_scan(
            scene,
            ray,
            Fx { raw: T_EPS },
            Fx { raw: MAX_T },
            scene.objects().len() as int,
        ) {
            None => (None, index),
            Some(hit) => {
                let m = scene.material_of(hit.object_index as int);
                let stepped = interact_model(m, ray.direction, hit.normal, seed, index);
                match stepped.0 {
                    LightInteraction::Emit { emission } => (
                        Some(v3_mul(atten, emission)),
                        stepped.1,
                    ),
                    LightInteraction::Scatter { direction, attenuation } => {
                        let next = Ray { origin: hit.position, direction };
                        if !ray_wf(next) {
                            (None, stepped.1)
                        } else {
                            trace_rec(
                                scene,
                                next,
                                v3_mul(atten, attenuation),
                                depth - 1,
                                seed,
                                stepped.1,
                            )
                        }
                    },
                }
            },
        }
    }
}

/// The path-tracing integrator: bounces up to a fixed depth.
#[derive(Clone, Copy, Debug, PartialEq, Eq, Structural)]
pub struct PathTracer {
    pub depth: usize,
}

impl Default for PathTracer {
    /// A tracer with no depth budget.
    fn default() -> (r: PathTracer)
        ensures
            r.depth == 0,
    {
        PathTracer { depth: 0 }
    }
}

impl SceneTracer for PathTracer {
    open spec fn trace_model(&self, ray: Ray, scene: &Scene, seed: u64, index: nat) -> (
        Option<Three<Fx>>,
        nat,
    ) {
        trace_rec(
            *scene,
            ray,
            Three { x: Fx { raw: FX_SCALE }, y: Fx { raw: FX_SCALE }, z: Fx { raw: FX_SCALE } },
            self.depth as int,
            seed,
            index,
        )
    }

    open spec fn trace_ok(&self, ray: Ray, scene: &Scene) -> bool {
        ray_wf(ray) && scene.wf()
    }

    fn trace(&self, ray: Ray, scene: &Scene, rng: &mut SeededRng) -> (r: Option<Three<Fx>>) {
        let t_min = Fx::from_raw(T_EPS);
        let t_max = Fx::from_raw(MAX_T);
        let mut cur_ray = ray;
        let mut atten = Three::ones();
        let mut i: usize = 0;
        let ghost seed = old(rng).seed();
        let ghost k0 = old(rng).drawn();
        proof {
            assert(atten =~~= (Three {
                x: Fx { raw: FX_SCALE },
                y: Fx { raw: FX_SCALE },
                z: Fx { raw: FX_SCALE },
            }));
        }
        while i < self.depth
            invariant
                scene.wf(),
                ray_wf(cur_ray),
                color_wf(atten),
                t_min.raw == T_EPS,
                t_max.raw == MAX_T,
                0 <= i <= self.depth,
                seed == old(rng).seed(),
                k0 == old(rng).drawn(),
                rng.seed() == seed,
                self.trace_model(ray, scene, seed, k0) == trace_rec(
                    *scene,
                    cur_ray,
                    atten,
                    self.depth - i,
                    seed,
                    rng.drawn(),
                ),
            decreases self.depth - i,
        {
            let scan = cur_ray.shoot_at(scene, t_min, t_max);
            proof {
                assert(t_min =~= (Fx { raw: T_EPS }));
                assert(t_max =~= (Fx { raw: MAX_T }));
                lemma_scene_scan_props(
                    *scene,
                    cur_ray,
                    t_min,
                    t_max,
                    scene.objects().len() as int,
                );
            }
            let hit = match scan {
                None => {
                    return None;
                },
                Some(hit) => hit,
            };
            let ghost kb = rng.drawn();
            let material = scene.material_for(hit.object_index);
            match material_interaction(material, &cur_ray.direction, &hit.normal, rng) {
                LightInteraction::Emit { emission } => {
                    proof {
                        match scene.material_of(hit.object_index as int) {
                            Material::Light(l) => {
                                lemma_scale_fit(
                                    l.rgb,
                                    l.power.raw as int,
                                    FX_SCALE as int,
                                    crate::data::MAX_POWER as int,
                                );
                            },
                            _ => {},
                        }
                        assert(bounded3(emission, crate::data::MAX_POWER as int));
                        crate::fixed::lemma_fx_mul_bound(
                            atten.x.raw as int,
                            emission.x.raw as int,
                            FX_SCALE as int,
                            crate::data::MAX_POWER as int,
                        );
                        crate::fixed::lemma_fx_mul_bound(
                            atten.y.raw as int,
                            emission.y.raw as int,
                            FX_SCALE as int,
                            crate::data::MAX_POWER as int,
                        );
                        crate::fixed::lemma_fx_mul_bound(
                            atten.z.raw as int,
                            emission.z.raw as int,
                            FX_SCALE as int,
                            crate::data::MAX_POWER as int,
                        );
                    }
                    let color = atten.mul(emission);
                    proof {
                        assert(color =~~= v3_mul(atten, emission));
                    }
                    return Some(color);
                },
                LightInteraction::Scatter { direction, attenuation } => {
                    proof {
                        crate::fixed::lemma_unit_mul(atten.x.raw as int, attenuation.x.raw as int);
                        crate::fixed::lemma_unit_mul(atten.y.raw as int, attenuation.y.raw as int);
                        crate::fixed::lemma_unit_mul(atten.z.raw as int, attenuation.z.raw as int);
                    }
                    let new_atten = atten.mul(attenuation);
                    let next = Ray { origin: hit.position, direction };
                    if !(next.origin.within(crate::data::MAX_COORD) && next.direction.within(
                        MAX_DIR,
                    )) {
                        return None;
                    }
                    proof {
                        assert(new_atten =~~= v3_mul(atten, attenuation));
                    }
                    atten = new_atten;
                    cur_ray = next;
                    i = i + 1;
                },
            }
        }
        None
    }
}

} // verus!
