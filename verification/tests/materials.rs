//! Material scattering rules.

use pathtrace::fixed::{Fx, FX_SCALE};
use pathtrace::rng::SeededRng;
use pathtrace::tracer::{
    dielectric_interaction, diffuse_interaction, light_interaction, material_interaction,
    mirror_interaction, reflect,
};
use pathtrace::vec3::Three;
use pathtrace::{Dielectric, Diffuse, IndexOfRefraction, Light, LightInteraction, Material, Mirror};

fn fxi(v: i64) -> Fx {
    Fx::from_int(v)
}

fn v3i(x: i64, y: i64, z: i64) -> Three<Fx> {
    Three::new(fxi(x), fxi(y), fxi(z))
}

#[test]
fn diffuse_attenuation_is_always_the_albedo() {
    // The cosine and the sampling density cancel exactly: over many
    // sampled directions the attenuation never varies from the albedo.
    let albedo = Diffuse::rgb(Fx::from_raw(45875), Fx::from_raw(32768), Fx::from_raw(13107));
    let normal = v3i(0, 1, 0);
    for seed in 0..200u64 {
        let mut rng = SeededRng::from_seed(seed);
        match diffuse_interaction(&albedo, &normal, &mut rng) {
            LightInteraction::Scatter { attenuation, direction: _ } => {
                assert_eq!(attenuation.x.raw, 45875);
                assert_eq!(attenuation.y.raw, 32768);
                assert_eq!(attenuation.z.raw, 13107);
            },
            LightInteraction::Emit { .. } => panic!("diffuse must scatter"),
        }
    }
}

#[test]
fn diffuse_samples_stay_in_upper_hemisphere() {
    let albedo = Diffuse::rgb(Fx::one(), Fx::one(), Fx::one());
    let normal = v3i(0, 1, 0);
    for seed in 0..100u64 {
        let mut rng = SeededRng::from_seed(seed);
        match diffuse_interaction(&albedo, &normal, &mut rng) {
            LightInteraction::Scatter { direction, .. } => {
                // Cosine-weighted samples point with the normal.
                assert!(direction.y.raw >= 0);
            },
            LightInteraction::Emit { .. } => panic!("diffuse must scatter"),
        }
    }
}

#[test]
fn mirror_reflects_exactly() {
    // d = (0.8, 0, -0.6) against normal (0, 0, 1):
    // d' = d - 2 (d . n) n = (0.8, 0, 0.6), exactly in fixed point.
    let m = Mirror::perfect();
    let d = Three::new(Fx::from_raw(52429), Fx::from_raw(0), Fx::from_raw(-39322));
    let n = v3i(0, 0, 1);
    match mirror_interaction(&m, &d, &n) {
        LightInteraction::Scatter { direction, attenuation } => {
            assert_eq!((direction.x.raw, direction.y.raw, direction.z.raw), (52429, 0, 39322));
            assert_eq!(attenuation.x.raw, FX_SCALE);
        },
        LightInteraction::Emit { .. } => panic!("mirror must scatter"),
    }
}

#[test]
fn total_internal_reflection_always_reflects() {
    // Exiting glass (ratio 1.52) at sin = 0.8 exceeds the critical
    // angle: the scatter rule must reflect, never refract, for every
    // seed — and the reflection is exact.
    let m = Dielectric::transparent(Fx::from_raw(99615));
    let d = Three::new(Fx::from_raw(52429), Fx::from_raw(0), Fx::from_raw(39322));
    let n = v3i(0, 0, 1);
    for seed in 0..100u64 {
        let mut rng = SeededRng::from_seed(seed);
        match dielectric_interaction(&m, &d, &n, &mut rng) {
            LightInteraction::Scatter { direction, .. } => {
                let expect = reflect(&d, &n.neg());
                assert_eq!(direction.x.raw, expect.x.raw);
                assert_eq!(direction.y.raw, expect.y.raw);
                assert_eq!(direction.z.raw, expect.z.raw);
                assert_eq!((direction.x.raw, direction.z.raw), (52429, -39322));
            },
            LightInteraction::Emit { .. } => panic!("dielectric must scatter"),
        }
    }
}

#[test]
fn grazing_incidence_always_reflects() {
    // At grazing incidence the Schlick reflectance is exactly one, so
    // the reflect-or-refract draw can never choose refraction.
    let m = Dielectric::transparent(Fx::from_raw(99615));
    let d = v3i(1, 0, 0);
    let n = v3i(0, 0, 1);
    for seed in 0..100u64 {
        let mut rng = SeededRng::from_seed(seed);
        match dielectric_interaction(&m, &d, &n, &mut rng) {
            LightInteraction::Scatter { direction, .. } => {
                // Reflection of a direction orthogonal to the normal is
                // the direction itself.
                assert_eq!((direction.x.raw, direction.y.raw, direction.z.raw), (
                    FX_SCALE,
                    0,
                    0,
                ));
            },
            LightInteraction::Emit { .. } => panic!("dielectric must scatter"),
        }
    }
}

#[test]
fn near_normal_incidence_mostly_refracts() {
    // Entering glass head-on: r0 = ((1-q)/(1+q))^2 is about 4%, so
    // refraction should dominate over many seeds, and a refracted ray
    // keeps going forward.
    let m = Dielectric::transparent(Fx::from_raw(99615));
    let d = v3i(0, 0, -1);
    let n = v3i(0, 0, 1);
    let mut forward = 0;
    for seed in 0..100u64 {
        let mut rng = SeededRng::from_seed(seed);
        match dielectric_interaction(&m, &d, &n, &mut rng) {
            LightInteraction::Scatter { direction, .. } => {
                if direction.z.raw < 0 {
                    forward += 1;
                }
            },
            LightInteraction::Emit { .. } => panic!("dielectric must scatter"),
        }
    }
    assert!(forward > 80);
}

#[test]
fn light_emits_color_times_power() {
    let l = Light::new(Three::new(Fx::one(), Fx::from_raw(32768), Fx::from_raw(0)), fxi(5));
    match light_interaction(&l) {
        LightInteraction::Emit { emission } => {
            assert_eq!(emission.x.raw, 5 * FX_SCALE);
            assert_eq!(emission.y.raw, 5 * 32768);
            assert_eq!(emission.z.raw, 0);
        },
        LightInteraction::Scatter { .. } => panic!("a light must emit"),
    }
}

#[test]
fn material_dispatch_matches_variants() {
    let normal = v3i(0, 0, 1);
    let d = v3i(0, 0, -1);
    let mut rng = SeededRng::from_seed(1);
    let lamp = Material::Light(Light::new(Three::ones(), fxi(2)));
    assert!(matches!(
        material_interaction(&lamp, &d, &normal, &mut rng),
        LightInteraction::Emit { .. }
    ));
    let mirror = Material::Mirror(Mirror::perfect());
    assert!(matches!(
        material_interaction(&mirror, &d, &normal, &mut rng),
        LightInteraction::Scatter { .. }
    ));
}

#[test]
fn index_of_refraction_values() {
    assert_eq!(IndexOfRefraction::Vacuum.value().raw, 65536);
    assert_eq!(IndexOfRefraction::Water.value().raw, 87163);
    assert_eq!(IndexOfRefraction::CrownGlass.value().raw, 99615);
    assert_eq!(IndexOfRefraction::Diamond.value().raw, 158400);
    let m: Material = IndexOfRefraction::Water.into();
    assert!(matches!(m, Material::Dielectric(_)));
}

#[test]
fn material_builders() {
    let d = Diffuse::rgb(fxi(1), Fx::from_raw(100), Fx::from_raw(200));
    assert_eq!(d.rgb.y.raw, 100);
    let t = Mirror::tinted(Fx::from_raw(1), Fx::from_raw(2), Fx::from_raw(3));
    assert_eq!(t.rgb.z.raw, 3);
    let g = Dielectric::transparent(Fx::from_raw(90000)).tint(
        Fx::from_raw(10),
        Fx::from_raw(20),
        Fx::from_raw(30),
    );
    assert_eq!(g.ior.raw, 90000);
    assert_eq!(g.rgb.x.raw, 10);
    let m: Material = d.into();
    assert!(m.is_emissive() == false);
    let lamp: Material = Light::new(Three::ones(), fxi(1)).into();
    assert!(lamp.is_emissive());
}
