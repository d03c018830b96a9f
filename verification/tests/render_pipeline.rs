//! The seeded generator, the camera, and the end-to-end render.

use pathtrace::fixed::{Fx, FX_SCALE};
use pathtrace::rendering::{render, render_unit, to_rgb8};
use pathtrace::rng::SeededRng;
use pathtrace::shapes::{Object, Sphere};
use pathtrace::vec3::Three;
use pathtrace::{
    Camera, Diffuse, FieldOfView, ImageShape, Light, Material, PathTracer, Scene,
};

fn fxi(v: i64) -> Fx {
    Fx::from_int(v)
}

#[test]
fn seeded_rng_matches_the_xorshift_crate() {
    // The library's generator must be the real xorshift stream: compare
    // against the outside crate directly.
    let mut ours = SeededRng::from_seed(42);
    let mut theirs = <rand_xorshift::XorShiftRng as rand::SeedableRng>::seed_from_u64(42);
    for _ in 0..16 {
        assert_eq!(ours.next_u64(), rand::Rng::next_u64(&mut theirs));
    }
}

#[test]
fn seeded_rng_is_deterministic_and_seed_sensitive() {
    let mut a = SeededRng::from_seed(7);
    let mut b = SeededRng::from_seed(7);
    let mut c = SeededRng::from_seed(8);
    let xs: Vec<u64> = (0..8).map(|_| a.next_u64()).collect();
    let ys: Vec<u64> = (0..8).map(|_| b.next_u64()).collect();
    let zs: Vec<u64> = (0..8).map(|_| c.next_u64()).collect();
    assert_eq!(xs, ys);
    assert_ne!(xs, zs);
}

#[test]
fn unit_draws_are_in_range_and_vary() {
    let mut rng = SeededRng::from_seed(3);
    let mut distinct = std::collections::HashSet::new();
    for _ in 0..64 {
        let u = rng.next_unit();
        assert!(0 <= u.raw && u.raw < FX_SCALE);
        distinct.insert(u.raw);
    }
    assert!(distinct.len() > 16);
}

#[test]
fn camera_builds_and_shoots_forward() {
    let cam = Camera::new(
        FieldOfView::Degrees(fxi(45)),
        ImageShape { width: 20, height: 15 },
    )
    .unwrap()
    .at(fxi(0), fxi(0), fxi(5));
    assert_eq!(cam.width, 20);
    assert_eq!(cam.height, 15);
    // Through the image center the ray goes straight down -z.
    let ray = cam.ray_through(fxi(10), Fx::from_raw(7 * FX_SCALE + 32768));
    assert_eq!(ray.origin.z.raw, 5 * FX_SCALE);
    assert!(ray.direction.z.raw < 0);
    assert!(ray.direction.x.raw.abs() < 2000);
}

#[test]
fn camera_rejects_degenerate_shapes() {
    assert!(Camera::new(
        FieldOfView::Degrees(fxi(45)),
        ImageShape { width: 0, height: 10 },
    )
    .is_none());
    assert!(Camera::new(
        FieldOfView::Degrees(fxi(45)),
        ImageShape { width: 10, height: 0 },
    )
    .is_none());
}

fn two_sphere_scene() -> Scene {
    // One diffuse white unit sphere at the origin and one emissive white
    // unit sphere (power 5) at (0, 3, -3).
    let mut scene = Scene::new();
    let white = scene.add_material(Material::Diffuse(Diffuse::rgb(
        Fx::one(),
        Fx::one(),
        Fx::one(),
    )));
    let lamp = scene.add_material(Material::Light(Light::new(Three::ones(), fxi(5))));
    scene.add_object(Object::Sphere(Sphere::unit_at(fxi(0), fxi(0), fxi(0))), white);
    scene.add_object(Object::Sphere(Sphere::unit_at(fxi(0), fxi(3), fxi(-3))), lamp);
    scene
}

fn two_sphere_camera() -> Camera {
    Camera::new(
        FieldOfView::Degrees(fxi(45)),
        ImageShape { width: 20, height: 15 },
    )
    .unwrap()
    .at(fxi(0), fxi(0), fxi(5))
}

#[test]
fn end_to_end_render_misses_are_black_and_light_is_bright() {
    let scene = two_sphere_scene();
    let camera = two_sphere_camera();
    let tracer = PathTracer { depth: 25 };
    let buffer = render(&scene, &camera, &tracer, 1);
    assert_eq!(buffer.len(), 20 * 15);
    // The top-left corner ray leaves the scene: exactly black, since no
    // ambient or sky term exists.
    assert_eq!((buffer[0].x.raw, buffer[0].y.raw, buffer[0].z.raw), (0, 0, 0));
    // The pixel aimed straight at the light sees emission 5 exactly.
    let lit = buffer[10];
    assert_eq!((lit.x.raw, lit.y.raw, lit.z.raw), (
        5 * FX_SCALE,
        5 * FX_SCALE,
        5 * FX_SCALE,
    ));
    // Some pixels are black and some are strictly positive.
    assert!(buffer.iter().any(|c| c.x.raw == 0 && c.y.raw == 0 && c.z.raw == 0));
    assert!(buffer.iter().any(|c| c.x.raw > 0 && c.y.raw > 0 && c.z.raw > 0));
}

#[test]
fn rendering_twice_is_identical() {
    // Same scene, camera and per-unit seeding rule: identical samples.
    let scene = two_sphere_scene();
    let camera = two_sphere_camera();
    let tracer = PathTracer { depth: 25 };
    let a = render(&scene, &camera, &tracer, 2);
    let b = render(&scene, &camera, &tracer, 2);
    assert_eq!(a.len(), b.len());
    for (x, y) in a.iter().zip(b.iter()) {
        assert_eq!((x.x.raw, x.y.raw, x.z.raw), (y.x.raw, y.y.raw, y.z.raw));
    }
}

#[test]
fn render_units_are_deterministic() {
    let scene = two_sphere_scene();
    let camera = two_sphere_camera();
    let tracer = PathTracer { depth: 8 };
    for idx in [0usize, 10, 155, 299] {
        let (p1, c1) = render_unit(&scene, &camera, &tracer, idx);
        let (p2, c2) = render_unit(&scene, &camera, &tracer, idx);
        assert_eq!(p1, p2);
        assert_eq!(p1, idx % 300);
        assert_eq!((c1.x.raw, c1.y.raw, c1.z.raw), (c2.x.raw, c2.y.raw, c2.z.raw));
    }
}

#[test]
fn zero_depth_render_is_black() {
    let scene = two_sphere_scene();
    let camera = two_sphere_camera();
    let tracer = PathTracer { depth: 0 };
    let buffer = render(&scene, &camera, &tracer, 1);
    assert!(buffer.iter().all(|c| c.x.raw == 0 && c.y.raw == 0 && c.z.raw == 0));
}

#[test]
fn tone_map_clamps_scales_and_rounds() {
    let c = Three::new(Fx::from_raw(0), Fx::from_raw(FX_SCALE), Fx::from_raw(32768));
    assert_eq!(to_rgb8(&c), (0, 255, 128));
    // Out-of-range values clamp before scaling.
    let over = Three::new(Fx::from_raw(5 * FX_SCALE), Fx::from_raw(-100), Fx::from_raw(257));
    let (r, g, b) = to_rgb8(&over);
    assert_eq!(r, 255);
    assert_eq!(g, 0);
    // 257 / 65536 * 255 = 0.99... rounds to 1.
    assert_eq!(b, 1);
}
