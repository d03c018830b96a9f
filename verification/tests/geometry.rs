//! Intersection geometry: spheres, planes, triangles, prisms, scenes.

use pathtrace::fixed::{Fx, FX_SCALE};
use pathtrace::shapes::{Object, Plane, Prism, Sphere, Triangle};
use pathtrace::vec3::Three;
use pathtrace::{CanHit, Diffuse, Material, Ray, Scene};

fn fxi(v: i64) -> Fx {
    Fx::from_int(v)
}

fn v3i(x: i64, y: i64, z: i64) -> Three<Fx> {
    Three::new(fxi(x), fxi(y), fxi(z))
}

fn t_window() -> (Fx, Fx) {
    (Fx::from_raw(66), Fx::from_raw(0x1_0000_0000))
}

#[test]
fn sphere_axis_hit_is_exact() {
    // A ray from (0, 0, 5) straight down the z axis at a unit sphere at
    // the origin hits at distance exactly 4, at (0, 0, 1), with outward
    // normal (0, 0, 1) = position / radius.
    let sphere = Sphere::unit_at(fxi(0), fxi(0), fxi(0));
    let ray = Ray { origin: v3i(0, 0, 5), direction: v3i(0, 0, -1) };
    let (t_min, t_max) = t_window();
    let hit = ray.shoot_at(&sphere, t_min, t_max).unwrap();
    assert_eq!(hit.distance.raw, 4 * FX_SCALE);
    assert_eq!((hit.position.x.raw, hit.position.y.raw, hit.position.z.raw), (0, 0, FX_SCALE));
    assert_eq!((hit.normal.x.raw, hit.normal.y.raw, hit.normal.z.raw), (0, 0, FX_SCALE));
}

#[test]
fn sphere_inside_origin_yields_far_root() {
    // From the center of a unit sphere, the only valid root is the far
    // one: the exit point at distance exactly 1.
    let sphere = Sphere::unit_at(fxi(0), fxi(0), fxi(0));
    let ray = Ray { origin: v3i(0, 0, 0), direction: v3i(0, 0, -1) };
    let (t_min, t_max) = t_window();
    let hit = ray.shoot_at(&sphere, t_min, t_max).unwrap();
    assert_eq!(hit.distance.raw, FX_SCALE);
    assert_eq!(hit.position.z.raw, -FX_SCALE);
}

#[test]
fn sphere_behind_ray_misses() {
    // Both roots negative: the sphere lies behind the ray.
    let sphere = Sphere::unit_at(fxi(0), fxi(0), fxi(0));
    let ray = Ray { origin: v3i(0, 0, 5), direction: v3i(0, 0, 1) };
    let (t_min, t_max) = t_window();
    assert!(ray.shoot_at(&sphere, t_min, t_max).is_none());
}

#[test]
fn plane_parallel_ray_misses() {
    // direction . normal == 0: always None, from any height.
    let plane = Plane::facing_pos_z();
    let (t_min, t_max) = t_window();
    let ray = Ray { origin: v3i(0, 0, 3), direction: v3i(1, 0, 0) };
    assert!(ray.shoot_at(&plane, t_min, t_max).is_none());
    let ray2 = Ray { origin: v3i(5, -2, 1), direction: v3i(0, 1, 0) };
    assert!(ray2.shoot_at(&plane, t_min, t_max).is_none());
}

#[test]
fn plane_head_on_hit() {
    let plane = Plane::facing_pos_z();
    let (t_min, t_max) = t_window();
    let ray = Ray { origin: v3i(2, 1, 3), direction: v3i(0, 0, -1) };
    let hit = ray.shoot_at(&plane, t_min, t_max).unwrap();
    assert_eq!(hit.distance.raw, 3 * FX_SCALE);
    assert_eq!((hit.position.x.raw, hit.position.y.raw, hit.position.z.raw), (
        2 * FX_SCALE,
        FX_SCALE,
        0,
    ));
    assert_eq!(hit.normal.z.raw, FX_SCALE);
}

#[test]
fn triangle_centroid_barycentrics_are_thirds() {
    let tri = Triangle::facing_pos_z();
    let (t_min, t_max) = t_window();
    // Vertices in world units.
    let v0 = (-0.5f64, 0.0f64);
    let v1 = (0.5f64, 0.0f64);
    let v2 = (0.0f64, 56756.0 / 65536.0);
    let cx = (v0.0 + v1.0 + v2.0) / 3.0;
    let cy = (v0.1 + v1.1 + v2.1) / 3.0;
    let ray = Ray {
        origin: Three::new(
            Fx::from_raw((cx * 65536.0).round() as i64),
            Fx::from_raw((cy * 65536.0).round() as i64),
            fxi(2),
        ),
        direction: v3i(0, 0, -1),
    };
    let hit = ray.shoot_at(&tri, t_min, t_max).unwrap();
    // Recover the barycentric weights from the hit position.
    let px = hit.position.x.raw as f64 / 65536.0;
    let py = hit.position.y.raw as f64 / 65536.0;
    let v = py / (v2.1 - v0.1);
    let u = (px - v0.0 - v * (v2.0 - v0.0)) / (v1.0 - v0.0);
    let w = 1.0 - u - v;
    assert!((u - 1.0 / 3.0).abs() < 0.01);
    assert!((v - 1.0 / 3.0).abs() < 0.01);
    assert!((w - 1.0 / 3.0).abs() < 0.01);
}

#[test]
fn triangle_outside_misses() {
    let tri = Triangle::facing_pos_z();
    let (t_min, t_max) = t_window();
    let ray = Ray { origin: v3i(2, 2, 2), direction: v3i(0, 0, -1) };
    assert!(ray.shoot_at(&tri, t_min, t_max).is_none());
}

#[test]
fn triangle_normal_faces_pos_z() {
    let tri = Triangle::facing_pos_z();
    let n = tri.normal().unwrap();
    assert_eq!((n.x.raw, n.y.raw), (0, 0));
    assert!((n.z.raw - FX_SCALE).abs() <= 1);
}

#[test]
fn prism_constructs_and_is_hit() {
    let prism = Prism::unit_facing_pos_z().unwrap();
    let (t_min, t_max) = t_window();
    // Straight at the front cap, above the base midpoint.
    let ray = Ray {
        origin: Three::new(fxi(0), Fx::from_raw(16384), fxi(2)),
        direction: v3i(0, 0, -1),
    };
    let hit = ray.shoot_at(&prism, t_min, t_max).unwrap();
    assert_eq!(hit.distance.raw, 2 * FX_SCALE);
    // The struck face is tagged; the front cap is face index 0.
    assert_eq!(hit.object_index, 0);
}

#[test]
fn scene_returns_global_minimum_distance() {
    // Three unit spheres along one ray, centered at z = -2, -6, -4:
    // the nearest (z = -2, hit at distance 1) must win, whatever the
    // insertion order.
    let mut scene = Scene::new();
    let white = scene.add_material(Material::Diffuse(Diffuse::rgb(
        Fx::one(),
        Fx::one(),
        Fx::one(),
    )));
    scene.add_object(Object::Sphere(Sphere::unit_at(fxi(0), fxi(0), fxi(-6))), white);
    scene.add_object(Object::Sphere(Sphere::unit_at(fxi(0), fxi(0), fxi(-2))), white);
    scene.add_object(Object::Sphere(Sphere::unit_at(fxi(0), fxi(0), fxi(-4))), white);
    let (t_min, t_max) = t_window();
    let ray = Ray { origin: v3i(0, 0, 0), direction: v3i(0, 0, -1) };
    let hit = ray.shoot_at(&scene, t_min, t_max).unwrap();
    assert_eq!(hit.distance.raw, FX_SCALE);
    assert_eq!(hit.object_index, 1);
}

#[test]
fn scene_tie_break_prefers_first_object() {
    // Two identical spheres: the earlier insertion wins on equal
    // distance.
    let mut scene = Scene::new();
    let white = scene.add_material(Material::Diffuse(Diffuse::rgb(
        Fx::one(),
        Fx::one(),
        Fx::one(),
    )));
    scene.add_object(Object::Sphere(Sphere::unit_at(fxi(0), fxi(0), fxi(-3))), white);
    scene.add_object(Object::Sphere(Sphere::unit_at(fxi(0), fxi(0), fxi(-3))), white);
    let (t_min, t_max) = t_window();
    let ray = Ray { origin: v3i(0, 0, 0), direction: v3i(0, 0, -1) };
    let hit = ray.shoot_at(&scene, t_min, t_max).unwrap();
    assert_eq!(hit.object_index, 0);
}

#[test]
fn scene_miss_returns_none() {
    let mut scene = Scene::new();
    let white = scene.add_material(Material::Diffuse(Diffuse::rgb(
        Fx::one(),
        Fx::one(),
        Fx::one(),
    )));
    scene.add_object(Object::Sphere(Sphere::unit_at(fxi(0), fxi(0), fxi(-4))), white);
    let (t_min, t_max) = t_window();
    let ray = Ray { origin: v3i(0, 0, 0), direction: v3i(0, 1, 0) };
    assert!(ray.shoot_at(&scene, t_min, t_max).is_none());
}

#[test]
fn scene_material_and_emissive_bookkeeping() {
    let mut scene = Scene::new();
    let white = scene.add_material(Material::Diffuse(Diffuse::rgb(
        Fx::one(),
        Fx::one(),
        Fx::one(),
    )));
    let lamp = scene.add_material(Material::Light(pathtrace::Light::new(
        Three::ones(),
        fxi(5),
    )));
    let s0 = scene.add_object(Object::Sphere(Sphere::unit_at(fxi(0), fxi(0), fxi(-4))), white);
    let s1 = scene.add_object(Object::Sphere(Sphere::unit_at(fxi(0), fxi(3), fxi(-3))), lamp);
    assert_eq!((s0, s1), (0, 1));
    assert!(matches!(scene.material_for(s0), Material::Diffuse(_)));
    assert!(matches!(scene.material_for(s1), Material::Light(_)));
    let emissive = scene.emissive_objects();
    assert_eq!(emissive.len(), 1);
    assert_eq!(emissive[0].0, 1);
}

#[test]
fn unit_prism_front_cap_is_the_base_triangle() {
    // The unit prism is exactly the extrusion of its base: face 0 is the
    // equilateral base triangle itself.
    let prism = Prism::unit_facing_pos_z().unwrap();
    let base = Triangle::facing_pos_z();
    assert_eq!(prism.triangles[0].v0.x.raw, base.v0.x.raw);
    assert_eq!(prism.triangles[0].v01.x.raw, base.v01.x.raw);
    assert_eq!(prism.triangles[0].v02.y.raw, base.v02.y.raw);
    // The far cap sits one unit behind the base (the base faces +z),
    // up to the truncation of the base's unit normal.
    assert!((prism.triangles[1].v0.z.raw - (base.v0.z.raw - FX_SCALE)).abs() <= 2);
}

#[test]
fn prism_shifted_moves_every_face() {
    let prism = Prism::unit_facing_pos_z().unwrap();
    let moved = prism.shifted(v3i(1, 2, -3)).unwrap();
    for i in 0..8 {
        assert_eq!(
            moved.triangles[i].v0.x.raw,
            prism.triangles[i].v0.x.raw + FX_SCALE,
        );
        assert_eq!(
            moved.triangles[i].v0.y.raw,
            prism.triangles[i].v0.y.raw + 2 * FX_SCALE,
        );
        assert_eq!(
            moved.triangles[i].v0.z.raw,
            prism.triangles[i].v0.z.raw - 3 * FX_SCALE,
        );
        assert_eq!(moved.triangles[i].v01.x.raw, prism.triangles[i].v01.x.raw);
        assert_eq!(moved.triangles[i].v02.y.raw, prism.triangles[i].v02.y.raw);
    }
}

#[test]
fn prism_rotated_is_still_hittable() {
    let prism = Prism::unit_facing_pos_z().unwrap();
    let y_axis = v3i(0, 1, 0);
    let rotated = prism.rotated_around(&y_axis, fxi(45)).unwrap();
    let (t_min, t_max) = t_window();
    // A ray through the prism's middle still strikes some face.
    let ray = Ray {
        origin: Three::new(fxi(0), Fx::from_raw(16384), fxi(2)),
        direction: v3i(0, 0, -1),
    };
    assert!(ray.shoot_at(&rotated, t_min, t_max).is_some());
}

#[test]
fn triangle_rotated_around_z() {
    let tri = Triangle::facing_pos_z();
    let z_axis = v3i(0, 0, 1);
    let rot = tri.rotated_around(&z_axis, fxi(180)).unwrap();
    let (v0, _v1, _v2) = rot.vertices();
    // A half turn about z negates x, within trig tolerance.
    assert!((v0.x.raw - 32768).abs() < 400);
}
