//! Shape primitives and their intersection tests.

mod plane;
mod prism;
mod sphere;
mod triangle;

pub use plane::{lemma_plane_hit_restrict, lemma_plane_parallel, plane_hit, plane_wf, Plane};
pub use prism::{lemma_prism_scan_restrict, lemma_prism_scan_window, prism_ok, prism_scan, prism_wf, Prism};
pub use sphere::{lemma_sphere_axis_hit, lemma_sphere_hit_restrict, lemma_sphere_inside_far_root, sphere_hit, sphere_wf, Sphere};
pub use triangle::{lemma_triangle_hit_restrict, triangle_hit, triangle_wf, Triangle};

use vstd::prelude::*;

use crate::data::{ray_wf, t_window_wf, CanHit, Hit, Ray};
use crate::fixed::Fx;

verus! {

/// Any shape a scene can hold.
#[derive(Clone, Copy, Debug)]
pub enum Object {
    Plane(Plane),
    Sphere(Sphere),
    Triangle(Triangle),
    Prism(Prism),
}

/// Whether a shape lies in the representable world box.
pub open spec fn object_wf(o: Object) -> bool {
    match o {
        Object::Plane(p) => plane_wf(p),
        Object::Sphere(s) => sphere_wf(s),
        Object::Triangle(t) => triangle_wf(t),
        Object::Prism(p) => prism_wf(p),
    }
}

/// The intersection result of whichever shape the object holds.
pub open spec fn object_hit(o: Object, r: Ray, t_min: Fx, t_max: Fx) -> Option<Hit> {
    match o {
        Object::Plane(p) => plane_hit(p, r, t_min, t_max),
        Object::Sphere(s) => sphere_hit(s, r, t_min, t_max),
        Object::Triangle(t) => triangle_hit(t, r, t_min, t_max),
        Object::Prism(p) => prism_scan(p, r, t_min, t_max, 8),
    }
}

impl CanHit<Object> for Ray {
    open spec fn hit_ok(&self, obj: &Object, t_min: Fx, t_max: Fx) -> bool {
        ray_wf(*self) && object_wf(*obj) && t_window_wf(t_min, t_max)
    }

    open spec fn hit_model(&self, obj: &Object, t_min: Fx, t_max: Fx) -> Option<Hit> {
        object_hit(*obj, *self, t_min, t_max)
    }

    fn shoot_at(&self, obj: &Object, t_min: Fx, t_max: Fx) -> (r: Option<Hit>) {
        match obj {
            Object::Plane(p) => self.shoot_at(p, t_min, t_max),
            Object::Sphere(s) => self.shoot_at(s, t_min, t_max),
            Object::Triangle(t) => self.shoot_at(t, t_min, t_max),
            Object::Prism(p) => self.shoot_at(p, t_min, t_max),
        }
    }
}

impl From<Plane> for Object {
    fn from(s: Plane) -> (r: Object) {
        Object::Plane(s)
    }
}

impl vstd::std_specs::convert::FromSpecImpl<Plane> for Object {
    open spec fn obeys_from_spec() -> bool {
        true
    }

    open spec fn from_spec(s: Plane) -> Object {
        Object::Plane(s)
    }
}

impl From<Sphere> for Object {
    fn from(s: Sphere) -> (r: Object) {
        Object::Sphere(s)
    }
}

impl vstd::std_specs::convert::FromSpecImpl<Sphere> for Object {
    open spec fn obeys_from_spec() -> bool {
        true
    }

    open spec fn from_spec(s: Sphere) -> Object {
        Object::Sphere(s)
    }
}

impl From<Triangle> for Object {
    fn from(s: Triangle) -> (r: Object) {
        Object::Triangle(s)
    }
}

impl vstd::std_specs::convert::FromSpecImpl<Triangle> for Object {
    open spec fn obeys_from_spec() -> bool {
        true
    }

    open spec fn from_spec(s: Triangle) -> Object {
        Object::Triangle(s)
    }
}

impl From<Prism> for Object {
    fn from(s: Prism) -> (r: Object) {
        Object::Prism(s)
    }
}

impl vstd::std_specs::convert::FromSpecImpl<Prism> for Object {
    open spec fn obeys_from_spec() -> bool {
        true
    }

    open spec fn from_spec(s: Prism) -> Object {
        Object::Prism(s)
    }
}

} // verus!
