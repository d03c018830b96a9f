//! Spheres, stored as a center and a squared radius.
//!
//! The intersection test assumes the ray direction follows the unit-length
//! convention: the quadratic `t^2 + 2 b t + c = 0` is solved with a unit
//! leading coefficient, where `b = (origin - center) . direction` and
//! `c = |origin - center|^2 - radius^2`. A negative discriminant means no
//! hit; otherwise the smaller root is taken if it lies in the window,
//! falling back to the larger root.

use vstd::prelude::*;

use crate::data::{
    in_window, ray_point, ray_wf, t_window_wf, CanHit, Hit, Ray, MAX_COORD, MAX_DIR, MAX_T,
};
use crate::fixed::{abs_i, fits_raw, fx_div, fx_mul, fx_sqrt, sqrt_floor, Fx, FX_SCALE};
use crate::vec3::{
    bounded3, dot3, len_sq3, lemma_ops_fit, lemma_prod_fit, v3_normalized, v3_scale, v3_sub,
    Three,
};

verus! {

/// Largest raw value of a squared radius.
pub const MAX_RADIUS_SQ: i64 = 0x100_0000_0000;

/// A sphere: a center and a squared radius.
#[derive(Clone, Copy, Debug, PartialEq, Eq, Structural)]
#[verifier::ext_equal]
pub struct Sphere {
    pub center: Three<Fx>,
    pub radius_squared: Fx,
}

/// Whether a sphere lies in the representable world box.
pub open spec fn sphere_wf(s: Sphere) -> bool {
    bounded3(s.center, MAX_COORD as int) && 0 <= s.radius_squared.raw <= MAX_RADIUS_SQ
}

/// The vector from the sphere's center to the ray's origin.
pub open spec fn sphere_oc(s: Sphere, r: Ray) -> Three<Fx> {
    v3_sub(r.origin, s.center)
}

/// The half-coefficient `b` of the intersection quadratic.
pub open spec fn sphere_half_b(s: Sphere, r: Ray) -> int {
    dot3(sphere_oc(s, r), r.direction)
}

/// The constant coefficient `c` of the intersection quadratic.
pub open spec fn sphere_c(s: Sphere, r: Ray) -> int {
    len_sq3(sphere_oc(s, r)) - s.radius_squared.raw
}

/// The discriminant `b^2 - c` of the intersection quadratic.
pub open spec fn sphere_disc(s: Sphere, r: Ray) -> int {
    fx_mul(sphere_half_b(s, r), sphere_half_b(s, r)) - sphere_c(s, r)
}

/// The smaller root of the intersection quadratic.
pub open spec fn sphere_near(s: Sphere, r: Ray) -> int {
    -sphere_half_b(s, r) - fx_sqrt(sphere_disc(s, r))
}

/// The larger root of the intersection quadratic.
pub open spec fn sphere_far(s: Sphere, r: Ray) -> int {
    -sphere_half_b(s, r) + fx_sqrt(sphere_disc(s, r))
}

/// The ray parameter at which the ray meets the sphere: the smaller root
/// if it lies in the window, else the larger root if it does, else
/// nothing. A negative discriminant misses.
pub open spec fn sphere_hit_t(s: Sphere, r: Ray, t_min: Fx, t_max: Fx) -> Option<int> {
    if sphere_disc(s, r) < 0 {
        None
    } else if in_window(sphere_near(s, r), t_min, t_max) {
        Some(sphere_near(s, r))
    } else if in_window(sphere_far(s, r), t_min, t_max) {
        Some(sphere_far(s, r))
    } else {
        None
    }
}

/// The full intersection record. A hit whose outward normal cannot be
/// normalized within bounds (a degenerate surface point) is filtered out,
/// like a non-finite value in float arithmetic.
pub open spec fn sphere_hit(s: Sphere, r: Ray, t_min: Fx, t_max: Fx) -> Option<Hit> {
    match sphere_hit_t(s, r, t_min, t_max) {
        None => None,
        Some(t) => {
            let pos = ray_point(r, t);
            let nv = v3_sub(pos, s.center);
            if len_sq3(nv) < 1 {
                None
            } else {
                let n = v3_normalized(nv);
                if !bounded3(n, MAX_DIR as int) {
                    None
                } else {
                    Some(Hit { position: pos, distance: Fx { raw: t as i64 }, normal: n, object_index: 0 })
                }
            }
        },
    }
}

/// Shrinking the window keeps exactly the hits closer than the new end:
/// the basis of progressive pruning during nearest-hit search. The root
/// selection cannot change, because whenever the smaller root leaves the
/// narrower window upward, the larger root lies beyond it too.
pub proof fn lemma_sphere_hit_restrict(s: Sphere, r: Ray, t_min: Fx, t1: Fx, t2: Fx)
    requires
        t1.raw <= t2.raw,
    ensures
        sphere_hit(s, r, t_min, t1) == match sphere_hit(s, r, t_min, t2) {
            Some(h) => if h.distance.raw < t1.raw {
                Some(h)
            } else {
                None::<Hit>
            },
            None => None::<Hit>,
        },
{
    if sphere_disc(s, r) >= 0 {
        crate::fixed::lemma_sqrt_floor_bounds(sphere_disc(s, r) * (FX_SCALE as int));
        assert(sphere_near(s, r) <= sphere_far(s, r));
    }
}

/// The origin-centered sphere with a whole-unit radius.
pub open spec fn axis_sphere(rad: int) -> Sphere {
    Sphere {
        center: Three { x: Fx { raw: 0 }, y: Fx { raw: 0 }, z: Fx { raw: 0 } },
        radius_squared: Fx { raw: (rad * rad * (FX_SCALE as int)) as i64 },
    }
}

/// The ray from `(0, 0, d)` along the negative z axis.
pub open spec fn axis_ray(d: int) -> Ray {
    Ray {
        origin: Three { x: Fx { raw: 0 }, y: Fx { raw: 0 }, z: Fx { raw: (d * (FX_SCALE as int)) as i64 } },
        direction: Three { x: Fx { raw: 0 }, y: Fx { raw: 0 }, z: Fx { raw: (-FX_SCALE) as i64 } },
    }
}

/// For a sphere of radius `r` centered at the origin and a ray from
/// `(0, 0, d)` with `d > r` pointing down the negative z axis, the hit
/// lies at distance exactly `d - r`, at position `(0, 0, r)`, with the
/// outward unit normal `(0, 0, 1)` — the hit position divided by `r`.
/// Fixed-point arithmetic makes this exact for whole-unit inputs.
pub proof fn lemma_sphere_axis_hit(d: int, rad: int, t_min: Fx, t_max: Fx)
    requires
        1 <= rad < d <= 4096,
        0 <= t_min.raw,
        t_min.raw <= (d - rad) * (FX_SCALE as int) < t_max.raw,
    ensures
        sphere_hit(axis_sphere(rad), axis_ray(d), t_min, t_max) matches Some(h) && h.distance.raw
            == (d - rad) * (FX_SCALE as int) && h.position.x.raw == 0 && h.position.y.raw == 0
            && h.position.z.raw == rad * (FX_SCALE as int) && h.normal.x.raw == 0
            && h.normal.y.raw == 0 && h.normal.z.raw == FX_SCALE,
{
    let s = FX_SCALE as int;
    let sp = axis_sphere(rad);
    let ray = axis_ray(d);
    assert(0 <= rad * rad * s <= 0x100_0000_0000 && 0 <= d * s <= 0x1000_0000_0000 && 0 <= rad
        * s <= 0x1000_0000_0000 && 0 <= (d - rad) * s < d * s && (-d) * (-d) * s == d * d * s
        && d * s - rad * s == (d - rad) * s && d * s + (-(d - rad)) * s == rad * s && -(d - rad)
        * s == (-(d - rad)) * s && 0 <= d * d * s) by (nonlinear_arith)
        requires
            1 <= rad < d <= 4096,
            s == 65536,
    ;
    crate::fixed::lemma_fx_mul_units(d, -1);
    crate::fixed::lemma_fx_mul_units(d, d);
    crate::fixed::lemma_fx_mul_units(-d, -d);
    crate::fixed::lemma_fx_mul_units(0, 0);
    crate::fixed::lemma_fx_mul_units(0, d);
    assert(sphere_half_b(sp, ray) == -d * s);
    assert(sphere_c(sp, ray) == d * d * s - rad * rad * s);
    assert(sphere_disc(sp, ray) == rad * rad * s);
    assert((rad * s) * (rad * s) == (rad * rad * s) * s) by (nonlinear_arith);
    assert((rad * s) * (rad * s) < (rad * s + 1) * (rad * s + 1)) by (nonlinear_arith)
        requires
            rad >= 1,
            s > 0,
    ;
    crate::fixed::lemma_sqrt_floor_is((rad * rad * s) * s, rad * s);
    assert(fx_sqrt(sphere_disc(sp, ray)) == rad * s);
    assert(sphere_near(sp, ray) == d * s - rad * s);
    assert(d * s - rad * s == (d - rad) * s) by (nonlinear_arith);
    assert(in_window((d - rad) * s, t_min, t_max));
    assert(sphere_hit_t(sp, ray, t_min, t_max) == Some((d - rad) * s));
    // The hit position: the origin plus (d - rad) steps down the z axis.
    crate::fixed::lemma_fx_mul_units(-1, d - rad);
    crate::fixed::lemma_fx_mul_units(0, d - rad);
    let pos = ray_point(ray, (d - rad) * s);
    assert(pos.z.raw == d * s + (-(d - rad)) * s) by {
        assert(fx_mul(-s, (d - rad) * s) == -(d - rad) * s);
    }
    assert(d * s + (-(d - rad)) * s == rad * s) by (nonlinear_arith);
    assert(pos.x.raw == 0 && pos.y.raw == 0);
    let nv = v3_sub(pos, sp.center);
    assert(nv.z.raw == rad * s && nv.x.raw == 0 && nv.y.raw == 0);
    crate::fixed::lemma_fx_mul_units(rad, rad);
    assert(len_sq3(nv) == rad * rad * s);
    assert(rad * rad * s >= s) by (nonlinear_arith)
        requires
            rad >= 1,
            s > 0,
    ;
    crate::fixed::lemma_sqrt_floor_is((rad * rad * s) * s, rad * s);
    assert(crate::vec3::len3(nv) == rad * s);
    crate::fixed::lemma_fx_div_self(rad * s);
    assert(fx_div(0, rad * s) == 0) by {
        vstd::arithmetic::div_mod::lemma_div_of0(rad * s);
    }
    let n = v3_normalized(nv);
    assert(n.z.raw == s && n.x.raw == 0 && n.y.raw == 0);
    assert(bounded3(n, MAX_DIR as int));
}

/// A ray whose origin lies strictly inside the sphere has a nonpositive
/// smaller root, so the only hit it can report is the larger root; if
/// both roots fall below the window start there is no hit at all.
pub proof fn lemma_sphere_inside_far_root(s: Sphere, r: Ray, t_min: Fx, t_max: Fx)
    requires
        sphere_c(s, r) <= -1,
        0 < t_min.raw,
    ensures
        sphere_disc(s, r) >= 1,
        sphere_near(s, r) <= 0,
        in_window(sphere_far(s, r), t_min, t_max) ==> sphere_hit_t(s, r, t_min, t_max) == Some(
            sphere_far(s, r),
        ),
        sphere_far(s, r) < t_min.raw ==> sphere_hit_t(s, r, t_min, t_max) is None,
{
    let sc = FX_SCALE as int;
    let hb = sphere_half_b(s, r);
    let f = fx_mul(hb, hb);
    crate::fixed::lemma_fx_mul_abs(hb, hb);
    assert(hb * hb >= 0) by (nonlinear_arith);
    assert(f == (hb * hb) / sc);
    vstd::arithmetic::div_mod::lemma_fundamental_div_mod(hb * hb, sc);
    vstd::arithmetic::div_mod::lemma_mod_division_less_than_divisor(hb * hb, sc);
    let disc = sphere_disc(s, r);
    assert(disc >= f + 1);
    assert(disc * sc >= f * sc + sc) by (nonlinear_arith)
        requires
            disc >= f + 1,
            sc > 0,
    ;
    assert(f * sc >= hb * hb - sc + 1) by (nonlinear_arith)
        requires
            hb * hb == sc * f + (hb * hb) % sc,
            0 <= (hb * hb) % sc < sc,
    ;
    crate::fixed::lemma_sqrt_floor_bounds(disc * sc);
    let q = sqrt_floor(disc * sc);
    assert(q >= abs_i(hb)) by {
        if q < abs_i(hb) {
            assert((q + 1) * (q + 1) <= abs_i(hb) * abs_i(hb)) by (nonlinear_arith)
                requires
                    0 <= q,
                    q + 1 <= abs_i(hb),
            ;
            assert(abs_i(hb) * abs_i(hb) == hb * hb) by (nonlinear_arith);
        }
    }
    assert(sphere_near(s, r) == -hb - q);
    assert(sphere_near(s, r) <= 0);
}

impl Sphere {
    /// A sphere of radius one.
    pub fn unit_at(x: Fx, y: Fx, z: Fx) -> (s: Sphere)
        ensures
            s.center.x == x,
            s.center.y == y,
            s.center.z == z,
            s.radius_squared.raw == crate::fixed::FX_SCALE,
    {
        Sphere { center: Three::new(x, y, z), radius_squared: Fx::one() }
    }

    /// A sphere from its center and radius.
    pub fn new(center: Three<Fx>, radius: Fx) -> (s: Sphere)
        requires
            fits_raw(fx_mul(radius.raw as int, radius.raw as int)),
        ensures
            s.center == center,
            s.radius_squared.raw == fx_mul(radius.raw as int, radius.raw as int),
    {
        Sphere { center, radius_squared: radius.mul(radius) }
    }

    /// The sphere with its radius scaled by `scalar`.
    pub fn scaled(&self, scalar: Fx) -> (s: Sphere)
        requires
            fits_raw(fx_mul(scalar.raw as int, scalar.raw as int)),
            fits_raw(
                fx_mul(
                    self.radius_squared.raw as int,
                    fx_mul(scalar.raw as int, scalar.raw as int),
                ),
            ),
        ensures
            s.center == self.center,
            s.radius_squared.raw == fx_mul(
                self.radius_squared.raw as int,
                fx_mul(scalar.raw as int, scalar.raw as int),
            ),
    {
        Sphere { center: self.center, radius_squared: self.radius_squared.mul(scalar.mul(scalar)) }
    }
}

impl CanHit<Sphere> for Ray {
    open spec fn hit_ok(&self, obj: &Sphere, t_min: Fx, t_max: Fx) -> bool {
        ray_wf(*self) && sphere_wf(*obj) && t_window_wf(t_min, t_max)
    }

    open spec fn hit_model(&self, obj: &Sphere, t_min: Fx, t_max: Fx) -> Option<Hit> {
        sphere_hit(*obj, *self, t_min, t_max)
    }

    fn shoot_at(&self, sphere: &Sphere, t_min: Fx, t_max: Fx) -> (r: Option<Hit>) {
        proof {
            lemma_ops_fit(self.origin, sphere.center, MAX_COORD as int);
        }
        let oc = self.origin.sub(sphere.center);
        proof {
            assert(oc =~~= sphere_oc(*sphere, *self));
            assert(bounded3(oc, 2 * MAX_COORD));
            lemma_prod_fit(oc, self.direction, 2 * MAX_COORD as int, MAX_DIR as int);
            lemma_prod_fit(oc, oc, 2 * MAX_COORD as int, 2 * MAX_COORD as int);
        }
        let half_b = oc.dot(&self.direction);
        let c = oc.length_squared().sub(sphere.radius_squared);
        proof {
            crate::fixed::lemma_fx_mul_bound(
                half_b.raw as int,
                half_b.raw as int,
                0x1_8000_0000,
                0x1_8000_0000,
            );
        }
        let disc = half_b.mul(half_b).sub(c);
        if disc.raw < 0 {
            return None;
        }
        let sqrtd = disc.sqrt();
        proof {
            crate::fixed::lemma_sqrt_floor_bounds((disc.raw as int) * 65536);
            assert(sqrtd.raw <= 0x40_0000_0000) by (nonlinear_arith)
                requires
                    (sqrtd.raw as int) * (sqrtd.raw as int) <= (disc.raw as int) * 65536,
                    sqrtd.raw >= 0,
                    disc.raw <= 0x1000_0000_0000_0000,
            ;
        }
        let near = half_b.neg().sub(sqrtd);
        let far = half_b.neg().add(sqrtd);
        let t: Fx = if t_min.raw <= near.raw && near.raw < t_max.raw {
            near
        } else if t_min.raw <= far.raw && far.raw < t_max.raw {
            far
        } else {
            return None;
        };
        proof {
            assert(Some(t.raw as int) == sphere_hit_t(*sphere, *self, t_min, t_max));
            lemma_prod_fit(self.direction, self.direction, MAX_DIR as int, MAX_T as int);
            crate::fixed::lemma_fx_mul_bound(
                self.direction.x.raw as int,
                t.raw as int,
                MAX_DIR as int,
                MAX_T as int,
            );
            crate::fixed::lemma_fx_mul_bound(
                self.direction.y.raw as int,
                t.raw as int,
                MAX_DIR as int,
                MAX_T as int,
            );
            crate::fixed::lemma_fx_mul_bound(
                self.direction.z.raw as int,
                t.raw as int,
                MAX_DIR as int,
                MAX_T as int,
            );
        }
        let offset = self.direction.scale(t);
        let position = self.origin.add(offset);
        proof {
            assert(position =~~= ray_point(*self, t.raw as int));
            assert(bounded3(position, 0x5_0000_0000));
            lemma_ops_fit(position, sphere.center, 0x5_0000_0000);
        }
        let nv = position.sub(sphere.center);
        proof {
            assert(nv =~~= v3_sub(ray_point(*self, t.raw as int), sphere.center));
            assert(bounded3(nv, 0x6_0000_0000));
            lemma_prod_fit(nv, nv, 0x6_0000_0000, 0x6_0000_0000);
        }
        if nv.length_squared().raw < 1 {
            return None;
        }
        let normal = nv.normalized();
        proof {
            assert(normal =~~= v3_normalized(v3_sub(ray_point(*self, t.raw as int), sphere.center)));
        }
        if !normal.within(MAX_DIR) {
            return None;
        }
        let hit = Hit { position, distance: t, normal, object_index: 0 };
        proof {
            assert(Some(hit) =~~= sphere_hit(*sphere, *self, t_min, t_max));
        }
        Some(hit)
    }
}

} // verus!
