//! Infinite planes, stored as a point on the plane and a unit normal.
//!
//! The intersection parameter is
//! `t = ((center - origin) . normal) / (direction . normal)`. A ray
//! parallel to the plane (zero denominator) never hits, and a parameter
//! outside the window or outside the representable range is filtered out,
//! as a non-finite value would be in float arithmetic.

use vstd::prelude::*;

use crate::data::{
    div_capped, in_window, ray_point, ray_wf, t_window_wf, CanHit, Hit, Ray, MAX_COORD, MAX_DIR,
    MAX_T,
};
use crate::fixed::{abs_i, fits_raw, fx_div, Fx, FX_SCALE};
use crate::vec3::{bounded3, dot3, lemma_ops_fit, lemma_prod_fit, v3_neg, v3_sub, Three};

verus! {

/// A plane: a point on it and its unit normal.
#[derive(Clone, Copy, Debug, PartialEq, Eq, Structural)]
#[verifier::ext_equal]
pub struct Plane {
    pub center: Three<Fx>,
    pub normal: Three<Fx>,
}

/// Whether a plane lies in the representable world box.
pub open spec fn plane_wf(p: Plane) -> bool {
    bounded3(p.center, MAX_COORD as int) && bounded3(p.normal, MAX_DIR as int)
}

/// The denominator of the intersection parameter: how fast the ray
/// approaches the plane.
pub open spec fn plane_denom(p: Plane, r: Ray) -> int {
    dot3(p.normal, r.direction)
}

/// The numerator of the intersection parameter.
pub open spec fn plane_num(p: Plane, r: Ray) -> int {
    dot3(v3_sub(p.center, r.origin), p.normal)
}

/// The ray parameter at which the ray meets the plane. A parallel ray
/// (zero denominator) or a parameter outside the representable range
/// yields nothing.
pub open spec fn plane_hit_t(p: Plane, r: Ray, t_min: Fx, t_max: Fx) -> Option<int> {
    if plane_denom(p, r) == 0 {
        None
    } else {
        let t = fx_div(plane_num(p, r), plane_denom(p, r));
        if abs_i(t) <= MAX_T && in_window(t, t_min, t_max) {
            Some(t)
        } else {
            None
        }
    }
}

/// The full intersection record: the point along the ray, with the
/// plane's own normal.
pub open spec fn plane_hit(p: Plane, r: Ray, t_min: Fx, t_max: Fx) -> Option<Hit> {
    match plane_hit_t(p, r, t_min, t_max) {
        None => None,
        Some(t) => Some(
            Hit {
                position: ray_point(r, t),
                distance: Fx { raw: t as i64 },
                normal: p.normal,
                object_index: 0,
            },
        ),
    }
}

impl Plane {
    /// The plane through the origin facing positive x.
    pub fn facing_pos_x() -> (p: Plane)
        ensures
            p.center.x.raw == 0 && p.center.y.raw == 0 && p.center.z.raw == 0,
            p.normal.x.raw == FX_SCALE && p.normal.y.raw == 0 && p.normal.z.raw == 0,
            plane_wf(p),
    {
        Plane { center: Three::zeros(), normal: Three::new(Fx::one(), Fx::zero(), Fx::zero()) }
    }

    /// The plane through the origin facing negative x.
    pub fn facing_neg_x() -> (p: Plane)
        ensures
            p.center.x.raw == 0 && p.center.y.raw == 0 && p.center.z.raw == 0,
            p.normal.x.raw == -FX_SCALE && p.normal.y.raw == 0 && p.normal.z.raw == 0,
            plane_wf(p),
    {
        Plane {
            center: Three::zeros(),
            normal: Three::new(Fx::one().neg(), Fx::zero(), Fx::zero()),
        }
    }

    /// The plane through the origin facing positive y.
    pub fn facing_pos_y() -> (p: Plane)
        ensures
            p.center.x.raw == 0 && p.center.y.raw == 0 && p.center.z.raw == 0,
            p.normal.x.raw == 0 && p.normal.y.raw == FX_SCALE && p.normal.z.raw == 0,
            plane_wf(p),
    {
        Plane { center: Three::zeros(), normal: Three::new(Fx::zero(), Fx::one(), Fx::zero()) }
    }

    /// The plane through the origin facing negative y.
    pub fn facing_neg_y() -> (p: Plane)
        ensures
            p.center.x.raw == 0 && p.center.y.raw == 0 && p.center.z.raw == 0,
            p.normal.x.raw == 0 && p.normal.y.raw == -FX_SCALE && p.normal.z.raw == 0,
            plane_wf(p),
    {
        Plane {
            center: Three::zeros(),
            normal: Three::new(Fx::zero(), Fx::one().neg(), Fx::zero()),
        }
    }

    /// The plane through the origin facing positive z.
    pub fn facing_pos_z() -> (p: Plane)
        ensures
            p.center.x.raw == 0 && p.center.y.raw == 0 && p.center.z.raw == 0,
            p.normal.x.raw == 0 && p.normal.y.raw == 0 && p.normal.z.raw == FX_SCALE,
            plane_wf(p),
    {
        Plane { center: Three::zeros(), normal: Three::new(Fx::zero(), Fx::zero(), Fx::one()) }
    }

    /// The plane through the origin facing negative z.
    pub fn facing_neg_z() -> (p: Plane)
        ensures
            p.center.x.raw == 0 && p.center.y.raw == 0 && p.center.z.raw == 0,
            p.normal.x.raw == 0 && p.normal.y.raw == 0 && p.normal.z.raw == -FX_SCALE,
            plane_wf(p),
    {
        Plane {
            center: Three::zeros(),
            normal: Three::new(Fx::zero(), Fx::zero(), Fx::one().neg()),
        }
    }

    /// A plane through the origin with the given normal, which is
    /// normalized. A normal too short or too degenerate to normalize
    /// within bounds is rejected.
    pub fn new(normal: Three<Fx>) -> (p: Option<Plane>)
        requires
            bounded3(normal, MAX_COORD as int),
        ensures
            match p {
                Some(pl) => crate::vec3::len_sq3(normal) >= 1 && pl.center
                    == (Three { x: Fx { raw: 0 }, y: Fx { raw: 0 }, z: Fx { raw: 0 } })
                    && pl.normal == crate::vec3::v3_normalized(normal) && plane_wf(pl),
                None => crate::vec3::len_sq3(normal) < 1 || !bounded3(
                    crate::vec3::v3_normalized(normal),
                    MAX_DIR as int,
                ),
            },
    {
        proof {
            lemma_prod_fit(normal, normal, MAX_COORD as int, MAX_COORD as int);
        }
        if normal.length_squared().raw < 1 {
            return None;
        }
        let n = normal.normalized();
        proof {
            assert(n =~~= crate::vec3::v3_normalized(normal));
        }
        if !n.within(MAX_DIR) {
            return None;
        }
        Some(Plane { center: Three::zeros(), normal: n })
    }

    /// The same plane moved `dist` against its normal.
    pub fn shifted_back(&self, dist: Fx) -> (p: Plane)
        requires
            plane_wf(*self),
            abs_i(dist.raw as int) <= MAX_T,
        ensures
            p.normal == self.normal,
            p.center == v3_sub(
                self.center,
                crate::vec3::v3_scale(self.normal, dist.raw as int),
            ),
    {
        proof {
            crate::fixed::lemma_fx_mul_bound(
                self.normal.x.raw as int,
                dist.raw as int,
                MAX_DIR as int,
                MAX_T as int,
            );
            crate::fixed::lemma_fx_mul_bound(
                self.normal.y.raw as int,
                dist.raw as int,
                MAX_DIR as int,
                MAX_T as int,
            );
            crate::fixed::lemma_fx_mul_bound(
                self.normal.z.raw as int,
                dist.raw as int,
                MAX_DIR as int,
                MAX_T as int,
            );
        }
        let offset = self.normal.scale(dist);
        let c = self.center.sub(offset);
        proof {
            assert(c =~~= v3_sub(self.center, crate::vec3::v3_scale(self.normal, dist.raw as int)));
        }
        Plane { center: c, normal: self.normal }
    }
}

/// A ray exactly parallel to a plane (direction orthogonal to the
/// normal) never hits it, whatever the window.
pub proof fn lemma_plane_parallel(p: Plane, r: Ray, t_min: Fx, t_max: Fx)
    requires
        plane_denom(p, r) == 0,
    ensures
        plane_hit(p, r, t_min, t_max) is None,
{
}

/// Shrinking the window keeps exactly the hits closer than the new end:
/// the basis of progressive pruning during nearest-hit search.
pub proof fn lemma_plane_hit_restrict(p: Plane, r: Ray, t_min: Fx, t1: Fx, t2: Fx)
    requires
        t1.raw <= t2.raw,
    ensures
        plane_hit(p, r, t_min, t1) == match plane_hit(p, r, t_min, t2) {
            Some(h) => if h.distance.raw < t1.raw {
                Some(h)
            } else {
                None::<Hit>
            },
            None => None::<Hit>,
        },
{
}

impl CanHit<Plane> for Ray {
    open spec fn hit_ok(&self, obj: &Plane, t_min: Fx, t_max: Fx) -> bool {
        ray_wf(*self) && plane_wf(*obj) && t_window_wf(t_min, t_max)
    }

    open spec fn hit_model(&self, obj: &Plane, t_min: Fx, t_max: Fx) -> Option<Hit> {
        plane_hit(*obj, *self, t_min, t_max)
    }

    fn shoot_at(&self, plane: &Plane, t_min: Fx, t_max: Fx) -> (r: Option<Hit>) {
        proof {
            lemma_prod_fit(plane.normal, self.direction, MAX_DIR as int, MAX_DIR as int);
            lemma_ops_fit(plane.center, self.origin, MAX_COORD as int);
        }
        let denom = plane.normal.dot(&self.direction);
        if denom.raw == 0 {
            return None;
        }
        let o2c = plane.center.sub(self.origin);
        proof {
            assert(o2c =~~= v3_sub(plane.center, self.origin));
            assert(bounded3(o2c, 2 * MAX_COORD));
            lemma_prod_fit(o2c, plane.normal, 2 * MAX_COORD as int, MAX_DIR as int);
        }
        let num = o2c.dot(&plane.normal);
        let t = match div_capped(num, denom) {
            None => {
                return None;
            },
            Some(t) => t,
        };
        if !(t_min.raw <= t.raw && t.raw < t_max.raw) {
            return None;
        }
        proof {
            crate::fixed::lemma_fx_mul_bound(
                self.direction.x.raw as int,
                t.raw as int,
                MAX_DIR as int,
                MAX_T as int,
            );
            crate::fixed::lemma_fx_mul_bound(
                self.direction.y.raw as int,
                t.raw as int,
                MAX_DIR as int,
                MAX_T as int,
            );
            crate::fixed::lemma_fx_mul_bound(
                self.direction.z.raw as int,
                t.raw as int,
                MAX_DIR as int,
                MAX_T as int,
            );
        }
        let offset = self.direction.scale(t);
        let position = self.origin.add(offset);
        let hit = Hit { position, distance: t, normal: plane.normal, object_index: 0 };
        proof {
            assert(position =~~= ray_point(*self, t.raw as int));
            assert(Some(hit) =~~= plane_hit(*plane, *self, t_min, t_max));
        }
        Some(hit)
    }
}

} // verus!
