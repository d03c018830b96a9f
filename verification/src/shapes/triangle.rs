//! Triangles, stored as a base vertex and two edge vectors.
//!
//! Intersection is the Moller-Trumbore barycentric test. Because the
//! scalars are fixed-point, the barycentric conditions `0 <= u`, `u <= 1`,
//! `0 <= v` and `u + v <= 1` are decided exactly on the rational
//! numerators and the determinant, with no division and no rounding; only
//! the final ray parameter is divided out. A ray parallel to the triangle
//! plane (determinant magnitude below `DET_EPS`) misses.

use vstd::prelude::*;

use crate::data::{
    div_capped, in_window, ray_point, ray_wf, t_window_wf, CanHit, Hit, Ray, MAX_COORD, MAX_DIR,
    MAX_T,
};
use crate::fixed::{abs_i, fits_raw, fx_div, Fx, FX_SCALE};
use crate::vec3::{
    bounded3, dot3, len_sq3, lemma_ops_fit, lemma_prod_fit, v3_cross, v3_normalized, v3_sub,
    Three,
};

verus! {

/// Largest raw magnitude of a triangle edge component.
pub const MAX_EDGE: i64 = 0x400_0000;

/// Determinants of smaller magnitude count as parallel.
pub const DET_EPS: i64 = 66;

/// A triangle: a vertex and the two edges leaving it.
#[derive(Clone, Copy, Debug, PartialEq, Eq, Structural)]
#[verifier::ext_equal]
pub struct Triangle {
    pub v0: Three<Fx>,
    pub v01: Three<Fx>,
    pub v02: Three<Fx>,
}

/// Whether a triangle lies in the representable world box, with edges
/// short enough for exact barycentric arithmetic.
pub open spec fn triangle_wf(t: Triangle) -> bool {
    bounded3(t.v0, MAX_COORD as int) && bounded3(t.v01, MAX_EDGE as int) && bounded3(
        t.v02,
        MAX_EDGE as int,
    )
}

/// The direction-edge cross product of the barycentric test.
pub open spec fn tri_pvec(t: Triangle, r: Ray) -> Three<Fx> {
    v3_cross(r.direction, t.v02)
}

/// The determinant of the barycentric test.
pub open spec fn tri_det(t: Triangle, r: Ray) -> int {
    dot3(t.v01, tri_pvec(t, r))
}

/// The vector from the base vertex to the ray origin.
pub open spec fn tri_tvec(t: Triangle, r: Ray) -> Three<Fx> {
    v3_sub(r.origin, t.v0)
}

/// The numerator of the first barycentric coordinate `u`.
pub open spec fn tri_u_num(t: Triangle, r: Ray) -> int {
    dot3(tri_tvec(t, r), tri_pvec(t, r))
}

/// The second cross product of the barycentric test.
pub open spec fn tri_qvec(t: Triangle, r: Ray) -> Three<Fx> {
    v3_cross(tri_tvec(t, r), t.v01)
}

/// The numerator of the second barycentric coordinate `v`.
pub open spec fn tri_v_num(t: Triangle, r: Ray) -> int {
    dot3(r.direction, tri_qvec(t, r))
}

/// The numerator of the ray parameter.
pub open spec fn tri_t_num(t: Triangle, r: Ray) -> int {
    dot3(t.v02, tri_qvec(t, r))
}

/// Whether the fraction `num / det` is nonnegative: the numerator is zero
/// or agrees with the determinant in sign.
pub open spec fn sign_ok(num: int, det: int) -> bool {
    num == 0 || ((num > 0) == (det > 0))
}

/// The ray parameter at which the ray meets the triangle: inside the
/// barycentric bounds, within the window, and representable.
pub open spec fn triangle_hit_t(t: Triangle, r: Ray, t_min: Fx, t_max: Fx) -> Option<int> {
    let det = tri_det(t, r);
    let u_num = tri_u_num(t, r);
    let v_num = tri_v_num(t, r);
    if abs_i(det) < DET_EPS {
        None
    } else if !(sign_ok(u_num, det) && abs_i(u_num) <= abs_i(det)) {
        None
    } else if !(sign_ok(v_num, det) && abs_i(u_num + v_num) <= abs_i(det)) {
        None
    } else {
        let tt = fx_div(tri_t_num(t, r), det);
        if abs_i(tt) <= MAX_T && in_window(tt, t_min, t_max) {
            Some(tt)
        } else {
            None
        }
    }
}

/// The triangle's scaled normal: the cross product of its edges.
pub open spec fn tri_cross(t: Triangle) -> Three<Fx> {
    v3_cross(t.v01, t.v02)
}

/// The full intersection record, with the triangle's unit normal. A
/// degenerate triangle whose normal cannot be normalized within bounds
/// yields nothing.
pub open spec fn triangle_hit(t: Triangle, r: Ray, t_min: Fx, t_max: Fx) -> Option<Hit> {
    match triangle_hit_t(t, r, t_min, t_max) {
        None => None,
        Some(tt) => {
            let cn = tri_cross(t);
            if len_sq3(cn) < 1 {
                None
            } else {
                let n = v3_normalized(cn);
                if !bounded3(n, MAX_DIR as int) {
                    None
                } else {
                    Some(
                        Hit {
                            position: ray_point(r, tt),
                            distance: Fx { raw: tt as i64 },
                            normal: n,
                            object_index: 0,
                        },
                    )
                }
            }
        },
    }
}

/// Shrinking the window keeps exactly the hits closer than the new end:
/// the basis of progressive pruning during nearest-hit search.
pub proof fn lemma_triangle_hit_restrict(t: Triangle, r: Ray, t_min: Fx, t1: Fx, t2: Fx)
    requires
        t1.raw <= t2.raw,
    ensures
        triangle_hit(t, r, t_min, t1) == match triangle_hit(t, r, t_min, t2) {
            Some(h) => if h.distance.raw < t1.raw {
                Some(h)
            } else {
                None::<Hit>
            },
            None => None::<Hit>,
        },
{
}

impl Triangle {
    /// A triangle from its three vertices.
    pub fn new(v0: Three<Fx>, v1: Three<Fx>, v2: Three<Fx>) -> (t: Triangle)
        requires
            bounded3(v0, MAX_COORD as int),
            bounded3(v1, MAX_COORD as int),
            bounded3(v2, MAX_COORD as int),
        ensures
            t.v0 == v0,
            t.v01 == v3_sub(v1, v0),
            t.v02 == v3_sub(v2, v0),
    {
        proof {
            lemma_ops_fit(v1, v0, MAX_COORD as int);
            lemma_ops_fit(v2, v0, MAX_COORD as int);
        }
        let v01 = v1.sub(v0);
        let v02 = v2.sub(v0);
        proof {
            assert(v01 =~~= v3_sub(v1, v0));
            assert(v02 =~~= v3_sub(v2, v0));
        }
        Triangle { v0, v01, v02 }
    }

    /// An equilateral triangle around the origin, facing positive z, with
    /// the middle of its base at the origin.
    pub fn facing_pos_z() -> (t: Triangle)
        ensures
            t.v0.x.raw == -32768 && t.v0.y.raw == 0 && t.v0.z.raw == 0,
            t.v01.x.raw == 65536 && t.v01.y.raw == 0 && t.v01.z.raw == 0,
            t.v02.x.raw == 32768 && t.v02.y.raw == 56756 && t.v02.z.raw == 0,
            triangle_wf(t),
    {
        Triangle {
            v0: Three::new(Fx::from_raw(-32768), Fx::zero(), Fx::zero()),
            v01: Three::new(Fx::from_raw(65536), Fx::zero(), Fx::zero()),
            v02: Three::new(Fx::from_raw(32768), Fx::from_raw(56756), Fx::zero()),
        }
    }

    /// The triangle moved by `offset`.
    pub fn shifted(&self, offset: Three<Fx>) -> (t: Triangle)
        requires
            bounded3(self.v0, MAX_COORD as int),
            bounded3(offset, MAX_COORD as int),
        ensures
            t.v0 == crate::vec3::v3_add(self.v0, offset),
            t.v01 == self.v01,
            t.v02 == self.v02,
    {
        proof {
            lemma_ops_fit(self.v0, offset, MAX_COORD as int);
        }
        let v0 = self.v0.add(offset);
        proof {
            assert(v0 =~~= crate::vec3::v3_add(self.v0, offset));
        }
        Triangle { v0, v01: self.v01, v02: self.v02 }
    }

    /// The triangle with every vertex scaled by `scalar`. Succeeds
    /// exactly when every scaled vertex stays in the world box.
    pub fn scaled(&self, scalar: Fx) -> (r: Option<Triangle>)
        requires
            triangle_wf(*self),
            crate::fixed::abs_i(scalar.raw as int) <= 16 * FX_SCALE,
        ensures
            ({
                let a = crate::vec3::v3_scale(self.v0, scalar.raw as int);
                let b = crate::vec3::v3_scale(
                    crate::vec3::v3_add(self.v01, self.v0),
                    scalar.raw as int,
                );
                let c = crate::vec3::v3_scale(
                    crate::vec3::v3_add(self.v02, self.v0),
                    scalar.raw as int,
                );
                match r {
                    Some(t) => t.v0 == a && t.v01 == v3_sub(b, a) && t.v02 == v3_sub(c, a)
                        && bounded3(a, MAX_COORD as int) && bounded3(b, MAX_COORD as int)
                        && bounded3(c, MAX_COORD as int),
                    None => !(bounded3(a, MAX_COORD as int) && bounded3(b, MAX_COORD as int)
                        && bounded3(c, MAX_COORD as int)),
                }
            }),
    {
        let (v0, v1, v2) = self.vertices();
        proof {
            crate::vec3::lemma_scale_fit(v0, scalar.raw as int, MAX_COORD as int, 16 * FX_SCALE);
            crate::vec3::lemma_scale_fit(
                v1,
                scalar.raw as int,
                2 * MAX_COORD as int,
                16 * FX_SCALE,
            );
            crate::vec3::lemma_scale_fit(
                v2,
                scalar.raw as int,
                2 * MAX_COORD as int,
                16 * FX_SCALE,
            );
        }
        let a = v0.scale(scalar);
        let b = v1.scale(scalar);
        let c = v2.scale(scalar);
        proof {
            assert(a =~~= crate::vec3::v3_scale(v0, scalar.raw as int));
            assert(b =~~= crate::vec3::v3_scale(v1, scalar.raw as int));
            assert(c =~~= crate::vec3::v3_scale(v2, scalar.raw as int));
        }
        if !(a.within(MAX_COORD) && b.within(MAX_COORD) && c.within(MAX_COORD)) {
            return None;
        }
        Some(Triangle::new(a, b, c))
    }

    /// The triangle with every vertex rotated about `axis` by `angle`
    /// degrees. Succeeds exactly when the vertices, before and after the
    /// rotation, stay in the world box.
    pub fn rotated_around(&self, axis: &Three<Fx>, angle: Fx) -> (r: Option<Triangle>)
        requires
            triangle_wf(*self),
            crate::vec3::bounded3(*axis, MAX_DIR as int),
            crate::fixed::abs_i(angle.raw as int) <= 0x1_0000_0000,
        ensures
            ({
                let v1 = crate::vec3::v3_add(self.v01, self.v0);
                let v2 = crate::vec3::v3_add(self.v02, self.v0);
                let a = crate::vec3::spec_rotate(self.v0, *axis, angle);
                let b = crate::vec3::spec_rotate(v1, *axis, angle);
                let c = crate::vec3::spec_rotate(v2, *axis, angle);
                let ok = bounded3(v1, MAX_COORD as int) && bounded3(v2, MAX_COORD as int)
                    && bounded3(a, MAX_COORD as int) && bounded3(b, MAX_COORD as int)
                    && bounded3(c, MAX_COORD as int);
                match r {
                    Some(t) => ok && t.v0 == a && t.v01 == v3_sub(b, a) && t.v02 == v3_sub(c, a),
                    None => !ok,
                }
            }),
    {
        let (v0, v1, v2) = self.vertices();
        if !(v1.within(MAX_COORD) && v2.within(MAX_COORD)) {
            return None;
        }
        let a = v0.rotate(axis, angle);
        let b = v1.rotate(axis, angle);
        let c = v2.rotate(axis, angle);
        if !(a.within(MAX_COORD) && b.within(MAX_COORD) && c.within(MAX_COORD)) {
            return None;
        }
        Some(Triangle::new(a, b, c))
    }

    /// The three vertices.
    pub fn vertices(&self) -> (r: (Three<Fx>, Three<Fx>, Three<Fx>))
        requires
            bounded3(self.v0, MAX_COORD as int),
            bounded3(self.v01, MAX_EDGE as int),
            bounded3(self.v02, MAX_EDGE as int),
        ensures
            r.0 == self.v0,
            r.1 == crate::vec3::v3_add(self.v01, self.v0),
            r.2 == crate::vec3::v3_add(self.v02, self.v0),
    {
        proof {
            lemma_ops_fit(self.v01, self.v0, MAX_COORD as int);
            lemma_ops_fit(self.v02, self.v0, MAX_COORD as int);
        }
        let v1 = self.v01.add(self.v0);
        let v2 = self.v02.add(self.v0);
        proof {
            assert(v1 =~~= crate::vec3::v3_add(self.v01, self.v0));
            assert(v2 =~~= crate::vec3::v3_add(self.v02, self.v0));
        }
        (self.v0, v1, v2)
    }

    /// Whether the triangle lies in the representable world box.
    pub fn is_wf(&self) -> (r: bool)
        ensures
            r == triangle_wf(*self),
    {
        self.v0.within(MAX_COORD) && self.v01.within(MAX_EDGE) && self.v02.within(MAX_EDGE)
    }

    /// The unit normal, by the right-hand rule on the two edges. A
    /// degenerate triangle yields nothing.
    pub fn normal(&self) -> (r: Option<Three<Fx>>)
        requires
            triangle_wf(*self),
        ensures
            match r {
                Some(n) => len_sq3(tri_cross(*self)) >= 1 && n == v3_normalized(tri_cross(*self))
                    && bounded3(n, MAX_DIR as int),
                None => len_sq3(tri_cross(*self)) < 1 || !bounded3(
                    v3_normalized(tri_cross(*self)),
                    MAX_DIR as int,
                ),
            },
    {
        proof {
            lemma_prod_fit(self.v01, self.v02, MAX_EDGE as int, MAX_EDGE as int);
        }
        let cn = self.v01.cross(&self.v02);
        proof {
            assert(cn =~~= tri_cross(*self));
            assert(bounded3(cn, 0x20_0000_0000));
            lemma_prod_fit(cn, cn, 0x20_0000_0000, 0x20_0000_0000);
        }
        if cn.length_squared().raw < 1 {
            return None;
        }
        let n = cn.normalized();
        proof {
            assert(n =~~= v3_normalized(tri_cross(*self)));
        }
        if !n.within(MAX_DIR) {
            return None;
        }
        Some(n)
    }
}

impl CanHit<Triangle> for Ray {
    open spec fn hit_ok(&self, obj: &Triangle, t_min: Fx, t_max: Fx) -> bool {
        ray_wf(*self) && triangle_wf(*obj) && t_window_wf(t_min, t_max)
    }

    open spec fn hit_model(&self, obj: &Triangle, t_min: Fx, t_max: Fx) -> Option<Hit> {
        triangle_hit(*obj, *self, t_min, t_max)
    }

    fn shoot_at(&self, tri: &Triangle, t_min: Fx, t_max: Fx) -> (r: Option<Hit>) {
        proof {
            lemma_prod_fit(self.direction, tri.v02, MAX_DIR as int, MAX_EDGE as int);
        }
        let pvec = self.direction.cross(&tri.v02);
        proof {
            assert(pvec =~~= tri_pvec(*tri, *self));
            assert(bounded3(pvec, 0x2000_0000));
            lemma_prod_fit(tri.v01, pvec, MAX_EDGE as int, 0x2000_0000);
        }
        let det = tri.v01.dot(&pvec);
        if -DET_EPS < det.raw && det.raw < DET_EPS {
            return None;
        }
        proof {
            lemma_ops_fit(self.origin, tri.v0, MAX_COORD as int);
        }
        let tvec = self.origin.sub(tri.v0);
        proof {
            assert(tvec =~~= tri_tvec(*tri, *self));
            assert(bounded3(tvec, 2 * MAX_COORD));
            lemma_prod_fit(tvec, pvec, 2 * MAX_COORD as int, 0x2000_0000);
        }
        let u_num = tvec.dot(&pvec);
        if !(u_num.raw == 0 || ((u_num.raw > 0) == (det.raw > 0))) {
            return None;
        }
        let ua: i64 = if u_num.raw < 0 {
            -u_num.raw
        } else {
            u_num.raw
        };
        let da: i64 = if det.raw < 0 {
            -det.raw
        } else {
            det.raw
        };
        if ua > da {
            return None;
        }
        proof {
            lemma_prod_fit(tvec, tri.v01, 2 * MAX_COORD as int, MAX_EDGE as int);
        }
        let qvec = tvec.cross(&tri.v01);
        proof {
            assert(qvec =~~= tri_qvec(*tri, *self));
            assert(bounded3(qvec, 0x100_0000_0000));
            lemma_prod_fit(self.direction, qvec, MAX_DIR as int, 0x100_0000_0000);
            lemma_prod_fit(tri.v02, qvec, MAX_EDGE as int, 0x100_0000_0000);
        }
        let v_num = self.direction.dot(&qvec);
        if !(v_num.raw == 0 || ((v_num.raw > 0) == (det.raw > 0))) {
            return None;
        }
        let sum = u_num.add(v_num);
        let sa: i64 = if sum.raw < 0 {
            -sum.raw
        } else {
            sum.raw
        };
        if sa > da {
            return None;
        }
        let t_num = tri.v02.dot(&qvec);
        let t = match div_capped(t_num, det) {
            None => {
                return None;
            },
            Some(t) => t,
        };
        if !(t_min.raw <= t.raw && t.raw < t_max.raw) {
            return None;
        }
        proof {
            crate::fixed::lemma_fx_mul_bound(
                self.direction.x.raw as int,
                t.raw as int,
                MAX_DIR as int,
                MAX_T as int,
            );
            crate::fixed::lemma_fx_mul_bound(
                self.direction.y.raw as int,
                t.raw as int,
                MAX_DIR as int,
                MAX_T as int,
            );
            crate::fixed::lemma_fx_mul_bound(
                self.direction.z.raw as int,
                t.raw as int,
                MAX_DIR as int,
                MAX_T as int,
            );
        }
        let offset = self.direction.scale(t);
        let position = self.origin.add(offset);
        proof {
            lemma_prod_fit(tri.v01, tri.v02, MAX_EDGE as int, MAX_EDGE as int);
        }
        let cn = tri.v01.cross(&tri.v02);
        proof {
            assert(cn =~~= tri_cross(*tri));
            assert(bounded3(cn, 0x20_0000_0000));
            lemma_prod_fit(cn, cn, 0x20_0000_0000, 0x20_0000_0000);
        }
        if cn.length_squared().raw < 1 {
            return None;
        }
        let normal = cn.normalized();
        proof {
            assert(normal =~~= v3_normalized(tri_cross(*tri)));
        }
        if !normal.within(MAX_DIR) {
            return None;
        }
        let hit = Hit { position, distance: t, normal, object_index: 0 };
        proof {
            assert(position =~~= ray_point(*self, t.raw as int));
            assert(Some(hit) =~~= triangle_hit(*tri, *self, t_min, t_max));
        }
        Some(hit)
    }
}

} // verus!
