//! Triangular prisms, assembled from eight triangles.
//!
//! A prism is built by extruding a base triangle along its negative
//! normal: two cap triangles and six side triangles. Construction
//! validates the orientation invariants — the caps' normals cancel, and
//! adjacent side faces are consistently oriented and non-degenerate — and
//! fails (returns nothing) if they are violated. Intersection scans the
//! eight triangles for the nearest hit, tagging the sub-triangle struck.

use vstd::prelude::*;

use super::triangle::{
    tri_cross, triangle_hit, triangle_wf, Triangle, DET_EPS, MAX_EDGE,
};
use crate::data::{ray_wf, t_window_wf, CanHit, Hit, Ray, MAX_COORD, MAX_DIR, MAX_T};
use crate::fixed::{abs_i, Fx};
use crate::vec3::{
    bounded3, dot3, len_sq3, lemma_ops_fit, lemma_prod_fit, v3_add, v3_normalized, v3_scale,
    v3_sub, Three,
};

verus! {

/// A prism: eight triangles with validated orientations.
#[derive(Clone, Copy, Debug)]
#[verifier::ext_equal]
pub struct Prism {
    pub triangles: [Triangle; 8],
}

/// Whether every face of the prism lies in the representable world box.
pub open spec fn prism_wf(p: Prism) -> bool {
    forall|i: int| 0 <= i < 8 ==> triangle_wf(#[trigger] p.triangles@[i])
}

/// Whether a triangle's normal exists: its edge cross product is long
/// enough to normalize, and the unit normal is within direction bounds.
pub open spec fn tri_normal_ok(t: Triangle) -> bool {
    len_sq3(tri_cross(t)) >= 1 && bounded3(v3_normalized(tri_cross(t)), MAX_DIR as int)
}

/// The triangle's unit normal, as a total function.
pub open spec fn tri_normal_val(t: Triangle) -> Three<Fx> {
    v3_normalized(tri_cross(t))
}

/// A triangle from three vertices, as stored: a base vertex and edges.
pub open spec fn mk_tri(a: Three<Fx>, b: Three<Fx>, c: Three<Fx>) -> Triangle {
    Triangle { v0: a, v01: v3_sub(b, a), v02: v3_sub(c, a) }
}

/// The extrusion offset: the base normal scaled by the prism length.
pub open spec fn prism_off(t: Triangle, length: Fx) -> Three<Fx> {
    v3_scale(tri_normal_val(t), length.raw as int)
}

/// The three extruded vertices of the far cap.
pub open spec fn prism_v3(t: Triangle, length: Fx) -> Three<Fx> {
    v3_sub(t.v0, prism_off(t, length))
}

/// The three extruded vertices of the far cap.
pub open spec fn prism_v4(t: Triangle, length: Fx) -> Three<Fx> {
    v3_sub(v3_add(t.v01, t.v0), prism_off(t, length))
}

/// The three extruded vertices of the far cap.
pub open spec fn prism_v5(t: Triangle, length: Fx) -> Three<Fx> {
    v3_sub(v3_add(t.v02, t.v0), prism_off(t, length))
}

/// The far cap.
pub open spec fn prism_t2(t: Triangle, l: Fx) -> Triangle {
    mk_tri(prism_v3(t, l), prism_v5(t, l), prism_v4(t, l))
}

/// The side faces.
pub open spec fn prism_t3(t: Triangle, l: Fx) -> Triangle {
    mk_tri(t.v0, prism_v3(t, l), v3_add(t.v01, t.v0))
}

/// The side faces.
pub open spec fn prism_t4(t: Triangle, l: Fx) -> Triangle {
    mk_tri(prism_v4(t, l), v3_add(t.v01, t.v0), prism_v3(t, l))
}

/// The side faces.
pub open spec fn prism_t5(t: Triangle, l: Fx) -> Triangle {
    mk_tri(prism_v3(t, l), t.v0, prism_v5(t, l))
}

/// The side faces.
pub open spec fn prism_t6(t: Triangle, l: Fx) -> Triangle {
    mk_tri(v3_add(t.v02, t.v0), prism_v5(t, l), t.v0)
}

/// The side faces.
pub open spec fn prism_t7(t: Triangle, l: Fx) -> Triangle {
    mk_tri(v3_add(t.v02, t.v0), v3_add(t.v01, t.v0), prism_v4(t, l))
}

/// The side faces.
pub open spec fn prism_t8(t: Triangle, l: Fx) -> Triangle {
    mk_tri(v3_add(t.v02, t.v0), prism_v4(t, l), prism_v5(t, l))
}

/// Whether extrusion succeeds: all vertices stay in the world box, every
/// face is well-formed with a usable normal, the two caps' normals
/// cancel, and adjacent side faces are consistently oriented.
pub open spec fn prism_ok(t: Triangle, l: Fx) -> bool {
    let t2 = prism_t2(t, l);
    let t3 = prism_t3(t, l);
    let t4 = prism_t4(t, l);
    let t5 = prism_t5(t, l);
    let t6 = prism_t6(t, l);
    let t7 = prism_t7(t, l);
    let t8 = prism_t8(t, l);
    tri_normal_ok(t) && bounded3(v3_add(t.v01, t.v0), MAX_COORD as int) && bounded3(
        v3_add(t.v02, t.v0),
        MAX_COORD as int,
    ) && bounded3(prism_v3(t, l), MAX_COORD as int) && bounded3(
        prism_v4(t, l),
        MAX_COORD as int,
    ) && bounded3(prism_v5(t, l), MAX_COORD as int) && triangle_wf(t2) && triangle_wf(t3)
        && triangle_wf(t4) && triangle_wf(t5) && triangle_wf(t6) && triangle_wf(t7)
        && triangle_wf(t8) && tri_normal_ok(t2) && tri_normal_ok(t3) && tri_normal_ok(t4)
        && tri_normal_ok(t5) && tri_normal_ok(t6) && tri_normal_ok(t7) && tri_normal_ok(t8)
        && len_sq3(v3_add(tri_normal_val(t), tri_normal_val(t2))) <= DET_EPS && dot3(
        tri_normal_val(t3),
        tri_normal_val(t4),
    ) > 0 && dot3(tri_normal_val(t3), tri_normal_val(t)) == 0 && dot3(
        tri_normal_val(t5),
        tri_normal_val(t6),
    ) > 0 && dot3(tri_normal_val(t7), tri_normal_val(t8)) > 0
}

/// The nearest hit among the first `n` faces, scanning in face order and
/// shrinking the window to the best distance found so far. On equal
/// distances the earlier face wins, since a later hit must be strictly
/// closer to replace it.
pub open spec fn prism_scan(p: Prism, r: Ray, t_min: Fx, t_max: Fx, n: int) -> Option<Hit>
    decreases n,
{
    if n <= 0 {
        None
    } else {
        let prev = prism_scan(p, r, t_min, t_max, n - 1);
        let cur_max = match prev {
            Some(h) => h.distance,
            None => t_max,
        };
        match triangle_hit(p.triangles@[n - 1], r, t_min, cur_max) {
            Some(h) => Some(
                Hit {
                    position: h.position,
                    distance: h.distance,
                    normal: h.normal,
                    object_index: (n - 1) as usize,
                },
            ),
            None => prev,
        }
    }
}

/// A hit found by the face scan lies in the requested window, with a
/// bounded unit normal.
pub proof fn lemma_prism_scan_window(p: Prism, r: Ray, t_min: Fx, t_max: Fx, n: int)
    requires
        0 <= n <= 8,
    ensures
        match prism_scan(p, r, t_min, t_max, n) {
            Some(h) => t_min.raw <= h.distance.raw < t_max.raw && crate::vec3::bounded3(
                h.normal,
                crate::data::MAX_DIR as int,
            ),
            None => true,
        },
    decreases n,
{
    if n > 0 {
        lemma_prism_scan_window(p, r, t_min, t_max, n - 1);
    }
}

/// Shrinking the window keeps exactly the hits closer than the new end,
/// also for the whole face scan: pruning never changes which face wins.
pub proof fn lemma_prism_scan_restrict(p: Prism, r: Ray, t_min: Fx, t1: Fx, t2: Fx, n: int)
    requires
        t1.raw <= t2.raw,
        0 <= n <= 8,
    ensures
        prism_scan(p, r, t_min, t1, n) == match prism_scan(p, r, t_min, t2, n) {
            Some(h) => if h.distance.raw < t1.raw {
                Some(h)
            } else {
                None::<Hit>
            },
            None => None::<Hit>,
        },
    decreases n,
{
    if n > 0 {
        lemma_prism_scan_restrict(p, r, t_min, t1, t2, n - 1);
        lemma_prism_scan_window(p, r, t_min, t1, n - 1);
        lemma_prism_scan_window(p, r, t_min, t2, n - 1);
        let prev1 = prism_scan(p, r, t_min, t1, n - 1);
        let prev2 = prism_scan(p, r, t_min, t2, n - 1);
        let cur1 = match prev1 {
            Some(h) => h.distance,
            None => t1,
        };
        let cur2 = match prev2 {
            Some(h) => h.distance,
            None => t2,
        };
        super::triangle::lemma_triangle_hit_restrict(p.triangles@[n - 1], r, t_min, cur1, cur2);
    }
}

impl Prism {
    /// Extrudes `tri1` a distance `length` along its negative normal,
    /// validating the assembled orientations. Degenerate or out-of-range
    /// geometry yields nothing.
    pub fn new(tri1: Triangle, length: Fx) -> (r: Option<Prism>)
        requires
            triangle_wf(tri1),
            abs_i(length.raw as int) <= MAX_T,
        ensures
            r is Some <==> prism_ok(tri1, length),
            r is Some ==> r->0.triangles@ =~= seq![
                tri1,
                prism_t2(tri1, length),
                prism_t3(tri1, length),
                prism_t4(tri1, length),
                prism_t5(tri1, length),
                prism_t6(tri1, length),
                prism_t7(tri1, length),
                prism_t8(tri1, length),
            ],
            r is Some ==> prism_wf(r->0),
    {
        let n = match tri1.normal() {
            None => {
                return None;
            },
            Some(n) => n,
        };
        proof {
            crate::fixed::lemma_fx_mul_bound(
                n.x.raw as int,
                length.raw as int,
                MAX_DIR as int,
                MAX_T as int,
            );
            crate::fixed::lemma_fx_mul_bound(
                n.y.raw as int,
                length.raw as int,
                MAX_DIR as int,
                MAX_T as int,
            );
            crate::fixed::lemma_fx_mul_bound(
                n.z.raw as int,
                length.raw as int,
                MAX_DIR as int,
                MAX_T as int,
            );
        }
        let off = n.scale(length);
        proof {
            assert(off =~~= prism_off(tri1, length));
            assert(bounded3(off, 0x4_0000_0000));
            lemma_ops_fit(tri1.v0, off, 0x4_0000_0000);
        }
        let (v0, v1, v2) = tri1.vertices();
        proof {
            assert(bounded3(v1, 2 * MAX_COORD));
            assert(bounded3(v2, 2 * MAX_COORD));
            lemma_ops_fit(v1, off, 0x4_0000_0000);
            lemma_ops_fit(v2, off, 0x4_0000_0000);
        }
        let p3 = v0.sub(off);
        let p4 = v1.sub(off);
        let p5 = v2.sub(off);
        proof {
            assert(p3 =~~= prism_v3(tri1, length));
            assert(p4 =~~= prism_v4(tri1, length));
            assert(p5 =~~= prism_v5(tri1, length));
        }
        if !(v1.within(MAX_COORD) && v2.within(MAX_COORD)) {
            return None;
        }
        if !(p3.within(MAX_COORD) && p4.within(MAX_COORD) && p5.within(MAX_COORD)) {
            return None;
        }
        let tri2 = Triangle::new(p3, p5, p4);
        let tri3 = Triangle::new(v0, p3, v1);
        let tri4 = Triangle::new(p4, v1, p3);
        let tri5 = Triangle::new(p3, v0, p5);
        let tri6 = Triangle::new(v2, p5, v0);
        let tri7 = Triangle::new(v2, v1, p4);
        let tri8 = Triangle::new(v2, p4, p5);
        proof {
            assert(tri2 =~~= prism_t2(tri1, length));
            assert(tri3 =~~= prism_t3(tri1, length));
            assert(tri4 =~~= prism_t4(tri1, length));
            assert(tri5 =~~= prism_t5(tri1, length));
            assert(tri6 =~~= prism_t6(tri1, length));
            assert(tri7 =~~= prism_t7(tri1, length));
            assert(tri8 =~~= prism_t8(tri1, length));
        }
        if !(tri2.is_wf() && tri3.is_wf() && tri4.is_wf() && tri5.is_wf() && tri6.is_wf()
            && tri7.is_wf() && tri8.is_wf()) {
            return None;
        }
        let n2 = match tri2.normal() {
            None => {
                return None;
            },
            Some(v) => v,
        };
        let n3 = match tri3.normal() {
            None => {
                return None;
            },
            Some(v) => v,
        };
        let n4 = match tri4.normal() {
            None => {
                return None;
            },
            Some(v) => v,
        };
        let n5 = match tri5.normal() {
            None => {
                return None;
            },
            Some(v) => v,
        };
        let n6 = match tri6.normal() {
            None => {
                return None;
            },
            Some(v) => v,
        };
        let n7 = match tri7.normal() {
            None => {
                return None;
            },
            Some(v) => v,
        };
        let n8 = match tri8.normal() {
            None => {
                return None;
            },
            Some(v) => v,
        };
        proof {
            lemma_ops_fit(n, n2, MAX_DIR as int);
            lemma_prod_fit(n3, n4, MAX_DIR as int, MAX_DIR as int);
            lemma_prod_fit(n3, n, MAX_DIR as int, MAX_DIR as int);
            lemma_prod_fit(n5, n6, MAX_DIR as int, MAX_DIR as int);
            lemma_prod_fit(n7, n8, MAX_DIR as int, MAX_DIR as int);
        }
        let cap_sum = n.add(n2);
        proof {
            assert(cap_sum =~~= v3_add(tri_normal_val(tri1), tri_normal_val(prism_t2(tri1, length))));
            assert(bounded3(cap_sum, 2 * MAX_DIR));
            lemma_prod_fit(cap_sum, cap_sum, 2 * MAX_DIR as int, 2 * MAX_DIR as int);
        }
        if cap_sum.length_squared().raw > DET_EPS {
            return None;
        }
        if !(n3.dot(&n4).raw > 0) {
            return None;
        }
        if !(n3.dot(&n).raw == 0) {
            return None;
        }
        if !(n5.dot(&n6).raw > 0) {
            return None;
        }
        if !(n7.dot(&n8).raw > 0) {
            return None;
        }
        let p = Prism { triangles: [tri1, tri2, tri3, tri4, tri5, tri6, tri7, tri8] };
        proof {
            assert(p.triangles@ =~= seq![tri1, tri2, tri3, tri4, tri5, tri6, tri7, tri8]);
        }
        Some(p)
    }

    /// The unit prism: an equilateral base triangle facing positive z,
    /// extruded one unit. The result is exactly the extrusion of that
    /// base.
    pub fn unit_facing_pos_z() -> (r: Option<Prism>)
        ensures
            r is Some <==> prism_ok(unit_prism_base(), Fx { raw: 65536 }),
            r matches Some(p) ==> p.triangles@ == seq![
                unit_prism_base(),
                prism_t2(unit_prism_base(), Fx { raw: 65536 }),
                prism_t3(unit_prism_base(), Fx { raw: 65536 }),
                prism_t4(unit_prism_base(), Fx { raw: 65536 }),
                prism_t5(unit_prism_base(), Fx { raw: 65536 }),
                prism_t6(unit_prism_base(), Fx { raw: 65536 }),
                prism_t7(unit_prism_base(), Fx { raw: 65536 }),
                prism_t8(unit_prism_base(), Fx { raw: 65536 }),
            ] && prism_wf(p),
    {
        let base = Triangle::facing_pos_z();
        let length = Fx::one();
        proof {
            assert(base =~~= unit_prism_base());
            assert(length =~= (Fx { raw: 65536i64 }));
        }
        Prism::new(base, length)
    }
}

/// The base triangle of the unit prism: equilateral, facing positive z,
/// the middle of its base at the origin.
pub open spec fn unit_prism_base() -> Triangle {
    Triangle {
        v0: Three { x: Fx { raw: -32768i64 }, y: Fx { raw: 0 }, z: Fx { raw: 0 } },
        v01: Three { x: Fx { raw: 65536 }, y: Fx { raw: 0 }, z: Fx { raw: 0 } },
        v02: Three { x: Fx { raw: 32768 }, y: Fx { raw: 56756 }, z: Fx { raw: 0 } },
    }
}

/// A triangle moved by an offset: the base vertex moves, the edges stay.
pub open spec fn tri_shift(t: Triangle, off: Three<Fx>) -> Triangle {
    Triangle { v0: v3_add(t.v0, off), v01: t.v01, v02: t.v02 }
}

/// A vertex rotated about a point: shift to the origin, rotate, shift
/// back.
pub open spec fn vert_rot(v: Three<Fx>, c: Three<Fx>, axis: Three<Fx>, angle: Fx) -> Three<Fx> {
    v3_add(crate::vec3::spec_rotate(v3_sub(v, c), axis, angle), c)
}

/// A triangle rotated about a point, vertex by vertex.
pub open spec fn tri_rot(t: Triangle, c: Three<Fx>, axis: Three<Fx>, angle: Fx) -> Triangle {
    let a = vert_rot(t.v0, c, axis, angle);
    let b = vert_rot(v3_add(t.v01, t.v0), c, axis, angle);
    let d = vert_rot(v3_add(t.v02, t.v0), c, axis, angle);
    mk_tri(a, b, d)
}

/// Whether rotating one face about a point stays representable: the
/// vertices, their offsets from the pivot, the rotated offsets, and the
/// rotated vertices all lie in the world box, and the rotated face is
/// well-formed.
pub open spec fn face_rot_ok(t: Triangle, c: Three<Fx>, axis: Three<Fx>, angle: Fx) -> bool {
    let v1 = v3_add(t.v01, t.v0);
    let v2 = v3_add(t.v02, t.v0);
    &&& bounded3(v1, MAX_COORD as int)
    &&& bounded3(v2, MAX_COORD as int)
    &&& bounded3(v3_sub(t.v0, c), MAX_COORD as int)
    &&& bounded3(v3_sub(v1, c), MAX_COORD as int)
    &&& bounded3(v3_sub(v2, c), MAX_COORD as int)
    &&& bounded3(crate::vec3::spec_rotate(v3_sub(t.v0, c), axis, angle), MAX_COORD as int)
    &&& bounded3(crate::vec3::spec_rotate(v3_sub(v1, c), axis, angle), MAX_COORD as int)
    &&& bounded3(crate::vec3::spec_rotate(v3_sub(v2, c), axis, angle), MAX_COORD as int)
    &&& bounded3(vert_rot(t.v0, c, axis, angle), MAX_COORD as int)
    &&& bounded3(vert_rot(v1, c, axis, angle), MAX_COORD as int)
    &&& bounded3(vert_rot(v2, c, axis, angle), MAX_COORD as int)
    &&& triangle_wf(tri_rot(t, c, axis, angle))
}

/// Whether rotating the whole prism about its center stays
/// representable: the center and every rotated face do.
pub open spec fn prism_rot_ok(p: Prism, axis: Three<Fx>, angle: Fx) -> bool {
    &&& bounded3(prism_center(p), MAX_COORD as int)
    &&& (forall|i: int|
        0 <= i < 8 ==> face_rot_ok(#[trigger] p.triangles@[i], prism_center(p), axis, angle))
}

/// The prism's center: the mean of the first two vertices of each cap.
pub open spec fn prism_center(p: Prism) -> Three<Fx> {
    let t0 = p.triangles@[0];
    let t1 = p.triangles@[1];
    let sum = v3_add(
        v3_add(t0.v0, v3_add(t0.v01, t0.v0)),
        v3_add(t1.v0, v3_add(t1.v01, t1.v0)),
    );
    v3_scale(sum, 16384)
}

impl Prism {
    /// The prism moved by `offset`. Succeeds exactly when every moved
    /// face stays in the world box.
    pub fn shifted(&self, offset: Three<Fx>) -> (r: Option<Prism>)
        requires
            prism_wf(*self),
            bounded3(offset, MAX_COORD as int),
        ensures
            match r {
                Some(p) => prism_wf(p) && p.triangles@.len() == 8 && (forall|i: int|
                    0 <= i < 8 ==> p.triangles@[i] == tri_shift(
                        #[trigger] self.triangles@[i],
                        offset,
                    )),
                None => exists|i: int|
                    0 <= i < 8 && !triangle_wf(tri_shift(#[trigger] self.triangles@[i], offset)),
            },
    {
        let t0 = self.triangles[0].shifted(offset);
        let t1 = self.triangles[1].shifted(offset);
        let t2 = self.triangles[2].shifted(offset);
        let t3 = self.triangles[3].shifted(offset);
        let t4 = self.triangles[4].shifted(offset);
        let t5 = self.triangles[5].shifted(offset);
        let t6 = self.triangles[6].shifted(offset);
        let t7 = self.triangles[7].shifted(offset);
        proof {
            assert(t0 =~~= tri_shift(self.triangles@[0], offset));
            assert(t1 =~~= tri_shift(self.triangles@[1], offset));
            assert(t2 =~~= tri_shift(self.triangles@[2], offset));
            assert(t3 =~~= tri_shift(self.triangles@[3], offset));
            assert(t4 =~~= tri_shift(self.triangles@[4], offset));
            assert(t5 =~~= tri_shift(self.triangles@[5], offset));
            assert(t6 =~~= tri_shift(self.triangles@[6], offset));
            assert(t7 =~~= tri_shift(self.triangles@[7], offset));
        }
        if !(t0.is_wf() && t1.is_wf() && t2.is_wf() && t3.is_wf() && t4.is_wf() && t5.is_wf()
            && t6.is_wf() && t7.is_wf()) {
            return None;
        }
        let p = Prism { triangles: [t0, t1, t2, t3, t4, t5, t6, t7] };
        proof {
            assert(t0 =~~= tri_shift(self.triangles@[0], offset));
            assert(t1 =~~= tri_shift(self.triangles@[1], offset));
            assert(t2 =~~= tri_shift(self.triangles@[2], offset));
            assert(t3 =~~= tri_shift(self.triangles@[3], offset));
            assert(t4 =~~= tri_shift(self.triangles@[4], offset));
            assert(t5 =~~= tri_shift(self.triangles@[5], offset));
            assert(t6 =~~= tri_shift(self.triangles@[6], offset));
            assert(t7 =~~= tri_shift(self.triangles@[7], offset));
            assert forall|i: int| 0 <= i < 8 implies p.triangles@[i] == tri_shift(
                #[trigger] self.triangles@[i],
                offset,
            ) by {
                assert(p.triangles@ =~= seq![t0, t1, t2, t3, t4, t5, t6, t7]);
            }
            assert forall|i: int| 0 <= i < 8 implies triangle_wf(#[trigger] p.triangles@[i]) by {
                assert(p.triangles@ =~= seq![t0, t1, t2, t3, t4, t5, t6, t7]);
            }
        }
        Some(p)
    }

    /// The prism's center: the mean of the near corners of its two caps.
    pub fn center(&self) -> (c: Three<Fx>)
        requires
            prism_wf(*self),
        ensures
            c == prism_center(*self),
    {
        proof {
            assert(triangle_wf(self.triangles@[0]));
            assert(triangle_wf(self.triangles@[1]));
        }
        let (a0, a1, _) = self.triangles[0].vertices();
        let (b0, b1, _) = self.triangles[1].vertices();
        let sum = a0.add(a1).add(b0.add(b1));
        proof {
            crate::vec3::lemma_scale_fit(sum, 16384, 0x8000_0000, 16384);
        }
        let c = sum.scale(Fx::from_raw(16384));
        proof {
            assert(c =~~= prism_center(*self));
        }
        c
    }

    /// The prism rotated about its own center by `angle` degrees around
    /// `axis`, recomputing all eight faces. Succeeds exactly when the
    /// rotation stays representable.
    pub fn rotated_around(&self, axis: &Three<Fx>, angle: Fx) -> (r: Option<Prism>)
        requires
            prism_wf(*self),
            bounded3(*axis, MAX_DIR as int),
            abs_i(angle.raw as int) <= 0x1_0000_0000,
        ensures
            r is Some <==> prism_rot_ok(*self, *axis, angle),
            match r {
                Some(p) => prism_wf(p) && p.triangles@.len() == 8 && (forall|i: int|
                    0 <= i < 8 ==> p.triangles@[i] == tri_rot(
                        #[trigger] self.triangles@[i],
                        prism_center(*self),
                        *axis,
                        angle,
                    )),
                None => true,
            },
    {
        let c = self.center();
        if !c.within(MAX_COORD) {
            return None;
        }
        match rotate_faces(&self.triangles, &c, axis, angle) {
            None => None,
            Some(ts) => {
                let p = Prism { triangles: ts };
                proof {
                    assert forall|i: int|
                        0 <= i < 8 implies face_rot_ok(
                        #[trigger] self.triangles@[i],
                        prism_center(*self),
                        *axis,
                        angle,
                    ) by {
                        assert(face_rot_ok(self.triangles@[i], c, *axis, angle));
                    }
                    assert forall|i: int| 0 <= i < 8 implies triangle_wf(
                        #[trigger] p.triangles@[i],
                    ) by {
                        assert(face_rot_ok(self.triangles@[i], c, *axis, angle));
                        assert(triangle_wf(ts@[i]));
                    }
                    assert forall|i: int|
                        0 <= i < 8 implies p.triangles@[i] == tri_rot(
                        #[trigger] self.triangles@[i],
                        prism_center(*self),
                        *axis,
                        angle,
                    ) by {
                        assert(ts@[i] == tri_rot(self.triangles@[i], c, *axis, angle));
                    }
                    assert(prism_rot_ok(*self, *axis, angle));
                }
                Some(p)
            },
        }
    }
}

/// Rotates all eight faces about a point. Succeeds exactly when every
/// face's rotation stays representable.
#[verifier::rlimit(100)]
#[verifier::spinoff_prover]
fn rotate_faces(faces: &[Triangle; 8], c: &Three<Fx>, axis: &Three<Fx>, angle: Fx) -> (r: Option<
    [Triangle; 8],
>)
    requires
        forall|i: int| 0 <= i < 8 ==> triangle_wf(#[trigger] faces@[i]),
        bounded3(*c, MAX_COORD as int),
        bounded3(*axis, MAX_DIR as int),
        abs_i(angle.raw as int) <= 0x1_0000_0000,
    ensures
        match r {
            Some(out) => forall|i: int|
                0 <= i < 8 ==> face_rot_ok(#[trigger] faces@[i], *c, *axis, angle) && out@[i]
                    == tri_rot(faces@[i], *c, *axis, angle) && triangle_wf(out@[i]),
            None => !(forall|i: int|
                0 <= i < 8 ==> face_rot_ok(#[trigger] faces@[i], *c, *axis, angle)),
        },
{
    let t0 = match rotate_face(&faces[0], c, axis, angle) {
        None => {
            return None;
        },
        Some(t) => t,
    };
    let t1 = match rotate_face(&faces[1], c, axis, angle) {
        None => {
            return None;
        },
        Some(t) => t,
    };
    let t2 = match rotate_face(&faces[2], c, axis, angle) {
        None => {
            return None;
        },
        Some(t) => t,
    };
    let t3 = match rotate_face(&faces[3], c, axis, angle) {
        None => {
            return None;
        },
        Some(t) => t,
    };
    let t4 = match rotate_face(&faces[4], c, axis, angle) {
        None => {
            return None;
        },
        Some(t) => t,
    };
    let t5 = match rotate_face(&faces[5], c, axis, angle) {
        None => {
            return None;
        },
        Some(t) => t,
    };
    let t6 = match rotate_face(&faces[6], c, axis, angle) {
        None => {
            return None;
        },
        Some(t) => t,
    };
    let t7 = match rotate_face(&faces[7], c, axis, angle) {
        None => {
            return None;
        },
        Some(t) => t,
    };
    let out = [t0, t1, t2, t3, t4, t5, t6, t7];
    proof {
        assert forall|i: int|
            0 <= i < 8 implies face_rot_ok(#[trigger] faces@[i], *c, *axis, angle) && out@[i]
            == tri_rot(faces@[i], *c, *axis, angle) && triangle_wf(out@[i]) by {
            assert(out@ =~= seq![t0, t1, t2, t3, t4, t5, t6, t7]);
            if i == 0 {
                assert(face_rot_ok(faces@[0], *c, *axis, angle));
            } else if i == 1 {
                assert(face_rot_ok(faces@[1], *c, *axis, angle));
            } else if i == 2 {
                assert(face_rot_ok(faces@[2], *c, *axis, angle));
            } else if i == 3 {
                assert(face_rot_ok(faces@[3], *c, *axis, angle));
            } else if i == 4 {
                assert(face_rot_ok(faces@[4], *c, *axis, angle));
            } else if i == 5 {
                assert(face_rot_ok(faces@[5], *c, *axis, angle));
            } else if i == 6 {
                assert(face_rot_ok(faces@[6], *c, *axis, angle));
            } else {
                assert(face_rot_ok(faces@[7], *c, *axis, angle));
            }
        }
    }
    Some(out)
}

/// Rotates one face about a point. Succeeds exactly when the rotation
/// stays representable.
fn rotate_face(t: &Triangle, c: &Three<Fx>, axis: &Three<Fx>, angle: Fx) -> (r: Option<Triangle>)
    requires
        triangle_wf(*t),
        bounded3(*c, MAX_COORD as int),
        bounded3(*axis, MAX_DIR as int),
        abs_i(angle.raw as int) <= 0x1_0000_0000,
    ensures
        match r {
            Some(out) => face_rot_ok(*t, *c, *axis, angle) && out == tri_rot(*t, *c, *axis, angle)
                && triangle_wf(out),
            None => !face_rot_ok(*t, *c, *axis, angle),
        },
{
    let (v0, v1, v2) = t.vertices();
    if !(v1.within(MAX_COORD) && v2.within(MAX_COORD)) {
        return None;
    }
    proof {
        lemma_ops_fit(v0, *c, MAX_COORD as int);
        lemma_ops_fit(v1, *c, MAX_COORD as int);
        lemma_ops_fit(v2, *c, MAX_COORD as int);
    }
    let s0 = v0.sub(*c);
    let s1 = v1.sub(*c);
    let s2 = v2.sub(*c);
    if !(s0.within(MAX_COORD) && s1.within(MAX_COORD) && s2.within(MAX_COORD)) {
        return None;
    }
    let r0 = s0.rotate(axis, angle);
    let r1 = s1.rotate(axis, angle);
    let r2 = s2.rotate(axis, angle);
    proof {
        assert(s0 =~~= v3_sub(v0, *c));
        assert(s1 =~~= v3_sub(v1, *c));
        assert(s2 =~~= v3_sub(v2, *c));
    }
    if !(r0.within(MAX_COORD) && r1.within(MAX_COORD) && r2.within(MAX_COORD)) {
        return None;
    }
    proof {
        lemma_ops_fit(r0, *c, MAX_COORD as int);
        lemma_ops_fit(r1, *c, MAX_COORD as int);
        lemma_ops_fit(r2, *c, MAX_COORD as int);
    }
    let a = r0.add(*c);
    let b = r1.add(*c);
    let d = r2.add(*c);
    proof {
        assert(a =~~= vert_rot(v0, *c, *axis, angle));
        assert(b =~~= vert_rot(v1, *c, *axis, angle));
        assert(d =~~= vert_rot(v2, *c, *axis, angle));
    }
    if !(a.within(MAX_COORD) && b.within(MAX_COORD) && d.within(MAX_COORD)) {
        return None;
    }
    let out = Triangle::new(a, b, d);
    if !out.is_wf() {
        return None;
    }
    proof {
        assert(out =~~= tri_rot(*t, *c, *axis, angle));
    }
    Some(out)
}

impl CanHit<Prism> for Ray {
    open spec fn hit_ok(&self, obj: &Prism, t_min: Fx, t_max: Fx) -> bool {
        ray_wf(*self) && prism_wf(*obj) && t_window_wf(t_min, t_max)
    }

    open spec fn hit_model(&self, obj: &Prism, t_min: Fx, t_max: Fx) -> Option<Hit> {
        prism_scan(*obj, *self, t_min, t_max, 8)
    }

    fn shoot_at(&self, prism: &Prism, t_min: Fx, t_max: Fx) -> (r: Option<Hit>) {
        let mut best: Option<Hit> = None;
        let mut cur_max = t_max;
        let mut i: usize = 0;
        while i < 8
            invariant
                ray_wf(*self) && prism_wf(*prism) && t_window_wf(t_min, t_max),
                0 <= i <= 8,
                best == prism_scan(*prism, *self, t_min, t_max, i as int),
                cur_max == match best {
                    Some(h) => h.distance,
                    None => t_max,
                },
                t_window_wf(t_min, cur_max),
            decreases 8 - i,
        {
            match self.shoot_at(&prism.triangles[i], t_min, cur_max) {
                Some(h) => {
                    let tagged = Hit {
                        position: h.position,
                        distance: h.distance,
                        normal: h.normal,
                        object_index: i,
                    };
                    best = Some(tagged);
                    cur_max = h.distance;
                },
                None => {},
            }
            i = i + 1;
        }
        best
    }
}

} // verus!
