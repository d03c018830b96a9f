//! The scene: a flat arena of shapes and materials.
//!
//! Shapes and materials live in two dense arrays; an object refers to its
//! material by index. Handles are validated when they are inserted, and
//! lookups are index operations. Nearest-hit search is a linear scan that
//! progressively shrinks the search window to the best distance found, so
//! on equal distances the earlier object wins.

use vstd::prelude::*;

use crate::data::{material_wf, ray_wf, t_window_wf, CanHit, Hit, Material, Ray};
use crate::fixed::Fx;
use crate::rng::SeededRng;
use crate::shapes::{object_hit, object_wf, Object};
use crate::vec3::Three;

verus! {

/// A handle to a material in a scene.
#[derive(Clone, Copy, Debug, PartialEq, Eq, Structural)]
pub struct MaterialIdx(pub usize);

/// Strategies for estimating the radiance arriving along a ray.
pub trait SceneTracer: Sized {
    /// The exact value of one traced sample, as a function of the scene,
    /// the ray, and the position in the seeded draw stream; paired with
    /// the number of draws consumed.
    spec fn trace_model(&self, ray: Ray, scene: &Scene, seed: u64, index: nat) -> (
        Option<Three<Fx>>,
        nat,
    );

    /// Preconditions under which tracing is defined.
    spec fn trace_ok(&self, ray: Ray, scene: &Scene) -> bool;

    /// Estimates the radiance arriving at the ray's origin.
    fn trace(&self, ray: Ray, scene: &Scene, rng: &mut SeededRng) -> (r: Option<Three<Fx>>)
        requires
            self.trace_ok(ray, scene),
        ensures
            r == self.trace_model(ray, scene, old(rng).seed(), old(rng).drawn()).0,
            final(rng).seed() == old(rng).seed(),
            final(rng).drawn() == self.trace_model(
                ray,
                scene,
                old(rng).seed(),
                old(rng).drawn(),
            ).1,
    ;
}

/// A scene: shapes, materials, and the mapping between them.
pub struct Scene {
    objs: Vec<Object>,
    emissive: Vec<(usize, Object)>,
    mat_idx: Vec<MaterialIdx>,
    mats: Vec<Material>,
}

impl Scene {
    /// The objects, in insertion order.
    pub closed spec fn objects(self) -> Seq<Object> {
        self.objs@
    }

    /// The materials, in insertion order.
    pub closed spec fn materials(self) -> Seq<Material> {
        self.mats@
    }

    /// Each object's material handle.
    pub closed spec fn material_indices(self) -> Seq<MaterialIdx> {
        self.mat_idx@
    }

    /// The emissive objects, with their object indices.
    pub closed spec fn emissives(self) -> Seq<(usize, Object)> {
        self.emissive@
    }

    /// The material of the object at `i`.
    pub open spec fn material_of(self, i: int) -> Material {
        self.materials()[self.material_indices()[i].0 as int]
    }

    /// The scene's invariant: every object within world bounds, every
    /// material physical, every handle valid, and the emissive list made
    /// of valid entries.
    pub open spec fn wf(self) -> bool {
        &&& self.material_indices().len() == self.objects().len()
        &&& (forall|i: int|
            0 <= i < self.objects().len() ==> object_wf(#[trigger] self.objects()[i]))
        &&& (forall|i: int|
            0 <= i < self.materials().len() ==> material_wf(#[trigger] self.materials()[i]))
        &&& (forall|i: int|
            0 <= i < self.objects().len() ==> (#[trigger] self.material_indices()[i]).0
                < self.materials().len())
        &&& (forall|k: int|
            0 <= k < self.emissives().len() ==> (#[trigger] self.emissives()[k]).0
                < self.objects().len())
    }

    /// An empty scene.
    pub fn new() -> (s: Scene)
        ensures
            s.objects().len() == 0,
            s.materials().len() == 0,
            s.material_indices().len() == 0,
            s.emissives().len() == 0,
            s.wf(),
    {
        Scene { objs: Vec::new(), emissive: Vec::new(), mat_idx: Vec::new(), mats: Vec::new() }
    }

    /// Adds a material and returns its handle. Handles stay valid for the
    /// scene's lifetime.
    pub fn add_material(&mut self, material: Material) -> (idx: MaterialIdx)
        requires
            old(self).wf(),
            material_wf(material),
        ensures
            final(self).wf(),
            idx.0 == old(self).materials().len(),
            final(self).materials() == old(self).materials().push(material),
            final(self).objects() == old(self).objects(),
            final(self).material_indices() == old(self).material_indices(),
            final(self).emissives() == old(self).emissives(),
    {
        let idx = MaterialIdx(self.mats.len());
        self.mats.push(material);
        proof {
            assert forall|i: int| 0 <= i < self.materials().len() implies material_wf(
                #[trigger] self.materials()[i],
            ) by {
                if i < old(self).materials().len() {
                    assert(material_wf(old(self).materials()[i]));
                }
            }
            assert(self.objects() == old(self).objects());
            assert(self.material_indices() == old(self).material_indices());
            assert(self.emissives() == old(self).emissives());
            assert forall|i: int|
                0 <= i < self.objects().len() implies (#[trigger] self.material_indices()[i]).0
                < self.materials().len() by {
                assert(old(self).material_indices()[i].0 < old(self).materials().len());
            }
        }
        idx
    }

    /// Adds an object with the given material and returns its index. An
    /// emissive object is also recorded in the emissive list.
    pub fn add_object(&mut self, obj: Object, mat_idx: MaterialIdx) -> (obj_idx: usize)
        requires
            old(self).wf(),
            object_wf(obj),
            mat_idx.0 < old(self).materials().len(),
        ensures
            final(self).wf(),
            obj_idx == old(self).objects().len(),
            final(self).objects() == old(self).objects().push(obj),
            final(self).material_indices() == old(self).material_indices().push(mat_idx),
            final(self).materials() == old(self).materials(),
            final(self).emissives() == if old(self).materials()[mat_idx.0 as int] is Light {
                old(self).emissives().push((old(self).objects().len() as usize, obj))
            } else {
                old(self).emissives()
            },
    {
        let obj_idx = self.objs.len();
        let is_light = self.mats[mat_idx.0].is_emissive();
        if is_light {
            self.emissive.push((obj_idx, obj));
        }
        self.objs.push(obj);
        self.mat_idx.push(mat_idx);
        proof {
            assert forall|i: int| 0 <= i < self.objects().len() implies object_wf(
                #[trigger] self.objects()[i],
            ) by {
                if i < old(self).objects().len() {
                    assert(object_wf(old(self).objects()[i]));
                }
            }
            assert forall|i: int|
                0 <= i < self.objects().len() implies (#[trigger] self.material_indices()[i]).0
                < self.materials().len() by {
                if i < old(self).objects().len() {
                    assert(old(self).material_indices()[i].0 < old(self).materials().len());
                }
            }
            assert forall|k: int|
                0 <= k < self.emissives().len() implies (#[trigger] self.emissives()[k]).0
                < self.objects().len() by {
                if k < old(self).emissives().len() {
                    assert(old(self).emissives()[k].0 < old(self).objects().len());
                }
            }
            assert(final(self).emissives() =~= if old(self).materials()[mat_idx.0 as int]
                is Light {
                old(self).emissives().push((old(self).objects().len() as usize, obj))
            } else {
                old(self).emissives()
            });
        }
        obj_idx
    }

    /// The material of the object at `obj_idx`. The handle was validated
    /// at insertion; an out-of-range object index is a programming error
    /// and excluded by precondition.
    pub fn material_for(&self, obj_idx: usize) -> (m: &Material)
        requires
            self.wf(),
            obj_idx < self.objects().len(),
        ensures
            *m == self.material_of(obj_idx as int),
    {
        let mat_idx = self.mat_idx[obj_idx];
        &self.mats[mat_idx.0]
    }

    /// The emissive objects, with their object indices.
    pub fn emissive_objects(&self) -> (r: &Vec<(usize, Object)>)
        ensures
            r@ == self.emissives(),
    {
        &self.emissive
    }
}

/// A hit reported by any shape lies in the requested window, with a
/// bounded unit normal.
pub proof fn lemma_object_hit_window(o: Object, r: Ray, t_min: Fx, t_max: Fx)
    requires
        object_wf(o),
    ensures
        match object_hit(o, r, t_min, t_max) {
            Some(h) => t_min.raw <= h.distance.raw < t_max.raw && crate::vec3::bounded3(
                h.normal,
                crate::data::MAX_DIR as int,
            ),
            None => true,
        },
{
    match o {
        Object::Prism(p) => {
            crate::shapes::lemma_prism_scan_window(p, r, t_min, t_max, 8);
        },
        _ => {},
    }
}

/// Shrinking the window keeps exactly the hits closer than the new end,
/// whatever shape the object holds.
pub proof fn lemma_object_hit_restrict(o: Object, r: Ray, t_min: Fx, t1: Fx, t2: Fx)
    requires
        t1.raw <= t2.raw,
    ensures
        object_hit(o, r, t_min, t1) == match object_hit(o, r, t_min, t2) {
            Some(h) => if h.distance.raw < t1.raw {
                Some(h)
            } else {
                None::<Hit>
            },
            None => None::<Hit>,
        },
{
    match o {
        Object::Plane(p) => crate::shapes::lemma_plane_hit_restrict(p, r, t_min, t1, t2),
        Object::Sphere(s) => crate::shapes::lemma_sphere_hit_restrict(s, r, t_min, t1, t2),
        Object::Triangle(t) => crate::shapes::lemma_triangle_hit_restrict(t, r, t_min, t1, t2),
        Object::Prism(p) => crate::shapes::lemma_prism_scan_restrict(p, r, t_min, t1, t2, 8),
    }
}

/// The nearest hit among the first `n` objects, scanning in insertion
/// order and shrinking the window to the best distance found so far; the
/// winning hit is tagged with its object index. On equal distances the
/// earlier object wins, since a later hit must be strictly closer to
/// replace it.
pub open spec fn scene_scan(s: Scene, r: Ray, t_min: Fx, t_max: Fx, n: int) -> Option<Hit>
    decreases n,
{
    if n <= 0 {
        None
    } else {
        let prev = scene_scan(s, r, t_min, t_max, n - 1);
        let cur_max = match prev {
            Some(h) => h.distance,
            None => t_max,
        };
        match object_hit(s.objects()[n - 1], r, t_min, cur_max) {
            Some(h) => Some(
                Hit {
                    position: h.position,
                    distance: h.distance,
                    normal: h.normal,
                    object_index: (n - 1) as usize,
                },
            ),
            None => prev,
        }
    }
}

/// A hit reported by the scene scan lies in the window, points at one of
/// the scanned objects, and carries a bounded unit normal.
pub proof fn lemma_scene_scan_props(s: Scene, r: Ray, t_min: Fx, t_max: Fx, n: int)
    requires
        s.wf(),
        0 <= n <= s.objects().len(),
    ensures
        match scene_scan(s, r, t_min, t_max, n) {
            Some(h) => h.object_index < n && t_min.raw <= h.distance.raw < t_max.raw
                && crate::vec3::bounded3(h.normal, crate::data::MAX_DIR as int),
            None => true,
        },
    decreases n,
{
    if n > 0 {
        lemma_scene_scan_props(s, r, t_min, t_max, n - 1);
        let prev = scene_scan(s, r, t_min, t_max, n - 1);
        let cur_max = match prev {
            Some(h) => h.distance,
            None => t_max,
        };
        lemma_object_hit_window(s.objects()[n - 1], r, t_min, cur_max);
    }
}

/// What it means for `res` to be the nearest hit among the first `n`
/// objects: a reported hit is the full-window hit of its object, no
/// object's full-window hit is closer, and on equal distances the
/// earliest object wins; no report means no object hits at all.
pub open spec fn hit_is_nearest(
    s: Scene,
    r: Ray,
    t_min: Fx,
    t_max: Fx,
    n: int,
    res: Option<Hit>,
) -> bool {
    match res {
        None => forall|j: int|
            0 <= j < n ==> object_hit(#[trigger] s.objects()[j], r, t_min, t_max) is None,
        Some(h) => {
            &&& h.object_index < n
            &&& (object_hit(s.objects()[h.object_index as int], r, t_min, t_max) matches Some(hw)
                && hw.distance == h.distance && hw.position == h.position && hw.normal
                == h.normal)
            &&& (forall|j: int|
                0 <= j < n ==> (object_hit(#[trigger] s.objects()[j], r, t_min, t_max) matches
                    Some(hj) ==> h.distance.raw <= hj.distance.raw))
            &&& (forall|j: int|
                0 <= j < h.object_index ==> (object_hit(
                    #[trigger] s.objects()[j],
                    r,
                    t_min,
                    t_max,
                ) matches Some(hj) ==> h.distance.raw < hj.distance.raw))
        },
    }
}

/// One step of the scan preserves nearestness: folding in object
/// `n - 1` against the pruned window keeps the invariant.
#[verifier::rlimit(100)]
#[verifier::spinoff_prover]
proof fn lemma_scan_nearest_step(s: Scene, r: Ray, t_min: Fx, t_max: Fx, n: int)
    requires
        s.wf(),
        1 <= n <= s.objects().len(),
        hit_is_nearest(s, r, t_min, t_max, n - 1, scene_scan(s, r, t_min, t_max, n - 1)),
        match scene_scan(s, r, t_min, t_max, n - 1) {
            Some(h) => h.object_index < n - 1 && t_min.raw <= h.distance.raw < t_max.raw,
            None => true,
        },
    ensures
        hit_is_nearest(s, r, t_min, t_max, n, scene_scan(s, r, t_min, t_max, n)),
{
    let prev = scene_scan(s, r, t_min, t_max, n - 1);
    let cur_max = match prev {
        Some(h) => h.distance,
        None => t_max,
    };
    lemma_object_hit_restrict(s.objects()[n - 1], r, t_min, cur_max, t_max);
    lemma_object_hit_window(s.objects()[n - 1], r, t_min, t_max);
    let cur = object_hit(s.objects()[n - 1], r, t_min, cur_max);
    let full = object_hit(s.objects()[n - 1], r, t_min, t_max);
    let res = scene_scan(s, r, t_min, t_max, n);
    match cur {
        Some(ht) => {
            let h = res->0;
            assert(s.objects().len() <= usize::MAX) by {
                vstd::std_specs::vec::axiom_spec_len(&s.objs);
            }
            assert(res == Some(
                Hit {
                    position: ht.position,
                    distance: ht.distance,
                    normal: ht.normal,
                    object_index: (n - 1) as usize,
                },
            ));
            assert(h.object_index == n - 1 && h.distance == ht.distance && h.position
                == ht.position && h.normal == ht.normal);
            assert(full == Some(ht) && ht.distance.raw < cur_max.raw);
            assert forall|j: int|
                0 <= j < n implies (object_hit(
                #[trigger] s.objects()[j],
                r,
                t_min,
                t_max,
            ) matches Some(hj) ==> h.distance.raw <= hj.distance.raw && (j < n - 1
                ==> h.distance.raw < hj.distance.raw)) by {
                if j < n - 1 {
                    match prev {
                        Some(hp) => {
                            assert(object_hit(s.objects()[j], r, t_min, t_max) matches Some(
                                hj,
                            ) ==> hp.distance.raw <= hj.distance.raw);
                        },
                        None => {
                            assert(object_hit(s.objects()[j], r, t_min, t_max) is None);
                        },
                    }
                }
            }
            assert(hit_is_nearest(s, r, t_min, t_max, n, res));
        },
        None => {
            match prev {
                Some(hp) => {
                    assert(res == Some(hp));
                    assert forall|j: int|
                        0 <= j < n implies (object_hit(
                        #[trigger] s.objects()[j],
                        r,
                        t_min,
                        t_max,
                    ) matches Some(hj) ==> hp.distance.raw <= hj.distance.raw && (j
                        < hp.object_index ==> hp.distance.raw < hj.distance.raw)) by {
                        if j < n - 1 {
                            assert(object_hit(s.objects()[j], r, t_min, t_max) matches Some(
                                hj,
                            ) ==> hp.distance.raw <= hj.distance.raw && (j < hp.object_index
                                ==> hp.distance.raw < hj.distance.raw));
                        } else {
                            assert(match full {
                                Some(hf) => hf.distance.raw >= cur_max.raw,
                                None => true,
                            });
                        }
                    }
                    assert(hit_is_nearest(s, r, t_min, t_max, n, res));
                },
                None => {
                    assert forall|j: int|
                        0 <= j < n implies object_hit(
                        #[trigger] s.objects()[j],
                        r,
                        t_min,
                        t_max,
                    ) is None by {
                        if j < n - 1 {
                            assert(object_hit(s.objects()[j], r, t_min, t_max) is None);
                        }
                    }
                    assert(hit_is_nearest(s, r, t_min, t_max, n, res));
                },
            }
        },
    }
}

/// Nearest-hit search returns the global minimum positive distance among
/// all objects along the ray.
pub proof fn lemma_scene_scan_nearest(s: Scene, r: Ray, t_min: Fx, t_max: Fx, n: int)
    requires
        s.wf(),
        0 <= n <= s.objects().len(),
    ensures
        hit_is_nearest(s, r, t_min, t_max, n, scene_scan(s, r, t_min, t_max, n)),
    decreases n,
{
    if n > 0 {
        lemma_scene_scan_nearest(s, r, t_min, t_max, n - 1);
        lemma_scene_scan_props(s, r, t_min, t_max, n - 1);
        lemma_scan_nearest_step(s, r, t_min, t_max, n);
    }
}

impl CanHit<Scene> for Ray {
    open spec fn hit_ok(&self, obj: &Scene, t_min: Fx, t_max: Fx) -> bool {
        ray_wf(*self) && obj.wf() && t_window_wf(t_min, t_max)
    }

    open spec fn hit_model(&self, obj: &Scene, t_min: Fx, t_max: Fx) -> Option<Hit> {
        scene_scan(*obj, *self, t_min, t_max, obj.objects().len() as int)
    }

    fn shoot_at(&self, scene: &Scene, t_min: Fx, t_max: Fx) -> (r: Option<Hit>) {
        let mut best: Option<Hit> = None;
        let mut cur_max = t_max;
        let mut i: usize = 0;
        let n = scene.objs.len();
        while i < n
            invariant
                ray_wf(*self) && scene.wf() && t_window_wf(t_min, t_max),
                n == scene.objects().len(),
                0 <= i <= n,
                best == scene_scan(*scene, *self, t_min, t_max, i as int),
                cur_max == match best {
                    Some(h) => h.distance,
                    None => t_max,
                },
                t_window_wf(t_min, cur_max),
            decreases n - i,
        {
            let cur = self.shoot_at(&scene.objs[i], t_min, cur_max);
            proof {
                lemma_object_hit_window(scene.objs@[i as int], *self, t_min, cur_max);
            }
            match cur {
                Some(h) => {
                    let tagged = Hit {
                        position: h.position,
                        distance: h.distance,
                        normal: h.normal,
                        object_index: i,
                    };
                    best = Some(tagged);
                    cur_max = h.distance;
                },
                None => {},
            }
            i = i + 1;
        }
        best
    }
}

} // verus!
