//! The render driver: work units, accumulation, and tone mapping.
//!
//! A render of `width x height` pixels with `n` samples consists of
//! `width * height * n` independent work units. Each unit derives its
//! pixel and sample from one flat index and seeds a fresh generator from
//! that same index, so every unit's color is an exact function of the
//! scene, the camera, the depth budget, and the index — rendering the
//! same scene twice produces identical samples. Sample accumulation is
//! exact integer addition, so unlike a float renderer the reduction
//! order cannot change the image.

use vstd::prelude::*;

use crate::camera::{camera_ray, camera_wf, Camera};
use crate::fixed::{abs_i, fits_raw, fx_div, fx_mul, Fx, FX_SCALE};
use crate::rng::{unit_from, xorshift_stream, SeededRng};
use crate::scene::{Scene, SceneTracer};
use crate::tracer::{trace_rec, PathTracer};
use crate::vec3::{bounded3, v3_add, v3_mul, Three};

verus! {

/// Largest sample count per pixel.
pub const MAX_SAMPLES: usize = 1024;

/// The number of pixels of a camera's image.
pub open spec fn cam_pixels(c: Camera) -> int {
    (c.width * c.height) as int
}

/// The color contributed by one work unit: the unit's index picks the
/// pixel, seeds the generator (two draws of sub-pixel jitter, then the
/// path), and a path that escapes contributes black.
pub open spec fn unit_color(scene: Scene, cam: Camera, depth: int, idx: int) -> Three<Fx> {
    let np = cam_pixels(cam);
    let p = idx % np;
    let x = p % (cam.width as int);
    let y = p / (cam.width as int);
    let seed = idx as u64;
    let jx = Fx { raw: (x * (FX_SCALE as int) + unit_from(xorshift_stream(seed, 0))) as i64 };
    let jy = Fx { raw: (y * (FX_SCALE as int) + unit_from(xorshift_stream(seed, 1))) as i64 };
    let ray = camera_ray(cam, jx, jy);
    match trace_rec(
        scene,
        ray,
        Three { x: Fx { raw: FX_SCALE }, y: Fx { raw: FX_SCALE }, z: Fx { raw: FX_SCALE } },
        depth,
        seed,
        2,
    ).0 {
        Some(c) => c,
        None => Three { x: Fx { raw: 0 }, y: Fx { raw: 0 }, z: Fx { raw: 0 } },
    }
}

/// The sum of the first `k` sample colors of pixel `p`.
pub open spec fn pixel_sum(scene: Scene, cam: Camera, depth: int, p: int, k: int) -> Three<Fx>
    decreases k,
{
    if k <= 0 {
        Three { x: Fx { raw: 0 }, y: Fx { raw: 0 }, z: Fx { raw: 0 } }
    } else {
        v3_add(
            pixel_sum(scene, cam, depth, p, k - 1),
            unit_color(scene, cam, depth, (k - 1) * cam_pixels(cam) + p),
        )
    }
}

/// The mean of `k` samples of pixel `p`.
pub open spec fn pixel_mean(scene: Scene, cam: Camera, depth: int, p: int, k: int) -> Three<
    Fx,
> {
    let s = pixel_sum(scene, cam, depth, p, k);
    Three {
        x: Fx { raw: fx_div(s.x.raw as int, k * (FX_SCALE as int)) as i64 },
        y: Fx { raw: fx_div(s.y.raw as int, k * (FX_SCALE as int)) as i64 },
        z: Fx { raw: fx_div(s.z.raw as int, k * (FX_SCALE as int)) as i64 },
    }
}

/// A traced sample is bounded by the largest emission the scene's
/// materials can produce.
pub proof fn lemma_trace_rec_bound(
    scene: Scene,
    ray: crate::data::Ray,
    atten: Three<Fx>,
    depth: int,
    seed: u64,
    index: nat,
)
    requires
        scene.wf(),
        crate::data::color_wf(atten),
    ensures
        match trace_rec(scene, ray, atten, depth, seed, index).0 {
            Some(c) => bounded3(c, crate::data::MAX_POWER as int),
            None => true,
        },
    decreases depth,
{
    if depth > 0 {
        let t_min = Fx { raw: crate::tracer::T_EPS };
        let t_max = Fx { raw: crate::data::MAX_T };
        let n = scene.objects().len() as int;
        crate::scene::lemma_scene_scan_props(scene, ray, t_min, t_max, n);
        match crate::scene::scene_scan(scene, ray, t_min, t_max, n) {
            None => {},
            Some(hit) => {
                let i = hit.object_index as int;
                assert(scene.material_indices()[i].0 < scene.materials().len());
                let m = scene.material_of(i);
                assert(crate::data::material_wf(m));
                let stepped = crate::tracer::interact_model(
                    m,
                    ray.direction,
                    hit.normal,
                    seed,
                    index,
                );
                match stepped.0 {
                    crate::data::LightInteraction::Emit { emission } => {
                        match m {
                            crate::data::Material::Light(l) => {
                                crate::vec3::lemma_scale_fit(
                                    l.rgb,
                                    l.power.raw as int,
                                    FX_SCALE as int,
                                    crate::data::MAX_POWER as int,
                                );
                            },
                            _ => {},
                        }
                        crate::fixed::lemma_fx_mul_bound(
                            atten.x.raw as int,
                            emission.x.raw as int,
                            FX_SCALE as int,
                            crate::data::MAX_POWER as int,
                        );
                        crate::fixed::lemma_fx_mul_bound(
                            atten.y.raw as int,
                            emission.y.raw as int,
                            FX_SCALE as int,
                            crate::data::MAX_POWER as int,
                        );
                        crate::fixed::lemma_fx_mul_bound(
                            atten.z.raw as int,
                            emission.z.raw as int,
                            FX_SCALE as int,
                            crate::data::MAX_POWER as int,
                        );
                    },
                    crate::data::LightInteraction::Scatter { direction, attenuation } => {
                        let next = crate::data::Ray { origin: hit.position, direction };
                        if crate::data::ray_wf(next) {
                            crate::fixed::lemma_unit_mul(
                                atten.x.raw as int,
                                attenuation.x.raw as int,
                            );
                            crate::fixed::lemma_unit_mul(
                                atten.y.raw as int,
                                attenuation.y.raw as int,
                            );
                            crate::fixed::lemma_unit_mul(
                                atten.z.raw as int,
                                attenuation.z.raw as int,
                            );
                            lemma_trace_rec_bound(
                                scene,
                                next,
                                v3_mul(atten, attenuation),
                                depth - 1,
                                seed,
                                stepped.1,
                            );
                        }
                    },
                }
            },
        }
    }
}

/// Every unit color is bounded by the largest emission.
pub proof fn lemma_unit_color_bound(scene: Scene, cam: Camera, depth: int, idx: int)
    requires
        scene.wf(),
    ensures
        bounded3(unit_color(scene, cam, depth, idx), crate::data::MAX_POWER as int),
{
    let np = cam_pixels(cam);
    let p = idx % np;
    let seed = idx as u64;
    let jx = Fx { raw: (p % (cam.width as int) * (FX_SCALE as int) + unit_from(
        xorshift_stream(seed, 0),
    )) as i64 };
    let jy = Fx { raw: (p / (cam.width as int) * (FX_SCALE as int) + unit_from(
        xorshift_stream(seed, 1),
    )) as i64 };
    lemma_trace_rec_bound(
        scene,
        camera_ray(cam, jx, jy),
        Three { x: Fx { raw: FX_SCALE }, y: Fx { raw: FX_SCALE }, z: Fx { raw: FX_SCALE } },
        depth,
        seed,
        2,
    );
}

/// Rendering is deterministic per unit: a work unit's sample is a
/// mathematical function of the scene, the camera, the depth budget, and
/// the unit index alone, because the generator is seeded from the index
/// and every draw is pinned to its position in the seeded stream. Two
/// runs over the same inputs produce identical samples, however the
/// units are scheduled.
pub proof fn lemma_unit_color_deterministic(
    scene: Scene,
    cam: Camera,
    depth: int,
    idx: int,
    c1: Three<Fx>,
    c2: Three<Fx>,
)
    requires
        c1 == unit_color(scene, cam, depth, idx),
        c2 == unit_color(scene, cam, depth, idx),
    ensures
        c1 == c2,
{
}

/// Runs one work unit: derives the pixel from the flat index, seeds a
/// fresh generator from the same index, jitters the pixel coordinate,
/// and traces one path. Returns the pixel index and its color sample.
pub fn render_unit(scene: &Scene, camera: &Camera, tracer: &PathTracer, ray_idx: usize) -> (r: (
    usize,
    Three<Fx>,
))
    requires
        scene.wf(),
        camera_wf(*camera),
    ensures
        r.0 == ray_idx as int % cam_pixels(*camera),
        r.1 == unit_color(*scene, *camera, tracer.depth as int, ray_idx as int),
        bounded3(r.1, crate::data::MAX_POWER as int),
{
    proof {
        assert(camera.width * camera.height >= 1 && camera.width * camera.height <= 0x10_0000)
            by (nonlinear_arith)
            requires
                1 <= camera.width <= 0x400,
                1 <= camera.height <= 0x400,
        ;
    }
    let np = camera.width * camera.height;
    let p = ray_idx % np;
    proof {
        vstd::arithmetic::div_mod::lemma_mod_division_less_than_divisor(
            ray_idx as int,
            np as int,
        );
        assert((p as int) / (camera.width as int) < camera.height as int) by (nonlinear_arith)
            requires
                0 <= p as int,
                (p as int) < (camera.width as int) * (camera.height as int),
                camera.width >= 1,
                camera.height >= 1,
        ;
        vstd::arithmetic::div_mod::lemma_div_pos_is_pos(p as int, camera.width as int);
        vstd::arithmetic::div_mod::lemma_mod_division_less_than_divisor(
            p as int,
            camera.width as int,
        );
    }
    let x = p % camera.width;
    let y = p / camera.width;
    let mut rng = SeededRng::from_seed(ray_idx as u64);
    let u1 = rng.next_unit();
    let u2 = rng.next_unit();
    let jx = Fx::from_raw((x as i64) * FX_SCALE + u1.raw);
    let jy = Fx::from_raw((y as i64) * FX_SCALE + u2.raw);
    let ray = camera.ray_through(jx, jy);
    let color = match tracer.trace(ray, scene, &mut rng) {
        Some(c) => c,
        None => Three::zeros(),
    };
    proof {
        lemma_unit_color_bound(*scene, *camera, tracer.depth as int, ray_idx as int);
        assert(color =~~= unit_color(*scene, *camera, tracer.depth as int, ray_idx as int));
    }
    (p, color)
}

/// Renders the scene: runs every work unit in index order, accumulates
/// each pixel's samples, and divides by the sample count. The result is
/// the row-major buffer of per-pixel mean colors.
///
/// Because accumulation is exact integer addition, the sum — and so the
/// image — does not depend on the order units are reduced in; a parallel
/// driver that partitions the same unit indexes produces the same buffer.
#[verifier::rlimit(100)]
pub fn render(scene: &Scene, camera: &Camera, tracer: &PathTracer, num_samples: usize) -> (r:
    Vec<Three<Fx>>)
    requires
        scene.wf(),
        camera_wf(*camera),
        1 <= num_samples <= MAX_SAMPLES,
    ensures
        r@.len() == cam_pixels(*camera),
        forall|p: int|
            0 <= p < cam_pixels(*camera) ==> r@[p] == pixel_mean(
                *scene,
                *camera,
                tracer.depth as int,
                p,
                num_samples as int,
            ),
{
    proof {
        assert(camera.width * camera.height >= 1 && camera.width * camera.height <= 0x10_0000)
            by (nonlinear_arith)
            requires
                1 <= camera.width <= 0x400,
                1 <= camera.height <= 0x400,
        ;
    }
    let np = camera.width * camera.height;
    let ghost gscene = *scene;
    let ghost gcam = *camera;
    let ghost depth = tracer.depth as int;
    let mut colors: Vec<Three<Fx>> = Vec::new();
    while colors.len() < np
        invariant
            colors@.len() <= np,
            forall|q: int|
                0 <= q < colors@.len() ==> colors@[q] == pixel_sum(gscene, gcam, depth, q, 0),
        decreases np - colors.len(),
    {
        colors.push(Three::zeros());
        proof {
            assert(colors@[colors@.len() - 1] =~~= pixel_sum(
                gscene,
                gcam,
                depth,
                colors@.len() - 1,
                0,
            ));
        }
    }
    let mut s: usize = 0;
    while s < num_samples
        invariant
            scene.wf(),
            camera_wf(*camera),
            gscene == *scene,
            gcam == *camera,
            depth == tracer.depth as int,
            np == camera.width * camera.height,
            1 <= np <= 0x10_0000,
            1 <= num_samples <= MAX_SAMPLES,
            0 <= s <= num_samples,
            colors@.len() == np,
            forall|q: int|
                0 <= q < np ==> colors@[q] == pixel_sum(gscene, gcam, depth, q, s as int)
                    && bounded3(#[trigger] colors@[q], s * (crate::data::MAX_POWER as int)),
        decreases num_samples - s,
    {
        let mut p: usize = 0;
        while p < np
            invariant
                scene.wf(),
                camera_wf(*camera),
                gscene == *scene,
                gcam == *camera,
                depth == tracer.depth as int,
                np == camera.width * camera.height,
                1 <= np <= 0x10_0000,
                1 <= num_samples <= MAX_SAMPLES,
                0 <= s < num_samples,
                0 <= p <= np,
                colors@.len() == np,
                forall|q: int|
                    0 <= q < p ==> colors@[q] == pixel_sum(gscene, gcam, depth, q, s as int + 1)
                        && bounded3(#[trigger] colors@[q], (s + 1) * (
                        crate::data::MAX_POWER as int)),
                forall|q: int|
                    p <= q < np ==> colors@[q] == pixel_sum(gscene, gcam, depth, q, s as int)
                        && bounded3(#[trigger] colors@[q], s * (crate::data::MAX_POWER as int)),
            decreases np - p,
        {
            proof {
                assert((s as int) * (np as int) + (p as int) <= 0x4000_0000) by (nonlinear_arith)
                    requires
                        0 <= s < 1024,
                        1 <= np <= 0x10_0000,
                        0 <= p <= np,
                ;
            }
            let idx = s * np + p;
            let (pix, c) = render_unit(scene, camera, tracer, idx);
            proof {
                vstd::arithmetic::div_mod::lemma_mod_multiples_vanish(
                    s as int,
                    p as int,
                    np as int,
                );
                vstd::arithmetic::div_mod::lemma_small_mod(p as nat, np as nat);
                assert(pix == p);
                assert((s * (crate::data::MAX_POWER as int)) + (crate::data::MAX_POWER as int)
                    <= MAX_SAMPLES * (crate::data::MAX_POWER as int));
            }
            let cur = colors[p];
            let updated = cur.add(c);
            proof {
                assert(updated =~~= v3_add(cur, c));
                assert(updated =~~= pixel_sum(gscene, gcam, depth, p as int, s as int + 1));
            }
            colors[p] = updated;
            p = p + 1;
        }
        s = s + 1;
    }
    let ns_fx = Fx::from_int(num_samples as i64);
    let mut out: Vec<Three<Fx>> = Vec::new();
    while out.len() < np
        invariant
            1 <= np <= 0x10_0000,
            1 <= num_samples <= MAX_SAMPLES,
            colors@.len() == np,
            out@.len() <= np,
            ns_fx.raw == num_samples * (FX_SCALE as int),
            forall|q: int|
                0 <= q < np ==> colors@[q] == pixel_sum(gscene, gcam, depth, q, num_samples as int)
                    && bounded3(#[trigger] colors@[q], num_samples * (
                    crate::data::MAX_POWER as int)),
            forall|q: int|
                0 <= q < out@.len() ==> out@[q] == pixel_mean(
                    gscene,
                    gcam,
                    depth,
                    q,
                    num_samples as int,
                ),
        decreases np - out.len(),
    {
        let p = out.len();
        let sum = colors[p];
        proof {
            crate::fixed::lemma_fx_div_denominator(
                sum.x.raw as int,
                ns_fx.raw as int,
                FX_SCALE as int,
            );
            crate::fixed::lemma_fx_div_denominator(
                sum.y.raw as int,
                ns_fx.raw as int,
                FX_SCALE as int,
            );
            crate::fixed::lemma_fx_div_denominator(
                sum.z.raw as int,
                ns_fx.raw as int,
                FX_SCALE as int,
            );
            vstd::arithmetic::div_mod::lemma_div_multiples_vanish(
                abs_i(sum.x.raw as int),
                FX_SCALE as int,
            );
            vstd::arithmetic::div_mod::lemma_div_multiples_vanish(
                abs_i(sum.y.raw as int),
                FX_SCALE as int,
            );
            vstd::arithmetic::div_mod::lemma_div_multiples_vanish(
                abs_i(sum.z.raw as int),
                FX_SCALE as int,
            );
        }
        let mean = sum.div(ns_fx);
        proof {
            assert(mean =~~= pixel_mean(gscene, gcam, depth, p as int, num_samples as int));
        }
        out.push(mean);
    }
    out
}

/// One tone-mapped channel: the value clamped to `[0, 1]`, scaled to 255
/// and rounded to the nearest integer. No gamma correction is applied.
pub open spec fn tone_channel(v: int) -> int {
    let c = if v < 0 {
        0
    } else if v > FX_SCALE {
        FX_SCALE as int
    } else {
        v
    };
    (c * 255 + 32768) / (FX_SCALE as int)
}

/// Tone-maps a linear color to one 8-bit value per channel.
pub fn to_rgb8(c: &Three<Fx>) -> (r: (u8, u8, u8))
    ensures
        r.0 == tone_channel(c.x.raw as int),
        r.1 == tone_channel(c.y.raw as int),
        r.2 == tone_channel(c.z.raw as int),
{
    (tone_channel_exec(c.x), tone_channel_exec(c.y), tone_channel_exec(c.z))
}

/// One channel of the tone map.
fn tone_channel_exec(v: Fx) -> (r: u8)
    ensures
        r == tone_channel(v.raw as int),
{
    let clamped: u64 = if v.raw < 0 {
        0
    } else if v.raw > FX_SCALE {
        FX_SCALE as u64
    } else {
        v.raw as u64
    };
    ((clamped * 255 + 32768) / 65536) as u8
}

} // verus!
