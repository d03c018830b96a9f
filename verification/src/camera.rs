//! The camera: mapping pixels to world-space rays.
//!
//! Construction turns a field of view and an image shape into one affine
//! transform per screen axis; shooting a (jittered) pixel coordinate
//! through the camera applies the transforms and normalizes the
//! resulting direction. Construction validates that every coordinate the
//! image can produce stays within the representable direction bounds, so
//! every camera ray is well-formed by construction.

use vstd::prelude::*;

use crate::data::{
    ray_wf, FieldOfView, ImageShape, LinearTransform, Ray, MAX_COORD, RAD_PER_DEG_RAW,
};
use crate::fixed::{abs_i, fits_raw, fx_div, fx_mul, Fx, FX_SCALE};
use crate::trig::{cos_raw, sin_raw};
use crate::vec3::{bounded3, v3_normalized, Three};

verus! {

/// Largest pixel count of an image axis.
pub const MAX_IMAGE_DIM: usize = 0x400;

/// A camera: a position, one affine screen-to-world transform per axis,
/// and the image size in pixels.
#[derive(Clone, Copy, Debug, PartialEq, Eq, Structural)]
#[verifier::ext_equal]
pub struct Camera {
    pub position: Three<Fx>,
    pub x_transform: LinearTransform,
    pub y_transform: LinearTransform,
    pub width: usize,
    pub height: usize,
}

/// The field of view in radians, as a raw value.
pub open spec fn fov_radians(fov: FieldOfView) -> int {
    match fov {
        FieldOfView::Degrees(v) => fx_mul(v.raw as int, RAD_PER_DEG_RAW as int),
        FieldOfView::Radians(v) => v.raw as int,
    }
}

/// The tangent of half the field of view, as a raw value. Meaningful
/// only when the cosine is nonzero.
pub open spec fn tan_half_fov(fov: FieldOfView) -> int {
    let half = fx_div(fov_radians(fov), 2 * FX_SCALE);
    fx_div(sin_raw(half), cos_raw(half))
}

/// A camera is usable when its image has positive, bounded extent, its
/// position is inside the world box, and each transform keeps every
/// screen coordinate the image can produce (pixel index plus jitter)
/// within the direction bounds.
pub open spec fn camera_wf(c: Camera) -> bool {
    &&& 1 <= c.width <= MAX_IMAGE_DIM
    &&& 1 <= c.height <= MAX_IMAGE_DIM
    &&& bounded3(c.position, MAX_COORD as int)
    &&& fx_mul(abs_i(c.x_transform.scale.raw as int), (c.width + 1) * (FX_SCALE as int))
        <= 0x2_0000
    &&& abs_i(c.x_transform.offset.raw as int) <= 0x2_0000
    &&& fx_mul(abs_i(c.y_transform.scale.raw as int), (c.height + 1) * (FX_SCALE as int))
        <= 0x2_0000
    &&& abs_i(c.y_transform.offset.raw as int) <= 0x2_0000
}

/// The world-space offset an axis transform gives a screen coordinate.
pub open spec fn apply_transform(t: LinearTransform, x: int) -> int {
    fx_mul(t.scale.raw as int, x) + t.offset.raw
}

/// The ray through a screen coordinate: the transforms give the x and y
/// world offsets of a direction one unit in front of the camera, which
/// is then normalized. A direction too degenerate to normalize within
/// bounds falls back to straight ahead.
pub open spec fn camera_ray(c: Camera, x: Fx, y: Fx) -> Ray {
    let d = Three {
        x: Fx { raw: apply_transform(c.x_transform, x.raw as int) as i64 },
        y: Fx { raw: apply_transform(c.y_transform, y.raw as int) as i64 },
        z: Fx { raw: (-FX_SCALE) as i64 },
    };
    let n = v3_normalized(d);
    let dir = if bounded3(n, crate::data::MAX_DIR as int) {
        n
    } else {
        Three { x: Fx { raw: 0i64 }, y: Fx { raw: 0i64 }, z: Fx { raw: (-FX_SCALE) as i64 } }
    };
    Ray { origin: c.position, direction: dir }
}

/// Scaling a bounded screen coordinate keeps the transform's output
/// within the checked bound.
proof fn lemma_transform_bound(t: LinearTransform, x: int, dim: int)
    requires
        1 <= dim,
        0 <= x <= (dim + 1) * (FX_SCALE as int),
        fx_mul(abs_i(t.scale.raw as int), (dim + 1) * (FX_SCALE as int)) <= 0x2_0000,
        abs_i(t.offset.raw as int) <= 0x2_0000,
    ensures
        abs_i(apply_transform(t, x)) <= 0x4_0000,
        fits_raw(fx_mul(t.scale.raw as int, x)),
{
    let s = t.scale.raw as int;
    let cap = (dim + 1) * (FX_SCALE as int);
    let a = abs_i(s);
    crate::fixed::lemma_fx_mul_abs(s, x);
    if s >= 0 {
        assert(0 <= s * x <= s * cap) by (nonlinear_arith)
            requires
                0 <= s,
                0 <= x <= cap,
        ;
    } else {
        assert(s * cap <= s * x <= 0) by (nonlinear_arith)
            requires
                s < 0,
                0 <= x <= cap,
            ;
        assert((-s) * cap == -(s * cap)) by (nonlinear_arith);
    }
    assert(abs_i(s * x) <= a * cap);
    assert(a * cap >= 0) by (nonlinear_arith)
        requires
            a >= 0,
            cap > 0,
    ;
    vstd::arithmetic::div_mod::lemma_div_is_ordered(abs_i(s * x), a * cap, FX_SCALE as int);
    vstd::arithmetic::div_mod::lemma_div_pos_is_pos(a * cap, FX_SCALE as int);
}

/// The x-axis scale a camera build computes, as a raw value.
pub open spec fn cam_x_scale(fov: FieldOfView, shape: ImageShape) -> int {
    let w = shape.width as int * FX_SCALE;
    let h = shape.height as int * FX_SCALE;
    fx_div(fx_mul(fx_mul(2 * FX_SCALE, fx_div(w, h)), tan_half_fov(fov)), w)
}

/// The x-axis offset a camera build computes, as a raw value.
pub open spec fn cam_x_offset(fov: FieldOfView, shape: ImageShape) -> int {
    let w = shape.width as int * FX_SCALE;
    let h = shape.height as int * FX_SCALE;
    -fx_mul(fx_div(w, h), tan_half_fov(fov))
}

/// The y-axis scale a camera build computes, as a raw value.
pub open spec fn cam_y_scale(fov: FieldOfView, shape: ImageShape) -> int {
    let h = shape.height as int * FX_SCALE;
    -fx_div(fx_mul(2 * FX_SCALE, tan_half_fov(fov)), h)
}

/// Whether building a camera succeeds: the image has positive, bounded
/// extent; the half-angle's cosine is nonzero so the tangent exists; the
/// computed transforms stay representable; and they keep every screen
/// coordinate the image can produce within the direction bounds.
pub open spec fn camera_build_ok(fov: FieldOfView, shape: ImageShape) -> bool {
    &&& 1 <= shape.width <= MAX_IMAGE_DIM
    &&& 1 <= shape.height <= MAX_IMAGE_DIM
    &&& cos_raw(fx_div(fov_radians(fov), 2 * FX_SCALE)) != 0
    &&& abs_i(cam_x_scale(fov, shape)) <= crate::data::MAX_T
    &&& abs_i(-cam_y_scale(fov, shape)) <= crate::data::MAX_T
    &&& fx_mul(abs_i(cam_x_scale(fov, shape)), (shape.width + 1) * (FX_SCALE as int))
        <= 0x2_0000
    &&& abs_i(cam_x_offset(fov, shape)) <= 0x2_0000
    &&& fx_mul(abs_i(cam_y_scale(fov, shape)), (shape.height + 1) * (FX_SCALE as int))
        <= 0x2_0000
    &&& abs_i(tan_half_fov(fov)) <= 0x2_0000
}

impl Camera {
    /// A camera at the origin for the given field of view and image
    /// shape. Construction fails exactly on an empty or oversized image,
    /// a degenerate field of view (zero cosine), or transforms that
    /// could push screen coordinates out of the direction bounds.
    pub fn new(fov: FieldOfView, image_shape: ImageShape) -> (r: Option<Camera>)
        requires
            match fov {
                FieldOfView::Degrees(v) => abs_i(v.raw as int) <= 0x1_0000_0000,
                FieldOfView::Radians(v) => abs_i(v.raw as int) <= 0x1_0000_0000,
            },
        ensures
            r is Some <==> camera_build_ok(fov, image_shape),
            match r {
                Some(c) => camera_wf(c) && c.width == image_shape.width && c.height
                    == image_shape.height && c.position == (Three {
                    x: Fx { raw: 0 },
                    y: Fx { raw: 0 },
                    z: Fx { raw: 0 },
                }) && c.x_transform.scale.raw == cam_x_scale(fov, image_shape)
                    && c.x_transform.offset.raw == cam_x_offset(fov, image_shape)
                    && c.y_transform.scale.raw == cam_y_scale(fov, image_shape)
                    && c.y_transform.offset.raw == tan_half_fov(fov),
                None => true,
            },
    {
        if image_shape.width == 0 || image_shape.width > MAX_IMAGE_DIM || image_shape.height == 0
            || image_shape.height > MAX_IMAGE_DIM {
            return None;
        }
        let rad = fov.radians();
        let half = rad.div(Fx::from_int(2));
        proof {
            crate::fixed::lemma_fx_div_bound(rad.raw as int, 2 * FX_SCALE, 0x1_0000_0000);
        }
        let tan_half = match crate::trig::tan(half) {
            None => {
                return None;
            },
            Some(t) => t,
        };
        let w = Fx::from_int(image_shape.width as i64);
        let h = Fx::from_int(image_shape.height as i64);
        proof {
            crate::fixed::lemma_fx_div_denominator(w.raw as int, h.raw as int, FX_SCALE as int);
            vstd::arithmetic::div_mod::lemma_div_multiples_vanish(
                abs_i(w.raw as int),
                FX_SCALE as int,
            );
        }
        let aspect = w.div(h);
        let two = Fx::from_int(2);
        proof {
            crate::fixed::lemma_fx_mul_bound(
                2 * FX_SCALE,
                aspect.raw as int,
                2 * FX_SCALE,
                0x10_0000_0000,
            );
            crate::fixed::lemma_fx_mul_bound(
                fx_mul(2 * FX_SCALE, aspect.raw as int),
                tan_half.raw as int,
                0x20_0000_0000,
                0x1_0000_0000,
            );
            crate::fixed::lemma_fx_div_bound(
                fx_mul(fx_mul(2 * FX_SCALE, aspect.raw as int), tan_half.raw as int),
                w.raw as int,
                0x2000_0000_0000_0000,
            );
        }
        let xs_num = two.mul(aspect).mul(tan_half);
        let x_scale = match crate::data::div_capped(xs_num, w) {
            None => {
                return None;
            },
            Some(v) => v,
        };
        proof {
            crate::fixed::lemma_fx_mul_bound(
                aspect.raw as int,
                tan_half.raw as int,
                0x10_0000_0000,
                0x1_0000_0000,
            );
        }
        let x_offset = aspect.mul(tan_half).neg();
        proof {
            crate::fixed::lemma_fx_div_bound(
                fx_mul(2 * FX_SCALE, tan_half.raw as int),
                h.raw as int,
                0x4_0000_0000,
            );
        }
        proof {
            crate::fixed::lemma_fx_mul_bound(
                2 * FX_SCALE,
                tan_half.raw as int,
                2 * FX_SCALE,
                0x1_0000_0000,
            );
        }
        let ys_num = two.mul(tan_half);
        let y_scale_pos = match crate::data::div_capped(ys_num, h) {
            None => {
                return None;
            },
            Some(v) => v,
        };
        let y_scale = y_scale_pos.neg();
        let y_offset = tan_half;
        // Validate that every screen coordinate the image can produce
        // stays within direction bounds.
        let wcap = Fx::from_int((image_shape.width + 1) as i64);
        let hcap = Fx::from_int((image_shape.height + 1) as i64);
        proof {
            crate::fixed::lemma_fx_mul_bound(
                abs_i(x_scale.raw as int),
                wcap.raw as int,
                0x1_0000_0000,
                0x10_0001_0000,
            );
            crate::fixed::lemma_fx_mul_bound(
                abs_i(y_scale.raw as int),
                hcap.raw as int,
                0x1_0000_0000,
                0x10_0001_0000,
            );
        }
        let xs_reach = x_scale.abs().mul(wcap);
        let ys_reach = y_scale.abs().mul(hcap);
        if !(xs_reach.raw <= 0x2_0000 && ys_reach.raw <= 0x2_0000 && -0x2_0000 <= x_offset.raw
            && x_offset.raw <= 0x2_0000 && -0x2_0000 <= y_offset.raw && y_offset.raw
            <= 0x2_0000) {
            return None;
        }
        let c = Camera {
            position: Three::zeros(),
            x_transform: LinearTransform { scale: x_scale, offset: x_offset },
            y_transform: LinearTransform { scale: y_scale, offset: y_offset },
            width: image_shape.width,
            height: image_shape.height,
        };
        proof {
            assert(c.position =~~= (Three {
                x: Fx { raw: 0i64 },
                y: Fx { raw: 0i64 },
                z: Fx { raw: 0i64 },
            }));
            assert(fx_mul(abs_i(c.x_transform.scale.raw as int), (c.width + 1) * (FX_SCALE as int))
                <= 0x2_0000);
            assert(fx_mul(abs_i(c.y_transform.scale.raw as int), (c.height + 1) * (
            FX_SCALE as int)) <= 0x2_0000);
        }
        Some(c)
    }

    /// The same camera repositioned.
    pub fn at(&self, x: Fx, y: Fx, z: Fx) -> (r: Camera)
        ensures
            r.position.x == x,
            r.position.y == y,
            r.position.z == z,
            r.x_transform == self.x_transform,
            r.y_transform == self.y_transform,
            r.width == self.width,
            r.height == self.height,
    {
        Camera {
            position: Three::new(x, y, z),
            x_transform: self.x_transform,
            y_transform: self.y_transform,
            width: self.width,
            height: self.height,
        }
    }

    /// The ray from the camera through screen coordinate `(x, y)`.
    pub fn ray_through(&self, x_screen: Fx, y_screen: Fx) -> (r: Ray)
        requires
            camera_wf(*self),
            0 <= x_screen.raw <= (self.width + 1) * (FX_SCALE as int),
            0 <= y_screen.raw <= (self.height + 1) * (FX_SCALE as int),
        ensures
            r == camera_ray(*self, x_screen, y_screen),
            ray_wf(r),
    {
        proof {
            lemma_transform_bound(self.x_transform, x_screen.raw as int, self.width as int);
            lemma_transform_bound(self.y_transform, y_screen.raw as int, self.height as int);
        }
        let x_world = self.x_transform.apply(x_screen);
        let y_world = self.y_transform.apply(y_screen);
        let d = Three::new(x_world, y_world, Fx::one().neg());
        proof {
            assert(bounded3(d, 0x4_0000));
            crate::vec3::lemma_prod_fit(d, d, 0x4_0000, 0x4_0000);
            crate::vec3::lemma_len_sq3_nonneg(d);
            crate::fixed::lemma_fx_mul_abs(-FX_SCALE as int, -FX_SCALE as int);
            assert((-FX_SCALE as int) * (-FX_SCALE as int) == (FX_SCALE as int) * (
            FX_SCALE as int)) by (nonlinear_arith);
            assert(fx_mul(d.z.raw as int, d.z.raw as int) >= 1);
        }
        let n = d.normalized();
        proof {
            assert(n =~~= v3_normalized(d));
        }
        let dir: Three<Fx> = if n.within(crate::data::MAX_DIR) {
            n
        } else {
            Three::new(Fx::zero(), Fx::zero(), Fx::one().neg())
        };
        let r = Ray { origin: self.position, direction: dir };
        proof {
            assert(r =~~= camera_ray(*self, x_screen, y_screen));
        }
        r
    }
}

} // verus!
