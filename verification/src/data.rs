//! Core data model: rays, hits, materials, and camera support types.
//!
//! World geometry lives inside a bounded fixed-point box so that every
//! arithmetic step of the simulation stays representable: positions within
//! `MAX_COORD`, directions within `MAX_DIR`, ray parameters within
//! `MAX_T`. Anything that escapes those bounds is treated exactly like a
//! non-finite float in a conventional tracer: filtered out as "no
//! intersection" or "no contribution".

use vstd::prelude::*;

use crate::fixed::{abs_i, Fx, FX_SCALE};
use crate::vec3::{bounded3, Three};

verus! {

/// Largest raw magnitude of a position coordinate.
pub const MAX_COORD: i64 = 0x1000_0000;

/// Largest raw magnitude of a direction component.
pub const MAX_DIR: i64 = 0x4_0000;

/// Largest raw value of a ray parameter window.
pub const MAX_T: i64 = 0x1_0000_0000;

/// Largest raw value of a light's power.
pub const MAX_POWER: i64 = 0x1_0000_0000;

/// A ray: an origin and a direction.
///
/// Directions are not forced to unit length; each shape documents the
/// convention its intersection test assumes.
#[derive(Clone, Copy, Debug, PartialEq, Eq, Structural)]
#[verifier::ext_equal]
pub struct Ray {
    pub origin: Three<Fx>,
    pub direction: Three<Fx>,
}

/// An intersection record.
#[derive(Clone, Copy, Debug, PartialEq, Eq, Structural)]
#[verifier::ext_equal]
pub struct Hit {
    pub position: Three<Fx>,
    pub distance: Fx,
    pub normal: Three<Fx>,
    pub object_index: usize,
}

/// Whether a ray's origin and direction lie within the representable
/// world box.
pub open spec fn ray_wf(r: Ray) -> bool {
    bounded3(r.origin, MAX_COORD as int) && bounded3(r.direction, MAX_DIR as int)
}

/// Whether a parameter window is usable: nonnegative start, bounded end.
pub open spec fn t_window_wf(t_min: Fx, t_max: Fx) -> bool {
    0 <= t_min.raw && t_max.raw <= MAX_T
}

/// Whether a ray parameter lies in the half-open window `[t_min, t_max)`.
pub open spec fn in_window(t: int, t_min: Fx, t_max: Fx) -> bool {
    t_min.raw <= t < t_max.raw
}

/// The point reached by walking `t` (a raw parameter value) along a ray.
pub open spec fn ray_point(r: Ray, t: int) -> Three<Fx> {
    crate::vec3::v3_add(r.origin, crate::vec3::v3_scale(r.direction, t))
}

/// Fixed-point division that reports, instead of computing, a quotient
/// whose magnitude leaves the ray parameter range. Since every window
/// satisfies `t_max <= MAX_T`, such a parameter can never lie in a
/// window, so callers may treat `None` as "out of window".
pub fn div_capped(num: Fx, den: Fx) -> (r: Option<Fx>)
    requires
        den.raw != 0,
    ensures
        match r {
            Some(v) => v.raw == crate::fixed::fx_div(num.raw as int, den.raw as int) && abs_i(
                v.raw as int,
            ) <= MAX_T,
            None => abs_i(crate::fixed::fx_div(num.raw as int, den.raw as int)) > MAX_T,
        },
{
    let a: i128 = num.raw as i128;
    let b: i128 = den.raw as i128;
    let ma: u128 = if a < 0 {
        (-a) as u128
    } else {
        a as u128
    };
    let mb: u128 = if b < 0 {
        (-b) as u128
    } else {
        b as u128
    };
    let q: u128 = (ma * 65536) / mb;
    if q > MAX_T as u128 {
        None
    } else if (a < 0) != (b < 0) {
        Some(Fx { raw: -(q as i64) })
    } else {
        Some(Fx { raw: q as i64 })
    }
}

/// Something a ray can be shot at.
///
/// Each implementation fixes `hit_model`, the mathematical description of
/// its intersection result, and `shoot_at` must return exactly that.
pub trait CanHit<T>: Sized {
    /// Preconditions under which the intersection test is defined.
    spec fn hit_ok(&self, obj: &T, t_min: Fx, t_max: Fx) -> bool;

    /// The exact intersection result.
    spec fn hit_model(&self, obj: &T, t_min: Fx, t_max: Fx) -> Option<Hit>;

    /// Intersects `self` with `obj` within the half-open window
    /// `[t_min, t_max)`.
    fn shoot_at(&self, obj: &T, t_min: Fx, t_max: Fx) -> (r: Option<Hit>)
        requires
            self.hit_ok(obj, t_min, t_max),
        ensures
            r == self.hit_model(obj, t_min, t_max),
    ;
}

/// A diffuse (Lambertian) material.
#[derive(Clone, Copy, Debug, PartialEq, Eq, Structural)]
pub struct Diffuse {
    pub rgb: Three<Fx>,
}

/// A specular mirror.
#[derive(Clone, Copy, Debug, PartialEq, Eq, Structural)]
pub struct Mirror {
    pub rgb: Three<Fx>,
}

/// A refractive material with an index of refraction and a tint.
#[derive(Clone, Copy, Debug, PartialEq, Eq, Structural)]
pub struct Dielectric {
    pub rgb: Three<Fx>,
    pub ior: Fx,
}

/// An emitter: ends a light path with `rgb * power`.
#[derive(Clone, Copy, Debug, PartialEq, Eq, Structural)]
pub struct Light {
    pub rgb: Three<Fx>,
    pub power: Fx,
}

/// A surface material.
#[derive(Clone, Copy, Debug, PartialEq, Eq, Structural)]
pub enum Material {
    Diffuse(Diffuse),
    Mirror(Mirror),
    Dielectric(Dielectric),
    Light(Light),
}

/// Whether a color has all channels in `[0, 1]`.
pub open spec fn color_wf(c: Three<Fx>) -> bool {
    0 <= c.x.raw <= FX_SCALE && 0 <= c.y.raw <= FX_SCALE && 0 <= c.z.raw <= FX_SCALE
}

/// Whether a material's parameters are physical and representable:
/// colors in `[0, 1]`, an index of refraction of at least one, and a
/// bounded emitter power.
pub open spec fn material_wf(m: Material) -> bool {
    match m {
        Material::Diffuse(d) => color_wf(d.rgb),
        Material::Mirror(mi) => color_wf(mi.rgb),
        Material::Dielectric(di) => color_wf(di.rgb) && FX_SCALE <= di.ior.raw <= 16
            * FX_SCALE,
        Material::Light(l) => color_wf(l.rgb) && 0 <= l.power.raw <= MAX_POWER,
    }
}

impl Diffuse {
    /// A diffuse material from its albedo channels.
    pub fn rgb(r: Fx, g: Fx, b: Fx) -> (m: Diffuse)
        ensures
            m.rgb.x == r,
            m.rgb.y == g,
            m.rgb.z == b,
    {
        Diffuse { rgb: Three::new(r, g, b) }
    }
}

impl Mirror {
    /// A mirror that reflects all light.
    pub fn perfect() -> (m: Mirror)
        ensures
            m.rgb.x.raw == FX_SCALE,
            m.rgb.y.raw == FX_SCALE,
            m.rgb.z.raw == FX_SCALE,
    {
        Mirror { rgb: Three::ones() }
    }

    /// A mirror with a colored reflection.
    pub fn tinted(r: Fx, g: Fx, b: Fx) -> (m: Mirror)
        ensures
            m.rgb.x == r,
            m.rgb.y == g,
            m.rgb.z == b,
    {
        Mirror { rgb: Three::new(r, g, b) }
    }
}

impl Dielectric {
    /// An untinted refractive material.
    pub fn transparent(ior: Fx) -> (m: Dielectric)
        ensures
            m.ior == ior,
            m.rgb.x.raw == FX_SCALE,
            m.rgb.y.raw == FX_SCALE,
            m.rgb.z.raw == FX_SCALE,
    {
        Dielectric { rgb: Three::ones(), ior }
    }

    /// The same material with a tint.
    pub fn tint(self, r: Fx, g: Fx, b: Fx) -> (m: Dielectric)
        ensures
            m.ior == self.ior,
            m.rgb.x == r,
            m.rgb.y == g,
            m.rgb.z == b,
    {
        Dielectric { rgb: Three::new(r, g, b), ior: self.ior }
    }
}

impl Light {
    /// An emitter from its color and power.
    pub fn new(rgb: Three<Fx>, power: Fx) -> (m: Light)
        ensures
            m.rgb == rgb,
            m.power == power,
    {
        Light { rgb, power }
    }
}

impl Material {
    /// Whether this material ends a light path by emitting.
    pub fn is_emissive(&self) -> (r: bool)
        ensures
            r == (self is Light),
    {
        match self {
            Material::Light(_) => true,
            _ => false,
        }
    }
}

impl From<Diffuse> for Material {
    fn from(m: Diffuse) -> (r: Material) {
        Material::Diffuse(m)
    }
}

impl vstd::std_specs::convert::FromSpecImpl<Diffuse> for Material {
    open spec fn obeys_from_spec() -> bool {
        true
    }

    open spec fn from_spec(m: Diffuse) -> Material {
        Material::Diffuse(m)
    }
}

impl From<Mirror> for Material {
    fn from(m: Mirror) -> (r: Material) {
        Material::Mirror(m)
    }
}

impl vstd::std_specs::convert::FromSpecImpl<Mirror> for Material {
    open spec fn obeys_from_spec() -> bool {
        true
    }

    open spec fn from_spec(m: Mirror) -> Material {
        Material::Mirror(m)
    }
}

impl From<Dielectric> for Material {
    fn from(m: Dielectric) -> (r: Material) {
        Material::Dielectric(m)
    }
}

impl vstd::std_specs::convert::FromSpecImpl<Dielectric> for Material {
    open spec fn obeys_from_spec() -> bool {
        true
    }

    open spec fn from_spec(m: Dielectric) -> Material {
        Material::Dielectric(m)
    }
}

impl From<Light> for Material {
    fn from(m: Light) -> (r: Material) {
        Material::Light(m)
    }
}

impl vstd::std_specs::convert::FromSpecImpl<Light> for Material {
    open spec fn obeys_from_spec() -> bool {
        true
    }

    open spec fn from_spec(m: Light) -> Material {
        Material::Light(m)
    }
}

/// What a material does to an incoming ray at a hit point.
#[derive(Clone, Copy, Debug, PartialEq, Eq, Structural)]
pub enum LightInteraction {
    Scatter { direction: Three<Fx>, attenuation: Three<Fx> },
    Emit { emission: Three<Fx> },
}

/// Common indices of refraction.
#[derive(Clone, Copy, Debug, PartialEq, Eq, Structural)]
pub enum IndexOfRefraction {
    Vacuum,
    Air,
    Ice,
    Water,
    CrownGlass,
    Diamond,
}

impl IndexOfRefraction {
    /// The index as a fixed-point value.
    pub fn value(&self) -> (r: Fx)
        ensures
            r.raw == match self {
                IndexOfRefraction::Vacuum => 65536int,
                IndexOfRefraction::Air => 65555int,
                IndexOfRefraction::Ice => 85852int,
                IndexOfRefraction::Water => 87163int,
                IndexOfRefraction::CrownGlass => 99615int,
                IndexOfRefraction::Diamond => 158400int,
            },
            FX_SCALE <= r.raw <= 16 * FX_SCALE,
    {
        match self {
            IndexOfRefraction::Vacuum => Fx::from_raw(65536),
            IndexOfRefraction::Air => Fx::from_raw(65555),
            IndexOfRefraction::Ice => Fx::from_raw(85852),
            IndexOfRefraction::Water => Fx::from_raw(87163),
            IndexOfRefraction::CrownGlass => Fx::from_raw(99615),
            IndexOfRefraction::Diamond => Fx::from_raw(158400),
        }
    }
}

impl From<IndexOfRefraction> for Material {
    fn from(m: IndexOfRefraction) -> (r: Material) {
        let ior = match m {
            IndexOfRefraction::Vacuum => Fx::from_raw(65536),
            IndexOfRefraction::Air => Fx::from_raw(65555),
            IndexOfRefraction::Ice => Fx::from_raw(85852),
            IndexOfRefraction::Water => Fx::from_raw(87163),
            IndexOfRefraction::CrownGlass => Fx::from_raw(99615),
            IndexOfRefraction::Diamond => Fx::from_raw(158400),
        };
        Material::Dielectric(Dielectric { rgb: Three { x: Fx { raw: 65536 }, y: Fx { raw: 65536 }, z: Fx { raw: 65536 } }, ior })
    }
}

impl vstd::std_specs::convert::FromSpecImpl<IndexOfRefraction> for Material {
    open spec fn obeys_from_spec() -> bool {
        true
    }

    open spec fn from_spec(m: IndexOfRefraction) -> Material {
        Material::Dielectric(
            Dielectric {
                rgb: Three { x: Fx { raw: 65536 }, y: Fx { raw: 65536 }, z: Fx { raw: 65536 } },
                ior: Fx {
                    raw: match m {
                        IndexOfRefraction::Vacuum => 65536i64,
                        IndexOfRefraction::Air => 65555i64,
                        IndexOfRefraction::Ice => 85852i64,
                        IndexOfRefraction::Water => 87163i64,
                        IndexOfRefraction::CrownGlass => 99615i64,
                        IndexOfRefraction::Diamond => 158400i64,
                    },
                },
            },
        )
    }
}

/// The shape of the output image, in pixels.
#[derive(Clone, Copy, Debug, PartialEq, Eq, Structural)]
pub struct ImageShape {
    pub width: usize,
    pub height: usize,
}

/// A one-dimensional affine map from screen to world coordinates.
#[derive(Clone, Copy, Debug, PartialEq, Eq, Structural)]
pub struct LinearTransform {
    pub scale: Fx,
    pub offset: Fx,
}

impl LinearTransform {
    /// Applies the map: `scale * x + offset`.
    pub fn apply(&self, x: Fx) -> (r: Fx)
        requires
            crate::fixed::fits_raw(
                crate::fixed::fx_mul(self.scale.raw as int, x.raw as int) + self.offset.raw,
            ),
            crate::fixed::fits_raw(crate::fixed::fx_mul(self.scale.raw as int, x.raw as int)),
        ensures
            r.raw == crate::fixed::fx_mul(self.scale.raw as int, x.raw as int) + self.offset.raw,
    {
        self.scale.mul(x).add(self.offset)
    }
}

/// A field of view, in degrees or radians.
#[derive(Clone, Copy, Debug, PartialEq, Eq, Structural)]
pub enum FieldOfView {
    Degrees(Fx),
    Radians(Fx),
}

/// Raw fixed-point value of pi.
pub const PI_RAW: i64 = 205887;

/// Raw fixed-point value of pi / 180, for degree conversion.
pub const RAD_PER_DEG_RAW: i64 = 1144;

impl FieldOfView {
    /// The angle in radians; degrees are converted by multiplying with
    /// `pi / 180`.
    pub fn radians(self) -> (r: Fx)
        requires
            match self {
                FieldOfView::Degrees(v) => abs_i(v.raw as int) <= 0x1_0000_0000,
                FieldOfView::Radians(_) => true,
            },
        ensures
            r.raw == match self {
                FieldOfView::Degrees(v) => crate::fixed::fx_mul(v.raw as int, RAD_PER_DEG_RAW as int),
                FieldOfView::Radians(v) => v.raw as int,
            },
    {
        match self {
            FieldOfView::Degrees(v) => {
                proof {
                    crate::fixed::lemma_fx_mul_bound(
                        v.raw as int,
                        RAD_PER_DEG_RAW as int,
                        0x1_0000_0000,
                        RAD_PER_DEG_RAW as int,
                    );
                }
                v.mul(Fx::from_raw(RAD_PER_DEG_RAW))
            },
            FieldOfView::Radians(v) => v,
        }
    }
}

} // verus!
