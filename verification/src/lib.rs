//! An offline Monte Carlo path tracer with a verified core.
//!
//! All geometry and light transport is carried out in `Q47.16` fixed-point
//! arithmetic over `i64`, so that every step of the simulation — ray/shape
//! intersection, material scattering, the bounce loop, and the sample
//! accumulation — has an exact mathematical contract. Randomness comes from
//! a seeded xorshift generator behind a deterministic stream model, which
//! makes every per-sample color a mathematical function of its seed.

pub mod camera;
pub mod data;
pub mod fixed;
pub mod pdf;
pub mod rendering;
pub mod rng;
pub mod scene;
pub mod shapes;
pub mod tracer;
pub mod trig;
pub mod vec3;

pub use data::{
    CanHit, Dielectric, Diffuse, FieldOfView, Hit, ImageShape, IndexOfRefraction, Light,
    LightInteraction, LinearTransform, Material, Mirror, Ray,
};
pub use camera::Camera;
pub use fixed::Fx;
pub use pdf::CosinePDF;
pub use rendering::{render, render_unit, to_rgb8};
pub use scene::{MaterialIdx, Scene, SceneTracer};
pub use tracer::PathTracer;
pub use shapes::{Object, Plane, Prism, Sphere, Triangle};
pub use vec3::Three;
