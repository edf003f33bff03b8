//! A Whitted-style ray-tracing kernel on fixed-point arithmetic.
//!
//! The kernel takes a ray and a scene and answers with a color: analytic
//! ray-primitive intersection, a transform hierarchy between object and
//! world space, procedural pattern sampling, and recursive illumination
//! with shadows, reflection, refraction and Fresnel blending, the
//! recursion bounded by an explicit depth.
//!
//! Every scalar is a signed 64-bit count of millionths of a unit
//! ([`fx::Scalar`]), so all arithmetic is exact integer arithmetic,
//! saturating at the representation's bounds, and every function's
//! contract pins its result as a function of its arguments' views. The
//! laws the kernel keeps are stated and proved in [`laws`].
//!
//! Pixel loops, cameras, canvases and file handling are not the
//! kernel's concern: a caller hands in rays and worlds and takes colors
//! back.

pub mod bounds;
pub mod color;
pub mod fx;
pub mod intersectable;
pub mod intersection;
pub mod laws;
pub mod material;
pub mod matrix;
pub mod obj_parser;
pub mod patternable;
pub mod point;
pub mod point_light;
pub mod ray;
pub mod shape;
pub mod transformation_matrix;
pub mod utilities;
pub mod world;
