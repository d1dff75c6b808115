//! Tessellation of parallels of the celestial sphere into device-space
//! polylines, in exact integer arithmetic.
//!
//! A parallel is an arc of constant latitude. Angles are integers counted in
//! micro-arcseconds, device coordinates are bounded integers whose scale the
//! caller chooses, and the sky projection is a function handed in by the
//! caller that may be undefined on part of the sphere.
//!
//! - [`longitude`]: spans of longitude that wrap around the sphere.
//! - [`vertex`] and [`turn`]: device vertices, and the bend of a polyline at
//!   one of them.
//! - [`projection`]: what contracts assume and state of the projection.
//! - [`boundary`]: search for the edge of the projection's domain.
//! - [`subdivide`]: adaptive refinement of a span into segments.
//! - [`parallel`]: the drawing of an arc, which puts these together.
//! - [`transfer_function`]: the choice of a pixel transfer function by name.

pub mod boundary;
pub mod longitude;
pub mod parallel;
pub mod projection;
pub mod subdivide;
pub mod transfer_function;
pub mod turn;
pub mod vertex;
