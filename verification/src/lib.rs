//! A progressively refining Monte Carlo path tracer over an analytic sphere
//! scene, written against a deterministic fixed-point scalar model.
//!
//! Scalars are `i64` values counted in units of `1 / fx::SCALE`; every
//! operation of the kernel is an exact, total function of its integer inputs,
//! so each rendered sample is a mathematical function of
//! `(pixel, sample counter, image size, scene, camera)`.
//!
//! The modules, leaf first:
//! - `fx`: saturating fixed-point scalars with integer square and cube roots;
//! - `vec`: 3- and 4-component vectors over them;
//! - `rng`: the deterministic per-invocation sampler;
//! - `trig`: turn-based circular functions for the samplers;
//! - `geom`: rays, hits, and exact ray–sphere intersection;
//! - `env`: the decoded environment image and its filtered lookup;
//! - `scene`: validated scenes and the nearest-hit scan;
//! - `shade`: material evaluation and direction sampling;
//! - `camera`: pinhole primary-ray generation;
//! - `trace`: the bounded bounce loop;
//! - `accum`: the accumulation buffer and the host event step;
//! - `uniform`: the per-frame record and its byte layout;
//! - `display`: the read-only presentation helpers.

pub mod accum;
pub mod camera;
pub mod display;
pub mod env;
pub mod fx;
pub mod geom;
pub mod rng;
pub mod scene;
pub mod shade;
pub mod trace;
pub mod trig;
pub mod uniform;
pub mod vec;

pub use fx::SCALE;
