//! Verified core of a CPU path tracer.
//!
//! A path tracer follows rays of light through a scene of primitives and
//! weighs what they bring back. Most of that work is arithmetic that rounds;
//! the rest is decisions, and the decisions are what this crate holds and
//! proves: which root of a quadratic is the hit, which hit of a scene is the
//! nearest, which way a normal is recorded, when a surface absorbs, when a
//! path runs out of bounces, which sample is drawn again, how a channel
//! becomes a byte and an image becomes text.
//!
//! Real numbers travel through the crate as the words of their IEEE 754
//! double-precision encoding ([`vector::Scalar`]). Everything done to them
//! here is exact on the encoding: comparing, changing the sign, choosing
//! between two of them, cutting off at the point. Sums, products, roots and
//! the like are computed by the program around the library and handed in.
//!
//! - [`vector`]: reals and vectors, their order and sign
//! - [`ray`], [`material`], [`hittable`], [`shapes`]: rays, surfaces, hits
//!   and the sweep over a scene
//! - [`camera`]: configuration with defaults, and the control of a light path
//! - [`fastrand`]: the pseudo-random source
//! - [`framebuffer`], [`ppm`]: the image and its text

pub mod camera;
pub mod fastrand;
pub mod framebuffer;
pub mod hittable;
pub mod material;
pub mod ppm;
pub mod ray;
pub mod shapes;
pub mod vector;
