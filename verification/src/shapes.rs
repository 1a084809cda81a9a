//! The primitives a scene is made of.

pub mod sphere;
