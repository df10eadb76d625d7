//! A framework-independent core for a multi-sampled CPU ray tracer: how the
//! image is split among render workers, the framebuffer the single consumer
//! fills, how the nearest hit along a ray is chosen and whether a point is in
//! shadow, the progress of a render, and the byte layout handed to an image
//! encoder.

pub mod encode;
pub mod hit;
pub mod image;
pub mod partition;
pub mod render;
