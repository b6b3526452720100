//! A camera-path transformation engine: pure, deterministic operations over a
//! collection of camera keyframes (position, rotation, field of view,
//! timestamp) that describe a virtual-camera animation path.
//!
//! Continuous quantities (field of view, position coordinates, timestamps,
//! blend weights) are held as fixed-point integers. The scale is the caller's
//! choice for scale-free quantities (addition, scaling, reflection and
//! averaging never read the scale), with one exception: timestamps are in
//! microseconds, because the frame index is derived from the timestamp at a
//! fixed 30 frames per second. Rotations are engine angular units held in
//! `i32`, where one degree is 182.04 units; angle arithmetic wraps via plain
//! two's-complement addition and is never normalised. Additive operations
//! wrap on overflow; scaling operations (which divide) saturate at the
//! representable range, the fixed-point analogue of a float running off to
//! infinity.

pub mod model;
pub mod units;
pub mod elementwise;
pub mod stats;
pub mod mirror;
pub mod reverse;
pub mod sorting;
pub mod smoothing;
pub mod laws;
