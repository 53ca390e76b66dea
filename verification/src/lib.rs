//! Depth-of-field line scatter: a verified Monte-Carlo sampler that scatters
//! low-opacity point marks around 3D line segments, with blur radius governed
//! by distance from a focal plane.
//!
//! All quantities are fixed-point integers scaled by `fixed::SCALE`
//! (micro-units), so every computation is exact integer arithmetic with a
//! stated contract: the scene is an exact function of the seed, every mark
//! is an exact function of the scene and the stream position, and the laws
//! of the sampler — determinism, segment containment, blur-radius
//! monotonicity, the jitter bound, opacity non-saturation — are proved in
//! their modules.

pub mod canvas;
pub mod fixed;
pub mod geom;
pub mod rng;
pub mod sampler;
pub mod scene;
