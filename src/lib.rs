// The decisions of a Whitted-style ray tracer, verified: the 8-bit pixel and
// its channel clamp, the nearest-hit query, the shadow test and reflection
// depth policy, and the per-pixel render loop over a row-major frame.

pub mod frame;
pub mod nearest;
pub mod pixel;
pub mod shading;
