// A CPU rendering pipeline for procedurally shaded spheres, in fixed point.
//
// Every real quantity is an integer `v` standing for `v / fixed::ONE`; color
// interpolation, color scaling and fixed-point products round to the nearest.
// Conventions: screen y grows downward; depth is the viewport-mapped device z,
// and a smaller depth is nearer (`framebuffer::DEPTH_FAR` means nothing drawn);
// the lighting term of a fragment is the z component of its interpolated
// normal, limited to `[0, ONE]` (light along the view axis, toward the viewer).
//
// The stages: `transform` (vertex stage), `triangle` (rasterizer), `shaders`
// (the nine materials, which take coherent-noise samples as arguments: the
// caller evaluates the noise field at the points that `shaders::noise_queries`
// lists), `framebuffer` (depth-tested writes) and `render`, which chains them.
use vstd::prelude::*;

pub mod color;
pub mod fixed;
pub mod fragment;
pub mod framebuffer;
pub mod input;
pub mod linalg;
pub mod planet_type;
pub mod render;
pub mod shaders;
pub mod transform;
pub mod triangle;
pub mod vertex;

verus! {

} // verus!
