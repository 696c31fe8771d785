use vstd::prelude::*;

use crate::fixed::{abs, LIMIT, ONE};
use crate::linalg::Vec3;

verus! {

/// A candidate pixel write: pixel coordinates, depth (smaller is nearer),
/// interpolated model-space position and normal, and a lighting term in `[0, ONE]`.
#[derive(Clone, Copy, Debug)]
pub struct Fragment {
    pub x: usize,
    pub y: usize,
    pub depth: i64,
    pub vertex_position: Vec3,
    pub normal: Vec3,
    pub intensity: i64,
}

impl Fragment {
    /// Attributes within the fixed-point range, lighting term in `[0, ONE]`.
    pub open spec fn wf(self) -> bool {
        &&& self.vertex_position.bounded()
        &&& self.normal.bounded()
        &&& abs(self.depth as int) <= LIMIT
        &&& 0 <= self.intensity <= ONE
    }
}

} // verus!
