use vstd::prelude::*;

use crate::color::Color;
use crate::linalg::{Vec2, Vec3};

verus! {

/// A mesh vertex: model-space attributes, and the screen-space position and
/// transformed normal that the vertex stage fills in.
#[derive(Clone, Copy, Debug)]
pub struct Vertex {
    pub position: Vec3,
    pub normal: Vec3,
    pub tex_coords: Vec2,
    pub color: Color,
    pub transformed_position: Vec3,
    pub transformed_normal: Vec3,
}

impl Vertex {
    /// Model-space position and normal are within the fixed-point range.
    pub open spec fn wf(self) -> bool {
        self.position.bounded() && self.normal.bounded()
    }

    /// Screen-space position and transformed normal are within the fixed-point range.
    pub open spec fn transformed_wf(self) -> bool {
        self.transformed_position.bounded() && self.transformed_normal.bounded()
    }

    /// A vertex whose transformed fields start as copies of the model-space ones.
    pub fn new(position: Vec3, normal: Vec3, tex_coords: Vec2) -> (v: Vertex)
        ensures
            v == (Vertex {
                position,
                normal,
                tex_coords,
                color: Color { r: 0, g: 0, b: 0 },
                transformed_position: position,
                transformed_normal: normal,
            }),
    {
        Vertex {
            position,
            normal,
            tex_coords,
            color: Color { r: 0, g: 0, b: 0 },
            transformed_position: position,
            transformed_normal: normal,
        }
    }
}

} // verus!
