//! The vertex: what a model supplies, and what the transform stage adds.

use vstd::prelude::*;
use crate::color::Color;
use crate::vector::{Vec2, Vec3};

verus! {

/// One corner of a triangle. `position`, `normal`, `tex_coords` and `color`
/// are in model space; the two `transformed_` fields are zero until the
/// transform stage has set them.
#[derive(Clone, Copy, Debug, PartialEq, Eq, Structural)]
pub struct Vertex {
    pub position: Vec3,
    pub normal: Vec3,
    pub tex_coords: Vec2,
    pub color: Color,
    pub transformed_position: Vec3,
    pub transformed_normal: Vec3,
}

impl Vertex {
    pub open spec fn spec_new(position: Vec3, normal: Vec3, tex_coords: Vec2) -> Vertex {
        Vertex {
            position,
            normal,
            tex_coords,
            color: Color { r: 0, g: 0, b: 0 },
            transformed_position: Vec3::zero(),
            transformed_normal: Vec3::zero(),
        }
    }

    /// A vertex as a model supplies it: black, not yet transformed.
    #[verifier::when_used_as_spec(spec_new)]
    pub fn new(position: Vec3, normal: Vec3, tex_coords: Vec2) -> (v: Vertex)
        ensures
            v == Vertex::spec_new(position, normal, tex_coords),
    {
        Vertex {
            position,
            normal,
            tex_coords,
            color: Color::black(),
            transformed_position: Vec3::zero(),
            transformed_normal: Vec3::zero(),
        }
    }

    /// The same vertex with the given base color.
    pub fn with_color(self, color: Color) -> (v: Vertex)
        ensures
            v == (Vertex { color, ..self }),
    {
        Vertex { color, ..self }
    }
}

} // verus!
