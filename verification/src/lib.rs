//! A software rasterizer over 16.16 fixed-point numbers: vertex transformation,
//! primitive assembly, barycentric scan conversion, procedural shading and a
//! depth-tested framebuffer.

pub mod fixed;
pub mod vector;
pub mod color;
pub mod vertex;
pub mod fragment;
pub mod framebuffer;
pub mod barycentric;
pub mod shader;
pub mod line;
pub mod triangle;
pub mod text;
pub mod render;
