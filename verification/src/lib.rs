//! A software rasterizer: exact fixed-point vector and matrix algebra, a
//! Bresenham line rasterizer, barycentric triangle filling with a z-buffer,
//! and the view / projection / viewport transform chain.

pub mod fixed;
pub mod image;
pub mod line;
pub mod model;
pub mod render;
pub mod geometry;
pub mod transform;
pub mod triangle;

use vstd::prelude::*;

verus! {

/// The ways a render or a load can fail.
#[derive(Clone, Copy, PartialEq, Eq, Structural, Debug)]
pub enum RenderError {
    /// A mesh or texture source line could not be read.
    ParseError,
    /// A face references a vertex or texture index beyond its list.
    IndexOutOfRange,
    /// A vector of length zero was normalized, or a perspective divide
    /// met a homogeneous coordinate of zero.
    DivisionSingularity,
    /// A computed coordinate left the representable screen range.
    OutOfRange,
}

} // verus!
