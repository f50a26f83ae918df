//! Approximates a target raster image by evolving a population of vector
//! genomes: ordered lists of simple shapes (triangles, circles, rectangles)
//! rendered with alpha compositing onto a canvas, scored by pixel-wise
//! distance to the target, and improved by mutation with truncation
//! selection and elitism.
//!
//! All geometry, colour and distance arithmetic is carried out in
//! fixed-point integer units (see [`fixed`]), so every operation of the
//! core is exact and verified.

use vstd::prelude::*;

pub mod canvas;
pub mod color;
pub mod evolve;
pub mod fixed;
pub mod genome;
pub mod geom;
pub mod random;
pub mod shape;

verus! {

/// The error taxonomy of the library: each variant names the caller
/// contract that was violated or the configuration that was rejected.
#[derive(Clone, Copy, Debug, PartialEq, Eq, Structural)]
pub enum EvoError {
    /// Two canvases of different dimensions were compared.
    DimensionMismatch,
    /// A shape index was at or past the end of a genome's shape list.
    IndexOutOfRange,
    /// A shape kind name matched none of the known kinds.
    UnknownShapeKind,
    /// A genome's fitness was read before any evaluation.
    FitnessNotComputed,
    /// Shape-kind weights were all zero, or one was negative.
    InvalidWeights,
}

} // verus!
