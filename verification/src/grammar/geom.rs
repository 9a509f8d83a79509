//! Geometry options: point shapes and smoothing methods.

use vstd::prelude::*;

verus! {

/// Shape types for point geometries.
#[derive(Debug, Clone, Copy, PartialEq, Eq, Structural, Default)]
pub enum PointShape {
    /// Filled circle.
    #[default]
    Circle,
    /// Filled square.
    Square,
    /// Filled triangle.
    Triangle,
    /// Diamond shape.
    Diamond,
    /// Cross (+).
    Cross,
    /// X shape.
    X,
}

/// Smoothing method.
#[derive(Debug, Clone, Copy, PartialEq, Eq, Structural, Default)]
pub enum SmoothMethod {
    /// Local polynomial regression (LOESS).
    #[default]
    Loess,
    /// Linear regression.
    Linear,
}

} // verus!
