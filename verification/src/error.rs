//! Error types for framebuffer and plotting operations.

use vstd::prelude::*;

verus! {

/// Errors raised by framebuffer operations.
#[derive(Debug, Clone, PartialEq, Eq, Structural)]
pub enum Error {
    /// A framebuffer was requested with a zero width or height.
    InvalidDimensions {
        /// Requested width in pixels.
        width: u32,
        /// Requested height in pixels.
        height: u32,
    },
}

} // verus!
