//! Verified core of a visualization and system-monitoring library.

pub mod color;
pub mod error;
pub mod framebuffer;
pub mod grammar;
pub mod interop;
pub mod monitor;

pub use error::Error;
