//! GPU monitoring through graphics APIs.

pub mod wgpu;
