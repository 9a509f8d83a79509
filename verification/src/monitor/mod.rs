//! System-monitoring building blocks: bounded histories, collectors' parsers and state.

pub mod app;
pub mod collectors;
pub mod config;
pub mod debug;
pub mod error;
pub mod ffi;
pub mod input;
pub mod kernels;
pub mod layout;
pub mod presets;
pub mod ring_buffer;
pub mod text;
pub mod types;
