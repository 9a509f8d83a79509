//! Metric collectors: the parsing and bookkeeping each collector performs.

pub mod apple_accelerators;
pub mod battery;
pub mod cpu;
pub mod cpu_simd;
pub mod disk;
pub mod gpu_apple;
pub mod memory;
pub mod memory_simd;
pub mod network;
pub mod process;
pub mod process_simd;
pub mod sensors;
