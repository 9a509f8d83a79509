//! Helpers shared by the visualizations of other ecosystem libraries.

pub mod entrenar;
