//! Grammar-of-graphics specifications: faceting, statistics and geometry options.

pub mod facet;
pub mod geom;
pub mod stat;
