//! Statistical transformations applied to data before it is drawn.

use vstd::prelude::*;

verus! {

/// Statistical transformation type.
#[derive(Debug, Clone, PartialEq, Eq, Structural)]
pub enum Stat {
    /// No transformation (identity).
    Identity,
    /// Count occurrences.
    Count,
    /// Bin continuous data.
    Bin {
        /// Number of bins.
        bins: usize,
    },
    /// Compute density estimation.
    Density,
    /// Compute summary statistics (for boxplot).
    Boxplot,
    /// Fit a smooth curve.
    Smooth,
    /// Compute 2D binning (for tile/heatmap).
    Bin2d {
        /// Number of x bins.
        bins_x: usize,
        /// Number of y bins.
        bins_y: usize,
    },
    /// Sum values.
    Sum,
    /// Mean values.
    Mean,
}

impl Stat {
    /// The identity stat (no transformation).
    pub fn identity() -> (s: Self)
        ensures
            s == Stat::Identity,
    {
        Stat::Identity
    }

    /// A count stat.
    pub fn count() -> (s: Self)
        ensures
            s == Stat::Count,
    {
        Stat::Count
    }

    /// A binning stat with `bins` bins.
    pub fn bin(bins: usize) -> (s: Self)
        ensures
            s == (Stat::Bin { bins }),
    {
        Stat::Bin { bins }
    }

    /// A density estimation stat.
    pub fn density() -> (s: Self)
        ensures
            s == Stat::Density,
    {
        Stat::Density
    }

    /// A boxplot summary stat.
    pub fn boxplot() -> (s: Self)
        ensures
            s == Stat::Boxplot,
    {
        Stat::Boxplot
    }

    /// A smoothing stat.
    pub fn smooth() -> (s: Self)
        ensures
            s == Stat::Smooth,
    {
        Stat::Smooth
    }

    /// A 2D binning stat with `bins_x` by `bins_y` bins.
    pub fn bin2d(bins_x: usize, bins_y: usize) -> (s: Self)
        ensures
            s == (Stat::Bin2d { bins_x, bins_y }),
    {
        Stat::Bin2d { bins_x, bins_y }
    }

    /// A sum stat.
    pub fn sum() -> (s: Self)
        ensures
            s == Stat::Sum,
    {
        Stat::Sum
    }

    /// A mean stat.
    pub fn mean() -> (s: Self)
        ensures
            s == Stat::Mean,
    {
        Stat::Mean
    }
}

} // verus!
