//! Faceting: splitting a plot into small multiples by one or two variables.

use vstd::prelude::*;

verus! {

broadcast use vstd::string::to_string_from_display_ensures_for_str;

/// Faceting specification.
#[derive(Debug, Clone, Default)]
pub enum Facet {
    /// No faceting.
    #[default]
    NoFacet,
    /// Facet into a row of panels.
    Row {
        /// Column to facet by.
        var: String,
    },
    /// Facet into a column of panels.
    Col {
        /// Column to facet by.
        var: String,
    },
    /// Facet into a grid of panels.
    Grid {
        /// Row variable.
        row: String,
        /// Column variable.
        col: String,
    },
    /// Facet into wrapped panels.
    Wrap {
        /// Variable to facet by.
        var: String,
        /// Number of columns.
        ncol: usize,
    },
}

impl Facet {
    /// No faceting.
    pub fn none() -> (f: Self)
        ensures
            f is NoFacet,
    {
        Facet::NoFacet
    }

    /// Facet into a row of panels split by `var`.
    pub fn row(var: &str) -> (f: Self)
        ensures
            f matches Facet::Row { var: v } && v@ == var@,
    {
        Facet::Row { var: var.to_string() }
    }

    /// Facet into a column of panels split by `var`.
    pub fn col(var: &str) -> (f: Self)
        ensures
            f matches Facet::Col { var: v } && v@ == var@,
    {
        Facet::Col { var: var.to_string() }
    }

    /// Facet into a grid with `row` across rows and `col` across columns.
    pub fn grid(row: &str, col: &str) -> (f: Self)
        ensures
            f matches Facet::Grid { row: r, col: c } && r@ == row@ && c@ == col@,
    {
        Facet::Grid { row: row.to_string(), col: col.to_string() }
    }

    /// Facet by `var` into panels wrapped after `ncol` columns.
    pub fn wrap(var: &str, ncol: usize) -> (f: Self)
        ensures
            f matches Facet::Wrap { var: v, ncol: n } && v@ == var@ && n == ncol,
    {
        Facet::Wrap { var: var.to_string(), ncol }
    }
}

} // verus!
