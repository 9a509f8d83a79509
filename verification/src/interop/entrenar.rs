//! Colors for model-explanation charts.

use crate::color::{rgba, Rgba};
use vstd::prelude::*;

verus! {

/// The categorical palette: blue, red, yellow, green, purple, teal, deep orange, brown.
pub open spec fn palette() -> Seq<Rgba> {
    seq![
        rgba(66, 133, 244, 255),
        rgba(234, 67, 53, 255),
        rgba(251, 188, 4, 255),
        rgba(52, 168, 83, 255),
        rgba(103, 58, 183, 255),
        rgba(0, 150, 136, 255),
        rgba(255, 87, 34, 255),
        rgba(121, 85, 72, 255),
    ]
}

/// The color of class `label`, cycling through the eight-color palette.
pub fn label_to_color(label: usize) -> (c: Rgba)
    ensures
        c == palette()[(label % 8) as int],
{
    let colors = [
        Rgba::new(66, 133, 244, 255),
        Rgba::new(234, 67, 53, 255),
        Rgba::new(251, 188, 4, 255),
        Rgba::new(52, 168, 83, 255),
        Rgba::new(103, 58, 183, 255),
        Rgba::new(0, 150, 136, 255),
        Rgba::new(255, 87, 34, 255),
        Rgba::new(121, 85, 72, 255),
    ];
    proof {
        assert(colors@ =~= palette());
    }
    colors[label % 8]
}

} // verus!
