//! RGBA colors with 8-bit channels.

use vstd::prelude::*;

verus! {

/// RGBA color with 8-bit components.
#[derive(Debug, Clone, Copy, PartialEq, Eq, Structural)]
pub struct Rgba {
    /// Red component (0-255).
    pub r: u8,
    /// Green component (0-255).
    pub g: u8,
    /// Blue component (0-255).
    pub b: u8,
    /// Alpha component (0-255, 255 = fully opaque).
    pub a: u8,
}

/// The color with the four given channels.
pub open spec fn rgba(r: u8, g: u8, b: u8, a: u8) -> Rgba {
    Rgba { r, g, b, a }
}

/// The channels of a color in the order red, green, blue, alpha.
pub open spec fn channels(c: Rgba) -> Seq<u8> {
    seq![c.r, c.g, c.b, c.a]
}

impl Default for Rgba {
    /// Transparent black: every channel 0.
    fn default() -> (c: Self)
        ensures
            c == rgba(0, 0, 0, 0),
    {
        Rgba { r: 0, g: 0, b: 0, a: 0 }
    }
}

#[allow(non_snake_case)]
impl Rgba {
    /// Fully transparent black.
    pub fn TRANSPARENT() -> (c: Self)
        ensures
            c == rgba(0, 0, 0, 0),
    {
        Rgba { r: 0, g: 0, b: 0, a: 0 }
    }

    /// Opaque black.
    pub fn BLACK() -> (c: Self)
        ensures
            c == rgba(0, 0, 0, 255),
    {
        Rgba { r: 0, g: 0, b: 0, a: 255 }
    }

    /// Opaque white.
    pub fn WHITE() -> (c: Self)
        ensures
            c == rgba(255, 255, 255, 255),
    {
        Rgba { r: 255, g: 255, b: 255, a: 255 }
    }

    /// Opaque red.
    pub fn RED() -> (c: Self)
        ensures
            c == rgba(255, 0, 0, 255),
    {
        Rgba { r: 255, g: 0, b: 0, a: 255 }
    }

    /// Opaque green.
    pub fn GREEN() -> (c: Self)
        ensures
            c == rgba(0, 255, 0, 255),
    {
        Rgba { r: 0, g: 255, b: 0, a: 255 }
    }

    /// Opaque blue.
    pub fn BLUE() -> (c: Self)
        ensures
            c == rgba(0, 0, 255, 255),
    {
        Rgba { r: 0, g: 0, b: 255, a: 255 }
    }

    /// Create a new RGBA color.
    pub fn new(r: u8, g: u8, b: u8, a: u8) -> (c: Self)
        ensures
            c == rgba(r, g, b, a),
    {
        Rgba { r, g, b, a }
    }

    /// Create an opaque RGB color (alpha = 255).
    pub fn rgb(r: u8, g: u8, b: u8) -> (c: Self)
        ensures
            c == rgba(r, g, b, 255),
    {
        Self::new(r, g, b, 255)
    }

    /// The same color with its alpha channel replaced.
    pub fn with_alpha(self, a: u8) -> (c: Self)
        ensures
            c == rgba(self.r, self.g, self.b, a),
    {
        Self::new(self.r, self.g, self.b, a)
    }

    /// Convert to array representation `[r, g, b, a]`.
    pub fn to_array(self) -> (arr: [u8; 4])
        ensures
            arr@ == channels(self),
    {
        let arr = [self.r, self.g, self.b, self.a];
        assert(arr@ =~= channels(self));
        arr
    }

    /// Create from array representation `[r, g, b, a]`.
    pub fn from_array(arr: [u8; 4]) -> (c: Self)
        ensures
            c == rgba(arr@[0], arr@[1], arr@[2], arr@[3]),
            channels(c) == arr@,
    {
        let c = Self::new(arr[0], arr[1], arr[2], arr[3]);
        assert(channels(c) =~= arr@);
        c
    }
}

/// Converting a color to its array and back gives the same color, and converting
/// an array to a color and back gives the same array.
pub proof fn lemma_array_round_trip(c: Rgba, arr: [u8; 4])
    ensures
        rgba(channels(c)[0], channels(c)[1], channels(c)[2], channels(c)[3]) == c,
        channels(rgba(arr@[0], arr@[1], arr@[2], arr@[3])) == arr@,
{
    assert(channels(rgba(arr@[0], arr@[1], arr@[2], arr@[3])) =~= arr@);
}

} // verus!
