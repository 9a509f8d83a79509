//! Row-major RGBA pixel buffer with 64-byte aligned rows.

use crate::color::{channels, rgba, Rgba};
use crate::error::Error;
use vstd::arithmetic::div_mod::{lemma_fundamental_div_mod, lemma_fundamental_div_mod_converse};
use vstd::math::min;
use vstd::prelude::*;

verus! {

/// Row alignment in bytes (one AVX-512 register).
pub const SIMD_ALIGNMENT: usize = 64;

/// Bytes per row for a given width: four bytes per pixel, rounded up to a multiple of 64.
pub open spec fn stride_for(width: nat) -> nat {
    ((width * 4 + 63) / 64 * 64) as nat
}

/// Byte `j` lies in the rectangle of pixel columns `[x1, x2)` and rows `[y1, y2)`
/// of a buffer whose rows are `stride` bytes long.
pub open spec fn in_rect(j: int, stride: nat, x1: int, x2: int, y1: int, y2: int) -> bool {
    &&& y1 <= j / (stride as int) < y2
    &&& x1 * 4 <= j % (stride as int) < x2 * 4
}

/// The bytes after painting the rectangle `[x1, x2) x [y1, y2)` with `color`;
/// every byte outside the rectangle keeps its value.
pub open spec fn paint(
    old: Seq<u8>,
    stride: nat,
    x1: int,
    x2: int,
    y1: int,
    y2: int,
    color: Rgba,
) -> Seq<u8> {
    Seq::new(
        old.len(),
        |j: int|
            if in_rect(j, stride, x1, x2, y1, y2) {
                channels(color)[(j % (stride as int)) % 4]
            } else {
                old[j]
            },
    )
}

/// The color stored at byte offset `i` (four bytes: red, green, blue, alpha).
pub open spec fn color_at(bytes: Seq<u8>, i: int) -> Rgba {
    rgba(bytes[i], bytes[i + 1], bytes[i + 2], bytes[i + 3])
}

/// The tightly packed pixel bytes: each row's `width * 4` pixel bytes, rows in order.
pub open spec fn compact(bytes: Seq<u8>, stride: nat, width: nat, height: nat) -> Seq<u8> {
    Seq::new(
        width * 4 * height,
        |k: int| bytes[(k / ((width * 4) as int)) * (stride as int) + k % ((width * 4) as int)],
    )
}

/// A row's stride is at least its pixel bytes.
pub proof fn lemma_stride_covers_row(width: nat)
    ensures
        width * 4 <= stride_for(width),
        stride_for(width) < width * 4 + 64,
        stride_for(width) % 64 == 0,
{
    let a = (width * 4 + 63) as int;
    lemma_fundamental_div_mod(a, 64);
    vstd::arithmetic::div_mod::lemma_mod_multiples_basic(a / 64, 64);
}

/// Painting a rectangle sets each covered pixel to the color and leaves every other
/// pixel as it was.
pub proof fn lemma_paint_pixel(
    b: Seq<u8>,
    s: nat,
    w: nat,
    x1: int,
    x2: int,
    y1: int,
    y2: int,
    c: Rgba,
    x: int,
    y: int,
)
    requires
        w * 4 <= s,
        0 <= x < w,
        0 <= y,
        y * s + s <= b.len(),
    ensures
        color_at(paint(b, s, x1, x2, y1, y2, c), y * s + x * 4) == (if x1 <= x < x2 && y1 <= y
            < y2 {
            c
        } else {
            color_at(b, y * s + x * 4)
        }),
{
    let p = paint(b, s, x1, x2, y1, y2, c);
    let base = y * s + x * 4;
    assert forall|ch: int| 0 <= ch < 4 implies #[trigger] p[base + ch] == (if x1 <= x < x2 && y1
        <= y < y2 {
        channels(c)[ch]
    } else {
        b[base + ch]
    }) by {
        lemma_fundamental_div_mod_converse(base + ch, s as int, y, x * 4 + ch);
        assert((x * 4 + ch) % 4 == ch);
    }
    assert(p[base + 0] == (if x1 <= x < x2 && y1 <= y < y2 { channels(c)[0] } else { b[base + 0] }));
    assert(p[base + 1] == (if x1 <= x < x2 && y1 <= y < y2 { channels(c)[1] } else { b[base + 1] }));
    assert(p[base + 2] == (if x1 <= x < x2 && y1 <= y < y2 { channels(c)[2] } else { b[base + 2] }));
    assert(p[base + 3] == (if x1 <= x < x2 && y1 <= y < y2 { channels(c)[3] } else { b[base + 3] }));
}

/// SIMD-aligned framebuffer of RGBA pixels in row-major order.
///
/// Row `y` starts at byte `y * stride` of the pixel bytes; its first `width * 4` bytes are
/// pixels and the rest is alignment padding. The storage holds up to 63 bytes before the
/// pixel bytes, chosen when it is allocated so that the first pixel starts on a 64-byte
/// boundary; the storage is never grown afterwards.
#[derive(Debug)]
pub struct Framebuffer {
    width: u32,
    height: u32,
    pixels: Vec<u8>,
    stride: usize,
    lead: usize,
}

impl Framebuffer {
    #[verifier::type_invariant]
    spec fn inv(self) -> bool {
        &&& 0 < self.width
        &&& 0 < self.height
        &&& self.stride == stride_for(self.width as nat)
        &&& self.lead < SIMD_ALIGNMENT
        &&& self.pixels@.len() == self.lead + self.stride * self.height
        &&& self.stride * self.height + SIMD_ALIGNMENT <= isize::MAX
    }


    /// Width in pixels.
    pub closed spec fn w(self) -> nat {
        self.width as nat
    }

    /// Height in pixels.
    pub closed spec fn h(self) -> nat {
        self.height as nat
    }

    /// Row length in bytes, padding included.
    pub closed spec fn row_bytes(self) -> nat {
        self.stride as nat
    }

    /// The raw bytes, padding included.
    pub closed spec fn bytes(self) -> Seq<u8> {
        self.pixels@.subrange(self.lead as int, self.lead + self.stride * self.height)
    }

    /// Byte offset of pixel `(x, y)`.
    pub open spec fn offset(self, x: int, y: int) -> int {
        y * (self.row_bytes() as int) + x * 4
    }

    /// The color of pixel `(x, y)`.
    pub open spec fn pixel_at(self, x: int, y: int) -> Rgba {
        color_at(self.bytes(), self.offset(x, y))
    }

    /// The shape facts that hold of every framebuffer.
    pub open spec fn shaped(self) -> bool {
        &&& 0 < self.w()
        &&& 0 < self.h()
        &&& self.row_bytes() == stride_for(self.w())
        &&& self.bytes().len() == self.row_bytes() * self.h()
    }

    /// Two framebuffers have the same shape: width, height, row length and byte count.
    pub open spec fn same_shape(self, other: Framebuffer) -> bool {
        &&& self.w() == other.w()
        &&& self.h() == other.h()
        &&& self.row_bytes() == other.row_bytes()
        &&& self.bytes().len() == other.bytes().len()
    }

    /// Every mutator (`clear`, `fill_rect`, `set_pixel`, and writes through `pixels_mut` or
    /// `row_mut`) keeps the shape, so along any sequence of states that each step keeps,
    /// every state has the shape of the first.
    pub proof fn lemma_shape_along(states: Seq<Framebuffer>)
        requires
            forall|i: int| 0 <= i < states.len() - 1 ==> #[trigger] states[i].same_shape(
                states[i + 1],
            ),
        ensures
            forall|i: int| 0 <= i < states.len() ==> states[0].same_shape(#[trigger] states[i]),
        decreases states.len(),
    {
        if states.len() > 1 {
            let init = states.drop_last();
            assert forall|i: int| 0 <= i < init.len() - 1 implies #[trigger] init[i].same_shape(
                init[i + 1],
            ) by {
                assert(states[i].same_shape(states[i + 1]));
            }
            Self::lemma_shape_along(init);
            assert forall|i: int| 0 <= i < states.len() implies states[0].same_shape(
                #[trigger] states[i],
            ) by {
                if i < states.len() - 1 {
                    assert(init[i] == states[i]);
                    assert(init[0] == states[0]);
                    assert(states[0].same_shape(init[i]));
                } else {
                    assert(init[0] == states[0]);
                    assert(states[0].same_shape(init[i - 1]));
                    let j = i - 1;
                    assert(states[j].same_shape(states[j + 1]));
                    assert(j + 1 == i);
                }
            }
        }
    }

    /// Painting a rectangle (as `clear`, `fill_rect` and `set_pixel` do) gives every
    /// covered pixel the color and leaves every other pixel's color unchanged.
    pub proof fn lemma_painted_pixel(
        self,
        x1: int,
        x2: int,
        y1: int,
        y2: int,
        c: Rgba,
        x: int,
        y: int,
    )
        requires
            self.shaped(),
            0 <= x < self.w(),
            0 <= y < self.h(),
        ensures
            color_at(paint(self.bytes(), self.row_bytes(), x1, x2, y1, y2, c), self.offset(x, y))
                == (if x1 <= x < x2 && y1 <= y < y2 {
                c
            } else {
                self.pixel_at(x, y)
            }),
    {
        lemma_stride_covers_row(self.w());
        let s = self.row_bytes() as int;
        assert(y * s + s <= s * self.h()) by (nonlinear_arith)
            requires 0 <= y < self.h(), 0 <= s;
        lemma_paint_pixel(self.bytes(), self.row_bytes(), self.w(), x1, x2, y1, y2, c, x, y);
    }

    /// Reading a pixel gives back what `set_pixel` wrote there, and every other pixel
    /// keeps its color.
    pub proof fn lemma_set_then_get(self, x: int, y: int, c: Rgba, x2: int, y2: int)
        requires
            self.shaped(),
            0 <= x < self.w(),
            0 <= y < self.h(),
            0 <= x2 < self.w(),
            0 <= y2 < self.h(),
        ensures
            color_at(paint(self.bytes(), self.row_bytes(), x, x + 1, y, y + 1, c), self.offset(x, y))
                == c,
            (x2 != x || y2 != y) ==> color_at(
                paint(self.bytes(), self.row_bytes(), x, x + 1, y, y + 1, c),
                self.offset(x2, y2),
            ) == self.pixel_at(x2, y2),
    {
        self.lemma_painted_pixel(x, x + 1, y, y + 1, c, x, y);
        self.lemma_painted_pixel(x, x + 1, y, y + 1, c, x2, y2);
    }

    /// After `clear`, every pixel has the clearing color.
    pub proof fn lemma_clear_paints_all(self, c: Rgba, x: int, y: int)
        requires
            self.shaped(),
            0 <= x < self.w(),
            0 <= y < self.h(),
        ensures
            color_at(
                paint(self.bytes(), self.row_bytes(), 0, self.w() as int, 0, self.h() as int, c),
                self.offset(x, y),
            ) == c,
    {
        self.lemma_painted_pixel(0, self.w() as int, 0, self.h() as int, c, x, y);
    }

    /// Create a new framebuffer filled with transparent black.
    ///
    /// Fails with `InvalidDimensions` exactly when the width or the height is zero.
    pub fn new(width: u32, height: u32) -> (r: Result<Self, Error>)
        requires
            stride_for(width as nat) * height + SIMD_ALIGNMENT <= isize::MAX,
        ensures
            (width == 0 || height == 0) <==> r is Err,
            r matches Err(e) ==> e == (Error::InvalidDimensions { width, height }),
            r matches Ok(fb) ==> {
                &&& fb.shaped()
                &&& fb.w() == width
                &&& fb.h() == height
                &&& forall|i: int| 0 <= i < fb.bytes().len() ==> fb.bytes()[i] == 0
            },
    {
        if width == 0 || height == 0 {
            return Err(Error::InvalidDimensions { width, height });
        }
        proof {
            lemma_stride_covers_row(width as nat);
            let st = stride_for(width as nat) as int;
            let hh = height as int;
            assert(st <= st * hh) by (nonlinear_arith)
                requires 1 <= hh, 0 <= st;
        }
        let row_bytes = (width as usize) * 4;
        let stride = (row_bytes + SIMD_ALIGNMENT - 1) / SIMD_ALIGNMENT * SIMD_ALIGNMENT;
        let size = stride * (height as usize);
        assert(size > 0);
        let mut pixels: Vec<u8> = Vec::with_capacity(size + SIMD_ALIGNMENT);
        let lead = lead_to_boundary(addr_of_bytes(&pixels));
        pixels.resize(lead + size, 0u8);
        Ok(Framebuffer { width, height, pixels, stride, lead })
    }

    /// Width in pixels.
    pub fn width(&self) -> (r: u32)
        ensures
            r == self.w(),
            self.shaped(),
    {
        proof { use_type_invariant(self); }
        self.width
    }

    /// Height in pixels.
    pub fn height(&self) -> (r: u32)
        ensures
            r == self.h(),
            self.shaped(),
    {
        proof { use_type_invariant(self); }
        self.height
    }

    /// Row length in bytes, padding included.
    pub fn stride(&self) -> (r: usize)
        ensures
            r == self.row_bytes(),
            self.shaped(),
    {
        proof { use_type_invariant(self); }
        self.stride
    }

    /// Total number of pixels.
    pub fn pixel_count(&self) -> (r: usize)
        ensures
            r == self.w() * self.h(),
    {
        proof {
            use_type_invariant(self);
            let w = self.width as int;
            let h = self.height as int;
            let s = self.stride as int;
            assert(w * h <= s * h) by (nonlinear_arith)
                requires w * 4 <= s, 0 <= h, 0 <= w;
        }
        (self.width as usize) * (self.height as usize)
    }

    /// The raw bytes, padding included.
    pub fn pixels(&self) -> (r: &[u8])
        ensures
            r@ == self.bytes(),
    {
        proof { use_type_invariant(self); }
        let start = self.lead;
        let end = start + self.stride * (self.height as usize);
        &self.pixels.as_slice()[start..end]
    }

    /// The raw bytes, padding included, for writing.
    pub fn pixels_mut(&mut self) -> (r: &mut [u8])
        ensures
            old(self).same_shape(*final(self)),
            r@ == old(self).bytes(),
            final(self).bytes() == final(r)@,
            final(self).w() == old(self).w(),
            final(self).h() == old(self).h(),
            final(self).row_bytes() == old(self).row_bytes(),
    {
        proof { use_type_invariant(&*self); }
        let start = self.lead;
        let end = start + self.stride * (self.height as usize);
        vec_range_mut(&mut self.pixels, start, end)
    }

    /// The pixel bytes of row `y` (padding excluded), or `None` past the last row.
    pub fn row(&self, y: u32) -> (r: Option<&[u8]>)
        ensures
            y >= self.h() <==> r is None,
            r matches Some(s) ==> s@ == self.bytes().subrange(
                self.offset(0, y as int),
                self.offset(self.w() as int, y as int),
            ),
    {
        proof { use_type_invariant(self); }
        if y >= self.height {
            return None;
        }
        proof { self.lemma_row_in_bounds(y as int); }
        let start = self.lead + (y as usize) * self.stride;
        let end = start + (self.width as usize) * 4;
        let r = &self.pixels.as_slice()[start..end];
        assert(r@ =~= self.bytes().subrange(self.offset(0, y as int), self.offset(self.w() as int, y as int)));
        Some(r)
    }

    /// The pixel bytes of row `y` (padding excluded) for writing, or `None` past the last row.
    pub fn row_mut(&mut self, y: u32) -> (r: Option<&mut [u8]>)
        ensures
            old(self).same_shape(*final(self)),
            final(self).w() == old(self).w(),
            final(self).h() == old(self).h(),
            final(self).row_bytes() == old(self).row_bytes(),
            y >= old(self).h() <==> r is None,
            r is None ==> final(self).bytes() == old(self).bytes(),
            r matches Some(s) ==> {
                let start = old(self).offset(0, y as int);
                let end = old(self).offset(old(self).w() as int, y as int);
                &&& s@ == old(self).bytes().subrange(start, end)
                &&& final(self).bytes() == old(self).bytes().subrange(0, start) + final(s)@
                    + old(self).bytes().subrange(end, old(self).bytes().len() as int)
            },
    {
        proof { use_type_invariant(&*self); }
        if y >= self.height {
            return None;
        }
        proof { self.lemma_row_in_bounds(y as int); }
        let start = self.lead + (y as usize) * self.stride;
        let end = start + (self.width as usize) * 4;
        Some(vec_range_mut(&mut self.pixels, start, end))
    }

    /// Fill every pixel with `color`; padding bytes keep their values.
    pub fn clear(&mut self, color: Rgba)
        ensures
            old(self).same_shape(*final(self)),
            final(self).w() == old(self).w(),
            final(self).h() == old(self).h(),
            final(self).row_bytes() == old(self).row_bytes(),
            final(self).bytes() == paint(
                old(self).bytes(),
                old(self).row_bytes(),
                0,
                old(self).w() as int,
                0,
                old(self).h() as int,
                color,
            ),
    {
        proof { use_type_invariant(&*self); }
        let w = self.width;
        let h = self.height;
        self.paint_rect(0, w, 0, h, color);
    }

    /// Fill the rectangle at `(x, y)` of size `w x h` with `color`, clipped to the buffer:
    /// coordinates and far edges past the buffer are clamped to its bounds.
    pub fn fill_rect(&mut self, x: u32, y: u32, w: u32, h: u32, color: Rgba)
        ensures
            old(self).same_shape(*final(self)),
            final(self).w() == old(self).w(),
            final(self).h() == old(self).h(),
            final(self).row_bytes() == old(self).row_bytes(),
            final(self).bytes() == paint(
                old(self).bytes(),
                old(self).row_bytes(),
                min(x as int, old(self).w() as int),
                min(x + w, old(self).w() as int),
                min(y as int, old(self).h() as int),
                min(y + h, old(self).h() as int),
                color,
            ),
    {
        proof { use_type_invariant(&*self); }
        let x1 = if x < self.width { x } else { self.width };
        let y1 = if y < self.height { y } else { self.height };
        let x_end: u64 = (x as u64) + (w as u64);
        let y_end: u64 = (y as u64) + (h as u64);
        let x2 = if x_end < self.width as u64 { x_end as u32 } else { self.width };
        let y2 = if y_end < self.height as u64 { y_end as u32 } else { self.height };
        if x1 >= x2 || y1 >= y2 {
            proof { self.lemma_empty_paint(x1 as int, x2 as int, y1 as int, y2 as int, color); }
            return;
        }
        self.paint_rect(x1, x2, y1, y2, color);
    }

    /// The color of pixel `(x, y)`, or `None` when it lies outside the buffer.
    pub fn get_pixel(&self, x: u32, y: u32) -> (r: Option<Rgba>)
        ensures
            (x >= self.w() || y >= self.h()) <==> r is None,
            r matches Some(c) ==> c == self.pixel_at(x as int, y as int),
    {
        proof { use_type_invariant(self); }
        if x >= self.width || y >= self.height {
            return None;
        }
        let idx = self.pixel_index(x, y);
        Some(Rgba::from_array([
            self.pixels[idx],
            self.pixels[idx + 1],
            self.pixels[idx + 2],
            self.pixels[idx + 3],
        ]))
    }

    /// Set pixel `(x, y)` to `color`; does nothing when it lies outside the buffer.
    pub fn set_pixel(&mut self, x: u32, y: u32, color: Rgba)
        ensures
            old(self).same_shape(*final(self)),
            final(self).w() == old(self).w(),
            final(self).h() == old(self).h(),
            final(self).row_bytes() == old(self).row_bytes(),
            final(self).bytes() == (if x < old(self).w() && y < old(self).h() {
                paint(
                    old(self).bytes(),
                    old(self).row_bytes(),
                    x as int,
                    x + 1,
                    y as int,
                    y + 1,
                    color,
                )
            } else {
                old(self).bytes()
            }),
    {
        proof { use_type_invariant(&*self); }
        if x >= self.width || y >= self.height {
            return;
        }
        self.paint_rect(x, x + 1, y, y + 1, color);
    }

    /// Index in the storage of the first byte of pixel `(x, y)`.
    fn pixel_index(&self, x: u32, y: u32) -> (r: usize)
        requires
            x < self.w(),
            y < self.h(),
        ensures
            r == self.lead + self.offset(x as int, y as int),
            r + 4 <= self.pixels@.len(),
            self.offset(x as int, y as int) + 4 <= self.bytes().len(),
    {
        proof {
            use_type_invariant(self);
            self.lemma_row_in_bounds(y as int);
        }
        self.lead + (y as usize) * self.stride + (x as usize) * 4
    }

    /// Row `y` lies inside the buffer.
    proof fn lemma_row_in_bounds(&self, y: int)
        requires
            self.inv(),
            0 <= y < self.h(),
        ensures
            self.w() * 4 <= self.row_bytes(),
            y * self.row_bytes() + self.row_bytes() <= self.bytes().len(),
            0 <= y * self.row_bytes(),
            self.bytes().len() + self.lead == self.pixels@.len(),
            self.pixels@.len() <= usize::MAX,
    {
        lemma_stride_covers_row(self.width as nat);
        let s = self.stride as int;
        let h = self.height as int;
        assert(y * s + s <= h * s) by (nonlinear_arith)
            requires 0 <= y < h, 0 <= s;
        assert(0 <= y * s) by (nonlinear_arith)
            requires 0 <= y, 0 <= s;
    }

    /// Painting an empty rectangle changes nothing.
    proof fn lemma_empty_paint(&self, x1: int, x2: int, y1: int, y2: int, color: Rgba)
        requires
            x2 <= x1 || y2 <= y1,
        ensures
            paint(self.bytes(), self.row_bytes(), x1, x2, y1, y2, color) == self.bytes(),
    {
        assert(paint(self.bytes(), self.row_bytes(), x1, x2, y1, y2, color) =~= self.bytes());
    }

    /// Paints the rectangle of columns `[x1, x2)` and rows `[y1, y2)`.
    fn paint_rect(&mut self, x1: u32, x2: u32, y1: u32, y2: u32, color: Rgba)
        requires
            x1 <= x2 <= old(self).w(),
            y1 <= y2 <= old(self).h(),
        ensures
            final(self).w() == old(self).w(),
            final(self).h() == old(self).h(),
            final(self).row_bytes() == old(self).row_bytes(),
            final(self).bytes() == paint(
                old(self).bytes(),
                old(self).row_bytes(),
                x1 as int,
                x2 as int,
                y1 as int,
                y2 as int,
                color,
            ),
    {
        proof {
            use_type_invariant(&*self);
            lemma_stride_covers_row(self.width as nat);
        }
        let start = self.lead;
        let end = start + self.stride * (self.height as usize);
        let stride = self.stride;
        let height = self.height;
        let buf = vec_range_mut(&mut self.pixels, start, end);
        paint_bytes(buf, stride, height, x1, x2, y1, y2, color);
    }

    /// Whether the first pixel byte lies on a 64-byte boundary, as SIMD loads want it.
    ///
    /// The storage is laid out when it is allocated so that it does (see `Framebuffer`),
    /// and it is never grown, so this holds for the buffer's life. That is not proved: the
    /// address is the one the allocator chose, of which nothing is known here; the test on
    /// it is `is_simd_aligned_at`.
    pub fn is_aligned(&self) -> bool {
        proof { use_type_invariant(self); }
        is_simd_aligned_at(addr_of_bytes(&self.pixels), self.lead)
    }

    /// The pixel bytes without row padding: row after row, `width * 4` bytes each.
    pub fn to_compact_pixels(&self) -> (r: Vec<u8>)
        ensures
            r@ == compact(self.bytes(), self.row_bytes(), self.w(), self.h()),
    {
        proof { use_type_invariant(self); }
        let bytes = self.pixels();
        let row_bytes = (self.width as usize) * 4;
        let mut compact_bytes: Vec<u8> = Vec::new();
        let mut y: u32 = 0;
        while y < self.height
            invariant
                0 <= y <= self.height,
                self.inv(),
                bytes@ == self.bytes(),
                row_bytes == self.width * 4,
                compact_bytes@.len() == row_bytes * y,
                forall|k: int| 0 <= k < compact_bytes@.len() ==> #[trigger] compact_bytes@[k]
                    == bytes@[(k / (row_bytes as int)) * (self.stride as int) + k % (
                    row_bytes as int)],
            decreases self.height - y,
        {
            proof { self.lemma_row_in_bounds(y as int); }
            let start = (y as usize) * self.stride;
            let ghost before = compact_bytes@;
            compact_bytes.extend_from_slice(&bytes[start..start + row_bytes]);
            proof {
                let rb = row_bytes as int;
                assert(rb * y + rb == rb * (y + 1)) by (nonlinear_arith);
                assert(rb > 0);
                assert(before.len() == rb * y);
                assert(compact_bytes@.len() == rb * y + rb);
                assert(y * rb == rb * y) by (nonlinear_arith);
                assert forall|k: int| 0 <= k < compact_bytes@.len() implies #[trigger] compact_bytes@[k]
                    == bytes@[(k / rb) * (self.stride as int) + k % rb] by {
                    if k >= before.len() {
                        lemma_fundamental_div_mod_converse(k, rb, y as int, k - rb * y);
                    }
                }
            }
            y = y + 1;
        }
        proof {
            assert(compact_bytes@ =~= compact(
                bytes@,
                self.stride as nat,
                self.width as nat,
                self.height as nat,
            ));
        }
        compact_bytes
    }
}

/// Paints the rectangle of columns `[x1, x2)` and rows `[y1, y2)` of `height` rows of
/// `stride` bytes.
fn paint_bytes(
    buf: &mut [u8],
    stride: usize,
    height: u32,
    x1: u32,
    x2: u32,
    y1: u32,
    y2: u32,
    color: Rgba,
)
    requires
        old(buf)@.len() == stride * height,
        stride * height <= usize::MAX,
        x2 * 4 <= stride,
        x1 <= x2,
        y1 <= y2 <= height,
    ensures
        final(buf)@ == paint(old(buf)@, stride as nat, x1 as int, x2 as int, y1 as int, y2 as int, color),
{
    let ghost old_bytes = buf@;
    let ghost len = old_bytes.len();
    let arr = color.to_array();
    let ghost s = stride as int;
    let mut row = y1;
    while row < y2
        invariant
            y1 <= row <= y2,
            x1 <= x2,
            x2 * 4 <= stride,
            y2 <= height,
            s == stride as int,
            len == stride * height,
            len <= usize::MAX,
            buf@.len() == len,
            arr@ == channels(color),
            forall|j: int| 0 <= j < len ==> #[trigger] buf@[j] == (
                if in_rect(j, stride as nat, x1 as int, x2 as int, y1 as int, row as int) {
                    channels(color)[(j % s) % 4]
                } else {
                    old_bytes[j]
                }),
        decreases y2 - row,
    {
        proof {
            assert(row * s + s <= s * height) by (nonlinear_arith)
                requires 0 <= row < height, 0 <= s;
            assert(s * height == stride * height);
        }
        let base = (row as usize) * stride;
        let mut k = (x1 as usize) * 4;
        let kend = (x2 as usize) * 4;
        while k < kend
            invariant
                y1 <= row < y2,
                x1 <= x2,
                y2 <= height,
                s == stride as int,
                len == stride * height,
                buf@.len() == len,
                base == row * s,
                base + s <= len,
                kend == x2 * 4,
                kend <= s,
                x1 * 4 <= k <= kend,
                arr@ == channels(color),
                forall|j: int| 0 <= j < len ==> #[trigger] buf@[j] == (
                    if in_rect(j, stride as nat, x1 as int, x2 as int, y1 as int, row as int)
                        || (j / s == row && x1 * 4 <= j % s < k) {
                        channels(color)[(j % s) % 4]
                    } else {
                        old_bytes[j]
                    }),
            decreases kend - k,
        {
            let idx = base + k;
            proof {
                lemma_fundamental_div_mod_converse(idx as int, s, row as int, k as int);
                assert(row * s == s * row) by (nonlinear_arith);
            }
            let ghost prev = buf@;
            buf[idx] = arr[k % 4];
            proof {
                assert forall|j: int| 0 <= j < len implies #[trigger] buf@[j] == (
                    if in_rect(j, stride as nat, x1 as int, x2 as int, y1 as int, row as int)
                        || (j / s == row && x1 * 4 <= j % s < k + 1) {
                        channels(color)[(j % s) % 4]
                    } else {
                        old_bytes[j]
                    }) by {
                    if j != idx {
                        assert(buf@[j] == prev[j]);
                        lemma_fundamental_div_mod(j, s);
                    }
                }
            }
            k = k + 1;
        }
        row = row + 1;
    }
    proof {
        assert(buf@ =~= paint(old_bytes, stride as nat, x1 as int, x2 as int, y1 as int, y2 as int, color));
    }
}

/// The number of bytes from `addr` up to the next 64-byte boundary (0 when `addr` is on one).
fn lead_to_boundary(addr: usize) -> (r: usize)
    ensures
        r < 64,
        (addr + r) % 64 == 0,
{
    let rem = addr % SIMD_ALIGNMENT;
    if rem == 0 {
        0
    } else {
        SIMD_ALIGNMENT - rem
    }
}

/// The byte `lead` bytes after `addr` lies on a SIMD (64-byte) boundary.
pub fn is_simd_aligned_at(addr: usize, lead: usize) -> (b: bool)
    requires
        lead < 64,
    ensures
        b == ((addr + lead) % 64 == 0),
{
    (addr % SIMD_ALIGNMENT + lead) % SIMD_ALIGNMENT == 0
}

/// `Vec::as_ptr`, read as an address. Nothing is stated of the address, which the
/// allocator chooses.
#[verifier::external_body]
fn addr_of_bytes(v: &Vec<u8>) -> (r: usize) {
    v.as_ptr() as usize
}

impl Clone for Framebuffer {
    /// A framebuffer of the same size holding the same bytes.
    fn clone(&self) -> (r: Self)
        ensures
            r.w() == self.w(),
            r.h() == self.h(),
            r.row_bytes() == self.row_bytes(),
            r.bytes() == self.bytes(),
    {
        proof { use_type_invariant(self); }
        let bytes = self.pixels();
        let size = bytes.len();
        let mut pixels: Vec<u8> = Vec::with_capacity(size + SIMD_ALIGNMENT);
        let lead = lead_to_boundary(addr_of_bytes(&pixels));
        pixels.resize(lead, 0u8);
        pixels.extend_from_slice(bytes);
        let fb = Framebuffer { width: self.width, height: self.height, pixels, stride: self.stride, lead };
        assert(fb.bytes() =~= self.bytes());
        fb
    }
}

/// `&mut v[start..end]`: the slice is that range of the vector, whose length a slice cannot change.
#[verifier::external_body]
fn vec_range_mut(v: &mut Vec<u8>, start: usize, end: usize) -> (r: &mut [u8])
    requires
        start <= end <= old(v)@.len(),
    ensures
        r@ == old(v)@.subrange(start as int, end as int),
        final(r)@.len() == end - start,
        final(v)@ == old(v)@.subrange(0, start as int) + final(r)@ + old(v)@.subrange(
            end as int,
            old(v)@.len() as int,
        ),
    no_unwind
{
    &mut v[start..end]
}

} // verus!
