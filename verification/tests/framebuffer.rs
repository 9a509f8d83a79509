use trueno_viz::color::Rgba;
use trueno_viz::framebuffer::Framebuffer;
use trueno_viz::Error;

#[test]
fn test_new_framebuffer() {
    let fb = Framebuffer::new(100, 50).unwrap();
    assert_eq!(fb.width(), 100);
    assert_eq!(fb.height(), 50);
    assert_eq!(fb.pixel_count(), 5000);
    // Stride should be >= width * 4
    assert!(fb.stride() >= 400);
}

#[test]
fn test_invalid_dimensions() {
    assert!(Framebuffer::new(0, 100).is_err());
    assert!(Framebuffer::new(100, 0).is_err());
    assert!(Framebuffer::new(0, 0).is_err());
}

#[test]
fn framebuffer_test_clear() {
    let mut fb = Framebuffer::new(10, 10).unwrap();
    fb.clear(Rgba::RED());

    for y in 0..10 {
        for x in 0..10 {
            assert_eq!(fb.get_pixel(x, y), Some(Rgba::RED()));
        }
    }
}

#[test]
fn test_clear_large() {
    // Test with larger buffer to exercise SIMD paths
    let mut fb = Framebuffer::new(1920, 1080).unwrap();
    fb.clear(Rgba::BLUE());

    assert_eq!(fb.get_pixel(0, 0), Some(Rgba::BLUE()));
    assert_eq!(fb.get_pixel(959, 539), Some(Rgba::BLUE()));
    assert_eq!(fb.get_pixel(1919, 1079), Some(Rgba::BLUE()));
}

#[test]
fn test_fill_rect() {
    let mut fb = Framebuffer::new(100, 100).unwrap();
    fb.clear(Rgba::WHITE());
    fb.fill_rect(10, 10, 20, 20, Rgba::RED());

    // Inside rect
    assert_eq!(fb.get_pixel(15, 15), Some(Rgba::RED()));
    // Outside rect
    assert_eq!(fb.get_pixel(5, 5), Some(Rgba::WHITE()));
}

#[test]
fn test_set_get_pixel() {
    let mut fb = Framebuffer::new(10, 10).unwrap();

    fb.set_pixel(5, 5, Rgba::BLUE());
    assert_eq!(fb.get_pixel(5, 5), Some(Rgba::BLUE()));

    // Out of bounds
    assert_eq!(fb.get_pixel(100, 100), None);
}

#[test]
fn test_row_access() {
    let mut fb = Framebuffer::new(10, 5).unwrap();
    fb.clear(Rgba::BLACK());

    // Modify a row
    if let Some(row) = fb.row_mut(2) {
        for chunk in row.chunks_exact_mut(4) {
            chunk[0] = 255; // Set red
        }
    }

    // Verify
    assert_eq!(fb.get_pixel(5, 2).unwrap().r, 255);
    assert_eq!(fb.get_pixel(5, 1).unwrap().r, 0);
}

#[test]
fn invalid_dimensions_error_names_the_request() {
    assert_eq!(
        Framebuffer::new(0, 7).unwrap_err(),
        Error::InvalidDimensions { width: 0, height: 7 }
    );
}

#[test]
fn stride_is_row_bytes_rounded_to_64() {
    assert_eq!(Framebuffer::new(1, 1).unwrap().stride(), 64);
    assert_eq!(Framebuffer::new(16, 1).unwrap().stride(), 64);
    assert_eq!(Framebuffer::new(17, 1).unwrap().stride(), 128);
    assert_eq!(Framebuffer::new(10, 3).unwrap().pixels().len(), 64 * 3);
}

#[test]
fn new_buffer_is_transparent_black() {
    let fb = Framebuffer::new(3, 2).unwrap();
    assert!(fb.pixels().iter().all(|&b| b == 0));
    assert_eq!(fb.get_pixel(2, 1), Some(Rgba::TRANSPARENT()));
}

#[test]
fn clear_leaves_padding_bytes_untouched() {
    let mut fb = Framebuffer::new(3, 2).unwrap();
    fb.clear(Rgba::new(1, 2, 3, 4));
    let stride = fb.stride();
    let px = fb.pixels();
    assert_eq!(&px[0..12], &[1, 2, 3, 4, 1, 2, 3, 4, 1, 2, 3, 4]);
    assert!(px[12..stride].iter().all(|&b| b == 0));
}

#[test]
fn fill_rect_is_clipped_to_the_buffer() {
    let mut fb = Framebuffer::new(4, 4).unwrap();
    fb.fill_rect(2, 3, 10, 10, Rgba::GREEN());
    assert_eq!(fb.get_pixel(3, 3), Some(Rgba::GREEN()));
    assert_eq!(fb.get_pixel(2, 3), Some(Rgba::GREEN()));
    assert_eq!(fb.get_pixel(1, 3), Some(Rgba::TRANSPARENT()));
    assert_eq!(fb.get_pixel(3, 2), Some(Rgba::TRANSPARENT()));
    // A rectangle entirely outside changes nothing.
    let before = fb.to_compact_pixels();
    fb.fill_rect(9, 9, 3, 3, Rgba::RED());
    assert_eq!(fb.to_compact_pixels(), before);
}

#[test]
fn set_pixel_outside_is_ignored_and_neighbours_keep_color() {
    let mut fb = Framebuffer::new(4, 4).unwrap();
    fb.clear(Rgba::WHITE());
    fb.set_pixel(4, 0, Rgba::RED());
    fb.set_pixel(1, 1, Rgba::RED());
    assert_eq!(fb.get_pixel(1, 1), Some(Rgba::RED()));
    assert_eq!(fb.get_pixel(0, 1), Some(Rgba::WHITE()));
    assert_eq!(fb.get_pixel(2, 1), Some(Rgba::WHITE()));
    assert_eq!(fb.get_pixel(1, 0), Some(Rgba::WHITE()));
    assert_eq!(fb.get_pixel(3, 0), Some(Rgba::WHITE()));
}

#[test]
fn rows_exclude_padding() {
    let mut fb = Framebuffer::new(2, 3).unwrap();
    fb.set_pixel(1, 2, Rgba::new(9, 8, 7, 6));
    assert_eq!(fb.row(2).unwrap(), &[0, 0, 0, 0, 9, 8, 7, 6]);
    assert!(fb.row(3).is_none());
    assert!(fb.row_mut(3).is_none());
}

#[test]
fn compact_pixels_drop_row_padding() {
    let mut fb = Framebuffer::new(2, 2).unwrap();
    fb.set_pixel(0, 0, Rgba::new(1, 1, 1, 1));
    fb.set_pixel(1, 1, Rgba::new(2, 2, 2, 2));
    assert_eq!(
        fb.to_compact_pixels(),
        vec![1, 1, 1, 1, 0, 0, 0, 0, 0, 0, 0, 0, 2, 2, 2, 2]
    );
    let wide = Framebuffer::new(16, 2).unwrap();
    assert_eq!(wide.to_compact_pixels().len(), 16 * 4 * 2);
}

#[test]
fn pixels_mut_writes_through() {
    let mut fb = Framebuffer::new(1, 1).unwrap();
    fb.pixels_mut()[0] = 200;
    assert_eq!(fb.get_pixel(0, 0).unwrap().r, 200);
    let copy = fb.clone();
    assert_eq!(copy.get_pixel(0, 0), fb.get_pixel(0, 0));
    let _ = fb.is_aligned();
}
