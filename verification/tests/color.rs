use trueno_viz::color::Rgba;

#[test]
fn test_rgba_constants() {
    assert_eq!(Rgba::BLACK(), Rgba::rgb(0, 0, 0));
    assert_eq!(Rgba::WHITE(), Rgba::rgb(255, 255, 255));
    assert_eq!(Rgba::RED().r, 255);
    assert_eq!(Rgba::GREEN().g, 255);
    assert_eq!(Rgba::BLUE().b, 255);
}

#[test]
fn test_rgba_with_alpha() {
    let red = Rgba::RED();
    let semi_red = red.with_alpha(128);
    assert_eq!(semi_red.r, 255);
    assert_eq!(semi_red.a, 128);
}

#[test]
fn test_rgba_to_array_from_array() {
    let color = Rgba::new(10, 20, 30, 40);
    let arr = color.to_array();
    assert_eq!(arr, [10, 20, 30, 40]);
    let restored = Rgba::from_array(arr);
    assert_eq!(restored, color);
}

#[test]
fn test_rgba_default() {
    let color = Rgba::default();
    assert_eq!(color, Rgba::new(0, 0, 0, 0));
}

#[test]
fn test_rgba_transparent() {
    assert_eq!(Rgba::TRANSPARENT(), Rgba::new(0, 0, 0, 0));
    assert_eq!(Rgba::TRANSPARENT().a, 0);
}

#[test]
fn rgb_is_opaque_and_keeps_channels() {
    let c = Rgba::rgb(1, 2, 3);
    assert_eq!(c.to_array(), [1, 2, 3, 255]);
    assert_eq!(c.with_alpha(7).to_array(), [1, 2, 3, 7]);
}

#[test]
fn array_round_trip_law_on_values() {
    for arr in [[0u8, 0, 0, 0], [255, 254, 1, 128], [9, 8, 7, 6]] {
        assert_eq!(Rgba::from_array(arr).to_array(), arr);
    }
    let c = Rgba::new(3, 141, 59, 26);
    assert_eq!(Rgba::from_array(c.to_array()), c);
}

#[test]
fn test_library_compiles() {
    // Smoke test to ensure the library compiles
    assert!(true);
}
