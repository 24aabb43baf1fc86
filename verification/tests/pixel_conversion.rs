use rust_video_devices::frame_processor::{swap_bgr_to_rgb, swap_bgra_to_rgba};
use rust_video_devices::slint_renderer::{convert_bgr_to_rgba, convert_bgra_to_rgba};

#[test]
fn bgr_to_rgba_reorders_and_adds_opaque_alpha() {
    let bgr = [1u8, 2, 3, 4, 5, 6];
    let mut rgba = [0u8; 8];
    assert!(convert_bgr_to_rgba(&mut rgba, &bgr).is_ok());
    assert_eq!(rgba, [3, 2, 1, 255, 6, 5, 4, 255]);
}

#[test]
fn bgr_to_rgba_leaves_the_rest_of_the_buffer() {
    let bgr = [10u8, 20, 30, 99];
    let mut rgba = [7u8; 6];
    assert!(convert_bgr_to_rgba(&mut rgba, &bgr).is_ok());
    assert_eq!(rgba, [30, 20, 10, 255, 7, 7]);
}

#[test]
fn bgra_to_rgba_swaps_red_and_blue_and_keeps_alpha() {
    let bgra = [1u8, 2, 3, 4, 5, 6, 7, 8];
    let mut rgba = [0u8; 8];
    assert!(convert_bgra_to_rgba(&mut rgba, &bgra).is_ok());
    assert_eq!(rgba, [3, 2, 1, 4, 7, 6, 5, 8]);
}

#[test]
fn bgra_to_rgba_ignores_a_partial_pixel() {
    let bgra = [1u8, 2, 3, 4, 9, 9];
    let mut rgba = [0u8; 6];
    assert!(convert_bgra_to_rgba(&mut rgba, &bgra).is_ok());
    assert_eq!(rgba, [3, 2, 1, 4, 0, 0]);
}

#[test]
fn empty_input_converts_nothing() {
    let mut rgba = [5u8; 4];
    assert!(convert_bgr_to_rgba(&mut rgba, &[]).is_ok());
    assert!(convert_bgra_to_rgba(&mut rgba, &[]).is_ok());
    assert_eq!(rgba, [5, 5, 5, 5]);
}

#[test]
fn swap_bgr_to_rgb_reverses_each_pixel() {
    assert_eq!(swap_bgr_to_rgb(&[1, 2, 3, 4, 5, 6, 7]), vec![3, 2, 1, 6, 5, 4]);
}

#[test]
fn swap_twice_gives_back_the_pixels() {
    let bgra = vec![11u8, 22, 33, 44, 55, 66, 77, 88];
    assert_eq!(swap_bgra_to_rgba(&swap_bgra_to_rgba(&bgra)), bgra);
    let bgr = vec![9u8, 8, 7, 6, 5, 4];
    assert_eq!(swap_bgr_to_rgb(&swap_bgr_to_rgb(&bgr)), bgr);
}

#[test]
fn swap_bgra_to_rgba_matches_in_place_conversion() {
    let bgra = [4u8, 3, 2, 1, 8, 7, 6, 5];
    let mut rgba = [0u8; 8];
    convert_bgra_to_rgba(&mut rgba, &bgra).unwrap();
    assert_eq!(swap_bgra_to_rgba(&bgra), rgba.to_vec());
}

#[test]
fn expanded_rgb_matches_direct_rgba() {
    let bgr = [10u8, 20, 30, 40, 50, 60];
    let rgb = swap_bgr_to_rgb(&bgr);
    let mut rgba = [0u8; 8];
    convert_bgr_to_rgba(&mut rgba, &bgr).unwrap();
    for p in 0..2 {
        assert_eq!(&rgba[p * 4..p * 4 + 3], &rgb[p * 3..p * 3 + 3]);
        assert_eq!(rgba[p * 4 + 3], 255);
    }
}
