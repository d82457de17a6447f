use lucis::background::{background_pixel, gradient_color, is_star, Rgb8};
use lucis::image::{compose_pixels, compose_pixels_rng, pixel_coords, RenderError};
use rand::rngs::StdRng;
use rand::SeedableRng;

fn rgb(r: u8, g: u8, b: u8) -> Rgb8 {
    Rgb8 { r, g, b }
}

#[test]
fn gradient_top_rows_are_black() {
    assert_eq!(gradient_color(0, 2), rgb(0, 0, 0));
    assert_eq!(gradient_color(1, 5), rgb(0, 0, 0));
    assert_eq!(gradient_color(0, 200), rgb(0, 0, 0));
}

#[test]
fn gradient_follows_height_rate() {
    // height rate 0.5 - 0.2 = 0.3
    assert_eq!(gradient_color(1, 2), rgb(20, 40, 77));
    // height rate 0.6 - 0.2 = 0.4
    assert_eq!(gradient_color(3, 5), rgb(27, 53, 102));
    // height rate 0.99 - 0.2 = 0.79
    assert_eq!(gradient_color(99, 100), rgb(53, 105, 201));
}

#[test]
fn gradient_saturates_past_the_last_row() {
    // height rate 4.5 - 0.2 = 4.3
    assert_eq!(gradient_color(9, 2), rgb(255, 255, 255));
}

#[test]
fn gradient_is_reproducible() {
    for y in 0..50u32 {
        assert_eq!(gradient_color(y, 50), gradient_color(y, 50));
    }
}

#[test]
fn star_floor_chance_near_top() {
    // height rate 0: chance 1/200 of 2^32, that is 21474836.48
    assert!(is_star(0, 10, 0));
    assert!(is_star(0, 10, 21_474_836));
    assert!(!is_star(0, 10, 21_474_837));
    assert!(!is_star(0, 10, u32::MAX));
}

#[test]
fn star_chance_tapers_in_band() {
    // y = 5, h = 20: height rate 0.05, chance (0.35 / 0.35) * 0.003
    // 3 * (60 - 25) * 2^32 / (1750 * 20) = 12884901.888
    assert!(is_star(5, 20, 12_884_901));
    assert!(!is_star(5, 20, 12_884_902));
}

#[test]
fn no_star_below_band() {
    // y = 9, h = 10: height rate 0.7 is past 0.35
    assert!(!is_star(9, 10, 0));
    assert_eq!(background_pixel(9, 10, 0, 0), gradient_color(9, 10));
}

#[test]
fn star_gray_range() {
    assert_eq!(background_pixel(0, 10, 0, 0), rgb(55, 55, 55));
    assert_eq!(background_pixel(0, 10, 0, u32::MAX), rgb(254, 254, 254));
    assert_eq!(background_pixel(0, 10, 0, 1 << 31), rgb(155, 155, 155));
}

#[test]
fn background_without_star_is_gradient() {
    assert_eq!(background_pixel(1, 2, u32::MAX, 0), rgb(20, 40, 77));
}

#[test]
fn pixel_index_decomposition() {
    assert_eq!(pixel_coords(3, 2, 2), (1, 1));
    assert_eq!(pixel_coords(0, 2, 2), (0, 0));
    // width != height: the row divides by the height
    assert_eq!(pixel_coords(5, 3, 2), (2, 2));
}

#[test]
fn empty_scene_two_by_two() {
    let shaded: Vec<Option<Rgb8>> = vec![None; 4];
    let no_star = vec![u32::MAX; 4];
    let grays = vec![0u32; 4];
    let bytes = compose_pixels(2, 2, &shaded, &no_star, &grays).unwrap();
    assert_eq!(
        bytes,
        vec![0, 0, 0, 255, 0, 0, 0, 255, 20, 40, 77, 255, 20, 40, 77, 255]
    );
}

#[test]
fn repeated_renders_are_identical() {
    let shaded: Vec<Option<Rgb8>> = vec![None; 12];
    let stars: Vec<u32> = (0..12u32).map(|i| i.wrapping_mul(0x9e37_79b9)).collect();
    let grays: Vec<u32> = (0..12u32).map(|i| i.wrapping_mul(0x85eb_ca6b)).collect();
    let a = compose_pixels(3, 4, &shaded, &stars, &grays).unwrap();
    let b = compose_pixels(3, 4, &shaded, &stars, &grays).unwrap();
    assert_eq!(a, b);
    assert_eq!(a.len(), 48);
}

#[test]
fn seeded_renders_are_identical() {
    let shaded: Vec<Option<Rgb8>> = vec![None; 4];
    let a = compose_pixels_rng(2, 2, &shaded, &mut StdRng::seed_from_u64(42)).unwrap();
    let b = compose_pixels_rng(2, 2, &shaded, &mut StdRng::seed_from_u64(42)).unwrap();
    assert_eq!(a, b);
    assert_eq!(a.len(), 16);
    for p in 0..4 {
        assert_eq!(a[4 * p + 3], 255);
    }
}

#[test]
fn hit_pixels_keep_their_colour() {
    let shaded = vec![None, Some(rgb(255, 0, 0)), None, None];
    let no_star = vec![u32::MAX; 4];
    let bytes = compose_pixels(2, 2, &shaded, &no_star, &no_star).unwrap();
    assert_eq!(&bytes[4..8], &[255, 0, 0, 255]);
    assert_eq!(&bytes[0..4], &[0, 0, 0, 255]);
}

#[test]
fn zero_sized_image_is_refused() {
    let none: Vec<Option<Rgb8>> = Vec::new();
    let empty: Vec<u32> = Vec::new();
    assert_eq!(compose_pixels(0, 2, &none, &empty, &empty), Err(RenderError::EmptyImage));
    assert_eq!(compose_pixels(2, 0, &none, &empty, &empty), Err(RenderError::EmptyImage));
    assert_eq!(
        compose_pixels_rng(0, 0, &none, &mut StdRng::seed_from_u64(1)),
        Err(RenderError::EmptyImage)
    );
}

#[test]
fn oversized_image_is_refused() {
    let none: Vec<Option<Rgb8>> = Vec::new();
    let empty: Vec<u32> = Vec::new();
    assert_eq!(
        compose_pixels(u32::MAX, u32::MAX, &none, &empty, &empty),
        Err(RenderError::TooLarge)
    );
}
