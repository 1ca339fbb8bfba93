use gradient_hex::sampler::clamp_to_byte;
use gradient_hex::{sample_color, to_hex, Color, GradientError, Image, ImageSize, Mask};

fn picture(width: u32, height: u32, pixels: Vec<(u8, u8, u8)>) -> Image {
    let mut data = Vec::new();
    for (b, g, r) in pixels {
        data.push(b);
        data.push(g);
        data.push(r);
    }
    Image::new(ImageSize { width, height }, data).unwrap()
}

fn cover(width: u32, height: u32, bits: Vec<bool>) -> Mask {
    Mask::new(ImageSize { width, height }, bits).unwrap()
}

#[test]
fn hex_is_red_green_blue() {
    assert_eq!(to_hex(Color { blue: 0xab, green: 0xcd, red: 0xef }), "#efcdab");
    assert_eq!(to_hex(Color { blue: 0x0a, green: 0xff, red: 0x10 }), "#10ff0a");
    assert_eq!(to_hex(Color { blue: 255, green: 0, red: 0 }), "#0000ff");
    assert_eq!(to_hex(Color { blue: 0, green: 0, red: 255 }), "#ff0000");
}

#[test]
fn hex_of_black_and_white() {
    assert_eq!(to_hex(Color { blue: 0, green: 0, red: 0 }), "#000000");
    assert_eq!(to_hex(Color { blue: 255, green: 255, red: 255 }), "#ffffff");
}

#[test]
fn hex_uses_every_digit_in_lower_case() {
    assert_eq!(to_hex(Color { blue: 0x45, green: 0x23, red: 0x01 }), "#012345");
    assert_eq!(to_hex(Color { blue: 0xab, green: 0x89, red: 0x67 }), "#6789ab");
    assert_eq!(to_hex(Color { blue: 0x9a, green: 0xef, red: 0xcd }), "#cdef9a");
}

#[test]
fn hex_has_the_shape_of_a_colour() {
    for v in 0..=255u8 {
        let s = to_hex(Color { blue: v, green: 255 - v, red: v / 2 });
        assert_eq!(s.len(), 7);
        assert!(s.starts_with('#'));
        assert!(s[1..].chars().all(|c| c.is_ascii_digit() || ('a'..='f').contains(&c)));
        assert_eq!(u8::from_str_radix(&s[1..3], 16).unwrap(), v / 2);
        assert_eq!(u8::from_str_radix(&s[3..5], 16).unwrap(), 255 - v);
        assert_eq!(u8::from_str_radix(&s[5..7], 16).unwrap(), v);
    }
}

#[test]
fn mean_is_taken_channel_by_channel() {
    let image = picture(2, 2, vec![(10, 20, 30), (20, 40, 60), (90, 90, 90), (0, 0, 0)]);
    let mask = cover(2, 2, vec![true, true, false, false]);
    assert_eq!(sample_color(&image, &mask), Ok(Color { blue: 15, green: 30, red: 45 }));
}

#[test]
fn mean_rounds_to_nearest() {
    // blue 5 / 3 = 1.67, green 4 / 3 = 1.33, red 764 / 3 = 254.67
    let image = picture(3, 1, vec![(1, 1, 255), (2, 1, 255), (2, 2, 254)]);
    let mask = cover(3, 1, vec![true, true, true]);
    assert_eq!(sample_color(&image, &mask), Ok(Color { blue: 2, green: 1, red: 255 }));
}

#[test]
fn mean_rounds_a_half_up() {
    let image = picture(2, 1, vec![(0, 10, 255), (1, 11, 254)]);
    let mask = cover(2, 1, vec![true, true]);
    assert_eq!(sample_color(&image, &mask), Ok(Color { blue: 1, green: 11, red: 255 }));
}

#[test]
fn mean_ignores_pixels_outside_the_mask() {
    let image = picture(3, 1, vec![(255, 255, 255), (7, 8, 9), (255, 255, 255)]);
    let mask = cover(3, 1, vec![false, true, false]);
    assert_eq!(sample_color(&image, &mask), Ok(Color { blue: 7, green: 8, red: 9 }));
}

#[test]
fn empty_band_is_black() {
    let image = picture(2, 1, vec![(200, 100, 50), (1, 2, 3)]);
    let mask = cover(2, 1, vec![false, false]);
    let color = sample_color(&image, &mask).unwrap();
    assert_eq!(color, Color { blue: 0, green: 0, red: 0 });
    assert_eq!(to_hex(color), "#000000");
}

#[test]
fn mean_of_a_solid_image_is_its_colour() {
    let image = picture(3, 2, vec![(12, 34, 56); 6]);
    let mask = cover(3, 2, vec![true, false, true, true, false, true]);
    assert_eq!(sample_color(&image, &mask), Ok(Color { blue: 12, green: 34, red: 56 }));
    let white = picture(3, 2, vec![(255, 255, 255); 6]);
    assert_eq!(sample_color(&white, &mask), Ok(Color { blue: 255, green: 255, red: 255 }));
}

#[test]
fn mask_of_another_size_is_rejected() {
    let image = picture(3, 2, vec![(1, 2, 3); 6]);
    let turned = cover(2, 3, vec![true; 6]);
    assert_eq!(sample_color(&image, &turned), Err(GradientError::InvalidInput));
    let small = cover(1, 1, vec![true]);
    assert_eq!(sample_color(&image, &small), Err(GradientError::InvalidInput));
}

#[test]
fn clamp_keeps_bytes_and_cuts_the_rest() {
    assert_eq!(clamp_to_byte(0), 0);
    assert_eq!(clamp_to_byte(17), 17);
    assert_eq!(clamp_to_byte(255), 255);
    assert_eq!(clamp_to_byte(256), 255);
    assert_eq!(clamp_to_byte(u128::MAX), 255);
}
