use gradient_hex::{Color, GradientError, Image, ImageSize, Mask, ScalarField};

fn size(width: u32, height: u32) -> ImageSize {
    ImageSize { width, height }
}

#[test]
fn image_takes_three_bytes_per_pixel() {
    let image = Image::new(size(2, 1), vec![1, 2, 3, 4, 5, 6]).unwrap();
    assert_eq!(image.size(), size(2, 1));
    assert_eq!(image.pixel_at(0), Color { blue: 1, green: 2, red: 3 });
    assert_eq!(image.pixel_at(1), Color { blue: 4, green: 5, red: 6 });
}

#[test]
fn image_pixels_are_stored_row_by_row() {
    let mut data: Vec<u8> = Vec::new();
    for i in 0..6u8 {
        data.push(i);
        data.push(10 + i);
        data.push(20 + i);
    }
    let image = Image::new(size(3, 2), data).unwrap();
    // second row, first column
    assert_eq!(image.pixel_at(3), Color { blue: 3, green: 13, red: 23 });
    assert_eq!(image.pixel_at(5), Color { blue: 5, green: 15, red: 25 });
}

#[test]
fn image_without_pixels_is_rejected() {
    assert_eq!(Image::new(size(0, 4), vec![]).unwrap_err(), GradientError::EmptyImage);
    assert_eq!(Image::new(size(4, 0), vec![]).unwrap_err(), GradientError::EmptyImage);
    assert_eq!(Image::new(size(0, 0), vec![1, 2, 3]).unwrap_err(), GradientError::EmptyImage);
}

#[test]
fn image_of_wrong_length_is_rejected() {
    assert_eq!(Image::new(size(2, 1), vec![1, 2, 3]).unwrap_err(), GradientError::InvalidInput);
    assert_eq!(Image::new(size(1, 1), vec![1, 2, 3, 4]).unwrap_err(), GradientError::InvalidInput);
    assert_eq!(Image::new(size(1, 1), vec![]).unwrap_err(), GradientError::InvalidInput);
    // one byte per pixel is not enough
    assert_eq!(Image::new(size(3, 1), vec![1, 2, 3]).unwrap_err(), GradientError::InvalidInput);
}

#[test]
fn field_holds_one_value_per_cell() {
    let field = ScalarField::new(size(2, 2), vec![5, -7, 0, 9]).unwrap();
    assert_eq!(field.size(), size(2, 2));
    assert_eq!(field.len(), 4);
    assert_eq!(field.value_at(1), -7);
    assert_eq!(field.value_at(3), 9);
}

#[test]
fn field_of_wrong_length_is_rejected() {
    assert_eq!(ScalarField::new(size(2, 2), vec![1, 2, 3]).unwrap_err(), GradientError::InvalidInput);
    assert_eq!(ScalarField::new(size(0, 2), vec![]).unwrap_err(), GradientError::EmptyImage);
    assert_eq!(ScalarField::new(size(2, 0), vec![1]).unwrap_err(), GradientError::EmptyImage);
}

#[test]
fn field_min_max_finds_both_extremes() {
    let field = ScalarField::new(size(3, 2), vec![4, -2, 9, 9, 0, -2]).unwrap();
    assert_eq!(field.min_max(), (-2, 9));
    let single = ScalarField::new(size(1, 1), vec![7]).unwrap();
    assert_eq!(single.min_max(), (7, 7));
    let wide = ScalarField::new(size(2, 1), vec![i64::MAX, i64::MIN]).unwrap();
    assert_eq!(wide.min_max(), (i64::MIN, i64::MAX));
}

#[test]
fn mask_counts_selected_cells() {
    let mask = Mask::new(size(3, 2), vec![true, false, true, true, false, false]).unwrap();
    assert_eq!(mask.size(), size(3, 2));
    assert_eq!(mask.len(), 6);
    assert_eq!(mask.count(), 3);
    assert!(mask.is_set(0));
    assert!(!mask.is_set(1));
    assert!(mask.is_set(3));
    let none = Mask::new(size(2, 1), vec![false, false]).unwrap();
    assert_eq!(none.count(), 0);
}

#[test]
fn mask_of_wrong_length_is_rejected() {
    assert_eq!(Mask::new(size(2, 2), vec![true]).unwrap_err(), GradientError::InvalidInput);
    assert_eq!(Mask::new(size(0, 2), vec![]).unwrap_err(), GradientError::EmptyImage);
}
