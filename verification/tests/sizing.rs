use gradient_hex::{working_size, GradientError, ImageSize, Stage, WorkingSize, WORKING_WIDTH};

fn sized(width: u32, height: u32) -> Result<WorkingSize, GradientError> {
    working_size(Some(ImageSize { width, height }))
}

#[test]
fn working_size_keeps_the_aspect_ratio() {
    assert_eq!(sized(200, 100), Ok(WorkingSize { width: 100, height: 50 }));
    assert_eq!(sized(100, 100), Ok(WorkingSize { width: 100, height: 100 }));
    assert_eq!(sized(50, 200), Ok(WorkingSize { width: 100, height: 400 }));
    assert_eq!(sized(8, 8), Ok(WorkingSize { width: 100, height: 100 }));
}

#[test]
fn working_width_is_one_hundred() {
    assert_eq!(WORKING_WIDTH, 100);
    assert_eq!(sized(1, 1).unwrap().width, 100);
    assert_eq!(sized(4000, 3000).unwrap().width, 100);
}

#[test]
fn working_height_rounds_to_nearest() {
    // 200 / 3 = 66.67
    assert_eq!(sized(3, 2).unwrap().height, 67);
    // 100 / 3 = 33.33
    assert_eq!(sized(3, 1).unwrap().height, 33);
    // 300000 / 4000 = 75
    assert_eq!(sized(4000, 3000).unwrap().height, 75);
    // 108000 / 1920 = 56.25
    assert_eq!(sized(1920, 1080).unwrap().height, 56);
}

#[test]
fn working_height_rounds_a_half_up() {
    // 100 / 8 = 12.5
    assert_eq!(sized(8, 1).unwrap().height, 13);
    // 300 / 8 = 37.5
    assert_eq!(sized(8, 3).unwrap().height, 38);
    // 100 / 200 = 0.5
    assert_eq!(sized(200, 1).unwrap().height, 1);
}

#[test]
fn working_height_of_a_flat_strip_is_zero() {
    // 100 / 1000 = 0.1
    assert_eq!(sized(1000, 1).unwrap().height, 0);
    // 100 / 201 is just below one half
    assert_eq!(sized(201, 1).unwrap().height, 0);
}

#[test]
fn working_height_of_the_tallest_image_fits() {
    assert_eq!(sized(1, u32::MAX).unwrap().height, 429_496_729_500);
    assert_eq!(sized(u32::MAX, u32::MAX).unwrap().height, 100);
    assert_eq!(sized(u32::MAX, 1).unwrap().height, 0);
}

#[test]
fn zero_width_is_an_empty_image() {
    assert_eq!(sized(0, 10), Err(GradientError::EmptyImage));
}

#[test]
fn zero_height_is_an_empty_image() {
    assert_eq!(sized(10, 0), Err(GradientError::EmptyImage));
    assert_eq!(sized(0, 0), Err(GradientError::EmptyImage));
}

#[test]
fn undecodable_data_is_a_decode_error() {
    assert_eq!(working_size(None), Err(GradientError::Decode));
}

#[test]
fn error_messages_name_the_kind() {
    assert_eq!(GradientError::InvalidInput.message(), "image reference cannot be interpreted");
    assert_eq!(GradientError::Decode.message(), "image data cannot be decoded");
    assert_eq!(GradientError::EmptyImage.message(), "image has zero width or height");
}

#[test]
fn primitive_failure_names_its_stage() {
    assert_eq!(
        GradientError::PrimitiveFailure(Stage::Resize).message(),
        "imaging primitive failed: resize"
    );
    assert_eq!(
        GradientError::PrimitiveFailure(Stage::Blur).message(),
        "imaging primitive failed: blur"
    );
    assert_eq!(
        GradientError::PrimitiveFailure(Stage::Luminance).message(),
        "imaging primitive failed: luminance"
    );
    assert_eq!(
        GradientError::PrimitiveFailure(Stage::Derivative).message(),
        "imaging primitive failed: derivative"
    );
    assert_eq!(
        GradientError::PrimitiveFailure(Stage::Direction).message(),
        "imaging primitive failed: direction"
    );
    assert_eq!(Stage::Direction.name(), "direction");
}

#[test]
fn cell_count_is_width_times_height() {
    assert_eq!(ImageSize { width: 100, height: 50 }.cell_count(), 5000);
    assert_eq!(ImageSize { width: 0, height: 50 }.cell_count(), 0);
    assert_eq!(
        ImageSize { width: u32::MAX, height: u32::MAX }.cell_count(),
        18_446_744_065_119_617_025
    );
}
