use iced_plot::image::{image_label, image_quad_corners, image_quad_uv, validate_image, SeriesError};

#[test]
fn image_quad_matches_bounds_and_flips_v() {
    // bounds [10, 2] .. [20, 6], default UV rectangle [[0, 0], [1, 1]]
    let corners = image_quad_corners([10.0f64, 2.0], [20.0, 6.0]);
    assert_eq!(corners, [[10.0, 2.0], [20.0, 2.0], [10.0, 6.0], [20.0, 6.0]]);
    let uv = image_quad_uv([[0.0f32, 0.0], [1.0, 1.0]]);
    assert_eq!(uv, [[0.0, 1.0], [1.0, 1.0], [0.0, 0.0], [1.0, 0.0]]);
    let uv = image_quad_uv([[0.25f32, 0.5], [0.75, 1.0]]);
    assert_eq!(uv, [[0.25, 1.0], [0.75, 1.0], [0.25, 0.5], [0.75, 0.5]]);
}

#[test]
fn image_validation_order() {
    assert_eq!(validate_image(2, 2, 16, true), Ok(()));
    assert_eq!(validate_image(0, 2, 0, true), Err(SeriesError::InvalidImageDimensions));
    assert_eq!(validate_image(2, 0, 16, false), Err(SeriesError::InvalidImageDimensions));
    assert_eq!(
        validate_image(2, 2, 15, false),
        Err(SeriesError::InvalidImageDataLength { expected: 16, actual: 15 })
    );
    assert_eq!(validate_image(240, 140, 240 * 140 * 4, false), Err(SeriesError::InvalidImageGeometry));
}

#[test]
fn empty_label_is_dropped() {
    assert_eq!(image_label(String::new()), None);
    assert_eq!(image_label("in-memory RGBA image".to_string()), Some("in-memory RGBA image".to_string()));
}
