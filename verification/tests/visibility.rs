use iced_plot::message::ShapeId;
use iced_plot::visibility::{fill_visible, is_hidden, visible_shapes};

#[test]
fn hidden_shapes_are_skipped() {
    let hidden = vec![ShapeId(2), ShapeId(5)];
    assert!(is_hidden(&hidden, ShapeId(5)));
    assert!(!is_hidden(&hidden, ShapeId(3)));
    let ids = vec![ShapeId(1), ShapeId(2), ShapeId(3), ShapeId(5), ShapeId(6)];
    assert_eq!(visible_shapes(&ids, &hidden), vec![0, 2, 4]);
    assert_eq!(visible_shapes(&ids, &vec![]), vec![0, 1, 2, 3, 4]);
}

#[test]
fn fill_hides_with_either_end() {
    let hidden = vec![ShapeId(2)];
    assert!(fill_visible(&hidden, ShapeId(9), ShapeId(1), ShapeId(3)));
    assert!(!fill_visible(&hidden, ShapeId(2), ShapeId(1), ShapeId(3)));
    assert!(!fill_visible(&hidden, ShapeId(9), ShapeId(2), ShapeId(3)));
    assert!(!fill_visible(&hidden, ShapeId(9), ShapeId(1), ShapeId(2)));
}
