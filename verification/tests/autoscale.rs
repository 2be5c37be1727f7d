use iced_plot::autoscale::autoscale_target;

#[test]
fn autoscale_uses_data_then_limits() {
    let fallback = ([-1.0f64, -1.0], [1.0, 1.0]);
    assert_eq!(autoscale_target(fallback, None, None, None), ([-1.0, -1.0], [1.0, 1.0]));
    let data = Some(([10.0, 2.0], [20.0, 6.0]));
    assert_eq!(autoscale_target(fallback, data, None, None), ([10.0, 2.0], [20.0, 6.0]));
    assert_eq!(autoscale_target(fallback, data, None, Some((0.0, 100.0))), ([10.0, 0.0], [20.0, 100.0]));
    assert_eq!(autoscale_target(fallback, data, Some((-5.0, 5.0)), None), ([-5.0, 2.0], [5.0, 6.0]));
    assert_eq!(
        autoscale_target(fallback, None, Some((-5.0, 5.0)), Some((3.0, 4.0))),
        ([-5.0, 3.0], [5.0, 4.0])
    );
}

use iced_plot::autoscale::data_corner;

#[test]
fn data_corner_falls_back_per_axis() {
    assert_eq!(data_corner::<f64>(None, None, -1.0), None);
    assert_eq!(data_corner(Some(3.0), None, -1.0), Some([3.0, -1.0]));
    assert_eq!(data_corner(None, Some(2.0), 1.0), Some([1.0, 2.0]));
    assert_eq!(data_corner(Some(3.0), Some(4.0), 1.0), Some([3.0, 4.0]));
}
