use iced_plot::fill::{
    plan_fill, push_quad_as_triangles, resolve_fill_endpoint, strip_to_line_triangles, FillEndpoint,
    FillPlan, ShapeRegistry,
};
use iced_plot::message::ShapeId;

fn registry() -> ShapeRegistry {
    ShapeRegistry {
        series: vec![ShapeId(1), ShapeId(2)],
        hlines: vec![ShapeId(10), ShapeId(2)],
        vlines: vec![ShapeId(20), ShapeId(10)],
    }
}

#[test]
fn endpoints_resolve_series_first_then_hlines_then_vlines() {
    let r = registry();
    assert_eq!(resolve_fill_endpoint(&r, ShapeId(2)), Some(FillEndpoint::Series(1)));
    assert_eq!(resolve_fill_endpoint(&r, ShapeId(10)), Some(FillEndpoint::HLine(0)));
    assert_eq!(resolve_fill_endpoint(&r, ShapeId(20)), Some(FillEndpoint::VLine(0)));
    assert_eq!(resolve_fill_endpoint(&r, ShapeId(99)), None);
}

#[test]
fn fill_plans() {
    let r = ShapeRegistry {
        series: vec![ShapeId(1), ShapeId(2)],
        hlines: vec![ShapeId(10), ShapeId(11)],
        vlines: vec![ShapeId(20), ShapeId(21)],
    };
    assert_eq!(plan_fill(&r, ShapeId(1), ShapeId(2)), Some(FillPlan::BetweenSeries { first: 0, second: 1 }));
    assert_eq!(plan_fill(&r, ShapeId(2), ShapeId(11)), Some(FillPlan::SeriesToHLine { series: 1, hline: 1 }));
    assert_eq!(plan_fill(&r, ShapeId(11), ShapeId(2)), Some(FillPlan::SeriesToHLine { series: 1, hline: 1 }));
    assert_eq!(plan_fill(&r, ShapeId(21), ShapeId(1)), Some(FillPlan::SeriesToVLine { series: 0, vline: 1 }));
    assert_eq!(plan_fill(&r, ShapeId(10), ShapeId(11)), Some(FillPlan::BetweenHLines { first: 0, second: 1 }));
    assert_eq!(plan_fill(&r, ShapeId(21), ShapeId(20)), Some(FillPlan::BetweenVLines { first: 1, second: 0 }));
    assert_eq!(plan_fill(&r, ShapeId(10), ShapeId(20)), None);
    assert_eq!(plan_fill(&r, ShapeId(20), ShapeId(10)), None);
    assert_eq!(plan_fill(&r, ShapeId(1), ShapeId(99)), None);
}

#[test]
fn quad_is_two_triangles() {
    let mut v: Vec<[f64; 2]> = vec![[9.0, 9.0]];
    push_quad_as_triangles(&mut v, [0.0, 0.0], [0.0, 1.0], [1.0, 0.0], [1.0, 1.0]);
    assert_eq!(
        v,
        vec![[9.0, 9.0], [0.0, 0.0], [0.0, 1.0], [1.0, 0.0], [1.0, 0.0], [0.0, 1.0], [1.0, 1.0]]
    );
}

#[test]
fn strip_to_hline_has_six_vertices_per_segment() {
    let points = vec![[0.0, 1.0], [1.0, 3.0], [2.0, 2.0]];
    let projected = vec![[0.0, 0.5], [1.0, 0.5], [2.0, 0.5]];
    let v = strip_to_line_triangles(&points, &projected);
    assert_eq!(v.len(), 12);
    assert_eq!(&v[0..6], &[[0.0, 1.0], [0.0, 0.5], [1.0, 3.0], [1.0, 3.0], [0.0, 0.5], [1.0, 0.5]]);
    assert_eq!(&v[6..12], &[[1.0, 3.0], [1.0, 0.5], [2.0, 2.0], [2.0, 2.0], [1.0, 0.5], [2.0, 0.5]]);
    let single: Vec<[f64; 2]> = vec![[0.0, 0.0]];
    assert!(strip_to_line_triangles(&single, &single).is_empty());
}

use iced_plot::fill::{hline_band_triangles, vline_band_triangles};

#[test]
fn bands_between_reference_lines() {
    assert_eq!(
        hline_band_triangles(0.0, 10.0, 1.0, 2.0),
        vec![[0.0, 1.0], [0.0, 2.0], [10.0, 1.0], [10.0, 1.0], [0.0, 2.0], [10.0, 2.0]]
    );
    assert_eq!(
        vline_band_triangles(3.0, 4.0, -1.0, 1.0),
        vec![[3.0, -1.0], [4.0, -1.0], [3.0, 1.0], [3.0, 1.0], [4.0, -1.0], [4.0, 1.0]]
    );
}
