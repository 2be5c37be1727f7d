use iced_plot::message::ShapeId;
use iced_plot::spans::{
    breaks_line_at, build_series_span, line_runs, marker_instance_count, marker_pick_ids,
    SeriesSpan, NO_MARKER,
};

fn span(start: usize, len: usize, indices: Vec<usize>, marker: u32) -> SeriesSpan {
    SeriesSpan {
        id: ShapeId(start as u64),
        start,
        len,
        point_indices: indices,
        has_line: true,
        marker,
        pickable: true,
    }
}

#[test]
fn dropped_position_breaks_the_line() {
    // [0, 1], [1, NaN], [2, 11], [3, 21]: the NaN position has no plot position.
    let kept = vec![true, false, true, true];
    let s = build_series_span(ShapeId(7), 5, &kept, true, None, true);
    assert_eq!(s.point_indices, vec![0, 2, 3]);
    assert_eq!(s.len, 3);
    assert_eq!(s.start, 5);
    assert_eq!(s.marker, NO_MARKER);
    assert!(breaks_line_at(&s.point_indices, 1));
    assert!(!breaks_line_at(&s.point_indices, 2));
    assert!(!breaks_line_at(&s.point_indices, 0));
    assert!(!breaks_line_at(&s.point_indices, 3));
    assert_eq!(line_runs(&s.point_indices, s.len), vec![(0, 1), (1, 3)]);
}

#[test]
fn only_gap_between_two_points_leaves_two_single_runs() {
    // [0, 0], [1, NaN], [2, 20]
    let kept = vec![true, false, true];
    let s = build_series_span(ShapeId(1), 0, &kept, true, None, true);
    assert_eq!(s.point_indices, vec![0, 2]);
    assert_eq!(line_runs(&s.point_indices, s.len), vec![(0, 1), (1, 2)]);
}

#[test]
fn series_without_markers_or_lines_renders_nothing() {
    let kept = vec![true, true];
    let s = build_series_span(ShapeId(2), 3, &kept, false, None, false);
    assert_eq!(s.len, 0);
    assert!(s.point_indices.is_empty());
    let s = build_series_span(ShapeId(2), 3, &kept, false, Some(4), false);
    assert_eq!(s.len, 2);
    assert_eq!(s.marker, 4);
}

#[test]
fn unbroken_line_is_one_run() {
    assert_eq!(line_runs(&vec![0, 1, 2, 3], 4), vec![(0, 4)]);
    assert_eq!(line_runs(&vec![], 0), Vec::<(usize, usize)>::new());
    // no recorded indices: no breaks
    assert_eq!(line_runs(&vec![], 3), vec![(0, 3)]);
    assert_eq!(line_runs(&vec![4, 9, 10, 20], 4), vec![(0, 1), (1, 3), (3, 4)]);
}

#[test]
fn index_at_top_of_usize_still_breaks() {
    assert!(breaks_line_at(&vec![usize::MAX, 0], 1));
}

#[test]
fn marker_count_adds_marker_spans() {
    let spans = vec![span(0, 3, vec![0, 1, 2], 1), span(3, 2, vec![0, 1], NO_MARKER), span(5, 4, vec![], 0)];
    assert_eq!(marker_instance_count(&spans), 7);
    assert_eq!(marker_instance_count(&vec![]), 0);
}

#[test]
fn pick_ids_name_span_and_source_point() {
    let spans = vec![
        span(0, 3, vec![0, 2, 5], 1),
        span(3, 2, vec![0, 1], NO_MARKER),
        span(5, 2, vec![], 0),
        span(7, 0, vec![], 0),
        span(7, 5, vec![0, 1, 2, 3, 4], 2),
    ];
    // the last span reaches past the 10 rendered points and is left out
    let ids = marker_pick_ids(&spans, 10);
    assert_eq!(ids, vec![(0, 0), (0, 2), (0, 5), (2, 0), (2, 1)]);
    let ids = marker_pick_ids(&spans, 12);
    assert_eq!(ids.len(), 10);
    assert_eq!(ids[5], (4, 0));
    assert_eq!(ids[9], (4, 4));
}

use iced_plot::spans::{build_series_spans, SeriesInput};

#[test]
fn visible_series_spans_tile_the_points() {
    let inputs = vec![
        SeriesInput { id: ShapeId(1), kept: vec![true, true, false, true], has_line: true, marker: None, pickable: true },
        SeriesInput { id: ShapeId(2), kept: vec![true, true], has_line: false, marker: Some(3), pickable: false },
        SeriesInput { id: ShapeId(3), kept: vec![], has_line: true, marker: Some(1), pickable: true },
        SeriesInput { id: ShapeId(4), kept: vec![true, false], has_line: false, marker: None, pickable: true },
        SeriesInput { id: ShapeId(5), kept: vec![false, true, true], has_line: false, marker: Some(0), pickable: true },
    ];
    let hidden = vec![ShapeId(2)];
    let (spans, n) = build_series_spans(&inputs, &hidden);
    // series 2 is hidden, series 3 has no positions; series 4 renders no points
    let ids: Vec<u64> = spans.iter().map(|s| s.id.0).collect();
    assert_eq!(ids, vec![1, 4, 5]);
    assert_eq!((spans[0].start, spans[0].len), (0, 3));
    assert_eq!(spans[0].point_indices, vec![0, 1, 3]);
    assert_eq!((spans[1].start, spans[1].len), (3, 0));
    assert_eq!((spans[2].start, spans[2].len), (3, 2));
    assert_eq!(spans[2].point_indices, vec![1, 2]);
    assert_eq!(spans[2].marker, 0);
    assert_eq!(n, 5);
    assert_eq!(marker_instance_count(&spans), 2);
    assert_eq!(marker_pick_ids(&spans, n), vec![(2, 1), (2, 2)]);
}
