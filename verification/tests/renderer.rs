use iced_plot::message::ShapeId;
use iced_plot::renderer::{
    has_line_series, line_draw_ranges, marker_buffer_growth, mask_quad_ranges, required_pipelines,
    PipelineSet, MIN_MARKER_BUFFER_BYTES,
};
use iced_plot::spans::{SeriesSpan, NO_MARKER};
use iced_plot::vertex::LineSegment;

fn span(has_line: bool) -> SeriesSpan {
    SeriesSpan { id: ShapeId(1), start: 0, len: 2, point_indices: vec![0, 1], has_line, marker: NO_MARKER, pickable: true }
}

#[test]
fn pipelines_follow_content() {
    let none = required_pipelines(&vec![span(false)], 0, 0, 0, 0);
    assert_eq!(
        none,
        PipelineSet { image: false, marker: true, fill: false, line: false, overlay: true, line_overlay: true }
    );
    let all = required_pipelines(&vec![span(false), span(true)], 2, 1, 0, 0);
    assert!(all.image && all.fill && all.line);
    assert!(required_pipelines(&vec![], 0, 0, 1, 0).line);
    assert!(required_pipelines(&vec![], 0, 0, 0, 3).line);
    assert!(!has_line_series(&vec![]));
    assert!(has_line_series(&vec![span(false), span(true)]));
}

#[test]
fn marker_buffer_grows_only_when_too_small() {
    assert_eq!(marker_buffer_growth(100, None), Some(MIN_MARKER_BUFFER_BYTES));
    assert_eq!(marker_buffer_growth(5000, None), Some(5000));
    assert_eq!(marker_buffer_growth(5000, Some(4096)), Some(5000));
    assert_eq!(marker_buffer_growth(4096, Some(4096)), None);
    assert_eq!(marker_buffer_growth(36, Some(2048)), None);
}

#[test]
fn draw_ranges() {
    let segs = vec![LineSegment { first_vertex: 0, vertex_count: 6 }, LineSegment { first_vertex: 6, vertex_count: 12 }];
    assert_eq!(line_draw_ranges(&segs), vec![(0, 6), (6, 18)]);
    assert_eq!(mask_quad_ranges(8), vec![(0, 4), (4, 8)]);
    assert_eq!(mask_quad_ranges(11), vec![(0, 4), (4, 8)]);
    assert!(mask_quad_ranges(3).is_empty());
}

use iced_plot::renderer::{write_marker_instances, MarkerPoint};
use iced_plot::spans::marker_pick_ids;
use iced_plot::vertex::VertexWriter;

fn word(bytes: &[u8], k: usize) -> u32 {
    u32::from_le_bytes([bytes[4 * k], bytes[4 * k + 1], bytes[4 * k + 2], bytes[4 * k + 3]])
}

#[test]
fn marker_instances_follow_pick_ids() {
    let spans = vec![
        SeriesSpan { id: ShapeId(1), start: 0, len: 2, point_indices: vec![0, 3], has_line: false, marker: 5, pickable: true },
        SeriesSpan { id: ShapeId(2), start: 2, len: 1, point_indices: vec![0], has_line: true, marker: NO_MARKER, pickable: true },
        SeriesSpan { id: ShapeId(3), start: 3, len: 1, point_indices: vec![7], has_line: false, marker: 6, pickable: false },
    ];
    let points: Vec<MarkerPoint> = (0..4)
        .map(|i| MarkerPoint { position: [100 + i, 200 + i], size: 300 + i, flags: 400 + i })
        .collect();
    // only the first two points have colors of their own
    let point_colors = vec![[1, 1, 1, 1], [2, 2, 2, 2]];
    let series_colors = vec![[7, 7, 7, 7], [8, 8, 8, 8], [9, 9, 9, 9]];
    let mut w = VertexWriter::new();
    write_marker_instances(&mut w, &spans, &series_colors, &points, &point_colors);
    let b = w.as_slice();
    assert_eq!(b.len(), 3 * 36);
    // instance 0: point 0, its own color, marker 5
    assert_eq!((word(b, 0), word(b, 2), word(b, 6), word(b, 7), word(b, 8)), (100, 1, 5, 300, 400));
    // instance 1: point 1, its own color
    assert_eq!((word(b, 9), word(b, 11)), (101, 2));
    // instance 2: point 3 of the third span, series color, marker 6
    assert_eq!((word(b, 18), word(b, 20), word(b, 24), word(b, 26)), (103, 9, 6, 403));
    assert_eq!(marker_pick_ids(&spans, points.len()), vec![(0, 0), (0, 3), (2, 7)]);
}

use iced_plot::renderer::{frame_plan, DrawStep, FrameResources};

fn resources(all: bool) -> FrameResources {
    FrameResources {
        image_pipeline: all,
        fill_pipeline: all,
        line_pipeline: all,
        marker_pipeline: all,
        overlay_pipeline: all,
        line_overlay_pipeline: all,
        fill_buffer: all,
        line_buffer: all,
        refline_buffer: all,
        marker_buffer: all,
        highlight_marker_buffer: all,
        selection_buffer: all,
        highlight_buffer: all,
        crosshair_buffer: all,
    }
}

#[test]
fn frame_plan_orders_passes_and_layers() {
    assert_eq!(
        frame_plan(&resources(true)),
        vec![DrawStep::MainPass, DrawStep::Grid, DrawStep::Images, DrawStep::Fills, DrawStep::Lines, DrawStep::RefLines, DrawStep::Markers, DrawStep::HighlightMarkers, DrawStep::OverlayPass, DrawStep::Selection, DrawStep::HighlightMasks, DrawStep::CrosshairPass, DrawStep::Crosshairs]
    );
    assert_eq!(frame_plan(&resources(false)), vec![DrawStep::MainPass, DrawStep::Grid]);
    let mut r = resources(false);
    r.line_pipeline = true;
    r.refline_buffer = true;
    r.overlay_pipeline = true;
    r.crosshair_buffer = true;
    r.fill_buffer = true;
    assert_eq!(frame_plan(&r), vec![DrawStep::MainPass, DrawStep::Grid, DrawStep::RefLines, DrawStep::OverlayPass]);
}
