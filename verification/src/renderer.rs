//! Integer decisions of the GPU renderer: which pipelines a frame needs, when
//! the marker buffer must grow, and which vertex ranges each draw call covers.

use vstd::prelude::*;

use crate::layout::concat_fields;
use crate::spans::{
    pick_ids, source_index, span_pick_ids, span_uploads_markers, SeriesSpan, NO_MARKER,
};
use crate::vertex::{
    lemma_words_le_append, lemma_words_le_len, lemma_words_le_subrange, words_le, LineSegment,
    VertexWriter,
};

verus! {

/// Smallest marker buffer the renderer allocates, in bytes.
pub const MIN_MARKER_BUFFER_BYTES: u64 = 2048;

/// The render pipelines a frame needs.
#[derive(Debug, Clone, Copy, PartialEq, Eq, Structural)]
pub struct PipelineSet {
    /// The image pipeline.
    pub image: bool,
    /// The marker pipeline.
    pub marker: bool,
    /// The fill pipeline.
    pub fill: bool,
    /// The line pipeline.
    pub line: bool,
    /// The selection / highlight overlay pipeline.
    pub overlay: bool,
    /// The crosshair line overlay pipeline.
    pub line_overlay: bool,
}

/// Some span draws a line.
pub open spec fn any_line_series(series: Seq<SeriesSpan>) -> bool {
    exists|i: int| 0 <= i < series.len() && #[trigger] series[i].has_line
}

/// Whether some series draws a line.
pub fn has_line_series(series: &Vec<SeriesSpan>) -> (res: bool)
    ensures
        res == any_line_series(series@),
{
    let mut i: usize = 0;
    while i < series.len()
        invariant
            i <= series.len(),
            forall|j: int| 0 <= j < i ==> !(#[trigger] series@[j]).has_line,
        decreases series.len() - i,
    {
        if series[i].has_line {
            return true;
        }
        i = i + 1;
    }
    false
}

/// The pipelines a frame needs: images and fills only when there are some,
/// lines when a series draws one or a reference line exists; markers and the
/// overlays always.
pub fn required_pipelines(
    series: &Vec<SeriesSpan>,
    images: usize,
    fills: usize,
    vlines: usize,
    hlines: usize,
) -> (res: PipelineSet)
    ensures
        res == (PipelineSet {
            image: images != 0,
            marker: true,
            fill: fills != 0,
            line: any_line_series(series@) || vlines != 0 || hlines != 0,
            overlay: true,
            line_overlay: true,
        }),
{
    PipelineSet {
        image: images != 0,
        marker: true,
        fill: fills != 0,
        line: has_line_series(series) || vlines != 0 || hlines != 0,
        overlay: true,
        line_overlay: true,
    }
}

/// The size of a new marker buffer for `needed` bytes, when the current buffer
/// (of `current` bytes, if any) cannot hold them; `None` when it can.
pub fn marker_buffer_growth(needed: u64, current: Option<u64>) -> (res: Option<u64>)
    ensures
        res == (match current {
            Some(size) if size >= needed => None,
            _ => Some(if needed >= MIN_MARKER_BUFFER_BYTES { needed } else { MIN_MARKER_BUFFER_BYTES }),
        }),
        res matches Some(size) ==> size >= needed && size >= MIN_MARKER_BUFFER_BYTES,
{
    let recreate = match current {
        Some(size) => size < needed,
        None => true,
    };
    if recreate {
        Some(if needed >= MIN_MARKER_BUFFER_BYTES { needed } else { MIN_MARKER_BUFFER_BYTES })
    } else {
        None
    }
}

/// The vertex ranges drawn for the recorded line segments, in order.
pub fn line_draw_ranges(segments: &Vec<LineSegment>) -> (ranges: Vec<(u32, u32)>)
    requires
        forall|i: int|
            0 <= i < segments@.len() ==> (#[trigger] segments@[i]).first_vertex
                + segments@[i].vertex_count <= u32::MAX,
    ensures
        ranges@.len() == segments@.len(),
        forall|i: int|
            0 <= i < segments@.len() ==> #[trigger] ranges@[i] == (
                segments@[i].first_vertex,
                (segments@[i].first_vertex + segments@[i].vertex_count) as u32,
            ),
{
    let mut ranges: Vec<(u32, u32)> = Vec::new();
    let mut i: usize = 0;
    while i < segments.len()
        invariant
            i <= segments@.len(),
            ranges@.len() == i,
            forall|k: int|
                0 <= k < segments@.len() ==> (#[trigger] segments@[k]).first_vertex
                    + segments@[k].vertex_count <= u32::MAX,
            forall|k: int|
                0 <= k < i ==> #[trigger] ranges@[k] == (
                    segments@[k].first_vertex,
                    (segments@[k].first_vertex + segments@[k].vertex_count) as u32,
                ),
        decreases segments.len() - i,
    {
        let seg = segments[i];
        ranges.push((seg.first_vertex, seg.first_vertex + seg.vertex_count));
        i = i + 1;
    }
    ranges
}

/// The vertex ranges of the highlight mask quads: one draw of four vertices per
/// whole quad in a buffer of `vertex_count` vertices.
pub fn mask_quad_ranges(vertex_count: u32) -> (ranges: Vec<(u32, u32)>)
    ensures
        ranges@.len() == vertex_count / 4,
        forall|i: int| 0 <= i < ranges@.len() ==> #[trigger] ranges@[i] == ((4 * i) as u32, (4 * i + 4) as u32),
{
    let quad_count = vertex_count / 4;
    let mut ranges: Vec<(u32, u32)> = Vec::new();
    let mut i: u32 = 0;
    while i < quad_count
        invariant
            i <= quad_count,
            quad_count == vertex_count / 4,
            ranges@.len() == i,
            forall|k: int| 0 <= k < i ==> #[trigger] ranges@[k] == ((4 * k) as u32, (4 * k + 4) as u32),
        decreases quad_count - i,
    {
        ranges.push((i * 4, (i + 1) * 4));
        i = i + 1;
    }
    ranges
}

/// One step of encoding a frame.
#[derive(Debug, Clone, Copy, PartialEq, Eq, Structural)]
pub enum DrawStep {
    /// Begin the main pass (viewport and scissor set to the plot).
    MainPass,
    /// Draw the grid.
    Grid,
    /// Draw each uploaded image with the image pipeline.
    Images,
    /// Draw the fill buffer.
    Fills,
    /// Draw each recorded range of the line buffer.
    Lines,
    /// Draw each recorded range of the reference line buffer.
    RefLines,
    /// Draw the marker instances.
    Markers,
    /// Draw the highlighted markers, on top of the others.
    HighlightMarkers,
    /// Begin the overlay pass.
    OverlayPass,
    /// Draw the box selection.
    Selection,
    /// Draw each highlight mask quad.
    HighlightMasks,
    /// Begin the crosshair pass.
    CrosshairPass,
    /// Draw the crosshair lines.
    Crosshairs,
}

/// Which pipelines and buffers exist when a frame is encoded.
#[derive(Debug, Clone, Copy, PartialEq, Eq, Structural)]
pub struct FrameResources {
    /// The image pipeline exists.
    pub image_pipeline: bool,
    /// The fill pipeline exists.
    pub fill_pipeline: bool,
    /// The line pipeline exists.
    pub line_pipeline: bool,
    /// The marker pipeline exists.
    pub marker_pipeline: bool,
    /// The overlay pipeline exists.
    pub overlay_pipeline: bool,
    /// The crosshair line overlay pipeline exists.
    pub line_overlay_pipeline: bool,
    /// Fill vertices are uploaded.
    pub fill_buffer: bool,
    /// Line vertices are uploaded.
    pub line_buffer: bool,
    /// Reference line vertices are uploaded.
    pub refline_buffer: bool,
    /// Marker instances are uploaded.
    pub marker_buffer: bool,
    /// Highlighted marker instances are uploaded.
    pub highlight_marker_buffer: bool,
    /// The selection quad is uploaded.
    pub selection_buffer: bool,
    /// Highlight mask quads are uploaded.
    pub highlight_buffer: bool,
    /// The crosshair lines are uploaded.
    pub crosshair_buffer: bool,
}

/// `step` when `c` holds, else nothing.
pub open spec fn step_if(c: bool, step: DrawStep) -> Seq<DrawStep> {
    if c {
        seq![step]
    } else {
        Seq::empty()
    }
}

/// The steps of the main pass: the grid, then images, fills, lines, reference
/// lines, markers and highlighted markers, each when its pipeline and data exist.
pub open spec fn main_pass_steps(r: FrameResources) -> Seq<DrawStep> {
    seq![DrawStep::MainPass, DrawStep::Grid] + step_if(r.image_pipeline, DrawStep::Images)
        + step_if(r.fill_pipeline && r.fill_buffer, DrawStep::Fills) + step_if(
        r.line_pipeline && r.line_buffer,
        DrawStep::Lines,
    ) + step_if(r.line_pipeline && r.refline_buffer, DrawStep::RefLines) + step_if(
        r.marker_pipeline && r.marker_buffer,
        DrawStep::Markers,
    ) + step_if(r.marker_pipeline && r.highlight_marker_buffer, DrawStep::HighlightMarkers)
}

/// The steps of the overlay pass, which runs when its pipeline exists: the
/// selection and the highlight masks that exist.
pub open spec fn overlay_pass_steps(r: FrameResources) -> Seq<DrawStep> {
    if r.overlay_pipeline {
        seq![DrawStep::OverlayPass] + step_if(r.selection_buffer, DrawStep::Selection) + step_if(
            r.highlight_buffer,
            DrawStep::HighlightMasks,
        )
    } else {
        Seq::empty()
    }
}

/// The steps of the crosshair pass, which runs when its pipeline and the
/// crosshairs exist.
pub open spec fn crosshair_pass_steps(r: FrameResources) -> Seq<DrawStep> {
    if r.line_overlay_pipeline && r.crosshair_buffer {
        seq![DrawStep::CrosshairPass, DrawStep::Crosshairs]
    } else {
        Seq::empty()
    }
}

/// The steps of a frame: the main pass, the overlay pass, the crosshair pass.
pub open spec fn frame_steps(r: FrameResources) -> Seq<DrawStep> {
    main_pass_steps(r) + overlay_pass_steps(r) + crosshair_pass_steps(r)
}

/// A sequence of the steps `a` and `b` takes exactly those two steps.
proof fn lemma_two_steps_contain(a: DrawStep, b: DrawStep, x: DrawStep)
    ensures
        seq![a, b].contains(x) <==> x == a || x == b,
        seq![a].contains(x) <==> x == a,
{
    if x == a {
        assert(seq![a, b][0] == x);
        assert(seq![a][0] == x);
    }
    if x == b {
        assert(seq![a, b][1] == x);
    }
}

/// What `step_if` holds: `step` exactly when `c`.
proof fn lemma_step_if_contains(c: bool, step: DrawStep, x: DrawStep)
    ensures
        step_if(c, step).contains(x) <==> c && x == step,
{
    lemma_two_steps_contain(step, step, x);
}

/// Which steps a frame takes: it begins the main pass and draws the grid first;
/// it draws images when the image pipeline exists; fills, lines and markers when
/// their pipeline exists and their vertices are uploaded; reference lines when
/// the line pipeline exists and reference line vertices are uploaded, whether or
/// not any series line is; highlighted markers when the marker pipeline exists and
/// they are uploaded; the overlay pass when its pipeline exists, and in it the
/// selection and the highlight masks that are uploaded; the crosshair pass and
/// crosshairs when the crosshair pipeline exists and crosshairs are uploaded.
pub proof fn lemma_frame_steps_drawn(r: FrameResources)
    ensures
        frame_steps(r).len() >= 2,
        frame_steps(r)[0] == DrawStep::MainPass,
        frame_steps(r)[1] == DrawStep::Grid,
        frame_steps(r).contains(DrawStep::MainPass),
        frame_steps(r).contains(DrawStep::Grid),
        frame_steps(r).contains(DrawStep::Images) <==> r.image_pipeline,
        frame_steps(r).contains(DrawStep::Fills) <==> r.fill_pipeline && r.fill_buffer,
        frame_steps(r).contains(DrawStep::Lines) <==> r.line_pipeline && r.line_buffer,
        frame_steps(r).contains(DrawStep::RefLines) <==> r.line_pipeline && r.refline_buffer,
        frame_steps(r).contains(DrawStep::Markers) <==> r.marker_pipeline && r.marker_buffer,
        frame_steps(r).contains(DrawStep::HighlightMarkers) <==> r.marker_pipeline
            && r.highlight_marker_buffer,
        frame_steps(r).contains(DrawStep::OverlayPass) <==> r.overlay_pipeline,
        frame_steps(r).contains(DrawStep::Selection) <==> r.overlay_pipeline && r.selection_buffer,
        frame_steps(r).contains(DrawStep::HighlightMasks) <==> r.overlay_pipeline
            && r.highlight_buffer,
        frame_steps(r).contains(DrawStep::CrosshairPass) <==> r.line_overlay_pipeline
            && r.crosshair_buffer,
        frame_steps(r).contains(DrawStep::Crosshairs) <==> r.line_overlay_pipeline
            && r.crosshair_buffer,
{
    broadcast use vstd::seq_lib::lemma_seq_concat_contains_all_elements;
    broadcast use vstd::seq_lib::lemma_seq_empty_contains_nothing;

    assert forall|x: DrawStep| #[trigger] frame_steps(r).contains(x) <==> {
        ||| x == DrawStep::MainPass
        ||| x == DrawStep::Grid
        ||| (x == DrawStep::Images && r.image_pipeline)
        ||| (x == DrawStep::Fills && r.fill_pipeline && r.fill_buffer)
        ||| (x == DrawStep::Lines && r.line_pipeline && r.line_buffer)
        ||| (x == DrawStep::RefLines && r.line_pipeline && r.refline_buffer)
        ||| (x == DrawStep::Markers && r.marker_pipeline && r.marker_buffer)
        ||| (x == DrawStep::HighlightMarkers && r.marker_pipeline && r.highlight_marker_buffer)
        ||| (x == DrawStep::OverlayPass && r.overlay_pipeline)
        ||| (x == DrawStep::Selection && r.overlay_pipeline && r.selection_buffer)
        ||| (x == DrawStep::HighlightMasks && r.overlay_pipeline && r.highlight_buffer)
        ||| (x == DrawStep::CrosshairPass && r.line_overlay_pipeline && r.crosshair_buffer)
        ||| (x == DrawStep::Crosshairs && r.line_overlay_pipeline && r.crosshair_buffer)
    } by {
        lemma_two_steps_contain(DrawStep::MainPass, DrawStep::Grid, x);
        lemma_two_steps_contain(DrawStep::CrosshairPass, DrawStep::Crosshairs, x);
        lemma_two_steps_contain(DrawStep::OverlayPass, DrawStep::OverlayPass, x);
        lemma_step_if_contains(r.image_pipeline, DrawStep::Images, x);
        lemma_step_if_contains(r.fill_pipeline && r.fill_buffer, DrawStep::Fills, x);
        lemma_step_if_contains(r.line_pipeline && r.line_buffer, DrawStep::Lines, x);
        lemma_step_if_contains(r.line_pipeline && r.refline_buffer, DrawStep::RefLines, x);
        lemma_step_if_contains(r.marker_pipeline && r.marker_buffer, DrawStep::Markers, x);
        lemma_step_if_contains(
            r.marker_pipeline && r.highlight_marker_buffer,
            DrawStep::HighlightMarkers,
            x,
        );
        lemma_step_if_contains(r.selection_buffer, DrawStep::Selection, x);
        lemma_step_if_contains(r.highlight_buffer, DrawStep::HighlightMasks, x);
    }
    assert(frame_steps(r).contains(DrawStep::MainPass));
    assert(frame_steps(r).contains(DrawStep::Grid));
    assert(frame_steps(r).contains(DrawStep::Images) <==> r.image_pipeline);
    assert(frame_steps(r).contains(DrawStep::Fills) <==> r.fill_pipeline && r.fill_buffer);
    assert(frame_steps(r).contains(DrawStep::Lines) <==> r.line_pipeline && r.line_buffer);
    assert(frame_steps(r).contains(DrawStep::RefLines) <==> r.line_pipeline && r.refline_buffer);
    assert(frame_steps(r).contains(DrawStep::Markers) <==> r.marker_pipeline && r.marker_buffer);
    assert(frame_steps(r).contains(DrawStep::HighlightMarkers) <==> r.marker_pipeline
        && r.highlight_marker_buffer);
    assert(frame_steps(r).contains(DrawStep::OverlayPass) <==> r.overlay_pipeline);
    assert(frame_steps(r).contains(DrawStep::Selection) <==> r.overlay_pipeline
        && r.selection_buffer);
    assert(frame_steps(r).contains(DrawStep::HighlightMasks) <==> r.overlay_pipeline
        && r.highlight_buffer);
    assert(frame_steps(r).contains(DrawStep::CrosshairPass) <==> r.line_overlay_pipeline
        && r.crosshair_buffer);
    assert(frame_steps(r).contains(DrawStep::Crosshairs) <==> r.line_overlay_pipeline
        && r.crosshair_buffer);
}

/// Rank of a step in the order in which a frame is drawn: the main pass, grid,
/// images, fills, lines, reference lines, markers and highlighted markers, then
/// the overlay pass with the selection and highlight masks, then the crosshair
/// pass and crosshairs; later layers are drawn over earlier ones.
pub open spec fn draw_rank(step: DrawStep) -> int {
    match step {
        DrawStep::MainPass => 0,
        DrawStep::Grid => 1,
        DrawStep::Images => 2,
        DrawStep::Fills => 3,
        DrawStep::Lines => 4,
        DrawStep::RefLines => 5,
        DrawStep::Markers => 6,
        DrawStep::HighlightMarkers => 7,
        DrawStep::OverlayPass => 8,
        DrawStep::Selection => 9,
        DrawStep::HighlightMasks => 10,
        DrawStep::CrosshairPass => 11,
        DrawStep::Crosshairs => 12,
    }
}

/// The steps come in drawing order, each at most once, with ranks from `lo` up
/// to `hi`.
pub open spec fn ranked_between(steps: Seq<DrawStep>, lo: int, hi: int) -> bool {
    &&& forall|a: int, b: int|
        0 <= a < b < steps.len() ==> draw_rank(#[trigger] steps[a]) < draw_rank(#[trigger] steps[b])
    &&& forall|a: int| 0 <= a < steps.len() ==> lo <= draw_rank(#[trigger] steps[a]) < hi
}

/// Steps in order below `mid`, then steps in order from `mid`, are in order.
proof fn lemma_ranked_concat(x: Seq<DrawStep>, y: Seq<DrawStep>, lo: int, mid: int, hi: int)
    requires
        lo <= mid <= hi,
        ranked_between(x, lo, mid),
        ranked_between(y, mid, hi),
    ensures
        ranked_between(x + y, lo, hi),
{
    let z = x + y;
    assert forall|a: int| 0 <= a < z.len() implies lo <= draw_rank(#[trigger] z[a]) < hi by {
        if a < x.len() {
            assert(z[a] == x[a]);
            assert(lo <= draw_rank(x[a]) < mid);
        } else {
            assert(z[a] == y[a - x.len()]);
            assert(mid <= draw_rank(y[a - x.len()]) < hi);
        }
    }
    assert forall|a: int, b: int| 0 <= a < b < z.len() implies draw_rank(#[trigger] z[a]) < draw_rank(
        #[trigger] z[b],
    ) by {
        if b < x.len() {
            assert(z[a] == x[a] && z[b] == x[b]);
        } else if a < x.len() {
            assert(z[a] == x[a] && z[b] == y[b - x.len()]);
            assert(draw_rank(x[a]) < mid);
            assert(mid <= draw_rank(y[b - x.len()]));
        } else {
            assert(z[a] == y[a - x.len()] && z[b] == y[b - x.len()]);
        }
    }
}

/// A step taken when `c` holds is in order around its own rank.
proof fn lemma_step_if_ranked(c: bool, step: DrawStep)
    ensures
        ranked_between(step_if(c, step), draw_rank(step), draw_rank(step) + 1),
{
}

/// A frame draws its steps in drawing order (`draw_rank`), each at most once:
/// what is drawn later lies on top, so fills lie under lines, lines under
/// markers, markers under highlighted markers, and the overlay and crosshair
/// passes come after the main pass.
pub proof fn lemma_frame_steps_in_draw_order(r: FrameResources)
    ensures
        ranked_between(frame_steps(r), 0, 13),
{
    let head = seq![DrawStep::MainPass, DrawStep::Grid];
    assert(ranked_between(head, 0, 2));
    lemma_step_if_ranked(r.image_pipeline, DrawStep::Images);
    lemma_step_if_ranked(r.fill_pipeline && r.fill_buffer, DrawStep::Fills);
    lemma_step_if_ranked(r.line_pipeline && r.line_buffer, DrawStep::Lines);
    lemma_step_if_ranked(r.line_pipeline && r.refline_buffer, DrawStep::RefLines);
    lemma_step_if_ranked(r.marker_pipeline && r.marker_buffer, DrawStep::Markers);
    lemma_step_if_ranked(r.marker_pipeline && r.highlight_marker_buffer, DrawStep::HighlightMarkers);
    let m1 = head + step_if(r.image_pipeline, DrawStep::Images);
    lemma_ranked_concat(head, step_if(r.image_pipeline, DrawStep::Images), 0, 2, 3);
    let m2 = m1 + step_if(r.fill_pipeline && r.fill_buffer, DrawStep::Fills);
    lemma_ranked_concat(m1, step_if(r.fill_pipeline && r.fill_buffer, DrawStep::Fills), 0, 3, 4);
    let m3 = m2 + step_if(r.line_pipeline && r.line_buffer, DrawStep::Lines);
    lemma_ranked_concat(m2, step_if(r.line_pipeline && r.line_buffer, DrawStep::Lines), 0, 4, 5);
    let m4 = m3 + step_if(r.line_pipeline && r.refline_buffer, DrawStep::RefLines);
    lemma_ranked_concat(
        m3,
        step_if(r.line_pipeline && r.refline_buffer, DrawStep::RefLines),
        0,
        5,
        6,
    );
    let m5 = m4 + step_if(r.marker_pipeline && r.marker_buffer, DrawStep::Markers);
    lemma_ranked_concat(
        m4,
        step_if(r.marker_pipeline && r.marker_buffer, DrawStep::Markers),
        0,
        6,
        7,
    );
    let m6 = m5 + step_if(r.marker_pipeline && r.highlight_marker_buffer, DrawStep::HighlightMarkers);
    lemma_ranked_concat(
        m5,
        step_if(r.marker_pipeline && r.highlight_marker_buffer, DrawStep::HighlightMarkers),
        0,
        7,
        8,
    );
    assert(m6 == main_pass_steps(r));
    let o = overlay_pass_steps(r);
    if r.overlay_pipeline {
        let o0 = seq![DrawStep::OverlayPass];
        assert(ranked_between(o0, 8, 9));
        lemma_step_if_ranked(r.selection_buffer, DrawStep::Selection);
        lemma_step_if_ranked(r.highlight_buffer, DrawStep::HighlightMasks);
        lemma_ranked_concat(o0, step_if(r.selection_buffer, DrawStep::Selection), 8, 9, 10);
        lemma_ranked_concat(
            o0 + step_if(r.selection_buffer, DrawStep::Selection),
            step_if(r.highlight_buffer, DrawStep::HighlightMasks),
            8,
            10,
            11,
        );
    }
    assert(ranked_between(o, 8, 11));
    lemma_ranked_concat(m6, o, 0, 8, 11);
    let c = crosshair_pass_steps(r);
    assert(ranked_between(c, 11, 13));
    lemma_ranked_concat(m6 + o, c, 0, 11, 13);
}

/// Appends `step` when `c` holds.
fn push_if(steps: &mut Vec<DrawStep>, c: bool, step: DrawStep)
    ensures
        final(steps)@ == old(steps)@ + step_if(c, step),
{
    if c {
        steps.push(step);
    } else {
        assert(old(steps)@ + step_if(c, step) =~= old(steps)@);
    }
}

/// The steps that encoding a frame takes, in order.
pub fn frame_plan(r: &FrameResources) -> (steps: Vec<DrawStep>)
    ensures
        steps@ == frame_steps(*r),
        steps@.len() >= 2,
        steps@[0] == DrawStep::MainPass,
        steps@[1] == DrawStep::Grid,
        steps@.contains(DrawStep::Images) <==> r.image_pipeline,
        steps@.contains(DrawStep::Fills) <==> r.fill_pipeline && r.fill_buffer,
        steps@.contains(DrawStep::Lines) <==> r.line_pipeline && r.line_buffer,
        steps@.contains(DrawStep::RefLines) <==> r.line_pipeline && r.refline_buffer,
        steps@.contains(DrawStep::Markers) <==> r.marker_pipeline && r.marker_buffer,
        steps@.contains(DrawStep::HighlightMarkers) <==> r.marker_pipeline
            && r.highlight_marker_buffer,
        steps@.contains(DrawStep::OverlayPass) <==> r.overlay_pipeline,
        steps@.contains(DrawStep::Selection) <==> r.overlay_pipeline && r.selection_buffer,
        steps@.contains(DrawStep::HighlightMasks) <==> r.overlay_pipeline && r.highlight_buffer,
        steps@.contains(DrawStep::CrosshairPass) <==> r.line_overlay_pipeline && r.crosshair_buffer,
        steps@.contains(DrawStep::Crosshairs) <==> r.line_overlay_pipeline && r.crosshair_buffer,
        ranked_between(steps@, 0, 13),
{
    let mut steps: Vec<DrawStep> = Vec::new();
    steps.push(DrawStep::MainPass);
    steps.push(DrawStep::Grid);
    assert(steps@ =~= seq![DrawStep::MainPass, DrawStep::Grid]);
    push_if(&mut steps, r.image_pipeline, DrawStep::Images);
    push_if(&mut steps, r.fill_pipeline && r.fill_buffer, DrawStep::Fills);
    push_if(&mut steps, r.line_pipeline && r.line_buffer, DrawStep::Lines);
    push_if(&mut steps, r.line_pipeline && r.refline_buffer, DrawStep::RefLines);
    push_if(&mut steps, r.marker_pipeline && r.marker_buffer, DrawStep::Markers);
    push_if(&mut steps, r.marker_pipeline && r.highlight_marker_buffer, DrawStep::HighlightMarkers);
    let ghost main = steps@;
    assert(main == main_pass_steps(*r));
    if r.overlay_pipeline {
        steps.push(DrawStep::OverlayPass);
        push_if(&mut steps, r.selection_buffer, DrawStep::Selection);
        push_if(&mut steps, r.highlight_buffer, DrawStep::HighlightMasks);
        assert(steps@ =~= main + overlay_pass_steps(*r));
    } else {
        assert(steps@ =~= main + overlay_pass_steps(*r));
    }
    let ghost overlay = steps@;
    if r.line_overlay_pipeline && r.crosshair_buffer {
        steps.push(DrawStep::CrosshairPass);
        steps.push(DrawStep::Crosshairs);
    }
    assert(steps@ =~= overlay + crosshair_pass_steps(*r));
    proof {
        lemma_frame_steps_drawn(*r);
        lemma_frame_steps_in_draw_order(*r);
    }
    steps
}

/// A rendered point as the marker buffer needs it, float attributes as bits.
#[derive(Debug, Clone, Copy)]
pub struct MarkerPoint {
    /// Position relative to the camera's render offset.
    pub position: [u32; 2],
    /// Marker size.
    pub size: u32,
    /// Marker flags (size mode and pickability).
    pub flags: u32,
}

/// Color of rendered point `idx`: its own color when it has one, else the
/// series color.
pub open spec fn point_color(point_colors: Seq<[u32; 4]>, idx: int, series_color: [u32; 4]) -> [u32; 4] {
    if 0 <= idx < point_colors.len() {
        point_colors[idx]
    } else {
        series_color
    }
}

/// The nine words of a marker instance.
pub open spec fn instance_words(p: MarkerPoint, color: [u32; 4], marker: u32) -> Seq<u32> {
    seq![
        p.position[0],
        p.position[1],
        color[0],
        color[1],
        color[2],
        color[3],
        marker,
        p.size,
        p.flags,
    ]
}

/// The marker instances of span `s`: one per rendered point of the span, when
/// its markers are uploaded.
pub open spec fn span_instances(
    s: SeriesSpan,
    series_color: [u32; 4],
    points: Seq<MarkerPoint>,
    point_colors: Seq<[u32; 4]>,
) -> Seq<Seq<u32>> {
    if span_uploads_markers(s, points.len() as int) {
        Seq::new(
            s.len as nat,
            |i: int|
                instance_words(
                    points[s.start + i],
                    point_color(point_colors, s.start + i, series_color),
                    s.marker,
                ),
        )
    } else {
        Seq::empty()
    }
}

/// The marker instances of all spans, span after span.
pub open spec fn marker_instances(
    spans: Seq<SeriesSpan>,
    series_colors: Seq<[u32; 4]>,
    points: Seq<MarkerPoint>,
    point_colors: Seq<[u32; 4]>,
) -> Seq<Seq<u32>>
    decreases spans.len(),
{
    if spans.len() == 0 {
        Seq::empty()
    } else {
        marker_instances(spans.drop_last(), series_colors, points, point_colors) + span_instances(
            spans.last(),
            series_colors[spans.len() - 1],
            points,
            point_colors,
        )
    }
}

proof fn lemma_concat_fields_append(a: Seq<Seq<u32>>, b: Seq<Seq<u32>>)
    ensures
        concat_fields(a + b) == concat_fields(a) + concat_fields(b),
    decreases b.len(),
{
    if b.len() == 0 {
        assert(a + b == a);
        assert(concat_fields(a) + Seq::<u32>::empty() == concat_fields(a));
    } else {
        lemma_concat_fields_append(a, b.drop_last());
        assert((a + b).drop_last() == a + b.drop_last());
        assert(concat_fields(a) + concat_fields(b.drop_last()) + b.last() == concat_fields(a) + (
        concat_fields(b.drop_last()) + b.last()));
    }
}

/// Writes the instances of every span whose markers are uploaded: for each of
/// its rendered points, the point's position, its color (or the series color),
/// the span's marker shape, the point's size and flags.
pub fn write_marker_instances(
    writer: &mut VertexWriter,
    series: &Vec<SeriesSpan>,
    series_colors: &Vec<[u32; 4]>,
    points: &Vec<MarkerPoint>,
    point_colors: &Vec<[u32; 4]>,
)
    requires
        series_colors@.len() == series@.len(),
        forall|j: int|
            0 <= j < series@.len() && (#[trigger] series@[j]).marker != NO_MARKER ==> series@[j].start
                + series@[j].len <= usize::MAX,
    ensures
        final(writer)@ == old(writer)@ + words_le(
            concat_fields(marker_instances(series@, series_colors@, points@, point_colors@)),
        ),
        final(writer)@.len() == old(writer)@.len() + 36 * pick_ids(series@, points@.len() as int).len(),
        forall|j: int, i: int|
            0 <= j < series@.len() && span_uploads_markers(series@[j], points@.len() as int) && 0
                <= i < series@[j].len ==> #[trigger] instance_written(
                old(writer)@.len() as int,
                final(writer)@,
                series@,
                series_colors@,
                points@,
                point_colors@,
                j,
                i,
            ),
{
    let ghost w0 = writer@;
    let mut j: usize = 0;
    while j < series.len()
        invariant
            j <= series@.len(),
            series_colors@.len() == series@.len(),
            forall|k: int|
                0 <= k < series@.len() && (#[trigger] series@[k]).marker != NO_MARKER
                    ==> series@[k].start + series@[k].len <= usize::MAX,
            writer@ == w0 + words_le(
                concat_fields(
                    marker_instances(
                        series@.subrange(0, j as int),
                        series_colors@,
                        points@,
                        point_colors@,
                    ),
                ),
            ),
        decreases series.len() - j,
    {
        let s = &series[j];
        let ghost prefix = marker_instances(
            series@.subrange(0, j as int),
            series_colors@,
            points@,
            point_colors@,
        );
        proof {
            assert(series@.subrange(0, j + 1).drop_last() == series@.subrange(0, j as int));
            assert(series@.subrange(0, j + 1).last() == series@[j as int]);
        }
        let ghost full = span_instances(*s, series_colors@[j as int], points@, point_colors@);
        if s.marker != NO_MARKER && s.len != 0 && s.start + s.len <= points.len() {
            let mut local: usize = 0;
            while local < s.len
                invariant
                    local <= s.len,
                    j < series@.len(),
                    s == series@[j as int],
                    s.start + s.len <= points.len(),
                    span_uploads_markers(*s, points@.len() as int),
                    full == span_instances(*s, series_colors@[j as int], points@, point_colors@),
                    j < series_colors@.len(),
                    writer@ == w0 + words_le(concat_fields(prefix)) + words_le(
                        concat_fields(full.subrange(0, local as int)),
                    ),
                decreases s.len - local,
            {
                let idx = s.start + local;
                let p = points[idx];
                let color = if idx < point_colors.len() {
                    point_colors[idx]
                } else {
                    series_colors[j]
                };
                let ghost before = writer@;
                writer.write_marker_instance(p.position, color, s.marker, p.size, p.flags);
                proof {
                    let inst = instance_words(
                        points@[idx as int],
                        point_color(point_colors@, idx as int, series_colors@[j as int]),
                        s.marker,
                    );
                    assert(full[local as int] == inst);
                    assert(full.subrange(0, local + 1).drop_last() == full.subrange(0, local as int));
                    assert(full.subrange(0, local + 1).last() == inst);
                    lemma_words_le_append(concat_fields(full.subrange(0, local as int)), inst);
                    assert(writer@ =~= w0 + words_le(concat_fields(prefix)) + words_le(
                        concat_fields(full.subrange(0, local + 1)),
                    ));
                }
                local = local + 1;
            }
            proof {
                assert(full.subrange(0, s.len as int) == full);
            }
        } else {
            proof {
                assert(full == Seq::<Seq<u32>>::empty());
                assert(concat_fields(full) == Seq::<u32>::empty());
                assert(words_le(Seq::<u32>::empty()) == Seq::<u8>::empty());
                assert(writer@ =~= w0 + words_le(concat_fields(prefix)) + words_le(
                    concat_fields(full),
                ));
            }
        }
        proof {
            lemma_concat_fields_append(prefix, full);
            lemma_words_le_append(concat_fields(prefix), concat_fields(full));
            assert(writer@ =~= w0 + words_le(
                concat_fields(
                    marker_instances(
                        series@.subrange(0, j + 1),
                        series_colors@,
                        points@,
                        point_colors@,
                    ),
                ),
            ));
        }
        j = j + 1;
    }
    assert(series@.subrange(0, series.len() as int) == series@);
    proof {
        lemma_instances_written(w0, series@, series_colors@, points@, point_colors@);
        let mi = marker_instances(series@, series_colors@, points@, point_colors@);
        lemma_instances_align_with_pick_ids(series@, series_colors@, points@, point_colors@);
        lemma_instances_have_nine_words(series@, series_colors@, points@, point_colors@);
        lemma_concat_equal_len(mi, 9);
        lemma_words_le_len(concat_fields(mi));
    }
}

/// Marker instances and picking identifiers come in the same order: the
/// instance and the picking entry at the same position both belong to span `j`
/// and its `i`-th rendered point. The entry names span `j` and the point's
/// source index; the instance holds that point's position, color, the span's
/// marker shape, size and flags.
pub proof fn lemma_instances_align_with_pick_ids(
    spans: Seq<SeriesSpan>,
    series_colors: Seq<[u32; 4]>,
    points: Seq<MarkerPoint>,
    point_colors: Seq<[u32; 4]>,
)
    requires
        series_colors.len() == spans.len(),
    ensures
        marker_instances(spans, series_colors, points, point_colors).len() == pick_ids(
            spans,
            points.len() as int,
        ).len(),
        forall|j: int, i: int|
            #![trigger source_index(spans[j], i)]
            0 <= j < spans.len() && 0 <= i < span_pick_ids(spans[j], j, points.len() as int).len()
                ==> {
                let k = pick_ids(spans.subrange(0, j), points.len() as int).len() + i;
                &&& pick_ids(spans, points.len() as int)[k] == (
                    j as u32,
                    source_index(spans[j], i) as u32,
                )
                &&& marker_instances(spans, series_colors, points, point_colors)[k]
                    == instance_words(
                    points[spans[j].start + i],
                    point_color(point_colors, spans[j].start + i, series_colors[j]),
                    spans[j].marker,
                )
            },
    decreases spans.len(),
{
    if spans.len() > 0 {
        let n = points.len() as int;
        let rest = spans.drop_last();
        let rcolors = series_colors.drop_last();
        lemma_instances_align_with_pick_ids(rest, rcolors, points, point_colors);
        lemma_instances_colors_prefix(rest, series_colors, points, point_colors);
        let last = spans.len() - 1;
        let pi = pick_ids(rest, n);
        let mi = marker_instances(rest, series_colors, points, point_colors);
        assert(mi.len() == pi.len());
        assert(spans.subrange(0, last) == rest);
        assert forall|j: int, i: int|
            #![trigger source_index(spans[j], i)]
            0 <= j < spans.len() && 0 <= i < span_pick_ids(spans[j], j, points.len() as int).len() implies {
                let k = pick_ids(spans.subrange(0, j), points.len() as int).len() + i;
                &&& pick_ids(spans, points.len() as int)[k] == (
                    j as u32,
                    source_index(spans[j], i) as u32,
                )
                &&& marker_instances(spans, series_colors, points, point_colors)[k]
                    == instance_words(
                    points[spans[j].start + i],
                    point_color(point_colors, spans[j].start + i, series_colors[j]),
                    spans[j].marker,
                )
        } by {
            let k = pick_ids(spans.subrange(0, j), n).len() + i;
            if j < last {
                assert(rest[j] == spans[j]);
                assert(rcolors[j] == series_colors[j]);
                assert(rest.subrange(0, j) == spans.subrange(0, j));
                assert(span_pick_ids(rest[j], j, n)[i] == span_pick_ids(spans[j], j, n)[i]);
                lemma_pick_prefix_len(rest, j, n);
                assert(k < pi.len());
                assert(pick_ids(spans, n)[k] == pi[k]);
                assert(marker_instances(spans, series_colors, points, point_colors)[k] == mi[k]);
            } else {
                assert(spans.last() == spans[j]);
                assert(span_uploads_markers(spans[j], n));
                assert(k - pi.len() == i);
            }
        }
    }
}

/// The marker instance of the `i`-th rendered point of span `j` stands where
/// that point's picking entry stands, and is nine words that hold, in this
/// order, the point's position, the channels of the point's own color as given
/// (red, green, blue, alpha), or those of the series color for a point that has
/// none, the span's marker shape, the point's size and its flags.
pub open spec fn instance_of_point(
    spans: Seq<SeriesSpan>,
    series_colors: Seq<[u32; 4]>,
    points: Seq<MarkerPoint>,
    point_colors: Seq<[u32; 4]>,
    j: int,
    i: int,
) -> bool {
    let instances = marker_instances(spans, series_colors, points, point_colors);
    let k = pick_ids(spans.subrange(0, j), points.len() as int).len() + i;
    let inst = instances[k];
    let idx = spans[j].start + i;
    let p = points[idx];
    let color = if idx < point_colors.len() {
        point_colors[idx]
    } else {
        series_colors[j]
    };
    &&& 0 <= k < instances.len()
    &&& pick_ids(spans, points.len() as int)[k] == (j as u32, source_index(spans[j], i) as u32)
    &&& inst.len() == 9
    &&& inst[0] == p.position[0]
    &&& inst[1] == p.position[1]
    &&& inst[2] == color[0]
    &&& inst[3] == color[1]
    &&& inst[4] == color[2]
    &&& inst[5] == color[3]
    &&& inst[6] == spans[j].marker
    &&& inst[7] == p.size
    &&& inst[8] == p.flags
}

/// Every uploaded point has its marker instance, laid out as
/// `instance_of_point` says: its color channels in the order given, beside its
/// position, the span's marker shape, its size and flags. Every instance is nine
/// words.
pub proof fn lemma_marker_instance_words(
    spans: Seq<SeriesSpan>,
    series_colors: Seq<[u32; 4]>,
    points: Seq<MarkerPoint>,
    point_colors: Seq<[u32; 4]>,
)
    requires
        series_colors.len() == spans.len(),
    ensures
        forall|m: int|
            0 <= m < marker_instances(spans, series_colors, points, point_colors).len()
                ==> (#[trigger] marker_instances(spans, series_colors, points, point_colors)[m]).len()
                == 9,
        forall|j: int, i: int|
            0 <= j < spans.len() && span_uploads_markers(spans[j], points.len() as int) && 0 <= i
                < spans[j].len ==> #[trigger] instance_of_point(
                spans,
                series_colors,
                points,
                point_colors,
                j,
                i,
            ),
{
    lemma_instances_align_with_pick_ids(spans, series_colors, points, point_colors);
    lemma_instances_have_nine_words(spans, series_colors, points, point_colors);
    assert forall|j: int, i: int|
        0 <= j < spans.len() && span_uploads_markers(spans[j], points.len() as int) && 0 <= i
            < spans[j].len implies #[trigger] instance_of_point(
        spans,
        series_colors,
        points,
        point_colors,
        j,
        i,
    ) by {
        let n = points.len() as int;
        lemma_pick_prefix_len(spans, j, n);
        assert(span_pick_ids(spans[j], j, n).len() == spans[j].len);
        let k = pick_ids(spans.subrange(0, j), n).len() + i;
        assert(pick_ids(spans, n)[k] == (j as u32, source_index(spans[j], i) as u32));
        let idx = spans[j].start + i;
        let color = point_color(point_colors, idx, series_colors[j]);
        let inst = instance_words(points[idx], color, spans[j].marker);
        assert(marker_instances(spans, series_colors, points, point_colors)[k] == inst);
    }
}

/// In `bytes`, the marker instance of the `i`-th rendered point of span `j`
/// fills the 36 bytes that start `base` bytes in plus 36 for each instance
/// before it (one per picking entry before the point's own): the little-endian
/// words of the point's position, the channels of its own color as given (red,
/// green, blue, alpha), or those of the series color for a point that has none,
/// the span's marker shape, the point's size and its flags.
pub open spec fn instance_written(
    base: int,
    bytes: Seq<u8>,
    spans: Seq<SeriesSpan>,
    series_colors: Seq<[u32; 4]>,
    points: Seq<MarkerPoint>,
    point_colors: Seq<[u32; 4]>,
    j: int,
    i: int,
) -> bool {
    let k = pick_ids(spans.subrange(0, j), points.len() as int).len() + i;
    let idx = spans[j].start + i;
    let p = points[idx];
    let color = if idx < point_colors.len() {
        point_colors[idx]
    } else {
        series_colors[j]
    };
    &&& base + 36 * k + 36 <= bytes.len()
    &&& bytes.subrange(base + 36 * k, base + 36 * k + 36) == words_le(
        seq![
            p.position[0],
            p.position[1],
            color[0],
            color[1],
            color[2],
            color[3],
            spans[j].marker,
            p.size,
            p.flags,
        ],
    )
}

/// Bytes that hold the encoded marker instances after `base` bytes hold each
/// uploaded point's instance where `instance_written` says.
proof fn lemma_instances_written(
    prefix: Seq<u8>,
    spans: Seq<SeriesSpan>,
    series_colors: Seq<[u32; 4]>,
    points: Seq<MarkerPoint>,
    point_colors: Seq<[u32; 4]>,
)
    requires
        series_colors.len() == spans.len(),
    ensures
        forall|j: int, i: int|
            0 <= j < spans.len() && span_uploads_markers(spans[j], points.len() as int) && 0 <= i
                < spans[j].len ==> #[trigger] instance_written(
                prefix.len() as int,
                prefix + words_le(concat_fields(marker_instances(spans, series_colors, points, point_colors))),
                spans,
                series_colors,
                points,
                point_colors,
                j,
                i,
            ),
{
    let bytes = prefix + words_le(
        concat_fields(marker_instances(spans, series_colors, points, point_colors)),
    );
    lemma_marker_instance_words(spans, series_colors, points, point_colors);
    assert forall|j: int, i: int|
        0 <= j < spans.len() && span_uploads_markers(spans[j], points.len() as int) && 0 <= i
            < spans[j].len implies #[trigger] instance_written(
        prefix.len() as int,
        bytes,
        spans,
        series_colors,
        points,
        point_colors,
        j,
        i,
    ) by {
        assert(instance_of_point(spans, series_colors, points, point_colors, j, i));
        lemma_instance_written_at(prefix, spans, series_colors, points, point_colors, j, i);
    }
}

/// One point's instance, laid out as `instance_of_point` says, lands in the
/// bytes where `instance_written` says.
proof fn lemma_instance_written_at(
    prefix: Seq<u8>,
    spans: Seq<SeriesSpan>,
    series_colors: Seq<[u32; 4]>,
    points: Seq<MarkerPoint>,
    point_colors: Seq<[u32; 4]>,
    j: int,
    i: int,
)
    requires
        instance_of_point(spans, series_colors, points, point_colors, j, i),
        forall|m: int|
            0 <= m < marker_instances(spans, series_colors, points, point_colors).len()
                ==> (#[trigger] marker_instances(spans, series_colors, points, point_colors)[m]).len()
                == 9,
    ensures
        instance_written(
            prefix.len() as int,
            prefix + words_le(concat_fields(marker_instances(spans, series_colors, points, point_colors))),
            spans,
            series_colors,
            points,
            point_colors,
            j,
            i,
        ),
{
    let mi = marker_instances(spans, series_colors, points, point_colors);
    let k = pick_ids(spans.subrange(0, j), points.len() as int).len() + i;
    lemma_field_bytes(prefix, mi, 9, k);
    let idx = spans[j].start + i;
    let p = points[idx];
    let color = if idx < point_colors.len() {
        point_colors[idx]
    } else {
        series_colors[j]
    };
    assert(mi[k] =~= seq![
        p.position[0],
        p.position[1],
        color[0],
        color[1],
        color[2],
        color[3],
        spans[j].marker,
        p.size,
        p.flags,
    ]);
}

/// After `prefix`, the encoding of fields that are all `w` words wide holds field
/// `k` in the `4 * w` bytes that start `4 * w * k` bytes after `prefix`.
proof fn lemma_field_bytes(prefix: Seq<u8>, fields: Seq<Seq<u32>>, w: int, k: int)
    requires
        0 <= k < fields.len(),
        0 <= w,
        forall|m: int| 0 <= m < fields.len() ==> (#[trigger] fields[m]).len() == w,
    ensures
        ({
            let bytes = prefix + words_le(concat_fields(fields));
            let at = prefix.len() + 4 * w * k;
            &&& at + 4 * w <= bytes.len()
            &&& bytes.subrange(at, at + 4 * w) == words_le(fields[k])
        }),
{
    let all = concat_fields(fields);
    let bytes = prefix + words_le(all);
    lemma_concat_equal_fields(fields, w, k);
    assert(0 <= w * k && w * k + w <= w * fields.len()) by (nonlinear_arith)
        requires
            0 <= k < fields.len(),
            0 <= w,
    ;
    lemma_words_le_subrange(all, w * k, w * k + w);
    lemma_words_le_len(all);
    assert(4 * w * k + 4 * w <= 4 * (w * fields.len())) by (nonlinear_arith)
        requires
            0 <= k < fields.len(),
            0 <= w,
    ;
    assert(4 * (w * k) == 4 * w * k && 4 * (w * k + w) == 4 * w * k + 4 * w) by (nonlinear_arith);
    let at = prefix.len() + 4 * w * k;
    assert(bytes.subrange(at, at + 4 * w) =~= words_le(all).subrange(
        4 * (w * k),
        4 * (w * k + w),
    ));
}

/// Every marker instance is nine words long.
proof fn lemma_instances_have_nine_words(
    spans: Seq<SeriesSpan>,
    series_colors: Seq<[u32; 4]>,
    points: Seq<MarkerPoint>,
    point_colors: Seq<[u32; 4]>,
)
    ensures
        forall|m: int|
            0 <= m < marker_instances(spans, series_colors, points, point_colors).len()
                ==> (#[trigger] marker_instances(spans, series_colors, points, point_colors)[m]).len()
                == 9,
    decreases spans.len(),
{
    if spans.len() > 0 {
        lemma_instances_have_nine_words(spans.drop_last(), series_colors, points, point_colors);
        let a = marker_instances(spans.drop_last(), series_colors, points, point_colors);
        let b = span_instances(spans.last(), series_colors[spans.len() - 1], points, point_colors);
        assert forall|m: int| 0 <= m < (a + b).len() implies (#[trigger] (a + b)[m]).len() == 9 by {
            if m < a.len() {
                assert((a + b)[m] == a[m]);
            } else {
                assert((a + b)[m] == b[m - a.len()]);
            }
        }
    }
}

/// Fields of equal width lie one after the other: field `k` fills words
/// `w * k` up to `w * (k + 1)` of their concatenation.
proof fn lemma_concat_equal_fields(fields: Seq<Seq<u32>>, w: int, k: int)
    requires
        0 <= k < fields.len(),
        0 <= w,
        forall|m: int| 0 <= m < fields.len() ==> (#[trigger] fields[m]).len() == w,
    ensures
        concat_fields(fields).len() == w * fields.len(),
        concat_fields(fields).subrange(w * k, w * k + w) == fields[k],
    decreases fields.len(),
{
    lemma_concat_equal_len(fields, w);
    let rest = fields.drop_last();
    lemma_concat_equal_len(rest, w);
    assert(w * fields.len() == w * rest.len() + w) by (nonlinear_arith)
        requires
            fields.len() == rest.len() + 1,
    ;
    if k < fields.len() - 1 {
        lemma_concat_equal_fields(rest, w, k);
        assert(w * k + w <= w * rest.len()) by (nonlinear_arith)
            requires
                k + 1 <= rest.len(),
                0 <= w,
        ;
        assert(concat_fields(fields).subrange(w * k, w * k + w) == concat_fields(rest).subrange(
            w * k,
            w * k + w,
        ));
    } else {
        assert(w * k == w * rest.len());
        assert(concat_fields(fields).subrange(w * k, w * k + w) == fields.last());
    }
}

/// The concatenation of fields of width `w` has `w` words per field.
proof fn lemma_concat_equal_len(fields: Seq<Seq<u32>>, w: int)
    requires
        0 <= w,
        forall|m: int| 0 <= m < fields.len() ==> (#[trigger] fields[m]).len() == w,
    ensures
        concat_fields(fields).len() == w * fields.len(),
    decreases fields.len(),
{
    if fields.len() > 0 {
        let rest = fields.drop_last();
        assert forall|m: int| 0 <= m < rest.len() implies (#[trigger] rest[m]).len() == w by {
            assert(rest[m] == fields[m]);
        }
        lemma_concat_equal_len(rest, w);
        assert(w * fields.len() == w * rest.len() + w) by (nonlinear_arith)
            requires
                fields.len() == rest.len() + 1,
        ;
    }
}

/// The instances of some spans do not depend on colors given for further spans.
proof fn lemma_instances_colors_prefix(
    spans: Seq<SeriesSpan>,
    series_colors: Seq<[u32; 4]>,
    points: Seq<MarkerPoint>,
    point_colors: Seq<[u32; 4]>,
)
    requires
        spans.len() < series_colors.len(),
    ensures
        marker_instances(spans, series_colors, points, point_colors) == marker_instances(
            spans,
            series_colors.drop_last(),
            points,
            point_colors,
        ),
    decreases spans.len(),
{
    if spans.len() > 0 {
        lemma_instances_colors_prefix(spans.drop_last(), series_colors, points, point_colors);
    }
}

/// The picking entries of a prefix of the spans come first.
proof fn lemma_pick_prefix_len(spans: Seq<SeriesSpan>, j: int, n: int)
    requires
        0 <= j < spans.len(),
    ensures
        pick_ids(spans.subrange(0, j), n).len() + span_pick_ids(spans[j], j, n).len() <= pick_ids(
            spans,
            n,
        ).len(),
    decreases spans.len(),
{
    if j < spans.len() - 1 {
        let rest = spans.drop_last();
        assert(rest[j] == spans[j]);
        assert(rest.subrange(0, j) == spans.subrange(0, j));
        lemma_pick_prefix_len(rest, j, n);
    } else {
        assert(spans.subrange(0, j) == spans.drop_last());
    }
}

} // verus!
