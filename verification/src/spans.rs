//! Bookkeeping of series spans: which source positions a series renders, where
//! its line breaks, and how rendered markers map back to points for picking.

use vstd::prelude::*;

use crate::message::ShapeId;

verus! {

/// Marker value of a span whose series draws no markers.
pub const NO_MARKER: u32 = u32::MAX;

/// The run of rendered points that belongs to one visible series.
#[derive(Debug, Clone)]
pub struct SeriesSpan {
    /// Identifier of the series.
    pub id: ShapeId,
    /// Index of the series' first rendered point among all rendered points.
    pub start: usize,
    /// Number of rendered points of the series.
    pub len: usize,
    /// For each rendered point, its index among the series' source positions.
    pub point_indices: Vec<usize>,
    /// The series draws a line through its points.
    pub has_line: bool,
    /// Marker shape of the series, or `NO_MARKER`.
    pub marker: u32,
    /// The series' points can be picked.
    pub pickable: bool,
}

/// Indices of the `true` entries of `kept`, in increasing order.
pub open spec fn kept_indices(kept: Seq<bool>) -> Seq<usize>
    decreases kept.len(),
{
    if kept.len() == 0 {
        Seq::empty()
    } else {
        let prefix = kept_indices(kept.drop_last());
        if kept.last() {
            prefix.push((kept.len() - 1) as usize)
        } else {
            prefix
        }
    }
}

/// The span that a series gets when its source positions for which a plot
/// position exists are those marked in `kept`: a series that draws markers or a
/// line renders one point per kept position, in order; any other series renders
/// none.
pub open spec fn series_span_of(
    id: ShapeId,
    start: usize,
    kept: Seq<bool>,
    has_line: bool,
    marker: Option<u32>,
    pickable: bool,
) -> (ShapeId, usize, Seq<usize>, bool, u32, bool) {
    let indices = if marker is Some || has_line { kept_indices(kept) } else { Seq::empty() };
    (
        id,
        start,
        indices,
        has_line,
        match marker {
            Some(m) => m,
            None => NO_MARKER,
        },
        pickable,
    )
}

/// The number that stands for a series' marker shape: the shape itself, or
/// `NO_MARKER` for a series without markers.
pub open spec fn marker_code(marker: Option<u32>) -> u32 {
    match marker {
        Some(m) => m,
        None => NO_MARKER,
    }
}

/// The span keeps the display settings of the series it was built from: its
/// identifier, whether it draws a line, its marker shape and whether its points
/// can be picked.
pub open spec fn span_keeps_settings(
    f: (ShapeId, usize, Seq<usize>, bool, u32, bool),
    s: SeriesInput,
) -> bool {
    &&& f.0 == s.id
    &&& f.3 == s.has_line
    &&& f.4 == marker_code(s.marker)
    &&& f.5 == s.pickable
}

/// The fields of a span, with its point indices as a sequence.
pub open spec fn span_fields(s: SeriesSpan) -> (ShapeId, usize, Seq<usize>, bool, u32, bool) {
    (s.id, s.start, s.point_indices@, s.has_line, s.marker, s.pickable)
}

/// Every index in `kept_indices(kept)` is in range and kept, and there are no
/// more indices than positions.
pub proof fn lemma_kept_indices_kept(kept: Seq<bool>)
    requires
        kept.len() <= usize::MAX,
    ensures
        kept_indices(kept).len() <= kept.len(),
        forall|j: int|
            0 <= j < kept_indices(kept).len() ==> #[trigger] kept_indices(kept)[j] < kept.len()
                && kept[kept_indices(kept)[j] as int],
    decreases kept.len(),
{
    if kept.len() > 0 {
        let prefix = kept.drop_last();
        lemma_kept_indices_kept(prefix);
        let p = kept_indices(prefix);
        let k = kept_indices(kept);
        if kept.last() {
            assert(k == p.push((kept.len() - 1) as usize));
        } else {
            assert(k == p);
        }
        assert forall|j: int| 0 <= j < k.len() implies #[trigger] k[j] < kept.len() && kept[k[j] as int] by {
            if j < p.len() {
                assert(k[j] == p[j]);
                assert(prefix[p[j] as int] == kept[p[j] as int]);
            }
        }
    }
}

/// The indices in `kept_indices(kept)` strictly increase.
pub proof fn lemma_kept_indices_increasing(kept: Seq<bool>)
    requires
        kept.len() <= usize::MAX,
    ensures
        forall|j1: int, j2: int|
            0 <= j1 < j2 < kept_indices(kept).len() ==> kept_indices(kept)[j1]
                < kept_indices(kept)[j2],
    decreases kept.len(),
{
    if kept.len() > 0 {
        let prefix = kept.drop_last();
        lemma_kept_indices_increasing(prefix);
        lemma_kept_indices_kept(prefix);
        let p = kept_indices(prefix);
        let k = kept_indices(kept);
        if kept.last() {
            assert(k == p.push((kept.len() - 1) as usize));
        } else {
            assert(k == p);
        }
        assert forall|j1: int, j2: int| 0 <= j1 < j2 < k.len() implies k[j1] < k[j2] by {
            assert(k[j1] == p[j1]);
            if j2 < p.len() {
                assert(k[j2] == p[j2]);
            }
        }
    }
}

/// Every kept position appears in `kept_indices(kept)`.
pub proof fn lemma_kept_indices_complete(kept: Seq<bool>)
    requires
        kept.len() <= usize::MAX,
    ensures
        forall|m: int| 0 <= m < kept.len() && kept[m] ==> kept_indices(kept).contains(m as usize),
    decreases kept.len(),
{
    if kept.len() > 0 {
        let prefix = kept.drop_last();
        lemma_kept_indices_complete(prefix);
        let p = kept_indices(prefix);
        let k = kept_indices(kept);
        assert forall|m: int| 0 <= m < kept.len() && kept[m] implies k.contains(m as usize) by {
            if m < prefix.len() {
                assert(prefix[m] == kept[m]);
                let j = choose|j: int| 0 <= j < p.len() && p[j] == m as usize;
                assert(k[j] == m as usize);
            } else {
                assert(k[p.len() as int] == m as usize);
            }
        }
    }
}

/// Every position strictly between two consecutive indices of
/// `kept_indices(kept)` was dropped.
pub proof fn lemma_kept_indices_gaps(kept: Seq<bool>)
    requires
        kept.len() <= usize::MAX,
    ensures
        forall|j: int, m: int|
            #![trigger kept_indices(kept)[j], kept[m]]
            0 < j < kept_indices(kept).len() && kept_indices(kept)[j - 1] < m
                < kept_indices(kept)[j] ==> !kept[m],
    decreases kept.len(),
{
    if kept.len() > 0 {
        let prefix = kept.drop_last();
        lemma_kept_indices_gaps(prefix);
        let p = kept_indices(prefix);
        let k = kept_indices(kept);
        if !kept.last() {
            lemma_kept_indices_kept(prefix);
            assert(k == p);
            assert forall|j: int, m: int|
                #![trigger k[j], kept[m]]
                0 < j < k.len() && k[j - 1] < m < k[j] implies !kept[m] by {
                assert(k[j] == p[j]);
                assert(p[j] < prefix.len());
                assert(prefix[m] == kept[m]);
            }
        } else {
            lemma_kept_indices_complete(prefix);
            lemma_kept_indices_increasing(prefix);
            lemma_kept_indices_kept(prefix);
            assert(k == p.push((kept.len() - 1) as usize));
            assert forall|j: int, m: int|
                #![trigger k[j], kept[m]]
                0 < j < k.len() && k[j - 1] < m < k[j] implies !kept[m] by {
                assert(k[j - 1] == p[j - 1]);
                assert(m < prefix.len());
                assert(prefix[m] == kept[m]);
                if j < p.len() {
                    assert(k[j] == p[j]);
                } else if kept[m] {
                    assert(p.contains(m as usize));
                    let jj = choose|jj: int| 0 <= jj < p.len() && p[jj] == m as usize;
                    if jj < j - 1 {
                        assert(p[jj] < p[j - 1]);
                    }
                }
            }
        }
    }
}

/// Properties of `kept_indices`: every index is in range and kept, the indices
/// increase, every position strictly between two consecutive indices was
/// dropped, and every kept position is listed.
pub proof fn lemma_kept_indices(kept: Seq<bool>)
    requires
        kept.len() <= usize::MAX,
    ensures
        kept_indices(kept).len() <= kept.len(),
        forall|j: int|
            0 <= j < kept_indices(kept).len() ==> #[trigger] kept_indices(kept)[j] < kept.len()
                && kept[kept_indices(kept)[j] as int],
        forall|j1: int, j2: int|
            0 <= j1 < j2 < kept_indices(kept).len() ==> kept_indices(kept)[j1]
                < kept_indices(kept)[j2],
        forall|j: int, m: int|
            #![trigger kept_indices(kept)[j], kept[m]]
            0 < j < kept_indices(kept).len() && kept_indices(kept)[j - 1] < m
                < kept_indices(kept)[j] ==> !kept[m],
        forall|m: int|
            0 <= m < kept.len() && kept[m] ==> kept_indices(kept).contains(m as usize),
{
    lemma_kept_indices_kept(kept);
    lemma_kept_indices_increasing(kept);
    lemma_kept_indices_gaps(kept);
    lemma_kept_indices_complete(kept);
}

/// Builds the span of a series that starts at rendered point `start`, whose
/// source positions with a plot position are marked in `kept`, drawing a line
/// when `has_line` and markers of shape `marker` when given.
pub fn build_series_span(
    id: ShapeId,
    start: usize,
    kept: &Vec<bool>,
    has_line: bool,
    marker: Option<u32>,
    pickable: bool,
) -> (res: SeriesSpan)
    ensures
        span_fields(res) == series_span_of(id, start, kept@, has_line, marker, pickable),
        res.len == res.point_indices@.len(),
        res.id == id,
        res.start == start,
        res.has_line == has_line,
        res.pickable == pickable,
        res.marker == marker_code(marker),
        !(marker is Some || has_line) ==> res.len == 0,
{
    let mut indices: Vec<usize> = Vec::new();
    if marker.is_some() || has_line {
        let mut i: usize = 0;
        while i < kept.len()
            invariant
                i <= kept.len(),
                indices@ == kept_indices(kept@.subrange(0, i as int)),
            decreases kept.len() - i,
        {
            proof {
                assert(kept@.subrange(0, i + 1).drop_last() == kept@.subrange(0, i as int));
            }
            if kept[i] {
                indices.push(i);
            }
            i = i + 1;
        }
        assert(kept@.subrange(0, kept.len() as int) == kept@);
    }
    let marker_value = match marker {
        Some(m) => m,
        None => NO_MARKER,
    };
    let len = indices.len();
    SeriesSpan {
        id,
        start,
        len,
        point_indices: indices,
        has_line,
        marker: marker_value,
        pickable,
    }
}

/// A series of the widget, as span assembly reads it.
pub struct SeriesInput {
    /// Identifier of the series.
    pub id: ShapeId,
    /// For each source position, whether it has a plot position.
    pub kept: Vec<bool>,
    /// The series draws a line.
    pub has_line: bool,
    /// Marker shape of the series, if it draws markers.
    pub marker: Option<u32>,
    /// The series' points can be picked.
    pub pickable: bool,
}

/// The series is rendered: it is not hidden and has source positions.
pub open spec fn series_rendered(s: SeriesInput, hidden: Seq<ShapeId>) -> bool {
    !hidden.contains(s.id) && s.kept@.len() != 0
}

/// The spans of the rendered series among `inputs`, in order, each starting
/// where the previous one ends, and the number of rendered points.
pub open spec fn assembled_spans(inputs: Seq<SeriesInput>, hidden: Seq<ShapeId>) -> (
    Seq<(ShapeId, usize, Seq<usize>, bool, u32, bool)>,
    int,
)
    decreases inputs.len(),
{
    if inputs.len() == 0 {
        (Seq::empty(), 0)
    } else {
        let (prev, n) = assembled_spans(inputs.drop_last(), hidden);
        let s = inputs.last();
        if series_rendered(s, hidden) {
            let f = series_span_of(s.id, n as usize, s.kept@, s.has_line, s.marker, s.pickable);
            (prev.push(f), n + f.2.len())
        } else {
            (prev, n)
        }
    }
}

/// Total number of source positions of the series.
pub open spec fn total_positions(inputs: Seq<SeriesInput>) -> int
    decreases inputs.len(),
{
    if inputs.len() == 0 {
        0
    } else {
        total_positions(inputs.drop_last()) + inputs.last().kept@.len()
    }
}

/// Assembled spans tile the rendered points: the first starts at 0, each starts
/// where the previous ends, every span's points fit, and no more points are
/// rendered than there are source positions.
pub proof fn lemma_assembled_spans_tile(inputs: Seq<SeriesInput>, hidden: Seq<ShapeId>)
    requires
        total_positions(inputs) <= usize::MAX,
    ensures
        ({
            let (spans, n) = assembled_spans(inputs, hidden);
            &&& 0 <= n <= total_positions(inputs)
            &&& forall|k: int|
                0 <= k < spans.len() ==> (#[trigger] spans[k]).1 + spans[k].2.len() <= n
            &&& spans.len() > 0 ==> spans[0].1 == 0 && spans.last().1 + spans.last().2.len() == n
            &&& spans.len() == 0 ==> n == 0
            &&& forall|k: int|
                0 < k < spans.len() ==> (#[trigger] spans[k]).1 == spans[k - 1].1 + spans[k
                    - 1].2.len()
            &&& forall|k: int| 0 <= k < spans.len() ==> !hidden.contains((#[trigger] spans[k]).0)
        }),
    decreases inputs.len(),
{
    if inputs.len() > 0 {
        let rest = inputs.drop_last();
        lemma_total_positions_prefix(inputs, inputs.len() - 1);
        assert(inputs.subrange(0, inputs.len() - 1) == rest);
        lemma_assembled_spans_tile(rest, hidden);
        let s = inputs.last();
        let (prev, n) = assembled_spans(rest, hidden);
        if series_rendered(s, hidden) {
            lemma_kept_indices_kept(s.kept@);
            let f = series_span_of(s.id, n as usize, s.kept@, s.has_line, s.marker, s.pickable);
            assert(f.1 == n);
            assert(f.2.len() <= s.kept@.len());
            let spans = prev.push(f);
            assert(spans.last() == f);
            assert forall|k: int| 0 <= k < spans.len() implies (#[trigger] spans[k]).1
                + spans[k].2.len() <= n + f.2.len() by {
                if k < prev.len() {
                    assert(spans[k] == prev[k]);
                }
            }
            assert forall|k: int| 0 < k < spans.len() implies (#[trigger] spans[k]).1 == spans[k
                - 1].1 + spans[k - 1].2.len() by {
                assert(spans[k - 1] == prev[k - 1]);
                if k < prev.len() {
                    assert(spans[k] == prev[k]);
                }
            }
            assert forall|k: int| 0 <= k < spans.len() implies !hidden.contains(
                (#[trigger] spans[k]).0,
            ) by {
                if k < prev.len() {
                    assert(spans[k] == prev[k]);
                }
            }
        }
    }
}

/// Identifiers of the rendered series among `inputs` (not hidden, with source
/// positions), in the widget's order.
pub open spec fn rendered_ids(inputs: Seq<SeriesInput>, hidden: Seq<ShapeId>) -> Seq<ShapeId>
    decreases inputs.len(),
{
    if inputs.len() == 0 {
        Seq::empty()
    } else {
        let prev = rendered_ids(inputs.drop_last(), hidden);
        if series_rendered(inputs.last(), hidden) {
            prev.push(inputs.last().id)
        } else {
            prev
        }
    }
}

/// The indices of a sequence strictly increase.
pub open spec fn strictly_increasing(ix: Seq<usize>) -> bool {
    forall|a: int, b: int| 0 <= a < b < ix.len() ==> ix[a] < ix[b]
}

/// Assembled spans belong to the rendered series in order, and each span's
/// point indices strictly increase.
pub proof fn lemma_assembled_spans_order(inputs: Seq<SeriesInput>, hidden: Seq<ShapeId>)
    requires
        total_positions(inputs) <= usize::MAX,
    ensures
        assembled_spans(inputs, hidden).0.len() == rendered_ids(inputs, hidden).len(),
        forall|k: int|
            0 <= k < assembled_spans(inputs, hidden).0.len() ==> (#[trigger] assembled_spans(
                inputs,
                hidden,
            ).0[k]).0 == rendered_ids(inputs, hidden)[k] && strictly_increasing(
                assembled_spans(inputs, hidden).0[k].2,
            ),
    decreases inputs.len(),
{
    if inputs.len() > 0 {
        let rest = inputs.drop_last();
        lemma_total_positions_prefix(inputs, inputs.len() - 1);
        assert(inputs.subrange(0, inputs.len() - 1) == rest);
        lemma_assembled_spans_order(rest, hidden);
        let s = inputs.last();
        let (prev, n) = assembled_spans(rest, hidden);
        let ids = rendered_ids(rest, hidden);
        if series_rendered(s, hidden) {
            assert(s.kept@.len() <= total_positions(inputs));
            lemma_kept_indices_increasing(s.kept@);
            let f = series_span_of(s.id, n as usize, s.kept@, s.has_line, s.marker, s.pickable);
            let spans = prev.push(f);
            assert(strictly_increasing(f.2));
            assert forall|k: int| 0 <= k < spans.len() implies (#[trigger] spans[k]).0 == ids.push(
                s.id,
            )[k] && strictly_increasing(spans[k].2) by {
                if k < prev.len() {
                    assert(spans[k] == prev[k]);
                }
            }
        }
    }
}

/// Some rendered series among `inputs` has the identifier, line flag, marker
/// shape and pickable flag of the span `f`.
pub open spec fn from_rendered_series(
    f: (ShapeId, usize, Seq<usize>, bool, u32, bool),
    inputs: Seq<SeriesInput>,
    hidden: Seq<ShapeId>,
) -> bool {
    exists|j: int|
        0 <= j < inputs.len() && series_rendered(inputs[j], hidden) && span_keeps_settings(
            f,
            #[trigger] inputs[j],
        )
}

/// Each assembled span comes from a rendered series and keeps that series'
/// settings as they are: its identifier, its line flag, its marker shape and its
/// pickable flag, whatever the others are.
pub proof fn lemma_assembled_spans_keep_settings(inputs: Seq<SeriesInput>, hidden: Seq<ShapeId>)
    ensures
        forall|k: int|
            0 <= k < assembled_spans(inputs, hidden).0.len() ==> from_rendered_series(
                #[trigger] assembled_spans(inputs, hidden).0[k],
                inputs,
                hidden,
            ),
    decreases inputs.len(),
{
    if inputs.len() > 0 {
        let rest = inputs.drop_last();
        lemma_assembled_spans_keep_settings(rest, hidden);
        let s = inputs.last();
        let prev = assembled_spans(rest, hidden).0;
        let n = assembled_spans(rest, hidden).1;
        let spans = assembled_spans(inputs, hidden).0;
        assert forall|k: int| 0 <= k < spans.len() implies from_rendered_series(
            #[trigger] spans[k],
            inputs,
            hidden,
        ) by {
            if k < prev.len() {
                assert(spans[k] == prev[k]);
                assert(from_rendered_series(prev[k], rest, hidden));
                let j = choose|j: int|
                    0 <= j < rest.len() && series_rendered(rest[j], hidden) && span_keeps_settings(
                        prev[k],
                        #[trigger] rest[j],
                    );
                assert(inputs[j] == rest[j]);
            } else {
                assert(series_rendered(s, hidden));
                let f = series_span_of(s.id, n as usize, s.kept@, s.has_line, s.marker, s.pickable);
                assert(spans == prev.push(f));
                assert(inputs[inputs.len() - 1] == s);
                assert(span_keeps_settings(spans[k], inputs[inputs.len() - 1]));
            }
        }
    }
}

/// Builds the spans of the series that are rendered (not hidden, with source
/// positions), one after the other; returns them with the number of rendered
/// points. The spans tile the rendered points in order, belong to the rendered
/// series in the widget's order, and each has strictly increasing point indices,
/// as many as its length.
pub fn build_series_spans(inputs: &Vec<SeriesInput>, hidden: &Vec<ShapeId>) -> (res: (
    Vec<SeriesSpan>,
    usize,
))
    requires
        total_positions(inputs@) <= usize::MAX,
    ensures
        res.0@.map_values(|s: SeriesSpan| span_fields(s)) == assembled_spans(inputs@, hidden@).0,
        res.1 == assembled_spans(inputs@, hidden@).1,
        forall|k: int| 0 <= k < res.0@.len() ==> (#[trigger] res.0@[k]).len == res.0@[k].point_indices@.len(),
        spans_tile(res.0@, res.1 as int),
        forall|k: int| 0 <= k < res.0@.len() ==> !hidden@.contains((#[trigger] res.0@[k]).id),
        res.0@.map_values(|s: SeriesSpan| s.id) == rendered_ids(inputs@, hidden@),
        forall|k: int|
            0 <= k < res.0@.len() ==> strictly_increasing((#[trigger] res.0@[k]).point_indices@),
        forall|k: int|
            0 <= k < res.0@.len() ==> from_rendered_series(
                span_fields(#[trigger] res.0@[k]),
                inputs@,
                hidden@,
            ),
{
    let mut spans: Vec<SeriesSpan> = Vec::new();
    let mut points_len: usize = 0;
    let mut j: usize = 0;
    while j < inputs.len()
        invariant
            j <= inputs@.len(),
            total_positions(inputs@) <= usize::MAX,
            spans@.map_values(|s: SeriesSpan| span_fields(s)) == assembled_spans(
                inputs@.subrange(0, j as int),
                hidden@,
            ).0,
            points_len == assembled_spans(inputs@.subrange(0, j as int), hidden@).1,
            points_len <= total_positions(inputs@.subrange(0, j as int)),
            forall|k: int| 0 <= k < spans@.len() ==> (#[trigger] spans@[k]).len == spans@[k].point_indices@.len(),
        decreases inputs.len() - j,
    {
        let input = &inputs[j];
        let ghost prefix = inputs@.subrange(0, j as int);
        let ghost next = inputs@.subrange(0, j + 1);
        proof {
            assert(next.drop_last() == prefix);
            assert(next.last() == inputs@[j as int]);
            lemma_total_positions_prefix(inputs@, j + 1);
            lemma_kept_indices_kept(input.kept@);
        }
        if !crate::visibility::is_hidden(hidden, input.id) && input.kept.len() != 0 {
            let span = build_series_span(
                input.id,
                points_len,
                &input.kept,
                input.has_line,
                input.marker,
                input.pickable,
            );
            let ghost before = spans@;
            points_len = points_len + span.len;
            spans.push(span);
            proof {
                assert(spans@.map_values(|s: SeriesSpan| span_fields(s)) =~= before.map_values(
                    |s: SeriesSpan| span_fields(s),
                ).push(span_fields(span)));
            }
        }
        j = j + 1;
    }
    assert(inputs@.subrange(0, inputs@.len() as int) == inputs@);
    proof {
        lemma_assembled_spans_tile(inputs@, hidden@);
        lemma_assembled_spans_order(inputs@, hidden@);
        let fields = assembled_spans(inputs@, hidden@).0;
        assert forall|k: int| 0 <= k < spans@.len() implies span_fields(#[trigger] spans@[k])
            == fields[k] by {
            assert(spans@.map_values(|s: SeriesSpan| span_fields(s))[k] == span_fields(spans@[k]));
        }
        assert(spans@.len() == fields.len());
        if spans@.len() > 0 {
            assert(span_fields(spans@[0]) == fields[0]);
            assert(span_fields(spans@[spans@.len() - 1]) == fields[fields.len() - 1]);
        }
        assert forall|k: int| 0 < k < spans@.len() implies (#[trigger] spans@[k]).start
            == spans@[k - 1].start + spans@[k - 1].len by {
            assert(span_fields(spans@[k - 1]) == fields[k - 1]);
        }
        assert forall|k: int| 0 <= k < spans@.len() implies strictly_increasing(
            (#[trigger] spans@[k]).point_indices@,
        ) by {
            assert(span_fields(spans@[k]) == fields[k]);
        }
        lemma_assembled_spans_keep_settings(inputs@, hidden@);
        assert forall|k: int| 0 <= k < spans@.len() implies from_rendered_series(
            span_fields(#[trigger] spans@[k]),
            inputs@,
            hidden@,
        ) by {
            assert(span_fields(spans@[k]) == fields[k]);
        }
        assert(spans@.map_values(|s: SeriesSpan| s.id) =~= rendered_ids(inputs@, hidden@)) by {
            assert forall|k: int| 0 <= k < spans@.len() implies spans@.map_values(
                |s: SeriesSpan| s.id,
            )[k] == rendered_ids(inputs@, hidden@)[k] by {
                assert(span_fields(spans@[k]) == fields[k]);
            }
        }
    }
    (spans, points_len)
}

/// The spans lie one after the other from rendered point 0 up to `n`: the first
/// starts at 0, each starts where the previous ends, and the last ends at `n`.
pub open spec fn spans_tile(spans: Seq<SeriesSpan>, n: int) -> bool {
    &&& spans.len() == 0 ==> n == 0
    &&& spans.len() > 0 ==> spans[0].start == 0 && spans.last().start + spans.last().len == n
    &&& forall|k: int|
        0 < k < spans.len() ==> (#[trigger] spans[k]).start == spans[k - 1].start + spans[k - 1].len
    &&& forall|k: int| 0 <= k < spans.len() ==> (#[trigger] spans[k]).start + spans[k].len <= n
}

proof fn lemma_total_positions_prefix(inputs: Seq<SeriesInput>, i: int)
    requires
        0 <= i <= inputs.len(),
    ensures
        0 <= total_positions(inputs.subrange(0, i)) <= total_positions(inputs),
    decreases inputs.len(),
{
    if inputs.len() > 0 {
        if i == inputs.len() {
            assert(inputs.subrange(0, i) == inputs);
            lemma_total_positions_prefix(inputs.drop_last(), i - 1);
            assert(inputs.drop_last().subrange(0, i - 1) == inputs.drop_last());
        } else {
            lemma_total_positions_prefix(inputs.drop_last(), i);
            assert(inputs.drop_last().subrange(0, i) == inputs.subrange(0, i));
        }
    }
}

/// The line through a series' points breaks before rendered point `index`:
/// that point and the one before it do not come from consecutive source
/// positions.
#[verifier::opaque]
pub open spec fn breaks_before(point_indices: Seq<usize>, index: int) -> bool {
    &&& 0 < index < point_indices.len()
    &&& point_indices[index] != point_indices[index - 1] + 1
}

/// Whether the line through a series' points breaks before rendered point `index`.
pub fn breaks_line_at(point_indices: &Vec<usize>, index: usize) -> (res: bool)
    ensures
        res == breaks_before(point_indices@, index as int),
{
    reveal(breaks_before);
    if index == 0 || index >= point_indices.len() {
        return false;
    }
    let prev = point_indices[index - 1];
    let curr = point_indices[index];
    prev == usize::MAX || curr != prev + 1
}

/// A series' line is broken exactly where source positions were dropped: for a
/// span built from `kept`, the line breaks before a rendered point if and only if
/// some source position between it and the previous rendered point has no plot
/// position.
pub proof fn lemma_line_breaks_where_points_dropped(kept: Seq<bool>, index: int)
    requires
        kept.len() <= usize::MAX,
        0 < index < kept_indices(kept).len(),
    ensures
        breaks_before(kept_indices(kept), index) <==> exists|m: int|
            kept_indices(kept)[index - 1] < m < kept_indices(kept)[index] && !kept[m],
{
    reveal(breaks_before);
    lemma_kept_indices(kept);
    let p = kept_indices(kept);
    if breaks_before(p, index) {
        assert(p[index - 1] < p[index]);
        let m = p[index - 1] + 1;
        assert(p[index - 1] < m < p[index] && !kept[m]);
    }
}

/// `runs` splits the rendered points `0..len` into the pieces of line drawn
/// between breaks: consecutive non-empty ranges that cover `0..len`, each
/// starting at 0 or at a break, with no break inside any of them.
pub open spec fn is_line_partition(point_indices: Seq<usize>, len: int, runs: Seq<(usize, usize)>) -> bool {
    &&& (len == 0 <==> runs.len() == 0)
    &&& runs.len() > 0 ==> runs[0].0 == 0 && runs.last().1 == len
    &&& forall|k: int| 0 <= k < runs.len() ==> #[trigger] runs[k].0 < runs[k].1
    &&& forall|k: int| 0 <= k < runs.len() - 1 ==> #[trigger] runs[k].1 == runs[k + 1].0
    &&& forall|k: int| 0 < k < runs.len() ==> breaks_before(point_indices, #[trigger] runs[k].0 as int)
    &&& forall|k: int, i: int|
        #![trigger runs[k], breaks_before(point_indices, i)]
        0 <= k < runs.len() && runs[k].0 < i < runs[k].1 ==> !breaks_before(point_indices, i)
}

/// Splits the `len` rendered points of a series into the pieces of line drawn
/// between breaks.
pub fn line_runs(point_indices: &Vec<usize>, len: usize) -> (runs: Vec<(usize, usize)>)
    ensures
        is_line_partition(point_indices@, len as int, runs@),
{
    let mut runs: Vec<(usize, usize)> = Vec::new();
    if len == 0 {
        return runs;
    }
    let mut start: usize = 0;
    let mut i: usize = 1;
    while i < len
        invariant
            0 <= start < i <= len,
            runs@.len() == 0 ==> start == 0,
            runs@.len() > 0 ==> runs@[0].0 == 0 && runs@.last().1 == start,
            forall|k: int| 0 <= k < runs@.len() ==> #[trigger] runs@[k].0 < runs@[k].1,
            forall|k: int| 0 <= k < runs@.len() - 1 ==> #[trigger] runs@[k].1 == runs@[k + 1].0,
            forall|k: int|
                0 < k < runs@.len() ==> breaks_before(point_indices@, #[trigger] runs@[k].0 as int),
            start > 0 ==> breaks_before(point_indices@, start as int),
            forall|k: int, j: int|
                #![trigger runs@[k], breaks_before(point_indices@, j)]
                0 <= k < runs@.len() && runs@[k].0 < j < runs@[k].1 ==> !breaks_before(
                    point_indices@,
                    j,
                ),
            forall|j: int| start < j < i ==> !breaks_before(point_indices@, j),
        decreases len - i,
    {
        if breaks_line_at(point_indices, i) {
            runs.push((start, i));
            start = i;
        }
        i = i + 1;
    }
    runs.push((start, len));
    runs
}

/// Number of marker instances that a span contributes.
pub open spec fn span_marker_count(s: SeriesSpan) -> int {
    if s.marker != NO_MARKER {
        s.len as int
    } else {
        0
    }
}

/// Number of marker instances over all spans: the lengths of the spans that
/// draw markers, added up.
pub open spec fn total_marker_count(spans: Seq<SeriesSpan>) -> int
    decreases spans.len(),
{
    if spans.len() == 0 {
        0
    } else {
        total_marker_count(spans.drop_last()) + span_marker_count(spans.last())
    }
}

proof fn lemma_marker_count_prefix(spans: Seq<SeriesSpan>, i: int)
    requires
        0 <= i <= spans.len(),
    ensures
        0 <= total_marker_count(spans.subrange(0, i)) <= total_marker_count(spans),
    decreases spans.len(),
{
    if spans.len() > 0 {
        if i == spans.len() {
            assert(spans.subrange(0, i) == spans);
            lemma_marker_count_prefix(spans.drop_last(), i - 1);
            assert(spans.drop_last().subrange(0, i - 1) == spans.drop_last());
        } else {
            lemma_marker_count_prefix(spans.drop_last(), i);
            assert(spans.drop_last().subrange(0, i) == spans.subrange(0, i));
        }
    }
}

/// Number of marker instances that the marker buffer holds.
pub fn marker_instance_count(series: &Vec<SeriesSpan>) -> (res: usize)
    requires
        total_marker_count(series@) <= usize::MAX,
    ensures
        res == total_marker_count(series@),
{
    let mut count: usize = 0;
    let mut i: usize = 0;
    while i < series.len()
        invariant
            i <= series.len(),
            count == total_marker_count(series@.subrange(0, i as int)),
            total_marker_count(series@) <= usize::MAX,
        decreases series.len() - i,
    {
        proof {
            assert(series@.subrange(0, i + 1).drop_last() == series@.subrange(0, i as int));
            lemma_marker_count_prefix(series@, i + 1);
        }
        if series[i].marker != NO_MARKER {
            count = count + series[i].len;
        }
        i = i + 1;
    }
    assert(series@.subrange(0, series.len() as int) == series@);
    count
}

/// The span's markers are uploaded: it draws markers, is non-empty, and lies
/// within the `points_len` rendered points.
pub open spec fn span_uploads_markers(s: SeriesSpan, points_len: int) -> bool {
    &&& s.marker != NO_MARKER
    &&& s.len != 0
    &&& s.start + s.len <= points_len
}

/// Source index of the span's `local`-th rendered point; the local index itself
/// when the span records none.
pub open spec fn source_index(s: SeriesSpan, local: int) -> usize {
    if local < s.point_indices@.len() {
        s.point_indices@[local]
    } else {
        local as usize
    }
}

/// Picking identifiers of a span's uploaded markers: for each, the span's index
/// and the point's source index, both as `u32`.
pub open spec fn span_pick_ids(s: SeriesSpan, span_index: int, points_len: int) -> Seq<(u32, u32)> {
    if span_uploads_markers(s, points_len) {
        Seq::new(s.len as nat, |i: int| (span_index as u32, source_index(s, i) as u32))
    } else {
        Seq::empty()
    }
}

/// Picking identifiers of all uploaded markers, span after span.
pub open spec fn pick_ids(spans: Seq<SeriesSpan>, points_len: int) -> Seq<(u32, u32)>
    decreases spans.len(),
{
    if spans.len() == 0 {
        Seq::empty()
    } else {
        pick_ids(spans.drop_last(), points_len) + span_pick_ids(
            spans.last(),
            spans.len() - 1,
            points_len,
        )
    }
}

/// The picking identifier map of the marker buffer: entry `k` names the span and
/// source point of the `k`-th uploaded marker.
pub fn marker_pick_ids(series: &Vec<SeriesSpan>, points_len: usize) -> (ids: Vec<(u32, u32)>)
    requires
        forall|j: int|
            0 <= j < series@.len() && (#[trigger] series@[j]).marker != NO_MARKER ==> series@[j].start
                + series@[j].len <= usize::MAX,
    ensures
        ids@ == pick_ids(series@, points_len as int),
{
    let mut ids: Vec<(u32, u32)> = Vec::new();
    let mut j: usize = 0;
    while j < series.len()
        invariant
            j <= series.len(),
            ids@ == pick_ids(series@.subrange(0, j as int), points_len as int),
            forall|k: int|
                0 <= k < series@.len() && (#[trigger] series@[k]).marker != NO_MARKER
                    ==> series@[k].start + series@[k].len <= usize::MAX,
        decreases series.len() - j,
    {
        let s = &series[j];
        proof {
            assert(series@.subrange(0, j + 1).drop_last() == series@.subrange(0, j as int));
            assert(series@.subrange(0, j + 1).last() == series@[j as int]);
        }
        if s.marker != NO_MARKER {
            let end = s.start + s.len;
            if s.len != 0 && end <= points_len {
                let ghost before = ids@;
                let mut local: usize = 0;
                while local < s.len
                    invariant
                        local <= s.len,
                        s == series@[j as int],
                        ids@ == before + Seq::new(
                            local as nat,
                            |i: int| (j as u32, source_index(*s, i) as u32),
                        ),
                    decreases s.len - local,
                {
                    let source = if local < s.point_indices.len() {
                        s.point_indices[local]
                    } else {
                        local
                    };
                    ids.push((j as u32, source as u32));
                    local = local + 1;
                    proof {
                        assert(ids@ =~= before + Seq::new(
                            local as nat,
                            |i: int| (j as u32, source_index(*s, i) as u32),
                        ));
                    }
                }
                proof {
                    assert(ids@ =~= pick_ids(series@.subrange(0, j + 1), points_len as int));
                }
            } else {
                proof {
                    assert(ids@ =~= pick_ids(series@.subrange(0, j + 1), points_len as int));
                }
            }
        } else {
            proof {
                assert(ids@ =~= pick_ids(series@.subrange(0, j + 1), points_len as int));
            }
        }
        j = j + 1;
    }
    assert(series@.subrange(0, series.len() as int) == series@);
    ids
}


/// When every span lies within the `n` rendered points (as assembled spans do),
/// the picking map has exactly one entry per marker instance: the buffer's
/// instance count and its pick identifiers agree.
pub proof fn lemma_pick_ids_cover_markers(spans: Seq<SeriesSpan>, n: int)
    requires
        forall|k: int| 0 <= k < spans.len() ==> (#[trigger] spans[k]).start + spans[k].len <= n,
    ensures
        pick_ids(spans, n).len() == total_marker_count(spans),
    decreases spans.len(),
{
    if spans.len() > 0 {
        let rest = spans.drop_last();
        assert forall|k: int| 0 <= k < rest.len() implies (#[trigger] rest[k]).start + rest[k].len
            <= n by {
            assert(rest[k] == spans[k]);
        }
        lemma_pick_ids_cover_markers(rest, n);
        assert(spans.last() == spans[spans.len() - 1]);
    }
}

} // verus!
