//! Resolution of fill endpoints and the choice of how a fill between two shapes is built.

use vstd::prelude::*;

use crate::message::ShapeId;

verus! {

/// The identifiers of the shapes a fill may span, in the widget's order.
///
/// A fill endpoint is looked up among the series first, then among the
/// horizontal reference lines, then among the vertical ones.
pub struct ShapeRegistry {
    /// Identifiers of the series.
    pub series: Vec<ShapeId>,
    /// Identifiers of the horizontal reference lines.
    pub hlines: Vec<ShapeId>,
    /// Identifiers of the vertical reference lines.
    pub vlines: Vec<ShapeId>,
}

/// One end of a fill: the kind of shape, and its position in the registry.
#[derive(Debug, Clone, Copy, PartialEq, Eq, Structural)]
pub enum FillEndpoint {
    /// A series, by index into `ShapeRegistry::series`.
    Series(usize),
    /// A horizontal reference line, by index into `ShapeRegistry::hlines`.
    HLine(usize),
    /// A vertical reference line, by index into `ShapeRegistry::vlines`.
    VLine(usize),
}

/// `i` is the first position of `id` in `ids`.
pub open spec fn first_index_of(ids: Seq<ShapeId>, id: ShapeId, i: int) -> bool {
    &&& 0 <= i < ids.len()
    &&& ids[i] == id
    &&& forall|j: int| 0 <= j < i ==> ids[j] != id
}

/// What `resolve_fill_endpoint` returns for `id`: the first series with that
/// identifier; failing that, the first horizontal line; failing that, the
/// first vertical line; and nothing when no shape has that identifier.
pub open spec fn fill_endpoint_of(reg: &ShapeRegistry, id: ShapeId) -> Option<FillEndpoint> {
    if reg.series@.contains(id) {
        Some(FillEndpoint::Series(choose|i: usize| first_index_of(reg.series@, id, i as int)))
    } else if reg.hlines@.contains(id) {
        Some(FillEndpoint::HLine(choose|i: usize| first_index_of(reg.hlines@, id, i as int)))
    } else if reg.vlines@.contains(id) {
        Some(FillEndpoint::VLine(choose|i: usize| first_index_of(reg.vlines@, id, i as int)))
    } else {
        None
    }
}

/// Position of the first occurrence of `id` in `ids`.
fn find_shape(ids: &Vec<ShapeId>, id: ShapeId) -> (res: Option<usize>)
    ensures
        match res {
            Some(i) => first_index_of(ids@, id, i as int),
            None => !ids@.contains(id),
        },
{
    let mut i: usize = 0;
    while i < ids.len()
        invariant
            i <= ids.len(),
            forall|j: int| 0 <= j < i ==> ids@[j] != id,
        decreases ids.len() - i,
    {
        if ids[i] == id {
            return Some(i);
        }
        i = i + 1;
    }
    None
}

/// The first index satisfying `first_index_of` is unique.
proof fn lemma_first_index_unique(ids: Seq<ShapeId>, id: ShapeId, i: int, k: int)
    requires
        first_index_of(ids, id, i),
        first_index_of(ids, id, k),
    ensures
        i == k,
{
}

/// Looks up the shape that a fill endpoint identifier refers to.
pub fn resolve_fill_endpoint(widget: &ShapeRegistry, id: ShapeId) -> (res: Option<FillEndpoint>)
    ensures
        res == fill_endpoint_of(widget, id),
{
    if let Some(i) = find_shape(&widget.series, id) {
        proof {
            let k = choose|k: usize| first_index_of(widget.series@, id, k as int);
            lemma_first_index_unique(widget.series@, id, i as int, k as int);
        }
        return Some(FillEndpoint::Series(i));
    }
    if let Some(i) = find_shape(&widget.hlines, id) {
        proof {
            let k = choose|k: usize| first_index_of(widget.hlines@, id, k as int);
            lemma_first_index_unique(widget.hlines@, id, i as int, k as int);
        }
        return Some(FillEndpoint::HLine(i));
    }
    if let Some(i) = find_shape(&widget.vlines, id) {
        proof {
            let k = choose|k: usize| first_index_of(widget.vlines@, id, k as int);
            lemma_first_index_unique(widget.vlines@, id, i as int, k as int);
        }
        return Some(FillEndpoint::VLine(i));
    }
    None
}

/// How a fill between two shapes is built.
#[derive(Debug, Clone, Copy, PartialEq, Eq, Structural)]
pub enum FillPlan {
    /// Between two series (indices into `ShapeRegistry::series`), over the x range
    /// they share.
    BetweenSeries { first: usize, second: usize },
    /// Between a series and a horizontal line, under each segment of the series.
    SeriesToHLine { series: usize, hline: usize },
    /// Between a series and a vertical line, beside each segment of the series.
    SeriesToVLine { series: usize, vline: usize },
    /// Between two horizontal lines, across the plot's x domain.
    BetweenHLines { first: usize, second: usize },
    /// Between two vertical lines, across the plot's y domain.
    BetweenVLines { first: usize, second: usize },
}

/// The fill drawn between endpoints `begin` and `end`: none when either is
/// unknown or when one is a horizontal and the other a vertical line. A fill
/// between a series and a reference line is the same whichever end the series is.
pub open spec fn fill_plan_of(begin: Option<FillEndpoint>, end: Option<FillEndpoint>) -> Option<FillPlan> {
    match (begin, end) {
        (Some(FillEndpoint::Series(a)), Some(FillEndpoint::Series(b))) => Some(
            FillPlan::BetweenSeries { first: a, second: b },
        ),
        (Some(FillEndpoint::Series(s)), Some(FillEndpoint::HLine(h))) => Some(
            FillPlan::SeriesToHLine { series: s, hline: h },
        ),
        (Some(FillEndpoint::HLine(h)), Some(FillEndpoint::Series(s))) => Some(
            FillPlan::SeriesToHLine { series: s, hline: h },
        ),
        (Some(FillEndpoint::Series(s)), Some(FillEndpoint::VLine(v))) => Some(
            FillPlan::SeriesToVLine { series: s, vline: v },
        ),
        (Some(FillEndpoint::VLine(v)), Some(FillEndpoint::Series(s))) => Some(
            FillPlan::SeriesToVLine { series: s, vline: v },
        ),
        (Some(FillEndpoint::HLine(a)), Some(FillEndpoint::HLine(b))) => Some(
            FillPlan::BetweenHLines { first: a, second: b },
        ),
        (Some(FillEndpoint::VLine(a)), Some(FillEndpoint::VLine(b))) => Some(
            FillPlan::BetweenVLines { first: a, second: b },
        ),
        _ => None,
    }
}

/// Decides how the fill between the shapes `begin` and `end` is built.
pub fn plan_fill(widget: &ShapeRegistry, begin: ShapeId, end: ShapeId) -> (res: Option<FillPlan>)
    ensures
        res == fill_plan_of(fill_endpoint_of(widget, begin), fill_endpoint_of(widget, end)),
{
    let b = resolve_fill_endpoint(widget, begin);
    let e = resolve_fill_endpoint(widget, end);
    match (b, e) {
        (Some(FillEndpoint::Series(a)), Some(FillEndpoint::Series(c))) => Some(
            FillPlan::BetweenSeries { first: a, second: c },
        ),
        (Some(FillEndpoint::Series(s)), Some(FillEndpoint::HLine(h))) => Some(
            FillPlan::SeriesToHLine { series: s, hline: h },
        ),
        (Some(FillEndpoint::HLine(h)), Some(FillEndpoint::Series(s))) => Some(
            FillPlan::SeriesToHLine { series: s, hline: h },
        ),
        (Some(FillEndpoint::Series(s)), Some(FillEndpoint::VLine(v))) => Some(
            FillPlan::SeriesToVLine { series: s, vline: v },
        ),
        (Some(FillEndpoint::VLine(v)), Some(FillEndpoint::Series(s))) => Some(
            FillPlan::SeriesToVLine { series: s, vline: v },
        ),
        (Some(FillEndpoint::HLine(a)), Some(FillEndpoint::HLine(c))) => Some(
            FillPlan::BetweenHLines { first: a, second: c },
        ),
        (Some(FillEndpoint::VLine(a)), Some(FillEndpoint::VLine(c))) => Some(
            FillPlan::BetweenVLines { first: a, second: c },
        ),
        _ => None,
    }
}

/// A fill between a series and a reference line does not depend on which end
/// names the series; a fill between a horizontal and a vertical line, or with
/// an unknown end, is never drawn.
pub proof fn lemma_fill_plan_shape(widget: &ShapeRegistry, begin: ShapeId, end: ShapeId)
    ensures
        ({
            let b = fill_endpoint_of(widget, begin);
            let e = fill_endpoint_of(widget, end);
            &&& (b is None || e is None) ==> fill_plan_of(b, e) is None
            &&& (b matches Some(FillEndpoint::HLine(_))) && (e matches Some(FillEndpoint::VLine(_)))
                ==> fill_plan_of(b, e) is None
            &&& (b matches Some(FillEndpoint::VLine(_))) && (e matches Some(FillEndpoint::HLine(_)))
                ==> fill_plan_of(b, e) is None
            &&& (b matches Some(FillEndpoint::Series(_))) && !(e matches Some(
                FillEndpoint::Series(_),
            )) ==> fill_plan_of(b, e) == fill_plan_of(e, b)
        }),
{
}

/// Appends the quad `a0 b0 a1 b1` as two triangles, `a0 b0 a1` and `a1 b0 b1`.
pub fn push_quad_as_triangles<T: Copy>(vertices: &mut Vec<T>, a0: T, b0: T, a1: T, b1: T)
    ensures
        final(vertices)@ == old(vertices)@ + seq![a0, b0, a1, a1, b0, b1],
{
    vertices.push(a0);
    vertices.push(b0);
    vertices.push(a1);
    vertices.push(a1);
    vertices.push(b0);
    vertices.push(b1);
}

/// The band between two horizontal lines at `y0` and `y1`, across `x0..x1`, as
/// two triangles.
pub fn hline_band_triangles<T: Copy>(x0: T, x1: T, y0: T, y1: T) -> (v: Vec<[T; 2]>)
    ensures
        v@.len() == 6,
        v@[0]@ == seq![x0, y0] && v@[1]@ == seq![x0, y1] && v@[2]@ == seq![x1, y0],
        v@[3]@ == seq![x1, y0] && v@[4]@ == seq![x0, y1] && v@[5]@ == seq![x1, y1],
{
    let mut v: Vec<[T; 2]> = Vec::new();
    push_quad_as_triangles(&mut v, [x0, y0], [x0, y1], [x1, y0], [x1, y1]);
    v
}

/// The band between two vertical lines at `x0` and `x1`, across `y0..y1`, as
/// two triangles.
pub fn vline_band_triangles<T: Copy>(x0: T, x1: T, y0: T, y1: T) -> (v: Vec<[T; 2]>)
    ensures
        v@.len() == 6,
        v@[0]@ == seq![x0, y0] && v@[1]@ == seq![x1, y0] && v@[2]@ == seq![x0, y1],
        v@[3]@ == seq![x0, y1] && v@[4]@ == seq![x1, y0] && v@[5]@ == seq![x1, y1],
{
    let mut v: Vec<[T; 2]> = Vec::new();
    push_quad_as_triangles(&mut v, [x0, y0], [x1, y0], [x0, y1], [x1, y1]);
    v
}

/// The triangles of the strip between a polyline and its projection: one quad,
/// as two triangles, per segment.
pub open spec fn strip_triangles<T>(points: Seq<T>, projected: Seq<T>) -> Seq<T>
    decreases points.len(),
{
    if points.len() < 2 {
        Seq::empty()
    } else {
        let n = points.len() - 1;
        strip_triangles(points.drop_last(), projected) + seq![
            points[n - 1],
            projected[n - 1],
            points[n],
            points[n],
            projected[n - 1],
            projected[n],
        ]
    }
}

/// The strip has six vertices per segment: for segment `i`, the triangles
/// `points[i] projected[i] points[i+1]` and `points[i+1] projected[i] projected[i+1]`.
pub proof fn lemma_strip_triangles<T>(points: Seq<T>, projected: Seq<T>)
    ensures
        points.len() >= 2 ==> strip_triangles(points, projected).len() == 6 * (points.len() - 1),
        points.len() < 2 ==> strip_triangles(points, projected).len() == 0,
        forall|i: int|
            #![trigger strip_triangles(points, projected)[6 * i]]
            0 <= i < points.len() - 1 ==> {
                let v = strip_triangles(points, projected);
                &&& v[6 * i] == points[i]
                &&& v[6 * i + 1] == projected[i]
                &&& v[6 * i + 2] == points[i + 1]
                &&& v[6 * i + 3] == points[i + 1]
                &&& v[6 * i + 4] == projected[i]
                &&& v[6 * i + 5] == projected[i + 1]
            },
    decreases points.len(),
{
    if points.len() >= 2 {
        let rest = points.drop_last();
        lemma_strip_triangles(rest, projected);
        let v = strip_triangles(points, projected);
        let r = strip_triangles(rest, projected);
        assert forall|i: int|
            #![trigger strip_triangles(points, projected)[6 * i]]
            0 <= i < points.len() - 1 implies {
                &&& v[6 * i] == points[i]
                &&& v[6 * i + 1] == projected[i]
                &&& v[6 * i + 2] == points[i + 1]
                &&& v[6 * i + 3] == points[i + 1]
                &&& v[6 * i + 4] == projected[i]
                &&& v[6 * i + 5] == projected[i + 1]
            } by {
            if i < points.len() - 2 {
                assert(r[6 * i] == rest[i]);
                assert(rest[i] == points[i] && rest[i + 1] == points[i + 1]);
                assert(v[6 * i] == r[6 * i]);
                assert(v[6 * i + 1] == r[6 * i + 1]);
                assert(v[6 * i + 2] == r[6 * i + 2]);
                assert(v[6 * i + 3] == r[6 * i + 3]);
                assert(v[6 * i + 4] == r[6 * i + 4]);
                assert(v[6 * i + 5] == r[6 * i + 5]);
            } else {
                assert(6 * i == r.len());
            }
        }
    }
}

/// Triangulates the strip between the points of a series and their projections
/// onto a reference line (`projected[i]` being the projection of `points[i]`):
/// six vertices per segment of the series.
pub fn strip_to_line_triangles<T: Copy>(points: &Vec<T>, projected: &Vec<T>) -> (vertices: Vec<T>)
    requires
        projected@.len() == points@.len(),
    ensures
        vertices@ == strip_triangles(points@, projected@),
        points@.len() >= 2 ==> vertices@.len() == 6 * (points@.len() - 1),
        points@.len() < 2 ==> vertices@.len() == 0,
        forall|i: int|
            0 <= i < points@.len() - 1 ==> {
                &&& vertices@[6 * i] == points@[i]
                &&& #[trigger] vertices@[6 * i + 1] == projected@[i]
                &&& vertices@[6 * i + 2] == points@[i + 1]
                &&& vertices@[6 * i + 3] == points@[i + 1]
                &&& vertices@[6 * i + 4] == projected@[i]
                &&& vertices@[6 * i + 5] == projected@[i + 1]
            },
{
    let mut vertices: Vec<T> = Vec::new();
    if points.len() < 2 {
        return vertices;
    }
    let mut i: usize = 1;
    while i < points.len()
        invariant
            1 <= i <= points@.len(),
            projected@.len() == points@.len(),
            vertices@ == strip_triangles(points@.subrange(0, i as int), projected@),
            vertices@.len() == 6 * (i - 1),
        decreases points.len() - i,
    {
        proof {
            assert(points@.subrange(0, i + 1).drop_last() == points@.subrange(0, i as int));
        }
        push_quad_as_triangles(
            &mut vertices,
            points[i - 1],
            projected[i - 1],
            points[i],
            projected[i],
        );
        i = i + 1;
    }
    assert(points@.subrange(0, points@.len() as int) == points@);
    proof {
        lemma_strip_triangles(points@, projected@);
        assert forall|i: int| 0 <= i < points@.len() - 1 implies {
            &&& vertices@[6 * i] == points@[i]
            &&& #[trigger] vertices@[6 * i + 1] == projected@[i]
            &&& vertices@[6 * i + 2] == points@[i + 1]
            &&& vertices@[6 * i + 3] == points@[i + 1]
            &&& vertices@[6 * i + 4] == projected@[i]
            &&& vertices@[6 * i + 5] == projected@[i + 1]
        } by {
            assert(strip_triangles(points@, projected@)[6 * i] == points@[i]);
        }
    }
    vertices
}

} // verus!
