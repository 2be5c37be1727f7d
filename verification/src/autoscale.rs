//! The bounds that a full autoscale fits the camera to.

use vstd::prelude::*;

verus! {

/// The bounds a full autoscale fits: the data bounds when the plot has data,
/// else `fallback`; then, on each axis, the user's limits in plot coordinates
/// when they are set and map to plot coordinates.
pub open spec fn autoscale_bounds<T>(
    fallback: ([T; 2], [T; 2]),
    data: Option<([T; 2], [T; 2])>,
    x_lim: Option<(T, T)>,
    y_lim: Option<(T, T)>,
) -> (Seq<T>, Seq<T>) {
    let base = match data {
        Some(b) => b,
        None => fallback,
    };
    let (x_min, x_max) = match x_lim {
        Some(l) => l,
        None => (base.0[0], base.1[0]),
    };
    let (y_min, y_max) = match y_lim {
        Some(l) => l,
        None => (base.0[1], base.1[1]),
    };
    (seq![x_min, y_min], seq![x_max, y_max])
}

/// Computes the `(min, max)` corners that a full autoscale fits the camera to.
/// `x_lim` and `y_lim` are the axis limits already mapped to plot coordinates
/// (`None` when unset or when either end has no plot coordinate).
pub fn autoscale_target<T: Copy>(
    fallback: ([T; 2], [T; 2]),
    data: Option<([T; 2], [T; 2])>,
    x_lim: Option<(T, T)>,
    y_lim: Option<(T, T)>,
) -> (res: ([T; 2], [T; 2]))
    ensures
        (res.0@, res.1@) == autoscale_bounds(fallback, data, x_lim, y_lim),
{
    let (mut min_v, mut max_v) = match data {
        Some(b) => b,
        None => fallback,
    };
    if let Some((y_min, y_max)) = y_lim {
        min_v = [min_v[0], y_min];
        max_v = [max_v[0], y_max];
    }
    if let Some((x_min, x_max)) = x_lim {
        min_v = [x_min, min_v[1]];
        max_v = [x_max, max_v[1]];
    }
    proof {
        assert(min_v@ =~= autoscale_bounds(fallback, data, x_lim, y_lim).0);
        assert(max_v@ =~= autoscale_bounds(fallback, data, x_lim, y_lim).1);
    }
    (min_v, max_v)
}

/// A corner of the data bounds from the running bounds of each axis: none when
/// neither axis has data, else each axis' bound, or `fallback` for an axis
/// without data.
pub fn data_corner<T: Copy>(x: Option<T>, y: Option<T>, fallback: T) -> (res: Option<[T; 2]>)
    ensures
        (x is None && y is None) ==> res is None,
        !(x is None && y is None) ==> (res matches Some(c) && c@ == seq![
            match x {
                Some(v) => v,
                None => fallback,
            },
            match y {
                Some(v) => v,
                None => fallback,
            },
        ]),
{
    if x.is_none() && y.is_none() {
        return None;
    }
    let cx = match x {
        Some(v) => v,
        None => fallback,
    };
    let cy = match y {
        Some(v) => v,
        None => fallback,
    };
    let c = [cx, cy];
    assert(c@ =~= seq![cx, cy]);
    Some(c)
}

} // verus!
