//! Which shapes are drawn, given the set of shapes the user has hidden.

use vstd::prelude::*;

use crate::message::ShapeId;
use crate::spans::kept_indices;

verus! {

/// The shape `id` is among the `hidden` ones.
pub fn is_hidden(hidden: &Vec<ShapeId>, id: ShapeId) -> (res: bool)
    ensures
        res == hidden@.contains(id),
{
    let mut i: usize = 0;
    while i < hidden.len()
        invariant
            i <= hidden.len(),
            forall|j: int| 0 <= j < i ==> hidden@[j] != id,
        decreases hidden.len() - i,
    {
        if hidden[i] == id {
            return true;
        }
        i = i + 1;
    }
    false
}

/// A fill is drawn when neither it nor either of its two ends is hidden.
pub fn fill_visible(hidden: &Vec<ShapeId>, fill_id: ShapeId, begin: ShapeId, end: ShapeId) -> (res:
    bool)
    ensures
        res == !(hidden@.contains(fill_id) || hidden@.contains(begin) || hidden@.contains(end)),
{
    !is_hidden(hidden, fill_id) && !is_hidden(hidden, begin) && !is_hidden(hidden, end)
}

/// For each shape, whether it is drawn.
pub open spec fn shown_flags(ids: Seq<ShapeId>, hidden: Seq<ShapeId>) -> Seq<bool> {
    ids.map_values(|id: ShapeId| !hidden.contains(id))
}

/// Positions, in order, of the shapes among `ids` that are not hidden.
pub fn visible_shapes(ids: &Vec<ShapeId>, hidden: &Vec<ShapeId>) -> (res: Vec<usize>)
    ensures
        res@ == kept_indices(shown_flags(ids@, hidden@)),
{
    let mut res: Vec<usize> = Vec::new();
    let mut i: usize = 0;
    while i < ids.len()
        invariant
            i <= ids.len(),
            res@ == kept_indices(shown_flags(ids@, hidden@).subrange(0, i as int)),
        decreases ids.len() - i,
    {
        proof {
            assert(shown_flags(ids@, hidden@).subrange(0, i + 1).drop_last() == shown_flags(
                ids@,
                hidden@,
            ).subrange(0, i as int));
        }
        if !is_hidden(hidden, ids[i]) {
            res.push(i);
        }
        i = i + 1;
    }
    assert(shown_flags(ids@, hidden@).subrange(0, ids.len() as int) == shown_flags(ids@, hidden@));
    res
}

} // verus!
