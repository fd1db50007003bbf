//! The range of cells that changed since the grid was last flushed: how one
//! written index is merged into it, and what it is after any number of writes.

use vstd::prelude::*;

verus! {

/// A half-open range `[start, end)` of linear indices into the grid.
pub ghost struct Span {
    pub start: nat,
    pub end: nat,
}

/// The pending range after the cell at `index` is written: the smallest range
/// that holds `pending` and `index`.
pub open spec fn merge(pending: Option<Span>, index: nat) -> Option<Span> {
    match pending {
        None => Some(Span { start: index, end: index + 1 }),
        Some(span) => Some(
            Span {
                start: if index < span.start { index } else { span.start },
                end: if index >= span.end { index + 1 } else { span.end },
            },
        ),
    }
}

/// The pending range after the cells at `indices` are written one after the
/// other, starting from `pending`.
pub open spec fn merge_all(pending: Option<Span>, indices: Seq<nat>) -> Option<Span>
    decreases indices.len(),
{
    if indices.len() == 0 {
        pending
    } else {
        merge(merge_all(pending, indices.drop_last()), indices.last())
    }
}

/// The least of `indices`, which must not be empty.
pub open spec fn lowest(indices: Seq<nat>) -> nat
    recommends
        indices.len() > 0,
    decreases indices.len(),
{
    if indices.len() <= 1 {
        indices[0]
    } else if indices.last() < lowest(indices.drop_last()) {
        indices.last()
    } else {
        lowest(indices.drop_last())
    }
}

/// The greatest of `indices`, which must not be empty.
pub open spec fn highest(indices: Seq<nat>) -> nat
    recommends
        indices.len() > 0,
    decreases indices.len(),
{
    if indices.len() <= 1 {
        indices[0]
    } else if indices.last() > highest(indices.drop_last()) {
        indices.last()
    } else {
        highest(indices.drop_last())
    }
}

/// `lowest` and `highest` are what their names say: each is one of the
/// indices, and every index lies between them.
pub proof fn lemma_lowest_highest(indices: Seq<nat>)
    requires
        indices.len() > 0,
    ensures
        indices.contains(lowest(indices)),
        indices.contains(highest(indices)),
        forall|k: int|
            0 <= k < indices.len() ==> lowest(indices) <= #[trigger] indices[k] <= highest(indices),
    decreases indices.len(),
{
    if indices.len() > 1 {
        let front = indices.drop_last();
        lemma_lowest_highest(front);
        let lo = choose|k: int| 0 <= k < front.len() && front[k] == lowest(front);
        let hi = choose|k: int| 0 <= k < front.len() && front[k] == highest(front);
        assert(indices[lo] == lowest(front));
        assert(indices[hi] == highest(front));
        assert(indices[indices.len() - 1] == indices.last());
        assert forall|k: int| 0 <= k < indices.len() implies lowest(indices) <= #[trigger] indices[k]
            <= highest(indices) by {
            if k < front.len() {
                assert(front[k] == indices[k]);
            }
        }
    } else {
        assert(indices[0] == lowest(indices));
    }
}

/// Dirty-range coalescing. Writing any cells, in any order, to a grid with
/// nothing pending leaves the range from the least written index up to and
/// including the greatest one.
pub proof fn lemma_coalescing(indices: Seq<nat>)
    requires
        indices.len() > 0,
    ensures
        merge_all(None, indices) == Some(
            Span { start: lowest(indices), end: highest(indices) + 1 },
        ),
    decreases indices.len(),
{
    if indices.len() > 1 {
        lemma_coalescing(indices.drop_last());
    } else {
        assert(indices.drop_last().len() == 0);
        assert(merge_all(None, indices.drop_last()) == None::<Span>);
    }
}

/// Coalescing onto a range that is already pending: the writes widen it just
/// enough to hold the least and the greatest written index.
pub proof fn lemma_coalescing_onto(span: Span, indices: Seq<nat>)
    requires
        indices.len() > 0,
    ensures
        merge_all(Some(span), indices) == Some(
            Span {
                start: if lowest(indices) < span.start { lowest(indices) } else { span.start },
                end: if highest(indices) >= span.end { highest(indices) + 1 } else { span.end },
            },
        ),
    decreases indices.len(),
{
    if indices.len() > 1 {
        lemma_coalescing_onto(span, indices.drop_last());
    } else {
        assert(indices.drop_last().len() == 0);
        assert(merge_all(Some(span), indices.drop_last()) == Some(span));
    }
}

} // verus!
