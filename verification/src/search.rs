//! The first item of a sequence that is wanted.

use vstd::prelude::*;

verus! {

/// The index of the first item that is wanted.
pub open spec fn first_where<A>(items: Seq<A>, wanted: spec_fn(A) -> bool) -> Option<int>
    decreases items.len(),
{
    if items.len() == 0 {
        None
    } else {
        match first_where(items.drop_last(), wanted) {
            Some(index) => Some(index),
            None => if wanted(items.last()) {
                Some(items.len() - 1)
            } else {
                None
            },
        }
    }
}

/// The item that is found is wanted and none before it is; if none is found,
/// none is wanted.
pub proof fn law_first_where<A>(items: Seq<A>, wanted: spec_fn(A) -> bool)
    ensures
        match first_where(items, wanted) {
            Some(index) => {
                &&& 0 <= index < items.len()
                &&& wanted(items[index])
                &&& forall|i: int| 0 <= i < index ==> !wanted(#[trigger] items[i])
            },
            None => forall|i: int| 0 <= i < items.len() ==> !wanted(#[trigger] items[i]),
        },
    decreases items.len(),
{
    if items.len() > 0 {
        law_first_where(items.drop_last(), wanted);
        assert forall|i: int| 0 <= i < items.len() - 1 implies items[i] == #[trigger]
            items.drop_last()[i] by {}
        assert forall|i: int| 0 <= i < items.len() - 1 implies #[trigger] items[i]
            == items.drop_last()[i] by {}
    }
}

/// If a wanted item is found in a prefix, the items behind do not matter.
pub proof fn lemma_first_where_of_prefix<A>(
    items: Seq<A>,
    wanted: spec_fn(A) -> bool,
    count: int,
)
    requires
        0 <= count <= items.len(),
        first_where(items.take(count), wanted) is Some,
    ensures
        first_where(items, wanted) == first_where(items.take(count), wanted),
    decreases items.len(),
{
    if count == items.len() {
        assert(items.take(count) =~= items);
    } else {
        assert(items.drop_last().take(count) =~= items.take(count));
        lemma_first_where_of_prefix(items.drop_last(), wanted, count);
    }
}

/// Sequences whose items are wanted at the same places have the same first
/// wanted item.
pub proof fn lemma_first_where_agrees<A, B>(
    items: Seq<A>,
    wanted: spec_fn(A) -> bool,
    others: Seq<B>,
    also_wanted: spec_fn(B) -> bool,
)
    requires
        items.len() == others.len(),
        forall|i: int|
            0 <= i < items.len() ==> wanted(#[trigger] items[i]) == also_wanted(others[i]),
    ensures
        first_where(items, wanted) == first_where(others, also_wanted),
    decreases items.len(),
{
    if items.len() > 0 {
        assert forall|i: int| 0 <= i < items.len() - 1 implies wanted(
            #[trigger] items.drop_last()[i],
        ) == also_wanted(others.drop_last()[i]) by {
            assert(items.drop_last()[i] == items[i]);
        }
        lemma_first_where_agrees(items.drop_last(), wanted, others.drop_last(), also_wanted);
        assert(items.last() == items[items.len() - 1]);
    }
}

} // verus!
