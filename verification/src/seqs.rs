//! Views of sequences, taken item by item.

use vstd::prelude::*;

verus! {

/// The view of each item of `items`, in the same order.
pub open spec fn views<T: View>(items: Seq<T>) -> Seq<T::V> {
    Seq::new(items.len(), |i: int| items[i]@)
}

/// The views of a sequence with one more item are those of the sequence
/// with the view of that item.
pub proof fn lemma_views_push<T: View>(items: Seq<T>, last: T)
    ensures
        views(items.push(last)) == views(items).push(last@),
{
    assert(views(items.push(last)) =~= views(items).push(last@));
}

/// A sequence whose items have, one by one, the views of the items of
/// another has the views of the other.
pub proof fn lemma_views_cloned<T: View + Clone>(source: Seq<T>, copy: Seq<T>)
    requires
        source.len() == copy.len(),
        forall|i: int| 0 <= i < source.len() ==> (#[trigger] copy[i])@ == source[i]@,
    ensures
        views(copy) == views(source),
{
    assert(views(copy) =~= views(source));
}

} // verus!
