//! Views of lists and options of values that have a view.
use vstd::prelude::*;

verus! {

/// The views of the items of a sequence.
pub open spec fn views<T: View>(items: Seq<T>) -> Seq<T::V> {
    items.map_values(|item: T| item@)
}

/// The view of what an option holds.
pub open spec fn view_option<T: View>(item: Option<T>) -> Option<T::V> {
    match item {
        Some(item) => Some(item@),
        None => None,
    }
}

/// Taking views commutes with appending an item.
pub broadcast proof fn lemma_views_push<T: View>(items: Seq<T>, item: T)
    ensures
        #[trigger] views(items.push(item)) == views(items).push(item@),
{
    assert(views(items.push(item)) =~= views(items).push(item@));
}

/// Filtering one more item keeps it or leaves it out.
pub proof fn lemma_filter_push<A>(items: Seq<A>, item: A, keep: spec_fn(A) -> bool)
    ensures
        items.push(item).filter(keep) == if keep(item) {
            items.filter(keep).push(item)
        } else {
            items.filter(keep)
        },
{
    reveal(Seq::filter);
    assert(items.push(item).drop_last() =~= items);
}

/// What a sequence contains after one more item.
pub proof fn lemma_contains_push<A>(items: Seq<A>, item: A, sought: A)
    ensures
        items.push(item).contains(sought) <==> items.contains(sought) || sought == item,
{
    assert(items.push(item)[items.len() as int] == item);
    if items.contains(sought) {
        let k = choose|k: int| 0 <= k < items.len() && items[k] == sought;
        assert(items.push(item)[k] == sought);
    }
    if items.push(item).contains(sought) {
        let k = choose|k: int| 0 <= k < items.len() + 1 && items.push(item)[k] == sought;
        if k < items.len() {
            assert(items[k] == sought);
        }
    }
}

}
