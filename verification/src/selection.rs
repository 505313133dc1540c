//! Picking out items of a sequence, told by their places.

use vstd::prelude::*;

verus! {

/// Whether `places` are exactly the places of `items` at which `wanted` holds,
/// in order.
pub open spec fn selects<A>(
    items: Seq<A>,
    wanted: spec_fn(A) -> bool,
    places: Seq<int>,
) -> bool {
    &&& forall|i: int, j: int| 0 <= i < j < places.len() ==> #[trigger] places[i] < #[trigger] places[j]
    &&& forall|i: int|
        0 <= i < places.len() ==> 0 <= #[trigger] places[i] < items.len() && wanted(items[places[i]])
    &&& forall|k: int|
        0 <= k < items.len() && wanted(#[trigger] items[k]) ==> places.contains(k)
}

/// The items at `places`.
pub open spec fn items_at<A>(items: Seq<A>, places: Seq<int>) -> Seq<A> {
    Seq::new(places.len(), |n: int| items[places[n]])
}

/// Filtering picks out exactly the items that are wanted, in order.
pub proof fn filter_selects<A>(items: Seq<A>, wanted: spec_fn(A) -> bool) -> (places: Seq<int>)
    ensures
        selects(items, wanted, places),
        items.filter(wanted) == items_at(items, places),
    decreases items.len(),
{
    reveal(Seq::filter);
    if items.len() == 0 {
        let places = Seq::<int>::empty();
        assert(items.filter(wanted) =~= items_at(items, places));
        places
    } else {
        let shorter = items.drop_last();
        let rest = filter_selects(shorter, wanted);
        let n = items.len() - 1;
        let places = if wanted(items.last()) {
            rest.push(n)
        } else {
            rest
        };
        assert(items_at(shorter, rest) =~= items_at(items, rest));
        assert(items.filter(wanted) =~= items_at(items, places));
        assert forall|k: int| 0 <= k < items.len() && wanted(#[trigger] items[k]) implies
            places.contains(k) by {
            if k < n {
                assert(wanted(shorter[k]));
                let m = choose|m: int| 0 <= m < rest.len() && rest[m] == k;
                assert(places[m] == k);
            } else {
                assert(places[places.len() - 1] == k);
            }
        }
        places
    }
}

/// Two lists of places that are picked out by predicates that agree are both
/// picked out by either.
pub proof fn selects_alike<A>(
    items: Seq<A>,
    wanted: spec_fn(A) -> bool,
    also: spec_fn(A) -> bool,
    places: Seq<int>,
)
    requires
        selects(items, wanted, places),
        forall|k: int| 0 <= k < items.len() ==> wanted(#[trigger] items[k]) == also(items[k]),
    ensures
        selects(items, also, places),
{
}

} // verus!
