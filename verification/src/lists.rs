//! Sequences: what a filtered, mapped list holds.

use vstd::prelude::*;

verus! {

/// The values `f` gives for the items, in order, without the items it gives
/// none for.
pub open spec fn filter_map<A, B>(items: Seq<A>, f: spec_fn(A) -> Option<B>) -> Seq<B>
    decreases items.len(),
{
    if items.len() == 0 {
        seq![]
    } else {
        let rest = filter_map(items.drop_last(), f);
        match f(items.last()) {
            Some(b) => rest.push(b),
            None => rest,
        }
    }
}

/// The value `f` gives for the first item it gives one for.
pub open spec fn find_map<A, B>(items: Seq<A>, f: spec_fn(A) -> Option<B>) -> Option<B>
    decreases items.len(),
{
    if items.len() == 0 {
        None
    } else {
        match f(items[0]) {
            Some(b) => Some(b),
            None => find_map(items.drop_first(), f),
        }
    }
}

/// What is found is what `f` gives for the first item it gives something for.
pub proof fn lemma_found_first<A, B>(items: Seq<A>, f: spec_fn(A) -> Option<B>, i: int)
    requires
        0 <= i < items.len(),
        f(items[i]) is Some,
        forall|j: int| 0 <= j < i ==> f(#[trigger] items[j]) is None,
    ensures
        find_map(items, f) == f(items[i]),
    decreases items.len(),
{
    if i > 0 {
        assert(f(items[0]) is None);
        let rest = items.drop_first();
        assert forall|j: int| 0 <= j < i - 1 implies f(#[trigger] rest[j]) is None by {
            assert(rest[j] == items[j + 1]);
        }
        lemma_found_first(rest, f, i - 1);
    }
}

/// The value `f` gives for the last item it gives one for.
pub open spec fn find_last<A, B>(items: Seq<A>, f: spec_fn(A) -> Option<B>) -> Option<B>
    decreases items.len(),
{
    if items.len() == 0 {
        None
    } else {
        match f(items.last()) {
            Some(b) => Some(b),
            None => find_last(items.drop_last(), f),
        }
    }
}

/// Taking one more item appends what `f` gives for it.
pub proof fn lemma_filter_map_step<A, B>(items: Seq<A>, f: spec_fn(A) -> Option<B>, i: int)
    requires
        0 <= i < items.len(),
    ensures
        filter_map(items.take(i + 1), f) == match f(items[i]) {
            Some(b) => filter_map(items.take(i), f).push(b),
            None => filter_map(items.take(i), f),
        },
{
    assert(items.take(i + 1).drop_last() =~= items.take(i));
}

/// The list is what its concatenated halves give.
pub proof fn lemma_filter_map_concat<A, B>(a: Seq<A>, b: Seq<A>, f: spec_fn(A) -> Option<B>)
    ensures
        filter_map(a + b, f) == filter_map(a, f) + filter_map(b, f),
    decreases b.len(),
{
    if b.len() == 0 {
        assert(a + b =~= a);
        assert(filter_map(a, f) + filter_map(b, f) =~= filter_map(a, f));
    } else {
        assert((a + b).drop_last() =~= a + b.drop_last());
        lemma_filter_map_concat(a, b.drop_last(), f);
        assert(filter_map(a + b, f) =~= filter_map(a, f) + filter_map(b, f));
    }
}

/// Nothing comes out of a list that `f` gives nothing for.
pub proof fn lemma_filter_map_none<A, B>(items: Seq<A>, f: spec_fn(A) -> Option<B>)
    requires
        forall|i: int| 0 <= i < items.len() ==> f(#[trigger] items[i]) is None,
    ensures
        filter_map(items, f) == Seq::<B>::empty(),
    decreases items.len(),
{
    if items.len() > 0 {
        lemma_filter_map_none(items.drop_last(), f);
    }
}

/// What comes out is what `f` gives for some item, and it gives it for each.
pub proof fn lemma_filter_map_members<A, B>(items: Seq<A>, f: spec_fn(A) -> Option<B>)
    ensures
        forall|b: B| #[trigger]
            filter_map(items, f).contains(b) <==> exists|i: int|
                0 <= i < items.len() && f(#[trigger] items[i]) == Some(b),
    decreases items.len(),
{
    if items.len() > 0 {
        let rest = items.drop_last();
        lemma_filter_map_members(rest, f);
        assert forall|b: B| #[trigger] filter_map(items, f).contains(b) <==> exists|i: int|
            0 <= i < items.len() && f(#[trigger] items[i]) == Some(b) by {
            if filter_map(items, f).contains(b) {
                if f(items.last()) == Some(b) {
                    assert(f(items[items.len() - 1]) == Some(b));
                } else {
                    let k = choose|k: int|
                        0 <= k < filter_map(items, f).len() && filter_map(items, f)[k] == b;
                    assert(filter_map(rest, f)[k] == b);
                    assert(filter_map(rest, f).contains(b));
                    let i = choose|i: int| 0 <= i < rest.len() && f(#[trigger] rest[i]) == Some(b);
                    assert(f(items[i]) == Some(b));
                }
            }
            if exists|i: int| 0 <= i < items.len() && f(#[trigger] items[i]) == Some(b) {
                let i = choose|i: int| 0 <= i < items.len() && f(#[trigger] items[i]) == Some(b);
                let out = filter_map(items, f);
                if i == items.len() - 1 {
                    assert(out[out.len() - 1] == b);
                } else {
                    assert(f(rest[i]) == Some(b));
                    assert(filter_map(rest, f).contains(b));
                    let k = choose|k: int|
                        0 <= k < filter_map(rest, f).len() && filter_map(rest, f)[k] == b;
                    assert(out[k] == b);
                }
            }
        }
    }
}

/// Where `f` gives no value at all, it gives none for any item.
pub proof fn lemma_find_map_none<A, B>(items: Seq<A>, f: spec_fn(A) -> Option<B>, i: int)
    requires
        find_map(items, f) is None,
        0 <= i < items.len(),
    ensures
        f(items[i]) is None,
    decreases items.len(),
{
    if i > 0 {
        lemma_find_map_none(items.drop_first(), f, i - 1);
        assert(items.drop_first()[i - 1] == items[i]);
    }
}

/// Nothing is found where `f` gives nothing for any item.
pub proof fn lemma_none_found<A, B>(items: Seq<A>, f: spec_fn(A) -> Option<B>)
    requires
        forall|j: int| 0 <= j < items.len() ==> f(#[trigger] items[j]) is None,
    ensures
        find_map(items, f) is None,
    decreases items.len(),
{
    if items.len() > 0 {
        let rest = items.drop_first();
        assert forall|j: int| 0 <= j < rest.len() implies f(#[trigger] rest[j]) is None by {
            assert(rest[j] == items[j + 1]);
        }
        lemma_none_found(rest, f);
        assert(f(items[0]) is None);
    }
}

/// A list is filtered item by item, in order: two stretches give what the
/// first does and then what the second does, and one item gives what `f` gives
/// for it.
pub proof fn law_a_list_is_filtered_item_by_item<A, B>(
    a: Seq<A>,
    b: Seq<A>,
    item: A,
    f: spec_fn(A) -> Option<B>,
)
    ensures
        filter_map(a + b, f) == filter_map(a, f) + filter_map(b, f),
        filter_map(seq![item], f) == (match f(item) {
            Some(b) => seq![b],
            None => seq![],
        }),
        filter_map(Seq::<A>::empty(), f) == Seq::<B>::empty(),
{
    lemma_filter_map_concat(a, b, f);
    assert(seq![item].drop_last() =~= seq![]);
    reveal_with_fuel(filter_map, 2);
    assert(filter_map(seq![item].drop_last(), f) =~= seq![]);
    if let Some(b) = f(item) {
        assert(filter_map(seq![item], f) =~= seq![b]);
    }
}

/// What is looked for is the first item's when `f` gives something for it, and
/// otherwise what the rest gives; looking from the end is the same from there.
pub proof fn law_a_search_takes_the_nearest<A, B>(
    items: Seq<A>,
    item: A,
    f: spec_fn(A) -> Option<B>,
)
    ensures
        find_map(Seq::<A>::empty(), f) is None,
        find_last(Seq::<A>::empty(), f) is None,
        find_map(seq![item] + items, f) == (match f(item) {
            Some(b) => Some(b),
            None => find_map(items, f),
        }),
        find_last(items.push(item), f) == (match f(item) {
            Some(b) => Some(b),
            None => find_last(items, f),
        }),
{
    assert((seq![item] + items).drop_first() =~= items);
    assert(items.push(item).drop_last() =~= items);
}

/// What is looked for is found at the first place `f` gives something.
pub proof fn law_a_search_ends_at_the_first_find<A, B>(
    items: Seq<A>,
    f: spec_fn(A) -> Option<B>,
    k: int,
)
    requires
        0 <= k <= items.len(),
        forall|j: int| 0 <= j < k ==> f(#[trigger] items[j]) is None,
        k < items.len() ==> f(items[k]) is Some,
    ensures
        find_map(items, f) == (if k < items.len() {
            f(items[k])
        } else {
            None
        }),
    decreases k,
{
    if k > 0 {
        let rest = items.drop_first();
        assert(f(items[0]) is None);
        assert forall|j: int| 0 <= j < k - 1 implies f(#[trigger] rest[j]) is None by {
            assert(rest[j] == items[j + 1]);
        }
        law_a_search_ends_at_the_first_find(rest, f, k - 1);
    }
}

} // verus!
