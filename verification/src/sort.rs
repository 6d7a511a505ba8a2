//! Stable sorting.

use vstd::prelude::*;

verus! {

/// A type whose values are ranked.
pub trait Ranked: Sized {
    /// Whether `self` ranks strictly before `other`.
    spec fn precedes(self, other: Self) -> bool;

    /// Two values do not rank before each other.
    proof fn asymmetric(a: Self, b: Self)
        ensures
            a.precedes(b) ==> !b.precedes(a),
    ;

    /// What lies between two ranked values ranks after the one or before the other.
    proof fn comparable(a: Self, b: Self, c: Self)
        ensures
            a.precedes(c) ==> a.precedes(b) || b.precedes(c),
    ;

    /// Whether `self` ranks strictly before `other`.
    fn before(&self, other: &Self) -> (yes: bool)
        ensures
            yes == self.precedes(*other),
    ;
}

/// `ranked` with `item` put behind everything that it does not precede.
pub open spec fn inserted<A: Ranked>(ranked: Seq<A>, item: A) -> Seq<A>
    decreases ranked.len(),
{
    if ranked.len() > 0 && item.precedes(ranked.last()) {
        inserted(ranked.drop_last(), item).push(ranked.last())
    } else {
        ranked.push(item)
    }
}

/// `items` by rank, those of equal rank in the order in which they came.
pub open spec fn by_rank<A: Ranked>(items: Seq<A>) -> Seq<A>
    decreases items.len(),
{
    if items.len() == 0 {
        items
    } else {
        inserted(by_rank(items.drop_last()), items.last())
    }
}

/// Whether nothing in `items` ranks before what stands ahead of it.
pub open spec fn is_ranked<A: Ranked>(items: Seq<A>) -> bool {
    forall|i: int, j: int| 0 <= i < j < items.len() ==> !(#[trigger] items[j]).precedes(#[trigger] items[i])
}

proof fn lemma_inserted_at<A: Ranked>(ranked: Seq<A>, item: A, at: int)
    requires
        0 <= at <= ranked.len(),
        forall|i: int| at <= i < ranked.len() ==> item.precedes(#[trigger] ranked[i]),
        at == 0 || !item.precedes(ranked[at - 1]),
    ensures
        inserted(ranked, item) == ranked.insert(at, item),
    decreases ranked.len(),
{
    if at < ranked.len() {
        assert(item.precedes(ranked[ranked.len() - 1]));
        assert forall|i: int| at <= i < ranked.len() - 1 implies item.precedes(
            #[trigger] ranked.drop_last()[i],
        ) by {
            assert(ranked.drop_last()[i] == ranked[i]);
        }
        if at > 0 {
            assert(ranked.drop_last()[at - 1] == ranked[at - 1]);
        }
        lemma_inserted_at(ranked.drop_last(), item, at);
        assert(ranked.drop_last().insert(at, item).push(ranked.last()) =~= ranked.insert(at, item));
    } else {
        assert(ranked.insert(at, item) =~= ranked.push(item));
    }
}

/// Sorts `items` by rank. The sort is stable.
pub fn sort_by_rank<A: Ranked>(items: Vec<A>) -> (sorted: Vec<A>)
    ensures
        sorted@ == by_rank(items@),
{
    let mut sorted: Vec<A> = Vec::new();
    let mut items = items;
    let ghost all = items@;
    let mut waiting: Vec<A> = Vec::new();
    while items.len() > 0
        invariant
            items@ + waiting@.reverse() == all,
        decreases items@.len(),
    {
        match items.pop() {
            Some(item) => {
                let ghost before = waiting@;
                let ghost left = items@;
                waiting.push(item);
                assert(left + waiting@.reverse() =~= left.push(item) + before.reverse());
            },
            None => {},
        }
    }
    assert(waiting@.reverse() =~= all);
    while waiting.len() > 0
        invariant
            waiting@.len() <= all.len(),
            waiting@.reverse() == all.skip(all.len() - waiting@.len()),
            sorted@ == by_rank(all.take(all.len() - waiting@.len())),
        decreases waiting@.len(),
    {
        let ghost done = all.len() - waiting@.len();
        let ghost before = waiting@;
        match waiting.pop() {
            Some(item) => {
                assert(item == before.reverse()[0]);
                assert(item == all[done]);
                assert(all.take(done + 1).drop_last() =~= all.take(done));
                assert(waiting@.reverse() =~= all.skip(done + 1)) by {
                    assert forall|i: int| 0 <= i < waiting@.len() implies waiting@.reverse()[i] == all.skip(
                        done + 1,
                    )[i] by {
                        assert(before.reverse()[i + 1] == all.skip(done)[i + 1]);
                    }
                }
                let mut at: usize = sorted.len();
                while at > 0 && item.before(&sorted[at - 1])
                    invariant
                        at <= sorted@.len(),
                        forall|i: int| at <= i < sorted@.len() ==> item.precedes(#[trigger] sorted@[i]),
                    decreases at,
                {
                    at -= 1;
                }
                proof {
                    lemma_inserted_at(sorted@, item, at as int);
                }
                sorted.insert(at, item);
            },
            None => {},
        }
    }
    assert(all.take(all.len() as int) =~= all);
    sorted
}

proof fn lemma_inserted_ranked<A: Ranked>(ranked: Seq<A>, item: A)
    requires
        is_ranked(ranked),
    ensures
        is_ranked(inserted(ranked, item)),
        inserted(ranked, item).len() == ranked.len() + 1,
        inserted(ranked, item).to_multiset() == ranked.to_multiset().insert(item),
        forall|a: A| #[trigger]
            inserted(ranked, item).contains(a) <==> a == item || ranked.contains(a),
    decreases ranked.len(),
{
    broadcast use vstd::seq_lib::group_to_multiset_ensures;

    if ranked.len() > 0 && item.precedes(ranked.last()) {
        let rest = ranked.drop_last();
        let last = ranked.last();
        assert(rest.push(last) =~= ranked);
        assert(is_ranked(rest)) by {
            assert forall|i: int, j: int| 0 <= i < j < rest.len() implies !(
            #[trigger] rest[j]).precedes(#[trigger] rest[i]) by {
                assert(rest[i] == ranked[i] && rest[j] == ranked[j]);
            }
        }
        lemma_inserted_ranked(rest, item);
        let grown = inserted(rest, item);
        let result = grown.push(last);
        assert(is_ranked(result)) by {
            assert forall|i: int, j: int| 0 <= i < j < result.len() implies !(
            #[trigger] result[j]).precedes(#[trigger] result[i]) by {
                if j == grown.len() {
                    assert(grown.contains(result[i]));
                    if result[i] == item {
                        A::asymmetric(item, last);
                    } else {
                        let k = choose|k: int| 0 <= k < rest.len() && rest[k] == result[i];
                        assert(ranked[k] == result[i]);
                        assert(ranked[ranked.len() - 1] == last);
                    }
                } else {
                    assert(result[i] == grown[i] && result[j] == grown[j]);
                }
            }
        }
        assert(result.to_multiset() =~= ranked.to_multiset().insert(item));
        assert forall|a: A| #[trigger] result.contains(a) <==> a == item || ranked.contains(a) by {
            if result.contains(a) {
                let k = choose|k: int| 0 <= k < result.len() && result[k] == a;
                if k < grown.len() {
                    assert(grown.contains(a));
                    if a != item {
                        let m = choose|m: int| 0 <= m < rest.len() && rest[m] == a;
                        assert(ranked[m] == a);
                    }
                } else {
                    assert(ranked[ranked.len() - 1] == a);
                }
            }
            if a == item || ranked.contains(a) {
                if a != last || a == item {
                    if a != item {
                        let m = choose|m: int| 0 <= m < ranked.len() && ranked[m] == a;
                        assert(rest[m] == a);
                    }
                    assert(grown.contains(a));
                    let k = choose|k: int| 0 <= k < grown.len() && grown[k] == a;
                    assert(result[k] == a);
                } else {
                    assert(result[grown.len() as int] == a);
                }
            }
        }
    } else {
        let result = ranked.push(item);
        assert forall|i: int, j: int| 0 <= i < j < result.len() implies !(
        #[trigger] result[j]).precedes(#[trigger] result[i]) by {
            if j == ranked.len() {
                if item.precedes(ranked[i]) {
                    A::comparable(item, ranked.last(), ranked[i]);
                    if i < ranked.len() - 1 {
                        assert(!ranked[ranked.len() - 1].precedes(ranked[i]));
                    }
                }
            }
        }
        assert forall|a: A| #[trigger] result.contains(a) <==> a == item || ranked.contains(a) by {
            if a == item {
                assert(result[ranked.len() as int] == a);
            } else if ranked.contains(a) {
                let k = choose|k: int| 0 <= k < ranked.len() && ranked[k] == a;
                assert(result[k] == a);
            } else if result.contains(a) {
                let k = choose|k: int| 0 <= k < result.len() && result[k] == a;
                assert(ranked[k] == a);
            }
        }
    }
}

/// Sorting by rank gives the same items in an order in which none ranks before what stands ahead
/// of it.
pub proof fn sorting_ranks_the_same_items<A: Ranked>(items: Seq<A>)
    ensures
        is_ranked(by_rank(items)),
        by_rank(items).len() == items.len(),
        by_rank(items).to_multiset() == items.to_multiset(),
    decreases items.len(),
{
    broadcast use vstd::seq_lib::group_to_multiset_ensures;

    if items.len() > 0 {
        sorting_ranks_the_same_items(items.drop_last());
        lemma_inserted_ranked(by_rank(items.drop_last()), items.last());
        assert(items.drop_last().push(items.last()) =~= items);
    }
}

/// Whether neither of two values ranks before the other.
pub open spec fn ties<A: Ranked>(a: A, b: A) -> bool {
    !a.precedes(b) && !b.precedes(a)
}

/// Filtering a sequence that grew by one item.
pub proof fn lemma_filter_push<A>(items: Seq<A>, item: A, keep: spec_fn(A) -> bool)
    ensures
        items.push(item).filter(keep) == (if keep(item) {
            items.filter(keep).push(item)
        } else {
            items.filter(keep)
        }),
{
    reveal(Seq::filter);
    assert(items.push(item).drop_last() =~= items);
}

proof fn lemma_inserted_ties<A: Ranked>(ranked: Seq<A>, item: A, pivot: A)
    ensures
        inserted(ranked, item).filter(|a: A| ties(a, pivot)) == ranked.push(item).filter(
            |a: A| ties(a, pivot),
        ),
    decreases ranked.len(),
{
    let tied = |a: A| ties(a, pivot);
    if ranked.len() > 0 && item.precedes(ranked.last()) {
        let rest = ranked.drop_last();
        let last = ranked.last();
        lemma_inserted_ties(rest, item, pivot);
        lemma_filter_push(inserted(rest, item), last, tied);
        lemma_filter_push(rest, item, tied);
        lemma_filter_push(rest, last, tied);
        lemma_filter_push(ranked, item, tied);
        assert(rest.push(last) =~= ranked);
        if tied(item) && tied(last) {
            A::comparable(item, pivot, last);
        }
    }
}

/// Sorting by rank is stable: items that tie with each other keep their order.
pub proof fn sorting_keeps_the_order_of_ties<A: Ranked>(items: Seq<A>, pivot: A)
    ensures
        by_rank(items).filter(|a: A| ties(a, pivot)) == items.filter(|a: A| ties(a, pivot)),
    decreases items.len(),
{
    let tied = |a: A| ties(a, pivot);
    if items.len() > 0 {
        let rest = items.drop_last();
        sorting_keeps_the_order_of_ties(rest, pivot);
        lemma_inserted_ties(by_rank(rest), items.last(), pivot);
        lemma_filter_push(by_rank(rest), items.last(), tied);
        lemma_filter_push(rest, items.last(), tied);
        assert(rest.push(items.last()) =~= items);
    }
}

/// Sorting what is in order already changes nothing.
pub proof fn sorting_keeps_what_is_ranked<A: Ranked>(items: Seq<A>)
    requires
        is_ranked(items),
    ensures
        by_rank(items) == items,
    decreases items.len(),
{
    if items.len() > 0 {
        let rest = items.drop_last();
        assert forall|i: int, j: int| 0 <= i < j < rest.len() implies !(#[trigger] rest[j]).precedes(
            #[trigger] rest[i],
        ) by {
            assert(rest[i] == items[i] && rest[j] == items[j]);
        }
        sorting_keeps_what_is_ranked(rest);
        if rest.len() > 0 {
            assert(!items[items.len() - 1].precedes(items[rest.len() - 1]));
        }
        assert(rest.push(items.last()) =~= items);
    }
}

/// Whether no two different items tie.
pub open spec fn tells_apart<A: Ranked>(items: Seq<A>) -> bool {
    forall|a: A, b: A|
        #![trigger items.contains(a), items.contains(b)]
        items.contains(a) && items.contains(b) && ties(a, b) ==> a == b
}

proof fn lemma_ranked_once<A: Ranked>(one: Seq<A>, two: Seq<A>)
    requires
        is_ranked(one),
        is_ranked(two),
        one.to_multiset() == two.to_multiset(),
        tells_apart(one),
    ensures
        one == two,
    decreases one.len(),
{
    broadcast use vstd::seq_lib::group_to_multiset_ensures;

    assert(one.len() == one.to_multiset().len() && two.len() == two.to_multiset().len());
    if one.len() == 0 {
        assert(one =~= two);
    } else {
        let a = one.last();
        let b = two.last();
        assert(one[one.len() - 1] == a && two[two.len() - 1] == b);
        assert(one.contains(a) && two.contains(b));
        assert(two.to_multiset().count(a) > 0 && one.to_multiset().count(b) > 0);
        assert(two.contains(a) && one.contains(b));
        if a != b {
            let i = choose|i: int| 0 <= i < two.len() && two[i] == a;
            let j = choose|j: int| 0 <= j < one.len() && one[j] == b;
            assert(!two[two.len() - 1].precedes(two[i]));
            assert(!one[one.len() - 1].precedes(one[j]));
            assert(ties(a, b));
        }
        assert(one.remove(one.len() - 1) =~= one.drop_last());
        assert(two.remove(two.len() - 1) =~= two.drop_last());
        assert forall|i: int, j: int| 0 <= i < j < one.len() - 1 implies !(
        #[trigger] one.drop_last()[j]).precedes(#[trigger] one.drop_last()[i]) by {
            assert(one.drop_last()[i] == one[i] && one.drop_last()[j] == one[j]);
        }
        assert forall|i: int, j: int| 0 <= i < j < two.len() - 1 implies !(
        #[trigger] two.drop_last()[j]).precedes(#[trigger] two.drop_last()[i]) by {
            assert(two.drop_last()[i] == two[i] && two.drop_last()[j] == two[j]);
        }
        assert forall|x: A| #[trigger] one.drop_last().contains(x) implies one.contains(x) by {
            let k = choose|k: int| 0 <= k < one.len() - 1 && one.drop_last()[k] == x;
            assert(one[k] == x);
        }
        lemma_ranked_once(one.drop_last(), two.drop_last());
        assert(one =~= one.drop_last().push(a));
        assert(two =~= two.drop_last().push(b));
    }
}

/// Where no two different items tie, the order in which they came makes no difference.
pub proof fn sorting_forgets_the_order<A: Ranked>(one: Seq<A>, two: Seq<A>)
    requires
        one.to_multiset() == two.to_multiset(),
        tells_apart(one),
    ensures
        by_rank(one) == by_rank(two),
{
    broadcast use vstd::seq_lib::group_to_multiset_ensures;

    sorting_ranks_the_same_items(one);
    sorting_ranks_the_same_items(two);
    assert forall|x: A| #[trigger] by_rank(one).contains(x) implies one.contains(x) by {
        assert(by_rank(one).to_multiset().count(x) > 0);
        assert(one.to_multiset().count(x) > 0);
    }
    lemma_ranked_once(by_rank(one), by_rank(two));
}

proof fn lemma_inserted_place<A: Ranked>(ranked: Seq<A>, item: A) -> (at: int)
    ensures
        0 <= at <= ranked.len(),
        inserted(ranked, item) == ranked.insert(at, item),
        forall|k: int| at <= k < ranked.len() ==> item.precedes(#[trigger] ranked[k]),
    decreases ranked.len(),
{
    if ranked.len() > 0 && item.precedes(ranked.last()) {
        let at = lemma_inserted_place(ranked.drop_last(), item);
        assert(ranked.drop_last().insert(at, item).push(ranked.last()) =~= ranked.insert(at, item));
        assert forall|k: int| at <= k < ranked.len() implies item.precedes(
            #[trigger] ranked[k],
        ) by {
            if k < ranked.len() - 1 {
                assert(ranked.drop_last()[k] == ranked[k]);
            }
        }
        at
    } else {
        assert(ranked.insert(ranked.len() as int, item) =~= ranked.push(item));
        ranked.len() as int
    }
}

/// Whether `sorted` are `items`, each once, by rank, and of those that tie the earlier one first: the
/// item at `k` is the one that stood at `from[k]`.
pub open spec fn sorted_from<A: Ranked>(items: Seq<A>, sorted: Seq<A>, from: Seq<int>) -> bool {
    &&& sorted.len() == items.len()
    &&& from.len() == items.len()
    &&& from.no_duplicates()
    &&& forall|m: int| 0 <= m < items.len() ==> #[trigger] from.contains(m)
    &&& forall|k: int|
        0 <= k < from.len() ==> 0 <= #[trigger] from[k] < items.len() && sorted[k]
            == items[from[k]]
    &&& forall|i: int, j: int|
        0 <= i < j < sorted.len() ==> (#[trigger] sorted[i]).precedes(#[trigger] sorted[j]) || (
        !sorted[j].precedes(sorted[i]) && from[i] < from[j])
}

/// Sorting moves each item to one place: those that rank before others ahead of them, and those that tie
/// in the order in which they came.
pub proof fn sorting_moves_each_item<A: Ranked>(items: Seq<A>) -> (from: Seq<int>)
    ensures
        sorted_from(items, by_rank(items), from),
    decreases items.len(),
{
    if items.len() == 0 {
        Seq::empty()
    } else {
        let rest = items.drop_last();
        let item = items.last();
        let n = rest.len() as int;
        let old_from = sorting_moves_each_item(rest);
        let ranked = by_rank(rest);
        sorting_ranks_the_same_items(rest);
        sorting_ranks_the_same_items(items);
        let at = lemma_inserted_place(ranked, item);
        let from = old_from.insert(at, n);
        let sorted = by_rank(items);
        assert forall|k: int| 0 <= k < from.len() implies 0 <= #[trigger] from[k] < items.len()
            && sorted[k] == items[from[k]] by {
            if k < at {
                assert(from[k] == old_from[k]);
                assert(sorted[k] == ranked[k]);
            } else if k > at {
                assert(from[k] == old_from[k - 1]);
                assert(sorted[k] == ranked[k - 1]);
            }
        }
        assert forall|m: int| 0 <= m < items.len() implies #[trigger] from.contains(m) by {
            if m == n {
                assert(from[at] == m);
            } else {
                assert(old_from.contains(m));
                let k = choose|k: int| 0 <= k < old_from.len() && old_from[k] == m;
                if k < at {
                    assert(from[k] == m);
                } else {
                    assert(from[k + 1] == m);
                }
            }
        }
        assert forall|i: int, j: int|
            0 <= i < from.len() && 0 <= j < from.len() && i != j implies from[i] != from[j] by {
            let a = if i < at { i } else { i - 1 };
            let b = if j < at { j } else { j - 1 };
            if i != at {
                assert(from[i] == old_from[a]);
            }
            if j != at {
                assert(from[j] == old_from[b]);
            }
        }
        assert forall|i: int, j: int| 0 <= i < j < sorted.len() implies (
        #[trigger] sorted[i]).precedes(#[trigger] sorted[j]) || (!sorted[j].precedes(sorted[i])
            && from[i] < from[j]) by {
            assert(!sorted[j].precedes(sorted[i]));
            if i == at {
                assert(sorted[j] == ranked[j - 1]);
            } else {
                let a = if i < at { i } else { i - 1 };
                assert(sorted[i] == ranked[a] && from[i] == old_from[a]);
                if j != at {
                    let b = if j < at { j } else { j - 1 };
                    assert(sorted[j] == ranked[b] && from[j] == old_from[b]);
                }
            }
        }
        from
    }
}

/// How many of the items a filter keeps does not depend on their order.
pub proof fn sorting_keeps_counts<A: Ranked>(items: Seq<A>, keep: spec_fn(A) -> bool)
    ensures
        by_rank(items).filter(keep).len() == items.filter(keep).len(),
    decreases items.len(),
{
    if items.len() > 0 {
        let rest = items.drop_last();
        sorting_keeps_counts(rest, keep);
        lemma_inserted_count(by_rank(rest), items.last(), keep);
        lemma_filter_push(rest, items.last(), keep);
        assert(rest.push(items.last()) =~= items);
    }
}

proof fn lemma_inserted_count<A: Ranked>(ranked: Seq<A>, item: A, keep: spec_fn(A) -> bool)
    ensures
        inserted(ranked, item).filter(keep).len() == ranked.filter(keep).len() + if keep(item) {
            1int
        } else {
            0int
        },
    decreases ranked.len(),
{
    lemma_filter_push(ranked, item, keep);
    if ranked.len() > 0 && item.precedes(ranked.last()) {
        let rest = ranked.drop_last();
        lemma_inserted_count(rest, item, keep);
        lemma_filter_push(inserted(rest, item), ranked.last(), keep);
        lemma_filter_push(rest, ranked.last(), keep);
        assert(rest.push(ranked.last()) =~= ranked);
    }
}

/// What a filter keeps stands in the order in which the items stood: the one at `k` is the one that stood
/// at `from[k]`.
pub proof fn filtering_keeps_the_order<A>(items: Seq<A>, keep: spec_fn(A) -> bool) -> (from: Seq<int>)
    ensures
        from.len() == items.filter(keep).len(),
        forall|k: int|
            0 <= k < from.len() ==> 0 <= #[trigger] from[k] < items.len() && items.filter(keep)[k]
                == items[from[k]],
        forall|i: int, j: int| 0 <= i < j < from.len() ==> #[trigger] from[i] < #[trigger] from[j],
    decreases items.len(),
{
    reveal(Seq::filter);
    if items.len() == 0 {
        Seq::empty()
    } else {
        let rest = items.drop_last();
        let old_from = filtering_keeps_the_order(rest, keep);
        lemma_filter_push(rest, items.last(), keep);
        assert(rest.push(items.last()) =~= items);
        if keep(items.last()) {
            let from = old_from.push(rest.len() as int);
            assert forall|k: int| 0 <= k < from.len() implies 0 <= #[trigger] from[k] < items.len()
                && items.filter(keep)[k] == items[from[k]] by {
                if k < old_from.len() {
                    assert(from[k] == old_from[k]);
                    assert(rest.filter(keep)[k] == rest[old_from[k]]);
                }
            }
            assert forall|i: int, j: int| 0 <= i < j < from.len() implies #[trigger] from[i]
                < #[trigger] from[j] by {
                assert(from[i] == old_from[i]);
                if j < old_from.len() {
                    assert(from[j] == old_from[j]);
                }
            }
            from
        } else {
            assert forall|k: int| 0 <= k < old_from.len() implies 0 <= #[trigger] old_from[k]
                < items.len() && items.filter(keep)[k] == items[old_from[k]] by {
                assert(rest.filter(keep)[k] == rest[old_from[k]]);
            }
            old_from
        }
    }
}

} // verus!
