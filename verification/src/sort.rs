//! Sorting.

use vstd::prelude::*;
use vstd::relations::{sorted_by, strongly_connected, transitive};
use vstd::seq_lib::to_multiset_insert;
use crate::path::{path_order, path_order_chains, path_order_is_total, FsPath, PathView};
use crate::text::Order;
use crate::views::each;

verus! {

/// A type whose values are ordered by rank. Values that differ may have the same rank.
pub trait Ordered: View + Sized {
    /// Whether the rank of `a` is not after that of `b`.
    spec fn not_after(a: Self::V, b: Self::V) -> bool;

    /// Any two values are ordered, and the order carries over from one pair to the next.
    proof fn order_is_total()
        ensures
            strongly_connected(|a: Self::V, b: Self::V| Self::not_after(a, b)),
            transitive(|a: Self::V, b: Self::V| Self::not_after(a, b)),
    ;

    /// Whether the rank of the value is not after that of the other.
    fn goes_before(&self, other: &Self) -> (r: bool)
        ensures
            r == Self::not_after(self@, other@),
    ;
}

/// The order of a type as a function.
pub open spec fn order_of<T: Ordered>() -> spec_fn(T::V, T::V) -> bool {
    |a: T::V, b: T::V| T::not_after(a, b)
}

impl Ordered for FsPath {
    open spec fn not_after(a: PathView, b: PathView) -> bool {
        path_order(a, b) != Order::After
    }

    proof fn order_is_total() {
        assert forall|a: PathView, b: PathView|
            #![auto]
            path_order(a, b) != Order::After || path_order(b, a) != Order::After by {
            path_order_is_total(a, b);
        }
        assert forall|a: PathView, b: PathView, c: PathView|
            #![auto]
            path_order(a, b) != Order::After && path_order(b, c) != Order::After implies path_order(
            a,
            c,
        ) != Order::After by {
            path_order_chains(a, b, c);
        }
    }

    fn goes_before(&self, other: &FsPath) -> (r: bool) {
        match self.order(other) {
            Order::After => false,
            _ => true,
        }
    }
}

/// The values with one more, which stands ahead of the first that it is not after.
pub open spec fn placed<T: Ordered>(value: T::V, values: Seq<T::V>) -> Seq<T::V>
    decreases values.len(),
{
    if values.len() == 0 || T::not_after(value, values[0]) {
        seq![value] + values
    } else {
        seq![values[0]] + placed::<T>(value, values.drop_first())
    }
}

/// The values in their order. Those of the same rank stand as they stood.
pub open spec fn sorted<T: Ordered>(values: Seq<T::V>) -> Seq<T::V>
    decreases values.len(),
{
    if values.len() == 0 {
        Seq::empty()
    } else {
        placed::<T>(values[0], sorted::<T>(values.drop_first()))
    }
}

proof fn placed_at<T: Ordered>(value: T::V, values: Seq<T::V>, at: int)
    requires
        0 <= at <= values.len(),
        forall|j: int| 0 <= j < at ==> !T::not_after(value, #[trigger] values[j]),
        at < values.len() ==> T::not_after(value, values[at]),
    ensures
        placed::<T>(value, values) == values.insert(at, value),
    decreases values.len(),
{
    if at == 0 {
        assert(seq![value] + values =~= values.insert(0, value));
    } else {
        let rest = values.drop_first();
        assert forall|j: int| 0 <= j < at - 1 implies !T::not_after(value, #[trigger] rest[j]) by {
            assert(rest[j] == values[j + 1]);
        }
        placed_at::<T>(value, rest, at - 1);
        assert(seq![values[0]] + rest.insert(at - 1, value) =~= values.insert(at, value));
    }
}

proof fn placed_is_ordered<T: Ordered>(value: T::V, values: Seq<T::V>)
    requires
        sorted_by(values, order_of::<T>()),
    ensures
        sorted_by(placed::<T>(value, values), order_of::<T>()),
        placed::<T>(value, values).to_multiset() == values.to_multiset().insert(value),
        placed::<T>(value, values).len() == values.len() + 1,
    decreases values.len(),
{
    let le = order_of::<T>();
    let out = placed::<T>(value, values);
    T::order_is_total();
    assert(strongly_connected(le) && transitive(le));
    values.to_multiset_ensures();
    if values.len() == 0 || T::not_after(value, values[0]) {
        assert(out =~= values.insert(0, value));
        to_multiset_insert(values, 0, value);
        assert forall|i: int, j: int| 0 <= i < j < out.len() implies #[trigger] le(
            out[i],
            out[j],
        ) by {
            if i > 0 {
                assert(le(values[i - 1], values[j - 1]));
            } else {
                assert(le(value, values[0]));
                if j > 1 {
                    assert(le(values[0], values[j - 1]));
                }
            }
        }
    } else {
        let rest = values.drop_first();
        let first = values[0];
        assert forall|i: int, j: int| 0 <= i < j < rest.len() implies #[trigger] le(
            rest[i],
            rest[j],
        ) by {
            assert(le(values[i + 1], values[j + 1]));
        }
        placed_is_ordered::<T>(value, rest);
        let tail = placed::<T>(value, rest);
        rest.to_multiset_ensures();
        tail.to_multiset_ensures();
        assert(values =~= rest.insert(0, first));
        assert(out =~= tail.insert(0, first));
        to_multiset_insert(rest, 0, first);
        to_multiset_insert(tail, 0, first);
        assert(out.to_multiset() =~= values.to_multiset().insert(value));
        assert(!le(value, first));
        assert(le(first, value));
        assert forall|i: int, j: int| 0 <= i < j < out.len() implies #[trigger] le(
            out[i],
            out[j],
        ) by {
            if i > 0 {
                assert(le(tail[i - 1], tail[j - 1]));
            } else {
                let other = tail[j - 1];
                assert(tail.to_multiset().contains(other));
                if other != value {
                    assert(rest.to_multiset().contains(other));
                    assert(rest.contains(other));
                    let k = choose|k: int| 0 <= k < rest.len() && rest[k] == other;
                    assert(le(values[0], values[k + 1]));
                }
            }
        }
    }
}

/// What is sorted holds the same values, each as often, none ahead of one that goes before it.
pub proof fn sorted_is_ordered<T: Ordered>(values: Seq<T::V>)
    ensures
        sorted_by(sorted::<T>(values), order_of::<T>()),
        sorted::<T>(values).to_multiset() == values.to_multiset(),
        sorted::<T>(values).len() == values.len(),
        forall|v: T::V| sorted::<T>(values).contains(v) <==> values.contains(v),
    decreases values.len(),
{
    let out = sorted::<T>(values);
    values.to_multiset_ensures();
    out.to_multiset_ensures();
    if values.len() > 0 {
        let rest = values.drop_first();
        sorted_is_ordered::<T>(rest);
        placed_is_ordered::<T>(values[0], sorted::<T>(rest));
        rest.to_multiset_ensures();
        assert(values =~= rest.insert(0, values[0]));
        to_multiset_insert(rest, 0, values[0]);
    } else {
        assert(values =~= Seq::<T::V>::empty());
    }
    assert forall|v: T::V| out.contains(v) <==> values.contains(v) by {
        assert(out.to_multiset().contains(v) == values.to_multiset().contains(v));
    }
}

/// The values of the same rank as the given one.
pub open spec fn of_rank<T: Ordered>(value: T::V) -> spec_fn(T::V) -> bool {
    |other: T::V| T::not_after(value, other) && T::not_after(other, value)
}

proof fn placed_keeps_ties<T: Ordered>(value: T::V, values: Seq<T::V>, rank: T::V)
    ensures
        placed::<T>(value, values).filter(of_rank::<T>(rank)) == (seq![value] + values).filter(
            of_rank::<T>(rank),
        ),
    decreases values.len(),
{
    let mine = of_rank::<T>(rank);
    let le = order_of::<T>();
    if !(values.len() == 0 || T::not_after(value, values[0])) {
        let rest = values.drop_first();
        let first = values[0];
        placed_keeps_ties::<T>(value, rest, rank);
        T::order_is_total();
        assert(strongly_connected(le) && transitive(le));
        let tail = placed::<T>(value, rest);
        Seq::filter_distributes_over_add(seq![first], tail, mine);
        Seq::filter_distributes_over_add(seq![value], rest, mine);
        Seq::filter_distributes_over_add(seq![value], values, mine);
        Seq::filter_distributes_over_add(seq![first], rest, mine);
        assert(values =~= seq![first] + rest);
        alone_filter(value, mine);
        alone_filter(first, mine);
        if mine(value) && mine(first) {
            assert(le(value, rank) && le(rank, first));
            assert(le(value, first));
        }
        let a = seq![value].filter(mine);
        let b = seq![first].filter(mine);
        let c = rest.filter(mine);
        assert(b + (a + c) =~= a + (b + c));
    }
}

proof fn alone_filter<A>(value: A, kept: spec_fn(A) -> bool)
    ensures
        seq![value].filter(kept) == (if kept(value) {
            seq![value]
        } else {
            Seq::<A>::empty()
        }),
{
    reveal_with_fuel(Seq::filter, 2);
    assert(seq![value].drop_last() =~= Seq::<A>::empty());
    assert(seq![value].last() == value);
    assert(Seq::<A>::empty().push(value) =~= seq![value]);
}

/// Values of the same rank keep their order.
pub proof fn sorting_keeps_ties_in_order<T: Ordered>(values: Seq<T::V>, rank: T::V)
    ensures
        sorted::<T>(values).filter(of_rank::<T>(rank)) == values.filter(of_rank::<T>(rank)),
    decreases values.len(),
{
    let mine = of_rank::<T>(rank);
    if values.len() > 0 {
        let rest = values.drop_first();
        let first = seq![values[0]];
        sorting_keeps_ties_in_order::<T>(rest, rank);
        placed_keeps_ties::<T>(values[0], sorted::<T>(rest), rank);
        Seq::filter_distributes_over_add(first, sorted::<T>(rest), mine);
        Seq::filter_distributes_over_add(first, rest, mine);
        assert(values =~= first + rest);
    } else {
        assert(values =~= Seq::<T::V>::empty());
    }
}

/// The values in their order.
pub fn sort<T: Ordered>(values: Vec<T>) -> (r: Vec<T>)
    ensures
        each(r@) == sorted::<T>(each(values@)),
{
    let ghost all = each(values@);
    let mut rest = values;
    let mut out: Vec<T> = Vec::new();
    proof {
        assert(all.take(all.len() as int) =~= all);
        assert(each(out@) =~= sorted::<T>(all.skip(all.len() as int)));
    }
    while rest.len() > 0
        invariant
            rest@.len() <= all.len(),
            each(rest@) == all.take(rest@.len() as int),
            each(out@) == sorted::<T>(all.skip(rest@.len() as int)),
        decreases rest@.len(),
    {
        let ghost size = rest@.len() as int;
        let ghost out_before = each(out@);
        let value = rest.pop().unwrap();
        let mut at: usize = 0;
        while at < out.len() && !value.goes_before(&out[at])
            invariant
                at <= out@.len(),
                forall|j: int| 0 <= j < at ==> !T::not_after(value@, #[trigger] each(out@)[j]),
            decreases out@.len() - at,
        {
            at += 1;
        }
        let ghost v = value@;
        proof {
            placed_at::<T>(v, out_before, at as int);
        }
        out.insert(at, value);
        proof {
            assert(v == all.take(size).last());
            assert(each(rest@) =~= all.take(size - 1));
            assert(each(out@) =~= out_before.insert(at as int, v));
            assert(all.skip(size - 1).drop_first() =~= all.skip(size));
        }
    }
    proof {
        assert(all.skip(0) =~= all);
    }
    out
}

} // verus!
