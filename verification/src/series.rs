//! Sorting measurements into their variation series.

use vstd::prelude::*;
use vstd::relations::sorted_by;
use vstd::seq_lib::lemma_multiset_commutative;
use vstd::seq_lib::lemma_sorted_unique;
use crate::measurement::ascending;
use crate::measurement::at_most;
use crate::measurement::lemma_at_most_total_order;
use crate::measurement::precedes;

verus! {

/// The variation series of a sequence of measurements: the same values in
/// ascending order.
pub open spec fn variation_series(values: Seq<u64>) -> Seq<u64> {
    values.sort_by(|a: u64, b: u64| at_most(a, b))
}

/// The variation series holds exactly the values it was made from, each as
/// often as it occurs among them, and it is non-decreasing.
pub proof fn lemma_variation_series_is_sorted_permutation(values: Seq<u64>)
    ensures
        variation_series(values).to_multiset() == values.to_multiset(),
        variation_series(values).len() == values.len(),
        ascending(variation_series(values)),
{
    let leq = |a: u64, b: u64| at_most(a, b);
    lemma_at_most_total_order();
    values.lemma_sort_by_ensures(leq);
    let sorted = variation_series(values);
    assert(sorted_by(sorted, leq));
    assert forall|i: int, j: int| 0 <= i < j < sorted.len() implies at_most(
        #[trigger] sorted[i],
        #[trigger] sorted[j],
    ) by {
        assert(leq(sorted[i], sorted[j]));
    }
    sorted.to_multiset_ensures();
    values.to_multiset_ensures();
}

/// An ascending arrangement of the values is their variation series: there is
/// only one.
pub proof fn lemma_variation_series_unique(values: Seq<u64>, sorted: Seq<u64>)
    requires
        ascending(sorted),
        sorted.to_multiset() == values.to_multiset(),
    ensures
        sorted == variation_series(values),
{
    let leq = |a: u64, b: u64| at_most(a, b);
    lemma_at_most_total_order();
    values.lemma_sort_by_ensures(leq);
    assert(sorted_by(sorted, leq)) by {
        assert forall|i: int, j: int| 0 <= i < j < sorted.len() implies #[trigger] leq(
            sorted[i],
            sorted[j],
        ) by {
            assert(at_most(sorted[i], sorted[j]));
        }
    }
    lemma_sorted_unique(sorted, variation_series(values), leq);
}

/// Merges two ascending runs into one.
fn merge(left: &Vec<u64>, right: &Vec<u64>) -> (out: Vec<u64>)
    requires
        ascending(left@),
        ascending(right@),
    ensures
        ascending(out@),
        out@.to_multiset() == left@.to_multiset().add(right@.to_multiset()),
{
    let mut out: Vec<u64> = Vec::new();
    let mut i: usize = 0;
    let mut j: usize = 0;
    proof {
        assert(left@.take(0) =~= Seq::<u64>::empty());
        assert(right@.take(0) =~= Seq::<u64>::empty());
        assert(out@.to_multiset() =~= left@.take(0).to_multiset().add(
            right@.take(0).to_multiset(),
        )) by {
            broadcast use vstd::seq_lib::group_to_multiset_ensures;

        }
    }
    while i < left.len() || j < right.len()
        invariant
            i <= left.len(),
            j <= right.len(),
            ascending(left@),
            ascending(right@),
            ascending(out@),
            out@.to_multiset() == left@.take(i as int).to_multiset().add(
                right@.take(j as int).to_multiset(),
            ),
            forall|k: int|
                0 <= k < out@.len() && i < left.len() ==> at_most(#[trigger] out@[k], left@[i as int]),
            forall|k: int|
                0 <= k < out@.len() && j < right.len() ==> at_most(
                    #[trigger] out@[k],
                    right@[j as int],
                ),
        decreases left.len() - i + (right.len() - j),
    {
        let take_left = if i == left.len() {
            false
        } else if j == right.len() {
            true
        } else {
            precedes(left[i], right[j])
        };
        let ghost before = out@;
        if take_left {
            let value = left[i];
            out.push(value);
            proof {
                assert(left@.take(i + 1) =~= left@.take(i as int).push(value));
                vstd::seq_lib::to_multiset_build(left@.take(i as int), value);
                vstd::seq_lib::to_multiset_build(before, value);
                assert(out@.to_multiset() =~= left@.take(i + 1).to_multiset().add(
                    right@.take(j as int).to_multiset(),
                ));
                assert forall|a: int, b: int| 0 <= a < b < out@.len() implies at_most(
                    #[trigger] out@[a],
                    #[trigger] out@[b],
                ) by {
                    if b < before.len() {
                        assert(at_most(before[a], before[b]));
                    }
                }
            }
            i = i + 1;
        } else {
            let value = right[j];
            out.push(value);
            proof {
                assert(right@.take(j + 1) =~= right@.take(j as int).push(value));
                vstd::seq_lib::to_multiset_build(right@.take(j as int), value);
                vstd::seq_lib::to_multiset_build(before, value);
                assert(out@.to_multiset() =~= left@.take(i as int).to_multiset().add(
                    right@.take(j + 1).to_multiset(),
                ));
                assert forall|a: int, b: int| 0 <= a < b < out@.len() implies at_most(
                    #[trigger] out@[a],
                    #[trigger] out@[b],
                ) by {
                    if b < before.len() {
                        assert(at_most(before[a], before[b]));
                    }
                }
            }
            j = j + 1;
        }
    }
    proof {
        assert(left@.take(i as int) =~= left@);
        assert(right@.take(j as int) =~= right@);
    }
    out
}

/// Sorts the part of `values` from `lo` up to `hi` into a new vector.
fn sort_range(values: &Vec<u64>, lo: usize, hi: usize) -> (out: Vec<u64>)
    requires
        lo <= hi <= values.len(),
    ensures
        ascending(out@),
        out@.to_multiset() == values@.subrange(lo as int, hi as int).to_multiset(),
    decreases hi - lo,
{
    if hi - lo <= 1 {
        let mut out: Vec<u64> = Vec::new();
        if hi - lo == 1 {
            out.push(values[lo]);
        }
        assert(out@ =~= values@.subrange(lo as int, hi as int));
        out
    } else {
        let mid: usize = lo + (hi - lo) / 2;
        let left = sort_range(values, lo, mid);
        let right = sort_range(values, mid, hi);
        proof {
            let a = values@.subrange(lo as int, mid as int);
            let b = values@.subrange(mid as int, hi as int);
            assert(a + b =~= values@.subrange(lo as int, hi as int));
            lemma_multiset_commutative(a, b);
        }
        merge(&left, &right)
    }
}

/// Returns the variation series of `values`: the same measurements in
/// ascending order.
pub fn sort_measurements(values: &Vec<u64>) -> (out: Vec<u64>)
    ensures
        out@ == variation_series(values@),
{
    let out = sort_range(values, 0, values.len());
    proof {
        assert(values@.subrange(0, values.len() as int) =~= values@);
        lemma_variation_series_unique(values@, out@);
    }
    out
}

} // verus!
