//! How often each measurement repeats.

use std::collections::HashMap;
use itertools::Itertools;
use crate::measurement::at_most;
use crate::measurement::compare;
use crate::measurement::order_key;
use vstd::multiset::Multiset;
use vstd::prelude::*;
use vstd::std_specs::hash::*;
use vstd::std_specs::iter::IteratorSpec;

verus! {

broadcast use vstd::std_specs::hash::group_hash_axioms;

/// `counts` holds, for exactly the values that occur in `bag`, how often each
/// occurs there.
spec fn tallies(counts: Map<u64, u64>, bag: Multiset<u64>) -> bool {
    forall|value: u64|
        {
            &&& #[trigger] counts.contains_key(value) <==> bag.count(value) > 0
            &&& counts.contains_key(value) ==> counts[value] == bag.count(value)
        }
}

/// The points with the given value, in the order in which they stand.
pub open spec fn with_value(points: Seq<(u64, u64)>, value: u64) -> Seq<(u64, u64)> {
    points.filter(|point: (u64, u64)| point.0 == value)
}

/// The values of the points rise from each point to the next.
pub open spec fn strictly_ascending(points: Seq<(u64, u64)>) -> bool {
    forall|i: int, j: int|
        0 <= i < j < points.len() ==> order_key(#[trigger] points[i].0) < order_key(
            #[trigger] points[j].0,
        )
}

/// The points are the frequency polygon of `bag`: one point for each distinct
/// value of the bag, holding the value and how often it occurs, in ascending
/// order of the values.
pub open spec fn is_polygon_of(points: Seq<(u64, u64)>, bag: Multiset<u64>) -> bool {
    &&& strictly_ascending(points)
    &&& forall|i: int|
        0 <= i < points.len() ==> (#[trigger] points[i]).1 > 0 && points[i].1 == bag.count(
            points[i].0,
        )
    &&& forall|value: u64|
        bag.count(value) > 0 ==> exists|i: int|
            0 <= i < points.len() && (#[trigger] points[i]).0 == value
}

/// The number of occurrences of each distinct measurement of a sequence.
/// Two measurements are the same when their bit patterns are.
pub struct FrequencyTable {
    counts: HashMap<u64, u64>,
    tallied: Ghost<Multiset<u64>>,
}

impl View for FrequencyTable {
    type V = Multiset<u64>;

    closed spec fn view(&self) -> Multiset<u64> {
        self.tallied@
    }
}

/// Counts one more occurrence of `value`.
fn tally(counts: &mut HashMap<u64, u64>, value: u64, Ghost(bag): Ghost<Multiset<u64>>)
    requires
        tallies(old(counts)@, bag),
        bag.count(value) < u64::MAX,
    ensures
        tallies(final(counts)@, bag.insert(value)),
{
    broadcast use vstd::multiset::group_multiset_axioms;

    let entry = counts.entry(value).or_insert(0);
    *entry += 1;
    proof {
        assert(tallies(counts@, bag.insert(value))) by {
            assert forall|other: u64|
                {
                    &&& #[trigger] counts@.contains_key(other) <==> bag.insert(value).count(other)
                        > 0
                    &&& counts@.contains_key(other) ==> counts@[other] == bag.insert(value).count(
                        other,
                    )
                } by {
                assert(old(counts)@.contains_key(other) <==> bag.count(other) > 0);
            }
        }
    }
}

/// Lists the entries of `counts`, each once, in no particular order.
fn entries(counts: &HashMap<u64, u64>) -> (out: Vec<(u64, u64)>)
    ensures
        out@.len() == counts@.dom().len(),
        out@.no_duplicates(),
        forall|i: int|
            0 <= i < out@.len() ==> counts@.contains_key(#[trigger] out@[i].0) && counts@[out@[i].0]
                == out@[i].1,
        forall|value: u64| #[trigger]
            counts@.contains_key(value) ==> exists|i: int|
                0 <= i < out@.len() && #[trigger] out@[i].0 == value,
{
    let mut out: Vec<(u64, u64)> = Vec::new();
    let ghost all = spec_hash_map_iter(counts).remaining();
    let pairs = counts.iter();
    assert(all.no_duplicates());
    for pair in it: pairs
        invariant
            it.seq() == all,
            out@.len() == it.index(),
            forall|j: int| 0 <= j < out@.len() ==> #[trigger] out@[j] == (*all[j].0, *all[j].1),
    {
        let (value, count) = pair;
        out.push((*value, *count));
    }
    proof {
        broadcast use vstd::std_specs::hash::axiom_spec_hash_map_iter;

        assert(out@.len() == all.len());
        assert forall|i: int, j: int| 0 <= i < j < out@.len() implies out@[i] != out@[j] by {
            assert(all[i] != all[j]);
        }
        assert forall|value: u64| #[trigger] counts@.contains_key(value) implies exists|i: int|
            0 <= i < out@.len() && #[trigger] out@[i].0 == value by {
            assert(all.contains((&value, &counts@[value])));
            let i = choose|i: int| 0 <= i < all.len() && all[i] == (&value, &counts@[value]);
            assert(out@[i].0 == value);
        }
    }
    out
}

/// Sorts the points by their values with `Itertools::sorted_by` of itertools,
/// which collects them and runs the stable sort of std. The result holds the
/// same points, is non-decreasing in the order of measurements, and keeps
/// points of one value in the order in which they came.
#[verifier::external_body]
fn sorted_by_value(points: Vec<(u64, u64)>) -> (sorted: Vec<(u64, u64)>)
    ensures
        sorted@.to_multiset() == points@.to_multiset(),
        forall|i: int, j: int|
            0 <= i < j < sorted@.len() ==> at_most(#[trigger] sorted@[i].0, #[trigger] sorted@[j].0),
        forall|value: u64| #[trigger] with_value(sorted@, value) == with_value(points@, value),
{
    points.into_iter().sorted_by(|a, b| compare(a.0, b.0)).collect()
}

/// The largest count among the points; zero when there is no point.
pub fn highest_count(points: &Vec<(u64, u64)>) -> (highest: u64)
    ensures
        forall|i: int| 0 <= i < points@.len() ==> (#[trigger] points@[i]).1 <= highest,
        points@.len() > 0 ==> exists|i: int|
            0 <= i < points@.len() && (#[trigger] points@[i]).1 == highest,
        points@.len() == 0 ==> highest == 0,
{
    let mut highest: u64 = 0;
    let mut i: usize = 0;
    while i < points.len()
        invariant
            i <= points.len(),
            forall|k: int| 0 <= k < i ==> (#[trigger] points@[k]).1 <= highest,
            i > 0 ==> exists|k: int| 0 <= k < i && (#[trigger] points@[k]).1 == highest,
            i == 0 ==> highest == 0,
        decreases points.len() - i,
    {
        if i == 0 || points[i].1 > highest {
            highest = points[i].1;
        }
        i = i + 1;
    }
    highest
}

impl FrequencyTable {
    #[verifier::type_invariant]
    spec fn well_formed(&self) -> bool {
        tallies(self.counts@, self.tallied@)
    }

    /// Counts the occurrences of each distinct measurement of `values`.
    pub fn aggregate(values: &Vec<u64>) -> (table: FrequencyTable)
        ensures
            table@ == values@.to_multiset(),
    {
        broadcast use vstd::multiset::group_multiset_axioms;
        broadcast use vstd::seq_lib::group_to_multiset_ensures;

        let mut counts: HashMap<u64, u64> = HashMap::new();
        let mut i: usize = 0;
        assert(values@.take(0) =~= Seq::<u64>::empty());
        while i < values.len()
            invariant
                i <= values.len(),
                tallies(counts@, values@.take(i as int).to_multiset()),
            decreases values.len() - i,
        {
            let ghost seen = values@.take(i as int).to_multiset();
            proof {
                vstd::seq_lib::to_multiset_len(values@.take(i as int));
                vstd::multiset::axiom_count_le_len(seen, values@[i as int]);
                assert(values@.take(i + 1) =~= values@.take(i as int).push(values@[i as int]));
                vstd::seq_lib::to_multiset_build(values@.take(i as int), values@[i as int]);
            }
            tally(&mut counts, values[i], Ghost(seen));
            i = i + 1;
        }
        assert(values@.take(i as int) =~= values@);
        FrequencyTable { counts, tallied: Ghost(values@.to_multiset()) }
    }

    /// How often `value` occurs; zero when it does not.
    pub fn count(&self, value: u64) -> (n: u64)
        ensures
            n == self@.count(value),
    {
        proof {
            use_type_invariant(self);
        }
        match self.counts.get(&value) {
            Some(n) => *n,
            None => 0,
        }
    }

    /// The frequency polygon of the table: each distinct measurement with the
    /// number of its occurrences, in ascending order of the measurements.
    pub fn points(&self) -> (points: Vec<(u64, u64)>)
        ensures
            is_polygon_of(points@, self@),
    {
        proof {
            use_type_invariant(self);
        }
        let unsorted = entries(&self.counts);
        let points = sorted_by_value(unsorted);
        proof {
            broadcast use vstd::seq_lib::group_to_multiset_ensures;

            unsorted@.lemma_multiset_has_no_duplicates();
            points@.lemma_multiset_has_no_duplicates_conv();
            assert forall|i: int| 0 <= i < points@.len() implies self.counts@.contains_key(
                (#[trigger] points@[i]).0,
            ) && self.counts@[points@[i].0] == points@[i].1 by {
                assert(points@.to_multiset().count(points@[i]) > 0);
                assert(unsorted@.contains(points@[i]));
            }
            assert forall|i: int, j: int| 0 <= i < j < points@.len() implies order_key(
                #[trigger] points@[i].0,
            ) < order_key(#[trigger] points@[j].0) by {
                assert(at_most(points@[i].0, points@[j].0));
                if points@[i].0 == points@[j].0 {
                    assert(points@[i] == points@[j]);
                }
            }
            assert forall|value: u64| self@.count(value) > 0 implies exists|i: int|
                0 <= i < points@.len() && (#[trigger] points@[i]).0 == value by {
                assert(self.counts@.contains_key(value));
                let k = choose|k: int| 0 <= k < unsorted@.len() && #[trigger] unsorted@[k].0 == value;
                assert(unsorted@.to_multiset().count(unsorted@[k]) > 0);
                assert(points@.contains(unsorted@[k]));
                let i = choose|i: int| 0 <= i < points@.len() && points@[i] == unsorted@[k];
                assert(points@[i].0 == value);
            }
        }
        points
    }

    /// The number of distinct measurements.
    pub fn distinct(&self) -> (n: usize)
        ensures
            n == self@.dom().len(),
    {
        proof {
            use_type_invariant(self);
            assert(self.counts@.dom() =~= self@.dom());
        }
        self.counts.len()
    }
}

/// The sum of the counts of the points.
pub open spec fn total_count(points: Seq<(u64, u64)>) -> nat
    decreases points.len(),
{
    if points.len() == 0 {
        0
    } else {
        total_count(points.drop_last()) + points.last().1 as nat
    }
}

/// The bag without any occurrence of `value`.
pub open spec fn without(bag: Multiset<u64>, value: u64) -> Multiset<u64> {
    bag.filter(|other: u64| other != value)
}

/// A frequency polygon without its last point is the frequency polygon of the
/// bag without the value of that point.
proof fn lemma_polygon_without_last(points: Seq<(u64, u64)>, bag: Multiset<u64>)
    requires
        is_polygon_of(points, bag),
        points.len() > 0,
    ensures
        is_polygon_of(points.drop_last(), without(bag, points.last().0)),
{
    broadcast use vstd::multiset::group_multiset_axioms;

    let shorter = points.drop_last();
    let rest = without(bag, points.last().0);
    assert forall|i: int| 0 <= i < shorter.len() implies (#[trigger] shorter[i]).1 > 0
        && shorter[i].1 == rest.count(shorter[i].0) by {
        assert(shorter[i] == points[i]);
        assert(order_key(points[i].0) < order_key(points[points.len() - 1].0));
    }
    assert forall|value: u64| rest.count(value) > 0 implies exists|i: int|
        0 <= i < shorter.len() && (#[trigger] shorter[i]).0 == value by {
        let i = choose|i: int| 0 <= i < points.len() && (#[trigger] points[i]).0 == value;
        assert(shorter[i].0 == value);
    }
    assert forall|i: int, j: int| 0 <= i < j < shorter.len() implies order_key(
        #[trigger] shorter[i].0,
    ) < order_key(#[trigger] shorter[j].0) by {
        assert(shorter[i].0 == points[i].0);
        assert(shorter[j].0 == points[j].0);
    }
}

/// A bag has one frequency polygon only.
pub proof fn lemma_polygon_is_determined(
    first: Seq<(u64, u64)>,
    second: Seq<(u64, u64)>,
    bag: Multiset<u64>,
)
    requires
        is_polygon_of(first, bag),
        is_polygon_of(second, bag),
    ensures
        first == second,
    decreases first.len(),
{
    if first.len() == 0 {
        if second.len() > 0 {
            assert(bag.count(second[0].0) > 0);
        }
        assert(first =~= second);
    } else {
        let top = first.last();
        assert(bag.count(top.0) > 0);
        let at = choose|i: int| 0 <= i < second.len() && (#[trigger] second[i]).0 == top.0;
        let other = second.last();
        assert(bag.count(other.0) > 0);
        let back = choose|i: int| 0 <= i < first.len() && (#[trigger] first[i]).0 == other.0;
        assert(order_key(first[back].0) <= order_key(top.0));
        assert(order_key(second[at].0) <= order_key(other.0));
        assert(top == other);
        lemma_polygon_without_last(first, bag);
        lemma_polygon_without_last(second, bag);
        lemma_polygon_is_determined(first.drop_last(), second.drop_last(), without(bag, top.0));
        assert(first =~= first.drop_last().push(top));
        assert(second =~= second.drop_last().push(other));
    }
}

/// The counts of a frequency polygon add up to the number of values it was
/// made from.
pub proof fn lemma_counts_sum_to_length(points: Seq<(u64, u64)>, bag: Multiset<u64>)
    requires
        is_polygon_of(points, bag),
    ensures
        total_count(points) == bag.len(),
    decreases bag.len(),
{
    broadcast use vstd::multiset::group_multiset_axioms;

    if points.len() == 0 {
        assert(bag =~= Multiset::empty());
    } else {
        let last = points.len() - 1;
        let (value, count) = points[last];
        let rest = bag.remove(value);
        let fewer = if count == 1 {
            points.drop_last()
        } else {
            points.update(last, (value, (count - 1) as u64))
        };
        assert(bag.count(value) == count);
        assert(rest.len() == bag.len() - 1);
        assert forall|i: int| 0 <= i < fewer.len() implies (#[trigger] fewer[i]).1 > 0
            && fewer[i].1 == rest.count(fewer[i].0) by {
            if i < last {
                assert(fewer[i] == points[i]);
                assert(order_key(points[i].0) < order_key(points[last].0));
            }
        }
        assert forall|other: u64| rest.count(other) > 0 implies exists|i: int|
            0 <= i < fewer.len() && (#[trigger] fewer[i]).0 == other by {
            assert(bag.count(other) > 0);
            let i = choose|i: int| 0 <= i < points.len() && (#[trigger] points[i]).0 == other;
            assert(fewer[i].0 == other);
        }
        assert forall|i: int, j: int| 0 <= i < j < fewer.len() implies order_key(
            #[trigger] fewer[i].0,
        ) < order_key(#[trigger] fewer[j].0) by {
            assert(fewer[i].0 == points[i].0);
            assert(fewer[j].0 == points[j].0);
        }
        lemma_counts_sum_to_length(fewer, rest);
        if count > 1 {
            assert(fewer.drop_last() =~= points.drop_last());
        }
    }
}

/// The counts of the frequency polygon of a sequence of values add up to the
/// length of the sequence.
pub proof fn lemma_counts_sum_to_number_of_values(points: Seq<(u64, u64)>, values: Seq<u64>)
    requires
        is_polygon_of(points, values.to_multiset()),
    ensures
        total_count(points) == values.len(),
{
    lemma_counts_sum_to_length(points, values.to_multiset());
    vstd::seq_lib::to_multiset_len(values);
}

} // verus!
