//! Timer summaries.
//!
//! At flush time the samples of a timer are reduced to a [`Summary`]: their
//! count, sum, smallest and largest value, mean, and one percentile. The
//! percentile follows the nearest-rank rule: of `n` samples sorted ascending,
//! the `p`-th percentile is the sample at rank `ceil(p * n / 100)`, counting
//! from one. No interpolation takes place, so it is always one of the samples.

use crate::number::{clamp, numbers_view, trunc_div, Number};
use vstd::prelude::*;
use vstd::relations::{sorted_by, total_ordering};
use vstd::seq_lib::lemma_sorted_unique;

verus! {

/// Which percentile a summary reports: a whole number from 1 to 100.
#[derive(Clone, Copy, Debug, PartialEq, Eq)]
pub struct Percentile {
    rank: u8,
}

impl View for Percentile {
    type V = int;

    closed spec fn view(&self) -> int {
        self.rank as int
    }
}

impl Percentile {
    #[verifier::type_invariant]
    pub closed spec fn inv(&self) -> bool {
        1 <= self.rank <= 100
    }

    /// The percentile `rank`, if it lies between 1 and 100.
    pub fn new(rank: u8) -> (p: Option<Percentile>)
        ensures
            p is Some <==> 1 <= rank <= 100,
            p matches Some(q) ==> q@ == rank,
    {
        if 1 <= rank && rank <= 100 {
            Some(Percentile { rank })
        } else {
            None
        }
    }

    /// The percentile as a number from 1 to 100.
    pub fn rank(&self) -> (r: u8)
        ensures
            r == self@,
            1 <= r <= 100,
    {
        proof {
            use_type_invariant(self);
        }
        self.rank
    }
}

impl Default for Percentile {
    /// The 90th percentile.
    fn default() -> (p: Percentile)
        ensures
            p@ == 90,
    {
        Percentile { rank: 90 }
    }
}

/// The order in which samples are sorted.
pub open spec fn ascending() -> spec_fn(int, int) -> bool {
    |a: int, b: int| a <= b
}

/// The sum of the samples in the order given, saturating after each addition.
pub open spec fn saturating_sum(samples: Seq<int>) -> int
    decreases samples.len(),
{
    if samples.len() == 0 {
        0
    } else {
        clamp(saturating_sum(samples.drop_last()) + samples.last())
    }
}

/// The one-based rank of the `percentile`-th percentile among `count` samples.
pub open spec fn nearest_rank(count: nat, percentile: int) -> int {
    (percentile * count + 99) / 100
}

/// What a summary says of a list of samples.
pub struct SummaryModel {
    pub count: nat,
    pub sum: int,
    pub lower: int,
    pub upper: int,
    pub mean: int,
    pub percentile: int,
    pub at_percentile: int,
}

/// The summary of `samples` for the given percentile. The summary of no
/// samples is zero throughout.
pub open spec fn summary_of(samples: Seq<int>, percentile: int) -> SummaryModel {
    if samples.len() == 0 {
        SummaryModel {
            count: 0,
            sum: 0,
            lower: 0,
            upper: 0,
            mean: 0,
            percentile,
            at_percentile: 0,
        }
    } else {
        SummaryModel {
            count: samples.len(),
            sum: saturating_sum(samples),
            lower: samples.min(),
            upper: samples.max(),
            mean: trunc_div(saturating_sum(samples), samples.len() as int),
            percentile,
            at_percentile: samples.sort_by(ascending())[nearest_rank(samples.len(), percentile)
                - 1],
        }
    }
}

/// The statistics of one timer over one flush interval.
#[derive(Clone, Copy, Debug, PartialEq, Eq)]
pub struct Summary {
    /// How many samples were seen.
    pub count: u64,
    /// Their saturating sum.
    pub sum: Number,
    /// The smallest sample.
    pub lower: Number,
    /// The largest sample.
    pub upper: Number,
    /// The sum divided by the count, rounded toward zero.
    pub mean: Number,
    /// Which percentile `at_percentile` is.
    pub percentile: u8,
    /// The sample at that percentile, by nearest rank.
    pub at_percentile: Number,
}

impl View for Summary {
    type V = SummaryModel;

    open spec fn view(&self) -> SummaryModel {
        SummaryModel {
            count: self.count as nat,
            sum: self.sum@,
            lower: self.lower@,
            upper: self.upper@,
            mean: self.mean@,
            percentile: self.percentile as int,
            at_percentile: self.at_percentile@,
        }
    }
}

impl DeepView for Summary {
    type V = SummaryModel;

    open spec fn deep_view(&self) -> SummaryModel {
        self@
    }
}

/// `<=` on the integers is a total order.
pub proof fn lemma_ascending_total()
    ensures
        total_ordering(ascending()),
{
    let leq = ascending();
    assert(vstd::relations::reflexive(leq));
    assert(vstd::relations::antisymmetric(leq));
    assert(vstd::relations::transitive(leq));
    assert(vstd::relations::strongly_connected(leq));
}

/// The nearest rank of a percentile from 1 to 100 is a rank among the samples.
pub proof fn lemma_nearest_rank_in_range(count: nat, percentile: int)
    requires
        count > 0,
        1 <= percentile <= 100,
    ensures
        1 <= nearest_rank(count, percentile) <= count,
{
    assert(percentile * count >= count) by (nonlinear_arith)
        requires
            percentile >= 1,
            count > 0,
    ;
    assert(percentile * count <= 100 * count) by (nonlinear_arith)
        requires
            percentile <= 100,
            count > 0,
    ;
}

/// A sorted rearrangement of the samples is `sort_by` of them, and its ends
/// are their minimum and maximum.
proof fn lemma_sorted_is_sort_by(samples: Seq<int>, sorted: Seq<int>)
    requires
        samples.len() > 0,
        sorted_by(sorted, ascending()),
        sorted.to_multiset() == samples.to_multiset(),
    ensures
        sorted == samples.sort_by(ascending()),
        sorted.len() == samples.len(),
        sorted[0] == samples.min(),
        sorted[sorted.len() - 1] == samples.max(),
{
    broadcast use vstd::seq_lib::group_to_multiset_ensures;

    lemma_ascending_total();
    samples.lemma_sort_by_ensures(ascending());
    lemma_sorted_unique(sorted, samples.sort_by(ascending()), ascending());
    assert(sorted.len() == sorted.to_multiset().len());
    assert(samples.len() == samples.to_multiset().len());
    samples.min_ensures();
    samples.max_ensures();
    let first = sorted[0];
    let last = sorted[sorted.len() - 1];
    assert(sorted.contains(first));
    assert(sorted.contains(last));
    assert(sorted.to_multiset().contains(first));
    assert(sorted.to_multiset().contains(last));
    assert(samples.contains(first));
    assert(samples.contains(last));
    let lo = samples.min();
    let hi = samples.max();
    assert(samples.to_multiset().contains(lo));
    assert(samples.to_multiset().contains(hi));
    assert(sorted.contains(lo));
    assert(sorted.contains(hi));
    let i = choose|i: int| 0 <= i < sorted.len() && sorted[i] == lo;
    let j = choose|j: int| 0 <= j < sorted.len() && sorted[j] == hi;
    assert(ascending()(sorted[0], sorted[i]) || i == 0);
    assert(ascending()(sorted[j], sorted[sorted.len() - 1]) || j == sorted.len() - 1);
}

/// The samples in ascending order.
fn sorted_copy(samples: &[Number]) -> (sorted: Vec<Number>)
    ensures
        sorted_by(numbers_view(sorted@), ascending()),
        numbers_view(sorted@).to_multiset() == numbers_view(samples@).to_multiset(),
{
    broadcast use vstd::seq_lib::group_to_multiset_ensures;

    let mut sorted: Vec<Number> = Vec::new();
    let mut i: usize = 0;
    assert(numbers_view(samples@.take(0)) =~= Seq::<int>::empty());
    assert(numbers_view(sorted@) =~= Seq::<int>::empty());
    while i < samples.len()
        invariant
            i <= samples@.len(),
            sorted_by(numbers_view(sorted@), ascending()),
            numbers_view(sorted@).to_multiset() == numbers_view(
                samples@.take(i as int),
            ).to_multiset(),
        decreases samples@.len() - i,
    {
        let x = samples[i];
        let mut at: usize = 0;
        while at < sorted.len() && sorted[at].millionths <= x.millionths
            invariant
                at <= sorted@.len(),
                forall|k: int| 0 <= k < at ==> sorted@[k]@ <= x@,
            decreases sorted@.len() - at,
        {
            at += 1;
        }
        let ghost before = numbers_view(sorted@);
        assert(at < before.len() ==> before[at as int] > x@);
        assert(forall|k: int| 0 <= k < at ==> before[k] <= x@);
        sorted.insert(at, x);
        proof {
            let after = numbers_view(sorted@);
            let seen = numbers_view(samples@.take(i as int));
            assert(after =~= before.insert(at as int, x@));
            assert(numbers_view(samples@.take(i + 1)) =~= seen.push(x@));
            vstd::seq_lib::to_multiset_insert(before, at as int, x@);
            vstd::seq_lib::to_multiset_build(seen, x@);
            assert forall|a: int, b: int| 0 <= a < b < after.len() implies ascending()(
                after[a],
                after[b],
            ) by {
                let lo = if a < at { before[a] } else if a == at { x@ } else { before[a - 1] };
                let hi = if b < at { before[b] } else if b == at { x@ } else { before[b - 1] };
                assert(after[a] == lo && after[b] == hi);
                if a < at && b > at {
                    assert(ascending()(before[a], before[b - 1]));
                } else if a > at {
                    assert(ascending()(before[a - 1], before[b - 1]));
                } else if b < at {
                    assert(ascending()(before[a], before[b]));
                } else if a == at && b - 1 > at {
                    assert(ascending()(before[at as int], before[b - 1]));
                }
            }
        }
        i += 1;
    }
    assert(samples@.take(i as int) =~= samples@);
    sorted
}

/// The saturating sum of the samples.
fn sum_of(samples: &[Number]) -> (sum: Number)
    ensures
        sum@ == saturating_sum(numbers_view(samples@)),
{
    let mut sum = Number::zero();
    let mut i: usize = 0;
    assert(numbers_view(samples@.take(0)) =~= Seq::<int>::empty());
    while i < samples.len()
        invariant
            i <= samples@.len(),
            sum@ == saturating_sum(numbers_view(samples@.take(i as int))),
        decreases samples@.len() - i,
    {
        proof {
            let longer = numbers_view(samples@.take(i + 1));
            assert(longer.drop_last() =~= numbers_view(samples@.take(i as int)));
            assert(longer.last() == samples@[i as int]@);
        }
        sum = sum.saturating_add(samples[i]);
        i += 1;
    }
    assert(samples@.take(i as int) =~= samples@);
    sum
}

impl Summary {
    /// Summarizes the samples of one timer.
    pub fn of(samples: &[Number], percentile: Percentile) -> (summary: Summary)
        ensures
            summary@ == summary_of(numbers_view(samples@), percentile@),
    {
        let rank = percentile.rank();
        let n = samples.len();
        if n == 0 {
            let zero = Number::zero();
            return Summary {
                count: 0,
                sum: zero,
                lower: zero,
                upper: zero,
                mean: zero,
                percentile: rank,
                at_percentile: zero,
            };
        }
        let sum = sum_of(samples);
        let sorted = sorted_copy(samples);
        proof {
            lemma_sorted_is_sort_by(numbers_view(samples@), numbers_view(sorted@));
            lemma_nearest_rank_in_range(n as nat, rank as int);
        }
        let wide: u128 = (rank as u128) * (n as u128) + 99;
        let at: usize = (wide / 100 - 1) as usize;
        Summary {
            count: n as u64,
            sum,
            lower: sorted[0],
            upper: sorted[n - 1],
            mean: sum.divided_by_count(n as u64),
            percentile: rank,
            at_percentile: sorted[at],
        }
    }
}

} // verus!
