//! Latency statistics of a load test.

use vstd::prelude::*;

verus! {

/// The least, the greatest and three percentiles of the latencies.
#[derive(Clone, Copy, Debug, PartialEq, Eq, Structural)]
pub struct LatencyStatistics {
    pub min: u64,
    pub max: u64,
    pub p50: u64,
    pub p95: u64,
    pub p99: u64,
}

/// Puts a sample behind the last that is not greater.
pub open spec fn insertedSample(sorted: Seq<u64>, sample: u64) -> Seq<u64>
    decreases sorted.len(),
{
    if sorted.len() == 0 || sorted.last() <= sample {
        sorted.push(sample)
    } else {
        insertedSample(sorted.drop_last(), sample).push(sorted.last())
    }
}

/// The samples, least first.
pub open spec fn sortedSamples(samples: Seq<u64>) -> Seq<u64>
    decreases samples.len(),
{
    if samples.len() == 0 {
        Seq::empty()
    } else {
        insertedSample(sortedSamples(samples.drop_last()), samples.last())
    }
}

/// The place of a percentile among `count` sorted samples: the first that at least so many percent
/// of the samples do not exceed. The product is cut off at the largest machine number.
pub open spec fn nearestRank(count: nat, percent: nat) -> int {
    let product = if count * percent > usize::MAX {
        usize::MAX as int
    } else {
        (count * percent) as int
    };
    let rank = (product + 99) / 100;
    if rank > 0 {
        rank - 1
    } else {
        0
    }
}

/// The statistics of samples; all zero where there are none.
pub open spec fn latencySummary(samples: Seq<u64>) -> LatencyStatistics {
    if samples.len() == 0 {
        LatencyStatistics { min: 0, max: 0, p50: 0, p95: 0, p99: 0 }
    } else {
        let sorted = sortedSamples(samples);
        LatencyStatistics {
            min: sorted[0],
            max: sorted.last(),
            p50: sorted[nearestRank(samples.len(), 50)],
            p95: sorted[nearestRank(samples.len(), 95)],
            p99: sorted[nearestRank(samples.len(), 99)],
        }
    }
}

/// Whether numbers stand least first.
pub open spec fn isAscendingSamples(sorted: Seq<u64>) -> bool {
    forall|i: int, j: int| 0 <= i <= j < sorted.len() ==> sorted[i] <= sorted[j]
}

proof fn lemmaInsertedSample(sorted: Seq<u64>, sample: u64)
    requires
        isAscendingSamples(sorted),
    ensures
        isAscendingSamples(insertedSample(sorted, sample)),
        insertedSample(sorted, sample).len() == sorted.len() + 1,
        insertedSample(sorted, sample).to_multiset() == sorted.to_multiset().insert(sample),
        sorted.len() > 0 ==> insertedSample(sorted, sample).last() == if sample
            >= sorted.last() {
            sample
        } else {
            sorted.last()
        },
    decreases sorted.len(),
{
    broadcast use vstd::seq_lib::group_to_multiset_ensures;

    if sorted.len() > 0 && sorted.last() > sample {
        let before = sorted.drop_last();
        lemmaInsertedSample(before, sample);
        let inner = insertedSample(before, sample);
        assert(sorted == before.push(sorted.last()));
        assert(inner.push(sorted.last()).to_multiset() == inner.to_multiset().insert(
            sorted.last(),
        ));
        assert(sorted.to_multiset() == before.to_multiset().insert(sorted.last()));
        assert(inner.to_multiset().insert(sorted.last()) =~= sorted.to_multiset().insert(sample));
        assert(inner.last() <= sorted.last()) by {
            if before.len() > 0 {
                assert(before.last() == sorted[sorted.len() - 2]);
            } else {
                assert(inner == before.push(sample));
            }
        }
        assert forall|i: int, j: int|
            0 <= i <= j < inner.push(sorted.last()).len() implies inner.push(sorted.last())[i]
            <= inner.push(sorted.last())[j] by {
            if j < inner.len() {
                assert(inner[i] <= inner[j]);
            } else if i < inner.len() {
                assert(inner[i] <= inner[inner.len() - 1]);
            }
        }
    } else {
        assert forall|i: int, j: int|
            0 <= i <= j < sorted.push(sample).len() implies sorted.push(sample)[i] <= sorted.push(
            sample,
        )[j] by {
            if j < sorted.len() {
            } else if i < sorted.len() {
                assert(sorted[i] <= sorted[sorted.len() - 1]);
            }
        }
    }
}

/// Sorting keeps every sample and puts the least first.
pub proof fn lawSortedSamples(samples: Seq<u64>)
    ensures
        isAscendingSamples(sortedSamples(samples)),
        sortedSamples(samples).len() == samples.len(),
        sortedSamples(samples).to_multiset() == samples.to_multiset(),
    decreases samples.len(),
{
    broadcast use vstd::seq_lib::group_to_multiset_ensures;

    if samples.len() > 0 {
        lawSortedSamples(samples.drop_last());
        lemmaInsertedSample(sortedSamples(samples.drop_last()), samples.last());
        assert(samples == samples.drop_last().push(samples.last()));
    }
}

/// The statistics are in order and each is a sample: least, median, the two high percentiles and
/// greatest, and no sample lies outside.
pub proof fn lawLatencySummaryIsOrdered(samples: Seq<u64>)
    requires
        0 < samples.len() <= usize::MAX,
    ensures
        ({
            let summary = latencySummary(samples);
            &&& summary.min <= summary.p50 <= summary.p95 <= summary.p99 <= summary.max
            &&& samples.contains(summary.p50) && samples.contains(summary.p95)
            &&& samples.contains(summary.p99)
            &&& forall|i: int|
                0 <= i < samples.len() ==> summary.min <= #[trigger] samples[i] <= summary.max
        }),
{
    broadcast use vstd::seq_lib::group_to_multiset_ensures;

    lawSortedSamples(samples);
    lemmaRanks(samples.len());
    let sorted = sortedSamples(samples);
    assert forall|k: int| 0 <= k < sorted.len() implies samples.contains(#[trigger] sorted[k]) by {
        assert(sorted.contains(sorted[k]));
        assert(sorted.to_multiset().contains(sorted[k]));
        assert(samples.to_multiset().contains(sorted[k]));
    }
    assert forall|i: int| 0 <= i < samples.len() implies sorted[0] <= #[trigger] samples[i]
        <= sorted.last() by {
        assert(samples.contains(samples[i]));
        assert(samples.to_multiset().contains(samples[i]));
        assert(sorted.to_multiset().contains(samples[i]));
        assert(sorted.contains(samples[i]));
        let k = choose|k: int| 0 <= k < sorted.len() && sorted[k] == samples[i];
        assert(sorted[0] <= sorted[k] <= sorted[sorted.len() - 1]);
    }
}

/// The order in which samples came in does not matter: only which there are, and how often.
pub proof fn lawSampleOrderDoesNotMatter(first: Seq<u64>, second: Seq<u64>)
    requires
        first.to_multiset() == second.to_multiset(),
    ensures
        latencySummary(first) == latencySummary(second),
{
    broadcast use vstd::seq_lib::group_to_multiset_ensures;

    lawSortedSamples(first);
    lawSortedSamples(second);
    let notAbove = |a: u64, b: u64| a <= b;
    vstd::seq_lib::lemma_sorted_unique(sortedSamples(first), sortedSamples(second), notAbove);
}

proof fn lemmaRanks(count: nat)
    requires
        0 < count <= usize::MAX,
    ensures
        0 <= nearestRank(count, 50) <= nearestRank(count, 95) <= nearestRank(count, 99) < count,
{
}

/// The sample at the nearest rank of sorted samples.
pub fn percentile(values: &Vec<u64>, percent: usize) -> (result: u64)
    requires
        values.len() > 0,
        percent <= 100,
    ensures
        result == values@[nearestRank(values@.len(), percent as nat)],
{
    let product: usize = match values.len().checked_mul(percent) {
        Some(product) => product,
        None => usize::MAX,
    };
    let rank: usize = product / 100 + if product % 100 > 0 {
        1
    } else {
        0
    };
    let index: usize = if rank > 0 {
        rank - 1
    } else {
        0
    };
    assert(values.len() * percent <= values.len() * 100) by (nonlinear_arith)
        requires
            percent <= 100,
    ;
    assert(index == nearestRank(values@.len(), percent as nat));
    values[index]
}

/// The statistics of samples.
pub fn summarizeLatency(samples: &Vec<u64>) -> (result: LatencyStatistics)
    ensures
        result == latencySummary(samples@),
{
    if samples.len() == 0 {
        return LatencyStatistics { min: 0, max: 0, p50: 0, p95: 0, p99: 0 };
    }
    let mut sorted: Vec<u64> = Vec::new();
    let mut i: usize = 0;
    assert(sortedSamples(samples@.take(0)) == sorted@);
    while i < samples.len()
        invariant
            i <= samples.len(),
            sorted@ == sortedSamples(samples@.take(i as int)),
            sorted@.len() == i,
        decreases samples.len() - i,
    {
        let ghost before = sorted@;
        let sample: u64 = samples[i];
        let mut at: usize = sorted.len();
        assert(before.take(at as int) == before);
        assert(before.skip(at as int) == Seq::<u64>::empty());
        assert(insertedSample(before, sample) == insertedSample(before.take(at as int), sample)
            + before.skip(at as int));
        while at > 0 && sorted[at - 1] > sample
            invariant
                at <= sorted.len(),
                before == sorted@,
                insertedSample(before, sample) == insertedSample(before.take(at as int), sample)
                    + before.skip(at as int),
            decreases at,
        {
            let ghost start = before.take(at as int);
            assert(start.drop_last() == before.take(at - 1));
            assert(insertedSample(start, sample) == insertedSample(start.drop_last(), sample).push(
                start.last(),
            ));
            assert(insertedSample(start, sample) + before.skip(at as int) == insertedSample(
                before.take(at - 1),
                sample,
            ) + before.skip(at - 1));
            at -= 1;
        }
        assert(insertedSample(before.take(at as int), sample) == before.take(at as int).push(
            sample,
        )) by {
            if at > 0 {
                assert(before.take(at as int).last() == before[at - 1]);
            }
        }
        sorted.insert(at, sample);
        assert(sorted@ == before.take(at as int).push(sample) + before.skip(at as int));
        assert(samples@.take(i + 1).drop_last() == samples@.take(i as int));
        i += 1;
    }
    assert(samples@.take(i as int) == samples@);
    LatencyStatistics {
        min: sorted[0],
        max: sorted[sorted.len() - 1],
        p50: percentile(&sorted, 50),
        p95: percentile(&sorted, 95),
        p99: percentile(&sorted, 99),
    }
}

/// A percentile is the smallest sample that at least so many percent of the samples do not exceed, and the
/// ends of the summary are samples too.
pub proof fn lawPercentileIsNearestRank(count: nat, percent: nat)
    requires
        0 < count,
        0 < percent <= 100,
        count * percent <= usize::MAX,
    ensures
        ({
            let rank = nearestRank(count, percent);
            0 <= rank < count && rank * 100 < count * percent <= (rank + 1) * 100
        }),
{
    assert(count * percent <= count * 100) by (nonlinear_arith)
        requires
            percent <= 100,
    ;
    assert(0 < count * percent) by (nonlinear_arith)
        requires
            0 < count,
            0 < percent,
    ;
}

/// A summary tells of the sorted samples: the least, the greatest and those at the three ranks; without
/// samples there is nothing to tell.
pub proof fn lawSummaryTellsOfSamples(samples: Seq<u64>)
    requires
        samples.len() * 100 <= usize::MAX,
    ensures
        samples.len() > 0 ==> {
            let sorted = sortedSamples(samples);
            let summary = latencySummary(samples);
            &&& samples.contains(summary.min) && samples.contains(summary.max)
            &&& exists|rank: int| #[trigger]
                sorted[rank] == summary.p50 && 0 <= rank < samples.len() && rank * 100
                    < samples.len() * 50 <= (rank + 1) * 100
            &&& exists|rank: int| #[trigger]
                sorted[rank] == summary.p95 && 0 <= rank < samples.len() && rank * 100
                    < samples.len() * 95 <= (rank + 1) * 100
            &&& exists|rank: int| #[trigger]
                sorted[rank] == summary.p99 && 0 <= rank < samples.len() && rank * 100
                    < samples.len() * 99 <= (rank + 1) * 100
        },
        samples.len() == 0 ==> latencySummary(samples).max == 0 && latencySummary(samples).p50 == 0
            && latencySummary(samples).min == 0,
{
    if samples.len() > 0 {
        let sorted = sortedSamples(samples);
        lawSortedSamples(samples);
        lawPercentileIsNearestRank(samples.len(), 50);
        lawPercentileIsNearestRank(samples.len(), 95);
        lawPercentileIsNearestRank(samples.len(), 99);
        assert(sorted[nearestRank(samples.len(), 50)] == latencySummary(samples).p50);
        assert(sorted[nearestRank(samples.len(), 95)] == latencySummary(samples).p95);
        assert(sorted[nearestRank(samples.len(), 99)] == latencySummary(samples).p99);
        samples.to_multiset_ensures();
        sorted.to_multiset_ensures();
        assert(sorted.contains(sorted[0]));
        assert(sorted.contains(sorted.last()));
        assert(samples.to_multiset().count(sorted[0]) > 0);
        assert(samples.to_multiset().count(sorted.last()) > 0);
    }
}

} // verus!
