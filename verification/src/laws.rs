//! What holds of the bucket store over whole runs.
//!
//! The contracts of [`crate::buckets::Buckets`] say what one call does. The
//! proof functions here say what follows for sequences of calls: how counters,
//! gauges and timers build up between flushes, what a flush resets and what
//! it keeps, and how datagrams that cannot be read are counted.

use crate::backend::Backend;
use crate::buckets::BucketsModel;
use crate::metric::{spec_decode, MetricKind, MetricModel};
use crate::number::{lemma_quotient_by_one, SCALE};
use vstd::prelude::*;

verus! {

/// The store after the metrics have been added one after the other.
pub open spec fn add_all<B: Backend>(
    store: BucketsModel<B>,
    metrics: Seq<MetricModel>,
) -> BucketsModel<B>
    decreases metrics.len(),
{
    if metrics.len() == 0 {
        store
    } else {
        add_all(store, metrics.drop_last()).add_metric(metrics.last())
    }
}

/// The exact sum of the values of the metrics.
pub open spec fn total(metrics: Seq<MetricModel>) -> int
    decreases metrics.len(),
{
    if metrics.len() == 0 {
        0
    } else {
        total(metrics.drop_last()) + metrics.last().value
    }
}

/// The values of the metrics, in order.
pub open spec fn values(metrics: Seq<MetricModel>) -> Seq<int> {
    Seq::new(metrics.len(), |i: int| metrics[i].value)
}

/// The running sum of a counter, taking a counter that is not there as zero.
pub open spec fn counter_or_zero<B: Backend>(store: BucketsModel<B>, name: Seq<u8>) -> int {
    match store.counters.get(name) {
        Some(sum) => sum,
        None => 0,
    }
}

/// The samples of a timer, taking a timer that is not there as empty.
pub open spec fn samples_or_none<B: Backend>(store: BucketsModel<B>, name: Seq<u8>) -> Seq<int> {
    match store.timers.get(name) {
        Some(samples) => samples,
        None => Seq::empty(),
    }
}

/// Counter metrics of one name with sample rate 1 add up: after them the
/// counter holds what it held before plus the sum of their values, as long as
/// no sum on the way leaves the range of a number.
pub proof fn law_counter_sum<B: Backend>(
    store: BucketsModel<B>,
    name: Seq<u8>,
    metrics: Seq<MetricModel>,
)
    requires
        forall|i: int|
            0 <= i < metrics.len() ==> {
                &&& (#[trigger] metrics[i]).wf()
                &&& metrics[i].kind == MetricKind::Counter
                &&& metrics[i].name == name
                &&& metrics[i].sample_rate == SCALE
            },
        forall|k: int|
            0 <= k <= metrics.len() ==> i64::MIN <= counter_or_zero(store, name) + #[trigger] total(
                metrics.take(k),
            ) <= i64::MAX,
    ensures
        counter_or_zero(add_all(store, metrics), name) == counter_or_zero(store, name) + total(
            metrics,
        ),
        metrics.len() > 0 ==> add_all(store, metrics).counters.get(name) == Some(
            counter_or_zero(store, name) + total(metrics),
        ),
    decreases metrics.len(),
{
    if metrics.len() > 0 {
        let earlier = metrics.drop_last();
        let last = metrics.last();
        assert forall|k: int| 0 <= k <= earlier.len() implies i64::MIN <= counter_or_zero(
            store,
            name,
        ) + #[trigger] total(earlier.take(k)) <= i64::MAX by {
            assert(earlier.take(k) =~= metrics.take(k));
        }
        law_counter_sum(store, name, earlier);
        assert(metrics.take(metrics.len() as int) =~= metrics);
        assert(earlier.take(earlier.len() as int) =~= earlier);
        assert(last.wf());
        lemma_quotient_by_one(last.value);
    }
}

/// Metrics that all carry the value one add up to their number.
proof fn lemma_total_of_ones(metrics: Seq<MetricModel>)
    requires
        forall|i: int| 0 <= i < metrics.len() ==> (#[trigger] metrics[i]).value == SCALE,
    ensures
        total(metrics) == metrics.len() * SCALE,
    decreases metrics.len(),
{
    if metrics.len() > 0 {
        lemma_total_of_ones(metrics.drop_last());
    }
}

/// Increments of one are never lost: `n` counter metrics of value 1 and
/// sample rate 1 raise their counter by exactly `n`. Since the increments are
/// all alike, this holds of every order in which their senders' calls reach
/// the store.
pub proof fn law_increments_of_one<B: Backend>(
    store: BucketsModel<B>,
    name: Seq<u8>,
    metrics: Seq<MetricModel>,
)
    requires
        forall|i: int|
            0 <= i < metrics.len() ==> (#[trigger] metrics[i]) == (MetricModel {
                name,
                value: SCALE as int,
                kind: MetricKind::Counter,
                sample_rate: SCALE as int,
            }),
        i64::MIN <= counter_or_zero(store, name),
        counter_or_zero(store, name) + metrics.len() * SCALE <= i64::MAX,
    ensures
        counter_or_zero(add_all(store, metrics), name) == counter_or_zero(store, name)
            + metrics.len() * SCALE,
{
    assert forall|k: int| 0 <= k <= metrics.len() implies i64::MIN <= counter_or_zero(
        store,
        name,
    ) + #[trigger] total(metrics.take(k)) <= i64::MAX by {
        lemma_total_of_ones(metrics.take(k));
    }
    lemma_total_of_ones(metrics);
    law_counter_sum(store, name, metrics);
}

/// A gauge holds the value of the latest gauge metric of its name, whatever
/// else was added before or after.
pub proof fn law_gauge_holds_last<B: Backend>(
    store: BucketsModel<B>,
    metrics: Seq<MetricModel>,
    latest: int,
)
    requires
        0 <= latest < metrics.len(),
        metrics[latest].kind == MetricKind::Gauge,
        forall|k: int|
            latest < k < metrics.len() ==> !((#[trigger] metrics[k]).kind == MetricKind::Gauge
                && metrics[k].name == metrics[latest].name),
    ensures
        add_all(store, metrics).gauges.get(metrics[latest].name) == Some(metrics[latest].value),
    decreases metrics.len(),
{
    if latest < metrics.len() - 1 {
        let earlier = metrics.drop_last();
        assert(earlier[latest] == metrics[latest]);
        assert forall|k: int| latest < k < earlier.len() implies !((#[trigger] earlier[k]).kind
            == MetricKind::Gauge && earlier[k].name == earlier[latest].name) by {
            assert(earlier[k] == metrics[k]);
        }
        law_gauge_holds_last(store, earlier, latest);
        assert(!(metrics.last().kind == MetricKind::Gauge && metrics.last().name
            == metrics[latest].name));
    }
}

/// A flush leaves every gauge as it is, so that flushes without new gauge
/// metrics in between export the same gauges.
pub proof fn law_gauges_survive_flush<B: Backend>(store: BucketsModel<B>)
    ensures
        store.flushed().gauges == store.gauges,
        store.flushed().snapshot().gauges == store.snapshot().gauges,
        store.flushed().flushed() == store.flushed(),
{
}

/// Timer metrics of one name pile up: after them the timer holds the samples
/// it held before followed by their values, in order of arrival.
pub proof fn law_timer_accumulates<B: Backend>(
    store: BucketsModel<B>,
    name: Seq<u8>,
    metrics: Seq<MetricModel>,
)
    requires
        forall|i: int|
            0 <= i < metrics.len() ==> (#[trigger] metrics[i]).kind == MetricKind::Timer
                && metrics[i].name == name,
    ensures
        samples_or_none(add_all(store, metrics), name) == samples_or_none(store, name) + values(
            metrics,
        ),
        metrics.len() > 0 ==> add_all(store, metrics).timers.get(name) == Some(
            samples_or_none(store, name) + values(metrics),
        ),
    decreases metrics.len(),
{
    if metrics.len() == 0 {
        assert(samples_or_none(store, name) + values(metrics) =~= samples_or_none(store, name));
    } else {
        let earlier = metrics.drop_last();
        law_timer_accumulates(store, name, earlier);
        assert((samples_or_none(store, name) + values(earlier)).push(metrics.last().value)
            =~= samples_or_none(store, name) + values(metrics));
        assert(seq![metrics.last().value] =~= Seq::<int>::empty().push(metrics.last().value));
    }
}

/// After a flush no counter and no timer is left, while the gauges and the
/// count of bad datagrams are what they were.
pub proof fn law_flush_resets<B: Backend>(store: BucketsModel<B>, name: Seq<u8>)
    ensures
        store.flushed().counters.get(name) is None,
        store.flushed().timers.get(name) is None,
        store.flushed().counters.order.len() == 0,
        store.flushed().timers.order.len() == 0,
        store.flushed().gauges == store.gauges,
        store.flushed().bad_messages == store.bad_messages,
{
}

/// A datagram that cannot be read raises the count of bad datagrams by
/// exactly one, as long as the count has not reached `u64::MAX`; a datagram
/// that can be read leaves it alone, and so does a flush.
pub proof fn law_bad_messages<B: Backend>(store: BucketsModel<B>, datagram: Seq<u8>)
    ensures
        spec_decode(datagram) is None && store.bad_messages < u64::MAX ==> store.ingest(
            datagram,
        ).bad_messages == store.bad_messages + 1,
        spec_decode(datagram) is Some ==> store.ingest(datagram).bad_messages
            == store.bad_messages,
        store.ingest(datagram).bad_messages >= store.bad_messages,
        store.flushed().bad_messages == store.bad_messages,
{
}

/// Adding a metric keeps the three tables well formed.
pub proof fn law_tables_stay_well_formed<B: Backend>(store: BucketsModel<B>, metric: MetricModel)
    requires
        store.counters.wf(),
        store.gauges.wf(),
        store.timers.wf(),
    ensures
        store.add_metric(metric).counters.wf(),
        store.add_metric(metric).gauges.wf(),
        store.add_metric(metric).timers.wf(),
{
    let after = store.add_metric(metric);
    match metric.kind {
        MetricKind::Counter => {
            store.counters.lemma_put_wf(metric.name, after.counters.map[metric.name]);
        },
        MetricKind::Gauge => {
            store.gauges.lemma_put_wf(metric.name, metric.value);
        },
        MetricKind::Timer => {
            store.timers.lemma_put_wf(metric.name, after.timers.map[metric.name]);
        },
    }
}

} // verus!
