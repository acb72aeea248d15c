//! The bucket store.
//!
//! A [`Buckets`] value is the whole aggregation state of the daemon: the
//! running sum of every counter, the latest value of every gauge, the samples
//! of every timer since the last flush, and the number of datagrams that could
//! not be read. It also owns the backends that flushes are exported to.
//!
//! The store does no locking and no I/O. Whoever embeds it gives each call
//! exclusive access, reads the clock again once [`Buckets::flush`] has
//! returned, calls [`Buckets::flush_finished`] with that time, and sends the
//! payloads. Counters and timers are cleared by the flush itself, so an
//! interval that could not be delivered is lost.

use crate::backend::{Backend, FlushSnapshot, SnapshotModel};
use crate::management::{interpret, response};
use crate::metric::{decode, spec_decode, Metric, MetricKind, MetricModel};
use crate::number::{clamp, numbers_view, quotient, Number};
use crate::summary::{summary_of, Percentile, Summary};
use crate::table::{Table, TableModel};
use vstd::prelude::*;

verus! {

/// The views of a sequence of byte strings.
pub open spec fn views(v: Seq<Vec<u8>>) -> Seq<Seq<u8>> {
    Seq::new(v.len(), |i: int| v[i]@)
}

/// What a bucket store holds.
pub struct BucketsModel<B> {
    /// The running sum of each counter since the last flush.
    pub counters: TableModel<int>,
    /// The latest value of each gauge ever seen.
    pub gauges: TableModel<int>,
    /// The samples of each timer since the last flush, in order of arrival.
    pub timers: TableModel<Seq<int>>,
    /// How many datagrams could not be read, ever.
    pub bad_messages: nat,
    /// The percentile that timer summaries report.
    pub percentile: int,
    /// The registered backends.
    pub backends: Seq<B>,
}

impl<B: Backend> BucketsModel<B> {
    /// What a counter metric adds to its counter: the value divided by the sample rate.
    pub open spec fn increment(m: MetricModel) -> int {
        clamp(quotient(m.value, m.sample_rate))
    }

    /// The store after one metric has been added.
    pub open spec fn add_metric(self, m: MetricModel) -> Self {
        match m.kind {
            MetricKind::Counter => BucketsModel {
                counters: self.counters.put(
                    m.name,
                    clamp(
                        match self.counters.get(m.name) {
                            Some(sum) => sum,
                            None => 0,
                        } + Self::increment(m),
                    ),
                ),
                ..self
            },
            MetricKind::Gauge => BucketsModel { gauges: self.gauges.put(m.name, m.value), ..self },
            MetricKind::Timer => BucketsModel {
                timers: self.timers.put(
                    m.name,
                    match self.timers.get(m.name) {
                        Some(samples) => samples.push(m.value),
                        None => seq![m.value],
                    },
                ),
                ..self
            },
        }
    }

    /// The store after one more unreadable datagram. The count stops at `u64::MAX`.
    pub open spec fn record_bad_message(self) -> Self {
        BucketsModel {
            bad_messages: if self.bad_messages < u64::MAX {
                self.bad_messages + 1
            } else {
                self.bad_messages
            },
            ..self
        }
    }

    /// The store after a datagram has arrived.
    pub open spec fn ingest(self, datagram: Seq<u8>) -> Self {
        match spec_decode(datagram) {
            Some(m) => self.add_metric(m),
            None => self.record_bad_message(),
        }
    }

    /// What a flush hands to the backends.
    pub open spec fn snapshot(self) -> SnapshotModel {
        SnapshotModel {
            counters: self.counters,
            gauges: self.gauges,
            timers: self.timers.map_values(
                |samples: Seq<int>| summary_of(samples, self.percentile),
            ),
        }
    }

    /// What a flush that begins at `start` gives to send, backend by backend.
    pub open spec fn payloads(self, start: int) -> Seq<Seq<u8>> {
        Seq::new(self.backends.len(), |i: int| self.backends[i].payload(self.snapshot(), start))
    }

    /// The store after a flush: counters and timers are empty, all else is as before.
    pub open spec fn flushed(self) -> Self {
        BucketsModel { counters: TableModel::empty(), timers: TableModel::empty(), ..self }
    }

    /// The store after every backend has been told that a flush ended.
    pub open spec fn flush_finished(self, start: int, end: int) -> Self {
        BucketsModel {
            backends: Seq::new(self.backends.len(), |i: int| self.backends[i].finished(start, end)),
            ..self
        }
    }
}

/// The aggregation state, and the backends it is flushed to.
pub struct Buckets<B> {
    counters: Table<Number>,
    gauges: Table<Number>,
    timers: Table<Vec<Number>>,
    bad_messages: u64,
    percentile: Percentile,
    backends: Vec<B>,
}

impl<B: Backend> View for Buckets<B> {
    type V = BucketsModel<B>;

    closed spec fn view(&self) -> BucketsModel<B> {
        BucketsModel {
            counters: self.counters@,
            gauges: self.gauges@,
            timers: self.timers@,
            bad_messages: self.bad_messages as nat,
            percentile: self.percentile@,
            backends: self.backends@,
        }
    }
}

impl<B: Backend> Buckets<B> {
    /// An empty store without backends, reporting the 90th percentile.
    pub fn new() -> (store: Self)
        ensures
            store@ == (BucketsModel::<B> {
                counters: TableModel::empty(),
                gauges: TableModel::empty(),
                timers: TableModel::empty(),
                bad_messages: 0,
                percentile: 90,
                backends: Seq::empty(),
            }),
    {
        Buckets {
            counters: Table::new(),
            gauges: Table::new(),
            timers: Table::new(),
            bad_messages: 0,
            percentile: Percentile::default(),
            backends: Vec::new(),
        }
    }

    /// Chooses the percentile that timer summaries report from now on.
    pub fn set_percentile(&mut self, percentile: Percentile)
        ensures
            final(self)@ == (BucketsModel { percentile: percentile@, ..old(self)@ }),
    {
        self.percentile = percentile;
    }

    /// Registers one more backend, after those already there.
    pub fn add_backend(&mut self, backend: B)
        ensures
            final(self)@ == (BucketsModel {
                backends: old(self)@.backends.push(backend),
                ..old(self)@
            }),
    {
        self.backends.push(backend);
    }

    /// The counters.
    pub fn counters(&self) -> (table: &Table<Number>)
        ensures
            table@ == self@.counters,
    {
        &self.counters
    }

    /// The gauges.
    pub fn gauges(&self) -> (table: &Table<Number>)
        ensures
            table@ == self@.gauges,
    {
        &self.gauges
    }

    /// The timers.
    pub fn timers(&self) -> (table: &Table<Vec<Number>>)
        ensures
            table@ == self@.timers,
    {
        &self.timers
    }

    /// How many datagrams could not be read.
    pub fn bad_messages(&self) -> (count: u64)
        ensures
            count == self@.bad_messages,
    {
        self.bad_messages
    }

    /// The percentile that timer summaries report.
    pub fn percentile(&self) -> (percentile: Percentile)
        ensures
            percentile@ == self@.percentile,
    {
        self.percentile
    }

    /// The registered backends.
    pub fn backends(&self) -> (backends: &Vec<B>)
        ensures
            backends@ == self@.backends,
    {
        &self.backends
    }

    /// Adds one metric: a counter grows by the value divided by the sample
    /// rate, a gauge takes the value, a timer gets the value as one more sample.
    pub fn add_metric(&mut self, metric: &Metric)
        ensures
            final(self)@ == old(self)@.add_metric(metric@),
    {
        match metric.kind() {
            MetricKind::Counter => {
                let increment = metric.value().divided_by(metric.sample_rate());
                let sum = match self.counters.get(metric.name()) {
                    Some(sum) => *sum,
                    None => Number::zero(),
                };
                self.counters.insert(metric.name(), sum.saturating_add(increment));
            },
            MetricKind::Gauge => {
                self.gauges.insert(metric.name(), metric.value());
            },
            MetricKind::Timer => {
                self.timers.append(metric.name(), metric.value());
            },
        }
    }

    /// Counts one datagram that could not be read.
    pub fn record_bad_message(&mut self)
        ensures
            final(self)@ == old(self)@.record_bad_message(),
    {
        if self.bad_messages < u64::MAX {
            self.bad_messages = self.bad_messages + 1;
        }
    }

    /// Takes in one datagram: adds the metric it carries, or counts it as bad.
    pub fn ingest(&mut self, datagram: &[u8])
        ensures
            final(self)@ == old(self)@.ingest(datagram@),
    {
        match decode(datagram) {
            Some(metric) => self.add_metric(&metric),
            None => self.record_bad_message(),
        }
    }

    /// The snapshot that a flush would export now.
    pub fn snapshot(&self) -> (snapshot: FlushSnapshot)
        ensures
            snapshot@ == self@.snapshot(),
    {
        let mut summaries: Vec<Summary> = Vec::new();
        let mut i: usize = 0;
        let n = self.timers.len();
        while i < n
            invariant
                i <= n,
                n == self.timers@.order.len(),
                summaries@.len() == i,
                forall|j: int|
                    0 <= j < i ==> (#[trigger] summaries@[j])@ == summary_of(
                        self.timers@.map[self.timers@.order[j]],
                        self.percentile@,
                    ),
            decreases n - i,
        {
            let samples = self.timers.value_at(i);
            assert(samples.deep_view() =~= numbers_view(samples@));
            summaries.push(Summary::of(samples.as_slice(), self.percentile));
            i += 1;
        }
        let timers = Table::with_names_of(&self.timers, summaries);
        proof {
            use_type_invariant(&self.timers);
            self.timers.lemma_wf();
            let goal = self@.snapshot().timers;
            assert(goal.map.dom() =~= self.timers@.map.dom());
            assert forall|k: Seq<u8>| timers@.map.dom().contains(k) implies timers@.map[k]
                == goal.map[k] by {
                assert(self.timers@.map.dom().contains(k));
                assert(self.timers@.order.contains(k));
                let p = choose|p: int|
                    0 <= p < self.timers@.order.len() && self.timers@.order[p] == k;
                assert(timers@.map[self.timers@.order[p]] == summaries@[p].deep_view());
            }
            assert(timers@.map =~= goal.map);
        }
        FlushSnapshot {
            counters: self.counters.duplicate(),
            gauges: self.gauges.duplicate(),
            timers,
        }
    }

    /// Flushes the store at time `start`: renders the snapshot for each
    /// backend and clears counters and timers. Gauges and the count of bad
    /// datagrams stay. The result holds one payload per backend, in order.
    pub fn flush(&mut self, start: i64) -> (payloads: Vec<Vec<u8>>)
        ensures
            payloads@.len() == old(self)@.backends.len(),
            views(payloads@) == old(self)@.payloads(start as int),
            final(self)@ == old(self)@.flushed(),
    {
        let snapshot = self.snapshot();
        let mut payloads: Vec<Vec<u8>> = Vec::new();
        let mut i: usize = 0;
        let n = self.backends.len();
        while i < n
            invariant
                i <= n,
                n == self.backends@.len(),
                payloads@.len() == i,
                forall|j: int|
                    0 <= j < i ==> (#[trigger] payloads@[j])@ == self.backends@[j].payload(
                        snapshot@,
                        start as int,
                    ),
            decreases n - i,
        {
            payloads.push(self.backends[i].flush_buckets(&snapshot, start));
            i += 1;
        }
        self.counters.clear();
        self.timers.clear();
        assert(views(payloads@) =~= old(self)@.payloads(start as int));
        payloads
    }

    /// Tells every backend that the flush begun at `start` ended at `end`.
    pub fn flush_finished(&mut self, start: i64, end: i64)
        ensures
            final(self)@ == old(self)@.flush_finished(start as int, end as int),
    {
        let mut i: usize = 0;
        let n = self.backends.len();
        while i < n
            invariant
                i <= n,
                n == self.backends@.len(),
                n == old(self).backends@.len(),
                self.counters == old(self).counters,
                self.gauges == old(self).gauges,
                self.timers == old(self).timers,
                self.bad_messages == old(self).bad_messages,
                self.percentile == old(self).percentile,
                forall|j: int|
                    0 <= j < i ==> #[trigger] self.backends@[j] == old(self).backends@[j].finished(
                        start as int,
                        end as int,
                    ),
                forall|j: int|
                    i <= j < n ==> #[trigger] self.backends@[j] == old(self).backends@[j],
            decreases n - i,
        {
            self.backends[i].flush_finished(start, end);
            i += 1;
        }
        assert(self@.backends =~= old(self)@.flush_finished(start as int, end as int).backends);
    }

    /// Answers one management command.
    pub fn handle_management_command(&self, line: &[u8]) -> (answer: Vec<u8>)
        ensures
            answer@ == response(self@, line@),
    {
        interpret(self, line)
    }
}

} // verus!
