//! The plaintext line exporter.
//!
//! A [`Graphite`] backend renders a snapshot as lines of the form
//! `<path> <value> <timestamp>\n`, one per counter and gauge and six per
//! timer, followed by two lines about the backend itself. Every line of one
//! flush carries the time at which that flush began.

use crate::addr::SocketAddr;
use crate::backend::{Backend, FlushSnapshot, SnapshotModel};
use crate::number::{clamp, Number};
use crate::summary::{Summary, SummaryModel};
use crate::table::{Table, TableModel};
use crate::text::{
    int_text, nat_text, number_text, number_to_text, push_bytes, push_int, push_nat, push_str,
    text, NEWLINE, SPACE,
};
use vstd::prelude::*;

verus! {

/// What a [`Graphite`] backend holds.
pub struct GraphiteModel {
    /// Where the payload is to be sent.
    pub host: SocketAddr,
    /// What every metric path starts with: empty, or a name and a dot.
    pub prefix: Seq<u8>,
    /// When the latest flush ended.
    pub last_flush_time: int,
    /// How long the latest flush took.
    pub last_flush_length: int,
}

/// One exported line.
pub open spec fn line(prefix: Seq<u8>, key: Seq<u8>, value: Seq<u8>, time: int) -> Seq<u8> {
    prefix + key + seq![SPACE] + value + seq![SPACE] + int_text(time) + seq![NEWLINE]
}

/// The lines for the first `count` names of a table of numbers, each path
/// being `family` followed by the name.
pub open spec fn value_lines(
    prefix: Seq<u8>,
    family: Seq<u8>,
    table: TableModel<int>,
    time: int,
    count: int,
) -> Seq<u8>
    decreases count,
{
    if count <= 0 {
        Seq::empty()
    } else {
        let name = table.order[count - 1];
        value_lines(prefix, family, table, time, count - 1) + line(
            prefix,
            family + name,
            number_text(table.map[name]),
            time,
        )
    }
}

/// The six lines for one timer.
pub open spec fn summary_lines(
    prefix: Seq<u8>,
    name: Seq<u8>,
    summary: SummaryModel,
    time: int,
) -> Seq<u8> {
    let key = text("timers.") + name;
    line(prefix, key + text(".count"), nat_text(summary.count), time) + line(
        prefix,
        key + text(".sum"),
        number_text(summary.sum),
        time,
    ) + line(prefix, key + text(".mean"), number_text(summary.mean), time) + line(
        prefix,
        key + text(".upper"),
        number_text(summary.upper),
        time,
    ) + line(prefix, key + text(".lower"), number_text(summary.lower), time) + line(
        prefix,
        key + text(".p") + nat_text(summary.percentile as nat),
        number_text(summary.at_percentile),
        time,
    )
}

/// The lines for the first `count` timers of a table of summaries.
pub open spec fn timer_lines(
    prefix: Seq<u8>,
    table: TableModel<SummaryModel>,
    time: int,
    count: int,
) -> Seq<u8>
    decreases count,
{
    if count <= 0 {
        Seq::empty()
    } else {
        let name = table.order[count - 1];
        timer_lines(prefix, table, time, count - 1) + summary_lines(
            prefix,
            name,
            table.map[name],
            time,
        )
    }
}

/// The two lines a backend exports about itself: when the previous flush
/// ended, and how long it took.
pub open spec fn own_lines(g: GraphiteModel, time: int) -> Seq<u8> {
    line(g.prefix, text("graphiteStats.last_flush"), int_text(g.last_flush_time), time) + line(
        g.prefix,
        text("graphiteStats.flush_time"),
        int_text(g.last_flush_length),
        time,
    )
}

/// Everything a backend sends for one snapshot: counters, gauges, timers,
/// then its own two lines.
pub open spec fn graphite_payload(
    g: GraphiteModel,
    snapshot: SnapshotModel,
    start: int,
) -> Seq<u8> {
    value_lines(
        g.prefix,
        text("counters."),
        snapshot.counters,
        start,
        snapshot.counters.order.len() as int,
    ) + value_lines(
        g.prefix,
        text("gauges."),
        snapshot.gauges,
        start,
        snapshot.gauges.order.len() as int,
    ) + timer_lines(g.prefix, snapshot.timers, start, snapshot.timers.order.len() as int)
        + own_lines(g, start)
}

/// The status lines of a backend.
pub open spec fn graphite_status(g: GraphiteModel) -> Seq<u8> {
    text("graphite.last_flush_time = ") + int_text(g.last_flush_time) + seq![NEWLINE] + text(
        "graphite.last_flush_length = ",
    ) + int_text(g.last_flush_length) + seq![NEWLINE]
}

/// An exporter of plaintext lines to one host.
#[derive(Debug)]
pub struct Graphite {
    host: SocketAddr,
    last_flush_time: i64,
    last_flush_length: i64,
    prefix: Vec<u8>,
}

impl View for Graphite {
    type V = GraphiteModel;

    closed spec fn view(&self) -> GraphiteModel {
        GraphiteModel {
            host: self.host,
            prefix: self.prefix@,
            last_flush_time: self.last_flush_time as int,
            last_flush_length: self.last_flush_length as int,
        }
    }
}

impl Graphite {
    /// A backend for `host` that exports metric paths as they are.
    pub fn new(host: SocketAddr) -> (g: Graphite)
        ensures
            g@ == (GraphiteModel {
                host,
                prefix: Seq::empty(),
                last_flush_time: 0,
                last_flush_length: 0,
            }),
    {
        Graphite { host, last_flush_time: 0, last_flush_length: 0, prefix: Vec::new() }
    }

    /// A backend for `host` that puts `prefix` and a dot before every metric path.
    pub fn new_with_prefix(prefix: &str, host: SocketAddr) -> (g: Graphite)
        ensures
            g@ == (GraphiteModel {
                host,
                prefix: text(prefix) + text("."),
                last_flush_time: 0,
                last_flush_length: 0,
            }),
    {
        let mut dotted: Vec<u8> = Vec::new();
        push_str(&mut dotted, prefix);
        push_str(&mut dotted, ".");
        Graphite { host, last_flush_time: 0, last_flush_length: 0, prefix: dotted }
    }

    /// Where the payload is to be sent.
    pub fn host(&self) -> (host: SocketAddr)
        ensures
            host == self@.host,
    {
        self.host
    }

    /// What every exported path starts with.
    pub fn prefix(&self) -> (prefix: &[u8])
        ensures
            prefix@ == self@.prefix,
    {
        self.prefix.as_slice()
    }

    /// When the latest flush ended; 0 before the first.
    pub fn last_flush_time(&self) -> (time: i64)
        ensures
            time == self@.last_flush_time,
    {
        self.last_flush_time
    }

    /// How long the latest flush took; 0 before the first.
    pub fn last_flush_length(&self) -> (length: i64)
        ensures
            length == self@.last_flush_length,
    {
        self.last_flush_length
    }

    /// Formats one line: prefix and key, the value, the time.
    pub fn fmt_line(&self, key: &[u8], value: &[u8], time: i64) -> (out: Vec<u8>)
        ensures
            out@ == line(self@.prefix, key@, value@, time as int),
    {
        let mut out: Vec<u8> = Vec::new();
        push_bytes(&mut out, self.prefix.as_slice());
        push_bytes(&mut out, key);
        out.push(SPACE);
        push_bytes(&mut out, value);
        out.push(SPACE);
        push_int(&mut out, time);
        out.push(NEWLINE);
        assert(out@ =~= line(self@.prefix, key@, value@, time as int));
        out
    }

    /// Appends the lines of a table of numbers.
    fn push_value_lines(&self, out: &mut Vec<u8>, family: &str, table: &Table<Number>, time: i64)
        ensures
            final(out)@ == old(out)@ + value_lines(
                self@.prefix,
                text(family),
                table@,
                time as int,
                table@.order.len() as int,
            ),
    {
        let mut i: usize = 0;
        let n = table.len();
        assert(value_lines(self@.prefix, text(family), table@, time as int, 0).len() == 0);
        assert(out@ =~= old(out)@ + Seq::<u8>::empty());
        while i < n
            invariant
                i <= n,
                n == table@.order.len(),
                out@ == old(out)@ + value_lines(
                    self@.prefix,
                    text(family),
                    table@,
                    time as int,
                    i as int,
                ),
            decreases n - i,
        {
            let mut key: Vec<u8> = Vec::new();
            push_str(&mut key, family);
            push_bytes(&mut key, table.name_at(i).as_slice());
            let value = number_to_text(*table.value_at(i));
            let formatted = self.fmt_line(key.as_slice(), value.as_slice(), time);
            push_bytes(out, formatted.as_slice());
            proof {
                let name = table@.order[i as int];
                assert(key@ =~= text(family) + name);
                assert(out@ =~= old(out)@ + (value_lines(
                    self@.prefix,
                    text(family),
                    table@,
                    time as int,
                    i as int,
                ) + formatted@));
            }
            i += 1;
        }
    }

    /// Formats the line of one statistic of a timer.
    fn push_statistic(
        &self,
        out: &mut Vec<u8>,
        name: &[u8],
        statistic: &[u8],
        value: &[u8],
        time: i64,
    )
        ensures
            final(out)@ == old(out)@ + line(
                self@.prefix,
                text("timers.") + name@ + statistic@,
                value@,
                time as int,
            ),
    {
        let mut key: Vec<u8> = Vec::new();
        push_str(&mut key, "timers.");
        push_bytes(&mut key, name);
        push_bytes(&mut key, statistic);
        assert(key@ =~= text("timers.") + name@ + statistic@);
        let formatted = self.fmt_line(key.as_slice(), value, time);
        push_bytes(out, formatted.as_slice());
    }

    /// Appends the six lines of one timer.
    fn push_summary_lines(&self, out: &mut Vec<u8>, name: &[u8], summary: &Summary, time: i64)
        ensures
            final(out)@ == old(out)@ + summary_lines(self@.prefix, name@, summary@, time as int),
    {
        let mut count: Vec<u8> = Vec::new();
        push_nat(&mut count, summary.count);
        assert(count@ =~= nat_text(summary@.count));
        self.push_statistic(out, name, ".count".as_bytes(), count.as_slice(), time);
        let sum = number_to_text(summary.sum);
        self.push_statistic(out, name, ".sum".as_bytes(), sum.as_slice(), time);
        let mean = number_to_text(summary.mean);
        self.push_statistic(out, name, ".mean".as_bytes(), mean.as_slice(), time);
        let upper = number_to_text(summary.upper);
        self.push_statistic(out, name, ".upper".as_bytes(), upper.as_slice(), time);
        let lower = number_to_text(summary.lower);
        self.push_statistic(out, name, ".lower".as_bytes(), lower.as_slice(), time);
        let mut label: Vec<u8> = Vec::new();
        push_str(&mut label, ".p");
        push_nat(&mut label, summary.percentile as u64);
        let at_percentile = number_to_text(summary.at_percentile);
        self.push_statistic(out, name, label.as_slice(), at_percentile.as_slice(), time);
        proof {
            let key = text("timers.") + name@;
            assert(key + (text(".p") + nat_text(summary@.percentile as nat)) =~= key + text(".p")
                + nat_text(summary@.percentile as nat));
            assert(out@ =~= old(out)@ + summary_lines(
                self@.prefix,
                name@,
                summary@,
                time as int,
            ));
        }
    }

    /// The model of a backend after a flush has finished.
    pub proof fn lemma_finished(&self, start: int, end: int)
        requires
            i64::MIN <= end <= i64::MAX,
        ensures
            self.finished(start, end)@ == (GraphiteModel {
                last_flush_time: end,
                last_flush_length: clamp(end - start),
                ..self@
            }),
    {
    }
}

impl Backend for Graphite {
    open spec fn payload(&self, snapshot: SnapshotModel, start: int) -> Seq<u8> {
        graphite_payload(self@, snapshot, start)
    }

    closed spec fn finished(&self, start: int, end: int) -> Graphite {
        Graphite {
            host: self.host,
            last_flush_time: end as i64,
            last_flush_length: clamp(end - start) as i64,
            prefix: self.prefix,
        }
    }

    open spec fn status_text(&self) -> Seq<u8> {
        graphite_status(self@)
    }

    /// Renders the snapshot: a line per counter, a line per gauge, six lines
    /// per timer, and the backend's own two lines.
    fn flush_buckets(&self, snapshot: &FlushSnapshot, start: i64) -> (payload: Vec<u8>) {
        let mut out: Vec<u8> = Vec::new();
        self.push_value_lines(&mut out, "counters.", &snapshot.counters, start);
        self.push_value_lines(&mut out, "gauges.", &snapshot.gauges, start);
        let ghost head = out@;
        let mut i: usize = 0;
        let n = snapshot.timers.len();
        assert(out@ =~= head + timer_lines(self@.prefix, snapshot.timers@, start as int, 0));
        while i < n
            invariant
                i <= n,
                n == snapshot.timers@.order.len(),
                out@ == head + timer_lines(self@.prefix, snapshot.timers@, start as int, i as int),
            decreases n - i,
        {
            self.push_summary_lines(
                &mut out,
                snapshot.timers.name_at(i).as_slice(),
                snapshot.timers.value_at(i),
                start,
            );
            proof {
                assert(out@ =~= head + (timer_lines(
                    self@.prefix,
                    snapshot.timers@,
                    start as int,
                    i as int,
                ) + summary_lines(
                    self@.prefix,
                    snapshot.timers@.order[i as int],
                    snapshot.timers@.map[snapshot.timers@.order[i as int]],
                    start as int,
                )));
            }
            i += 1;
        }
        let mut ended: Vec<u8> = Vec::new();
        push_int(&mut ended, self.last_flush_time);
        assert(ended@ =~= int_text(self@.last_flush_time));
        let last_flush = self.fmt_line(
            "graphiteStats.last_flush".as_bytes(),
            ended.as_slice(),
            start,
        );
        push_bytes(&mut out, last_flush.as_slice());
        let mut length: Vec<u8> = Vec::new();
        push_int(&mut length, self.last_flush_length);
        assert(length@ =~= int_text(self@.last_flush_length));
        let flush_time = self.fmt_line(
            "graphiteStats.flush_time".as_bytes(),
            length.as_slice(),
            start,
        );
        push_bytes(&mut out, flush_time.as_slice());
        assert(out@ =~= graphite_payload(self@, snapshot@, start as int));
        out
    }

    /// Records the end of a flush: `end` as its time and `end - start`,
    /// saturated, as its length. Host and prefix stay.
    fn flush_finished(&mut self, start: i64, end: i64)
        ensures
            final(self)@ == (GraphiteModel {
                last_flush_time: end as int,
                last_flush_length: clamp(end - start),
                ..old(self)@
            }),
    {
        let length = (Number { millionths: end }).saturating_sub(Number { millionths: start });
        self.last_flush_length = length.millionths;
        self.last_flush_time = end;
        proof {
            old(self).lemma_finished(start as int, end as int);
        }
    }

    fn status(&self) -> (report: Vec<u8>) {
        let mut out: Vec<u8> = Vec::new();
        push_str(&mut out, "graphite.last_flush_time = ");
        push_int(&mut out, self.last_flush_time);
        out.push(NEWLINE);
        push_str(&mut out, "graphite.last_flush_length = ");
        push_int(&mut out, self.last_flush_length);
        out.push(NEWLINE);
        assert(out@ =~= graphite_status(self@));
        out
    }
}

} // verus!
