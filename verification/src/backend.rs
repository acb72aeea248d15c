//! The export capability.
//!
//! At every flush the store hands each of its backends a [`FlushSnapshot`].
//! A backend turns the snapshot into the bytes to transmit and is told when
//! that was done; the embedding program does the transmitting. Delivery is
//! best effort: nothing here learns whether the bytes arrived.

use crate::number::Number;
use crate::summary::{Summary, SummaryModel};
use crate::table::{Table, TableModel};
use vstd::prelude::*;

verus! {

/// What a snapshot holds.
pub struct SnapshotModel {
    pub counters: TableModel<int>,
    pub gauges: TableModel<int>,
    pub timers: TableModel<SummaryModel>,
}

/// The aggregates of one flush interval: counters and gauges as they stood,
/// and each timer reduced to its summary.
pub struct FlushSnapshot {
    pub counters: Table<Number>,
    pub gauges: Table<Number>,
    pub timers: Table<Summary>,
}

impl View for FlushSnapshot {
    type V = SnapshotModel;

    open spec fn view(&self) -> SnapshotModel {
        SnapshotModel {
            counters: self.counters@,
            gauges: self.gauges@,
            timers: self.timers@,
        }
    }
}

/// Something that flush snapshots are exported to.
pub trait Backend: Sized {
    /// The bytes this backend sends for `snapshot` in a flush that began at `start`.
    spec fn payload(&self, snapshot: SnapshotModel, start: int) -> Seq<u8>;

    /// The backend once a flush that began at `start` has ended at `end`.
    spec fn finished(&self, start: int, end: int) -> Self;

    /// The lines by which this backend reports on itself.
    spec fn status_text(&self) -> Seq<u8>;

    /// Renders `snapshot` for transmission.
    fn flush_buckets(&self, snapshot: &FlushSnapshot, start: i64) -> (payload: Vec<u8>)
        ensures
            payload@ == self.payload(snapshot@, start as int),
    ;

    /// Records that the flush begun at `start` ended at `end`. What becomes of
    /// the payload afterwards changes nothing here.
    fn flush_finished(&mut self, start: i64, end: i64)
        ensures
            *final(self) == old(self).finished(start as int, end as int),
    ;

    /// Renders the backend's status lines.
    fn status(&self) -> (report: Vec<u8>)
        ensures
            report@ == self.status_text(),
    ;
}

} // verus!
