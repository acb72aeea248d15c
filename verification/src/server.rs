//! Configuration and the event dispatcher.
//!
//! Three sources feed the daemon: a flush timer, a datagram socket and a
//! listener for management connections. The embedding program runs them and
//! hands each [`Event`] to [`dispatch`] under exclusive access to the store;
//! the [`Action`] that comes back says what is left for it to do.

use crate::addr::SocketAddr;
use crate::backend::Backend;
use crate::buckets::{views, Buckets};
use crate::graphite::{Graphite, GraphiteModel};
use crate::summary::Percentile;
use crate::table::TableModel;
use crate::text::text;
use vstd::prelude::*;
use vstd::slice::{slice_subrange, slice_to_vec};
use vstd::utf8::encode_utf8;

verus! {

/// The port on which metric datagrams are received unless configured otherwise.
pub const INGEST_PORT: u16 = 8125;

/// The port on which management connections are accepted unless configured otherwise.
pub const MANAGEMENT_PORT: u16 = 8126;

/// The time between two flushes, in milliseconds, unless configured otherwise.
pub const FLUSH_INTERVAL_MS: u64 = 10000;

/// The size of the receive buffer, in bytes, unless configured otherwise.
pub const MAX_PACKET_SIZE: usize = 256;

/// Everything that can be configured.
#[derive(Debug)]
pub struct Config {
    /// The port on which metric datagrams are received.
    pub ingest_port: u16,
    /// The port on which management connections are accepted.
    pub management_port: u16,
    /// The time between two flushes, in milliseconds.
    pub flush_interval_ms: u64,
    /// The size of the receive buffer; a datagram that fills it is flagged.
    pub max_packet_size: usize,
    /// Where flushes are exported to.
    pub backend: SocketAddr,
    /// A name to put before every exported metric path.
    pub prefix: Option<String>,
    /// The percentile that timer summaries report.
    pub percentile: Percentile,
}

impl Config {
    /// The default configuration for exporting to `backend`.
    pub fn new(backend: SocketAddr) -> (config: Config)
        ensures
            config.ingest_port == INGEST_PORT,
            config.management_port == MANAGEMENT_PORT,
            config.flush_interval_ms == FLUSH_INTERVAL_MS,
            config.max_packet_size == MAX_PACKET_SIZE,
            config.backend == backend,
            config.prefix is None,
            config.percentile@ == 90,
    {
        Config {
            ingest_port: INGEST_PORT,
            management_port: MANAGEMENT_PORT,
            flush_interval_ms: FLUSH_INTERVAL_MS,
            max_packet_size: MAX_PACKET_SIZE,
            backend,
            prefix: None,
            percentile: Percentile::default(),
        }
    }

    /// The prefix that the configured backend puts before every path.
    pub open spec fn path_prefix(&self) -> Seq<u8> {
        match self.prefix {
            Some(name) => encode_utf8(name@) + text("."),
            None => Seq::empty(),
        }
    }

    /// The model of the configured backend before its first flush.
    pub open spec fn graphite_model(&self) -> GraphiteModel {
        GraphiteModel {
            host: self.backend,
            prefix: self.path_prefix(),
            last_flush_time: 0,
            last_flush_length: 0,
        }
    }

    /// The backend that this configuration describes.
    pub fn graphite(&self) -> (backend: Graphite)
        ensures
            backend@ == self.graphite_model(),
    {
        match &self.prefix {
            Some(name) => Graphite::new_with_prefix(name.as_str(), self.backend),
            None => Graphite::new(self.backend),
        }
    }

    /// An empty store with the configured percentile and backend.
    pub fn store(&self) -> (store: Buckets<Graphite>)
        ensures
            store@.counters == TableModel::<int>::empty(),
            store@.gauges == TableModel::<int>::empty(),
            store@.timers == TableModel::<Seq<int>>::empty(),
            store@.bad_messages == 0,
            store@.percentile == self.percentile@,
            store@.backends.len() == 1,
            store@.backends[0]@ == self.graphite_model(),
    {
        let mut store: Buckets<Graphite> = Buckets::new();
        store.set_percentile(self.percentile);
        store.add_backend(self.graphite());
        store
    }
}

/// A datagram as it came out of the receive buffer.
#[derive(Debug, PartialEq, Eq)]
pub struct Datagram {
    /// The bytes that were received, cut off at the buffer's capacity.
    pub payload: Vec<u8>,
    /// Whether the datagram filled the buffer, so that part of it may be missing.
    pub oversized: bool,
}

/// Takes a datagram of `received` bytes out of the receive buffer. A datagram
/// that fills the buffer is kept up to the buffer's capacity and flagged.
pub fn frame_datagram(buffer: &[u8], received: usize) -> (datagram: Datagram)
    ensures
        datagram.payload@ == buffer@.take(
            if received <= buffer@.len() {
                received as int
            } else {
                buffer@.len() as int
            },
        ),
        datagram.oversized == (received >= buffer@.len()),
{
    let length = if received <= buffer.len() {
        received
    } else {
        buffer.len()
    };
    let payload = slice_to_vec(slice_subrange(buffer, 0, length));
    assert(payload@ =~= buffer@.take(length as int));
    Datagram { payload, oversized: received >= buffer.len() }
}

/// What the sources report. `H` is whatever stands for an accepted connection.
#[derive(Debug, PartialEq, Eq)]
pub enum Event<H> {
    /// The flush interval has passed.
    FlushTick,
    /// A datagram has arrived.
    IngestDatagram(Vec<u8>),
    /// A management client has connected.
    ConnectionAccepted(H),
}

/// What is left to do after an event.
#[derive(Debug, PartialEq, Eq)]
pub enum Action<H> {
    /// Nothing.
    Continue,
    /// Report the end of the flush that began at `started` to the store, then
    /// send payload `i` to backend `i`, ignoring failures.
    Export { payloads: Vec<Vec<u8>>, started: i64 },
    /// Start a handler of its own for this connection and go on at once.
    Serve(H),
}

/// Handles one event at time `now`. A flush tick flushes the store, a
/// datagram is taken in, and a connection is handed back to be served; the
/// store is touched by nothing else.
pub fn dispatch<H, B: Backend>(
    store: &mut Buckets<B>,
    event: Event<H>,
    now: i64,
) -> (action: Action<H>)
    ensures
        match event {
            Event::FlushTick => {
                &&& final(store)@ == old(store)@.flushed()
                &&& action matches Action::Export { payloads, started }
                &&& views(payloads@) == old(store)@.payloads(now as int)
                &&& started == now
            },
            Event::IngestDatagram(datagram) => {
                &&& final(store)@ == old(store)@.ingest(datagram@)
                &&& action is Continue
            },
            Event::ConnectionAccepted(handle) => {
                &&& final(store)@ == old(store)@
                &&& action == Action::Serve(handle)
            },
        },
{
    match event {
        Event::FlushTick => {
            let payloads = store.flush(now);
            Action::Export { payloads, started: now }
        },
        Event::IngestDatagram(datagram) => {
            store.ingest(datagram.as_slice());
            Action::Continue
        },
        Event::ConnectionAccepted(handle) => Action::Serve(handle),
    }
}

} // verus!
