use statsd::addr::{IpAddr, SocketAddr};
use statsd::buckets::Buckets;
use statsd::graphite::Graphite;
use statsd::number::Number;
use statsd::server::{
    dispatch, frame_datagram, Action, Config, Datagram, Event, FLUSH_INTERVAL_MS, INGEST_PORT,
    MANAGEMENT_PORT, MAX_PACKET_SIZE,
};
use statsd::summary::Percentile;

fn host() -> SocketAddr {
    SocketAddr { ip: IpAddr::V6(0, 0, 0, 0, 0, 0, 0, 1), port: 2003 }
}

fn units(v: i64) -> Number {
    Number { millionths: v * 1_000_000 }
}

#[test]
fn defaults() {
    assert_eq!(INGEST_PORT, 8125);
    assert_eq!(MANAGEMENT_PORT, 8126);
    assert_eq!(FLUSH_INTERVAL_MS, 10000);
    assert_eq!(MAX_PACKET_SIZE, 256);
    let config = Config::new(host());
    assert_eq!(config.ingest_port, 8125);
    assert_eq!(config.management_port, 8126);
    assert_eq!(config.flush_interval_ms, 10000);
    assert_eq!(config.max_packet_size, 256);
    assert_eq!(config.backend, host());
    assert_eq!(config.prefix, None);
    assert_eq!(config.percentile.rank(), 90);
}

#[test]
fn config_builds_the_backend() {
    let mut config = Config::new(host());
    let plain = config.graphite();
    assert_eq!(plain.host(), host());
    assert_eq!(plain.prefix(), b"");
    config.prefix = Some(String::from("prod"));
    let prefixed = config.graphite();
    assert_eq!(prefixed.host(), host());
    assert_eq!(prefixed.prefix(), b"prod.");
    assert_eq!(prefixed.last_flush_time(), 0);
}

#[test]
fn config_builds_the_store() {
    let mut config = Config::new(host());
    config.prefix = Some(String::from("prod"));
    config.percentile = Percentile::new(75).unwrap();
    let store = config.store();
    assert_eq!(store.percentile().rank(), 75);
    assert_eq!(store.backends().len(), 1);
    assert_eq!(store.backends()[0].prefix(), b"prod.");
    assert_eq!(store.backends()[0].host(), host());
    assert_eq!(store.counters().len(), 0);
    assert_eq!(store.gauges().len(), 0);
    assert_eq!(store.timers().len(), 0);
    assert_eq!(store.bad_messages(), 0);
}

#[test]
fn a_short_datagram_is_taken_whole() {
    let mut buffer = [0u8; 16];
    buffer[..7].copy_from_slice(b"foo:1|c");
    assert_eq!(
        frame_datagram(&buffer, 7),
        Datagram { payload: b"foo:1|c".to_vec(), oversized: false }
    );
    assert_eq!(frame_datagram(&buffer, 0), Datagram { payload: Vec::new(), oversized: false });
}

#[test]
fn a_datagram_that_fills_the_buffer_is_flagged() {
    let buffer = *b"abcdefgh";
    assert_eq!(
        frame_datagram(&buffer, 8),
        Datagram { payload: b"abcdefgh".to_vec(), oversized: true }
    );
    assert_eq!(
        frame_datagram(&buffer, 7),
        Datagram { payload: b"abcdefg".to_vec(), oversized: false }
    );
    assert_eq!(
        frame_datagram(&buffer, 100),
        Datagram { payload: b"abcdefgh".to_vec(), oversized: true }
    );
}

#[test]
fn a_truncated_datagram_may_count_as_bad() {
    let mut store = Config::new(host()).store();
    let buffer = *b"requests:1|";
    let datagram = frame_datagram(&buffer, buffer.len());
    assert!(datagram.oversized);
    let action: Action<()> = dispatch(&mut store, Event::IngestDatagram(datagram.payload), 0);
    assert_eq!(action, Action::Continue);
    assert_eq!(store.bad_messages(), 1);
}

#[test]
fn a_datagram_is_taken_in() {
    let mut store = Config::new(host()).store();
    let action: Action<u32> = dispatch(&mut store, Event::IngestDatagram(b"foo:2|c".to_vec()), 5);
    assert_eq!(action, Action::Continue);
    assert_eq!(store.counters().get(b"foo"), Some(&units(2)));
    let action: Action<u32> = dispatch(&mut store, Event::IngestDatagram(b"\xff".to_vec()), 6);
    assert_eq!(action, Action::Continue);
    assert_eq!(store.bad_messages(), 1);
    assert_eq!(store.counters().get(b"foo"), Some(&units(2)));
}

#[test]
fn a_flush_tick_flushes() {
    let mut store = Config::new(host()).store();
    store.ingest(b"foo:1|c");
    store.ingest(b"foo:1|c");
    store.ingest(b"bar:7|g");
    let action: Action<u32> = dispatch(&mut store, Event::FlushTick, 1234);
    assert_eq!(
        action,
        Action::Export {
            payloads: vec![b"counters.foo 2 1234\n\
                             gauges.bar 7 1234\n\
                             graphiteStats.last_flush 0 1234\n\
                             graphiteStats.flush_time 0 1234\n"
                .to_vec()],
            started: 1234,
        }
    );
    assert_eq!(store.counters().len(), 0);
    assert_eq!(store.gauges().get(b"bar"), Some(&units(7)));
}

#[test]
fn a_connection_is_handed_back() {
    let mut store: Buckets<Graphite> = Config::new(host()).store();
    store.ingest(b"foo:1|c");
    store.ingest(b"junk");
    let action = dispatch(&mut store, Event::ConnectionAccepted(String::from("peer")), 9);
    assert_eq!(action, Action::Serve(String::from("peer")));
    assert_eq!(store.counters().get(b"foo"), Some(&units(1)));
    assert_eq!(store.bad_messages(), 1);
}
