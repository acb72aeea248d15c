use statsd::addr::{IpAddr, SocketAddr};
use statsd::buckets::Buckets;
use statsd::graphite::Graphite;
use statsd::management::interpret;

fn store() -> Buckets<Graphite> {
    let mut s: Buckets<Graphite> = Buckets::new();
    s.add_backend(Graphite::new(SocketAddr { ip: IpAddr::V4(127, 0, 0, 1), port: 2003 }));
    s
}

fn ask(s: &Buckets<Graphite>, line: &str) -> String {
    String::from_utf8(s.handle_management_command(line.as_bytes())).unwrap()
}

#[test]
fn stats_reports_one_bad_message() {
    let mut s = store();
    s.ingest(b"not-a-metric");
    let answer = ask(&s, "stats\n");
    assert!(answer.lines().any(|l| l == "bad_messages = 1"));
    assert_eq!(
        answer,
        "bad_messages = 1\ngraphite.last_flush_time = 0\ngraphite.last_flush_length = 0\nEND\n"
    );
}

#[test]
fn stats_reports_flush_timing_of_each_backend() {
    let mut s = store();
    s.add_backend(Graphite::new_with_prefix("x", SocketAddr { ip: IpAddr::V4(10, 0, 0, 1), port: 1 }));
    s.flush(100);
    s.flush_finished(100, 102);
    assert_eq!(
        ask(&s, "stats\n"),
        "bad_messages = 0\n\
         graphite.last_flush_time = 102\ngraphite.last_flush_length = 2\n\
         graphite.last_flush_time = 102\ngraphite.last_flush_length = 2\n\
         END\n"
    );
}

#[test]
fn stats_without_backends() {
    let s: Buckets<Graphite> = Buckets::new();
    assert_eq!(ask(&s, "stats"), "bad_messages = 0\nEND\n");
}

#[test]
fn counters_are_listed_in_order_of_appearance() {
    let mut s = store();
    s.ingest(b"b:1|c");
    s.ingest(b"a:2.5|c");
    s.ingest(b"b:1|c");
    s.ingest(b"g:1|g");
    assert_eq!(ask(&s, "counters\n"), "b = 2\na = 2.5\nEND\n");
}

#[test]
fn gauges_are_listed() {
    let mut s = store();
    s.ingest(b"load:-0.5|g");
    s.ingest(b"temp:21|g");
    assert_eq!(ask(&s, "gauges\n"), "load = -0.5\ntemp = 21\nEND\n");
}

#[test]
fn timers_are_listed_with_their_samples() {
    let mut s = store();
    s.ingest(b"rt:3|ms");
    s.ingest(b"rt:1.5|ms");
    s.ingest(b"db:7|ms");
    assert_eq!(ask(&s, "timers\n"), "rt = 3 1.5\ndb = 7\nEND\n");
}

#[test]
fn empty_tables_give_only_the_end_line() {
    let s = store();
    assert_eq!(ask(&s, "counters\n"), "END\n");
    assert_eq!(ask(&s, "gauges\n"), "END\n");
    assert_eq!(ask(&s, "timers\n"), "END\n");
}

#[test]
fn dumps_are_empty_after_a_flush_but_gauges_stay() {
    let mut s = store();
    s.ingest(b"c:1|c");
    s.ingest(b"g:2|g");
    s.ingest(b"t:3|ms");
    s.flush(5);
    assert_eq!(ask(&s, "counters\n"), "END\n");
    assert_eq!(ask(&s, "timers\n"), "END\n");
    assert_eq!(ask(&s, "gauges\n"), "g = 2\nEND\n");
}

#[test]
fn line_endings_are_stripped() {
    let s = store();
    assert_eq!(ask(&s, "counters"), "END\n");
    assert_eq!(ask(&s, "counters\n"), "END\n");
    assert_eq!(ask(&s, "counters\r\n"), "END\n");
    assert_eq!(ask(&s, "counters\r"), "END\n");
}

#[test]
fn anything_else_is_an_error() {
    let s = store();
    assert_eq!(ask(&s, "\n"), "ERROR\n");
    assert_eq!(ask(&s, ""), "ERROR\n");
    assert_eq!(ask(&s, "help\n"), "ERROR\n");
    assert_eq!(ask(&s, "stats \n"), "ERROR\n");
    assert_eq!(ask(&s, " stats\n"), "ERROR\n");
    assert_eq!(ask(&s, "STATS\n"), "ERROR\n");
    assert_eq!(ask(&s, "counters\n\n"), "ERROR\n");
    assert_eq!(ask(&s, "counters\n\r"), "ERROR\n");
}

#[test]
fn interpret_is_what_the_store_answers() {
    let mut s = store();
    s.ingest(b"a:1|c");
    assert_eq!(interpret(&s, b"counters\n"), s.handle_management_command(b"counters\n"));
    assert_eq!(interpret(&s, b"counters\n"), b"a = 1\nEND\n".to_vec());
}

#[test]
fn commands_do_not_change_the_store() {
    let mut s = store();
    s.ingest(b"a:1|c");
    s.ingest(b"junk");
    for line in ["stats\n", "counters\n", "gauges\n", "timers\n", "nope\n"] {
        ask(&s, line);
    }
    assert_eq!(ask(&s, "counters\n"), "a = 1\nEND\n");
    assert_eq!(s.bad_messages(), 1);
}
