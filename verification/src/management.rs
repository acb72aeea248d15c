//! The management protocol.
//!
//! A management client sends one command per line and reads one answer per
//! command. The commands are `stats`, `counters`, `gauges` and `timers`; a
//! line feed, or a carriage return and a line feed, ends a command. Every
//! answer to a known command ends with the line `END`; any other command is
//! answered with the line `ERROR`.

use crate::backend::Backend;
use crate::buckets::{Buckets, BucketsModel};
use crate::number::Number;
use crate::table::{Table, TableModel};
use crate::text::{
    bytes_eq, nat_text, number_text, push_bytes, push_nat, push_number, push_str, text,
    CARRIAGE_RETURN, NEWLINE, SPACE,
};
use vstd::prelude::*;
use vstd::slice::slice_subrange;

verus! {

/// The command on a line: the line without its line ending.
pub open spec fn command_of(line: Seq<u8>) -> Seq<u8> {
    let body = if line.len() > 0 && line.last() == NEWLINE {
        line.drop_last()
    } else {
        line
    };
    if body.len() > 0 && body.last() == CARRIAGE_RETURN {
        body.drop_last()
    } else {
        body
    }
}

/// The first `count` samples, each after a space.
pub open spec fn samples_text(samples: Seq<int>, count: int) -> Seq<u8>
    decreases count,
{
    if count <= 0 {
        Seq::empty()
    } else {
        samples_text(samples, count - 1) + seq![SPACE] + number_text(samples[count - 1])
    }
}

/// One line for each of the first `count` names of a table of numbers:
/// the name, ` = ` and the value.
pub open spec fn value_dump(table: TableModel<int>, count: int) -> Seq<u8>
    decreases count,
{
    if count <= 0 {
        Seq::empty()
    } else {
        let name = table.order[count - 1];
        value_dump(table, count - 1) + name + text(" = ") + number_text(table.map[name]) + seq![
            NEWLINE,
        ]
    }
}

/// One line for each of the first `count` timers: the name, ` =`, and its
/// samples in order of arrival, each after a space.
pub open spec fn timer_dump(table: TableModel<Seq<int>>, count: int) -> Seq<u8>
    decreases count,
{
    if count <= 0 {
        Seq::empty()
    } else {
        let name = table.order[count - 1];
        let samples = table.map[name];
        timer_dump(table, count - 1) + name + text(" =") + samples_text(
            samples,
            samples.len() as int,
        ) + seq![NEWLINE]
    }
}

/// The status lines of the first `count` backends.
pub open spec fn backend_status<B: Backend>(backends: Seq<B>, count: int) -> Seq<u8>
    decreases count,
{
    if count <= 0 {
        Seq::empty()
    } else {
        backend_status(backends, count - 1) + backends[count - 1].status_text()
    }
}

/// The report on the store itself: the count of bad datagrams, then the
/// status of each backend.
pub open spec fn stats_text<B: Backend>(store: BucketsModel<B>) -> Seq<u8> {
    text("bad_messages = ") + nat_text(store.bad_messages) + seq![NEWLINE] + backend_status(
        store.backends,
        store.backends.len() as int,
    )
}

/// The answer to a line.
pub open spec fn response<B: Backend>(store: BucketsModel<B>, line: Seq<u8>) -> Seq<u8> {
    let command = command_of(line);
    if command == text("stats") {
        stats_text(store) + text("END\n")
    } else if command == text("counters") {
        value_dump(store.counters, store.counters.order.len() as int) + text("END\n")
    } else if command == text("gauges") {
        value_dump(store.gauges, store.gauges.order.len() as int) + text("END\n")
    } else if command == text("timers") {
        timer_dump(store.timers, store.timers.order.len() as int) + text("END\n")
    } else {
        text("ERROR\n")
    }
}

/// Strips the line ending.
fn command(line: &[u8]) -> (command: &[u8])
    ensures
        command@ == command_of(line@),
{
    let mut end = line.len();
    if end > 0 && line[end - 1] == NEWLINE {
        end = end - 1;
    }
    let body = slice_subrange(line, 0, end);
    assert(body@ =~= if line@.len() > 0 && line@.last() == NEWLINE {
        line@.drop_last()
    } else {
        line@
    });
    if end > 0 && body[end - 1] == CARRIAGE_RETURN {
        end = end - 1;
    }
    let command = slice_subrange(body, 0, end);
    assert(command@ =~= command_of(line@));
    command
}

/// Appends the dump of a table of numbers.
fn push_value_dump(out: &mut Vec<u8>, table: &Table<Number>)
    ensures
        final(out)@ == old(out)@ + value_dump(table@, table@.order.len() as int),
{
    let mut i: usize = 0;
    let n = table.len();
    assert(out@ =~= old(out)@ + value_dump(table@, 0));
    while i < n
        invariant
            i <= n,
            n == table@.order.len(),
            out@ == old(out)@ + value_dump(table@, i as int),
        decreases n - i,
    {
        push_bytes(out, table.name_at(i).as_slice());
        push_str(out, " = ");
        push_number(out, *table.value_at(i));
        out.push(NEWLINE);
        proof {
            let name = table@.order[i as int];
            assert(out@ =~= old(out)@ + (value_dump(table@, i as int) + name + text(" = ")
                + number_text(table@.map[name]) + seq![NEWLINE]));
        }
        i += 1;
    }
}

/// Appends the samples of one timer.
fn push_samples(out: &mut Vec<u8>, samples: &Vec<Number>)
    ensures
        final(out)@ == old(out)@ + samples_text(samples.deep_view(), samples@.len() as int),
{
    let mut i: usize = 0;
    let n = samples.len();
    assert(out@ =~= old(out)@ + samples_text(samples.deep_view(), 0));
    while i < n
        invariant
            i <= n,
            n == samples@.len(),
            out@ == old(out)@ + samples_text(samples.deep_view(), i as int),
        decreases n - i,
    {
        out.push(SPACE);
        push_number(out, samples[i]);
        proof {
            assert(samples.deep_view()[i as int] == samples@[i as int]@);
            assert(out@ =~= old(out)@ + (samples_text(samples.deep_view(), i as int) + seq![SPACE]
                + number_text(samples@[i as int]@)));
        }
        i += 1;
    }
}

/// Appends the dump of the timers.
fn push_timer_dump(out: &mut Vec<u8>, table: &Table<Vec<Number>>)
    ensures
        final(out)@ == old(out)@ + timer_dump(table@, table@.order.len() as int),
{
    let mut i: usize = 0;
    let n = table.len();
    assert(out@ =~= old(out)@ + timer_dump(table@, 0));
    while i < n
        invariant
            i <= n,
            n == table@.order.len(),
            out@ == old(out)@ + timer_dump(table@, i as int),
        decreases n - i,
    {
        push_bytes(out, table.name_at(i).as_slice());
        push_str(out, " =");
        let samples = table.value_at(i);
        push_samples(out, samples);
        out.push(NEWLINE);
        proof {
            let name = table@.order[i as int];
            let listed = table@.map[name];
            assert(samples.deep_view().len() == samples@.len());
            assert(out@ =~= old(out)@ + (timer_dump(table@, i as int) + name + text(" =")
                + samples_text(listed, listed.len() as int) + seq![NEWLINE]));
        }
        i += 1;
    }
}

/// Appends the report on the store.
fn push_stats<B: Backend>(out: &mut Vec<u8>, store: &Buckets<B>)
    ensures
        final(out)@ == old(out)@ + stats_text(store@),
{
    push_str(out, "bad_messages = ");
    push_nat(out, store.bad_messages());
    out.push(NEWLINE);
    let ghost head = out@;
    let backends = store.backends();
    let mut i: usize = 0;
    let n = backends.len();
    assert(out@ =~= head + backend_status(backends@, 0));
    while i < n
        invariant
            i <= n,
            n == backends@.len(),
            out@ == head + backend_status(backends@, i as int),
        decreases n - i,
    {
        let status = backends[i].status();
        push_bytes(out, status.as_slice());
        assert(out@ =~= head + (backend_status(backends@, i as int)
            + backends@[i as int].status_text()));
        i += 1;
    }
    assert(out@ =~= old(out)@ + stats_text(store@));
}

/// Answers one command line against the store.
pub fn interpret<B: Backend>(store: &Buckets<B>, line: &[u8]) -> (answer: Vec<u8>)
    ensures
        answer@ == response(store@, line@),
{
    let command = command(line);
    let mut out: Vec<u8> = Vec::new();
    if bytes_eq(command, "stats".as_bytes()) {
        push_stats(&mut out, store);
        push_str(&mut out, "END\n");
    } else if bytes_eq(command, "counters".as_bytes()) {
        push_value_dump(&mut out, store.counters());
        push_str(&mut out, "END\n");
    } else if bytes_eq(command, "gauges".as_bytes()) {
        push_value_dump(&mut out, store.gauges());
        push_str(&mut out, "END\n");
    } else if bytes_eq(command, "timers".as_bytes()) {
        push_timer_dump(&mut out, store.timers());
        push_str(&mut out, "END\n");
    } else {
        push_str(&mut out, "ERROR\n");
    }
    assert(out@ =~= response(store@, line@));
    out
}

} // verus!
