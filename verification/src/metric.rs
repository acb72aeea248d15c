//! Metrics and the line format they arrive in.
//!
//! One datagram carries one line of the form `name:value|type[|@sample_rate]`,
//! where the type is `c` for a counter, `g` for a gauge or `ms` for a timer.
//! The name is everything before the first colon and may not be empty; value
//! and sample rate are decimal numbers as [`spec_parse_number`] reads them;
//! the sample rate lies in `(0, 1]` and is 1 where the line gives none.

use crate::number::{Number, SCALE};
use crate::text::{
    bytes_eq, find_byte, first_index, parse_number, spec_parse_number, text, AT, BAR, COLON,
};
use vstd::prelude::*;
use vstd::slice::{slice_subrange, slice_to_vec};
use vstd::utf8::valid_utf8;

verus! {

/// How the samples of a metric are aggregated.
#[derive(Clone, Copy, Debug, PartialEq, Eq, Structural)]
pub enum MetricKind {
    /// Summed up between flushes.
    Counter,
    /// Only the latest value counts.
    Gauge,
    /// Every sample is kept until the next flush.
    Timer,
}

/// What a metric says.
pub struct MetricModel {
    pub name: Seq<u8>,
    pub value: int,
    pub kind: MetricKind,
    pub sample_rate: int,
}

impl MetricModel {
    /// The value is one that a [`Number`] can hold, and the sample rate lies in `(0, 1]`.
    pub open spec fn wf(self) -> bool {
        &&& i64::MIN <= self.value <= i64::MAX
        &&& 0 < self.sample_rate <= SCALE
    }
}

/// One sample of one metric.
#[derive(Debug, PartialEq, Eq)]
pub struct Metric {
    name: Vec<u8>,
    value: Number,
    kind: MetricKind,
    sample_rate: Number,
}

impl View for Metric {
    type V = MetricModel;

    closed spec fn view(&self) -> MetricModel {
        MetricModel {
            name: self.name@,
            value: self.value@,
            kind: self.kind,
            sample_rate: self.sample_rate@,
        }
    }
}

impl Metric {
    #[verifier::type_invariant]
    pub closed spec fn inv(&self) -> bool {
        0 < self.sample_rate@ <= SCALE
    }

    /// A metric, unless `sample_rate` lies outside `(0, 1]`.
    pub fn new(
        name: &[u8],
        value: Number,
        kind: MetricKind,
        sample_rate: Number,
    ) -> (m: Option<Metric>)
        ensures
            m is Some <==> 0 < sample_rate@ <= SCALE,
            m matches Some(metric) ==> metric@.wf() && metric@ == (MetricModel {
                name: name@,
                value: value@,
                kind,
                sample_rate: sample_rate@,
            }),
    {
        if 0 < sample_rate.millionths && sample_rate.millionths <= SCALE {
            Some(Metric { name: slice_to_vec(name), value, kind, sample_rate })
        } else {
            None
        }
    }

    /// The metric's name.
    pub fn name(&self) -> (name: &[u8])
        ensures
            name@ == self@.name,
    {
        self.name.as_slice()
    }

    /// The sampled value.
    pub fn value(&self) -> (value: Number)
        ensures
            value@ == self@.value,
    {
        self.value
    }

    /// How the metric is aggregated.
    pub fn kind(&self) -> (kind: MetricKind)
        ensures
            kind == self@.kind,
    {
        self.kind
    }

    /// The fraction of occurrences that were reported, in `(0, 1]`.
    pub fn sample_rate(&self) -> (rate: Number)
        ensures
            rate@ == self@.sample_rate,
            0 < rate@ <= SCALE,
    {
        proof {
            use_type_invariant(self);
        }
        self.sample_rate
    }
}

/// The kind that a type field names.
pub open spec fn spec_parse_kind(s: Seq<u8>) -> Option<MetricKind> {
    if s == text("c") {
        Some(MetricKind::Counter)
    } else if s == text("g") {
        Some(MetricKind::Gauge)
    } else if s == text("ms") {
        Some(MetricKind::Timer)
    } else {
        None
    }
}

/// The sample rate that the rest of a line after the type field gives.
/// `tail` starts after the first bar; `bar` is where the second one stands.
pub open spec fn spec_parse_rate(tail: Seq<u8>, bar: int) -> Option<int> {
    if bar < tail.len() {
        let field = tail.skip(bar + 1);
        if field.len() > 0 && field[0] == AT {
            spec_parse_number(field.drop_first())
        } else {
            None
        }
    } else {
        Some(SCALE as int)
    }
}

/// The metric that a line denotes, if it is a metric line.
pub open spec fn spec_parse_metric(line: Seq<u8>) -> Option<MetricModel> {
    let colon = first_index(line, COLON);
    let name = line.take(colon);
    let rest = line.skip(colon + 1);
    let bar = first_index(rest, BAR);
    let value = spec_parse_number(rest.take(bar));
    let tail = rest.skip(bar + 1);
    let second_bar = first_index(tail, BAR);
    let kind = spec_parse_kind(tail.take(second_bar));
    let rate = spec_parse_rate(tail, second_bar);
    if 0 < colon < line.len() && bar < rest.len() && value is Some && kind is Some && rate is Some
        && 0 < rate->0 <= SCALE {
        Some(MetricModel { name, value: value->0, kind: kind->0, sample_rate: rate->0 })
    } else {
        None
    }
}

/// The metric that a datagram carries: its bytes must be well-formed UTF-8
/// and spell a metric line.
pub open spec fn spec_decode(datagram: Seq<u8>) -> Option<MetricModel> {
    if valid_utf8(datagram) {
        spec_parse_metric(datagram)
    } else {
        None
    }
}

/// Reads the type field of a line.
pub fn parse_kind(s: &[u8]) -> (kind: Option<MetricKind>)
    ensures
        kind == spec_parse_kind(s@),
{
    if bytes_eq(s, "c".as_bytes()) {
        Some(MetricKind::Counter)
    } else if bytes_eq(s, "g".as_bytes()) {
        Some(MetricKind::Gauge)
    } else if bytes_eq(s, "ms".as_bytes()) {
        Some(MetricKind::Timer)
    } else {
        None
    }
}

/// Reads the sample rate field, if the line has one.
fn parse_rate(tail: &[u8], bar: usize) -> (rate: Option<Number>)
    requires
        bar <= tail@.len(),
    ensures
        match rate {
            Some(n) => spec_parse_rate(tail@, bar as int) == Some(n@),
            None => spec_parse_rate(tail@, bar as int) is None,
        },
{
    if bar < tail.len() {
        let field = slice_subrange(tail, bar + 1, tail.len());
        assert(field@ =~= tail@.skip(bar + 1));
        if field.len() > 0 && field[0] == AT {
            let digits = slice_subrange(field, 1, field.len());
            assert(digits@ =~= field@.drop_first());
            parse_number(digits)
        } else {
            None
        }
    } else {
        Some(Number::one())
    }
}

/// Reads one metric line.
pub fn parse_metric(line: &[u8]) -> (metric: Option<Metric>)
    ensures
        match metric {
            Some(m) => spec_parse_metric(line@) == Some(m@) && m@.wf(),
            None => spec_parse_metric(line@) is None,
        },
{
    let colon = find_byte(line, COLON);
    if colon == 0 || colon >= line.len() {
        return None;
    }
    let name = slice_subrange(line, 0, colon);
    assert(name@ =~= line@.take(colon as int));
    let rest = slice_subrange(line, colon + 1, line.len());
    assert(rest@ =~= line@.skip(colon + 1));
    let bar = find_byte(rest, BAR);
    if bar >= rest.len() {
        return None;
    }
    let value_text = slice_subrange(rest, 0, bar);
    assert(value_text@ =~= rest@.take(bar as int));
    let value = match parse_number(value_text) {
        Some(v) => v,
        None => {
            return None;
        },
    };
    let tail = slice_subrange(rest, bar + 1, rest.len());
    assert(tail@ =~= rest@.skip(bar + 1));
    let second_bar = find_byte(tail, BAR);
    let kind_text = slice_subrange(tail, 0, second_bar);
    assert(kind_text@ =~= tail@.take(second_bar as int));
    let kind = match parse_kind(kind_text) {
        Some(k) => k,
        None => {
            return None;
        },
    };
    let rate = match parse_rate(tail, second_bar) {
        Some(r) => r,
        None => {
            return None;
        },
    };
    Metric::new(name, value, kind, rate)
}

/// Whether `bytes` is well-formed UTF-8, as `std::str::from_utf8` judges it.
///
/// This is the one function here whose contract is taken on trust. It claims
/// that `from_utf8` returns `Ok` for exactly the byte strings that `valid_utf8`
/// describes: sequences of scalar values in their shortest encoding, with no
/// surrogates and nothing past U+10FFFF.
#[verifier::external_body]
fn is_utf8(bytes: &[u8]) -> (ok: bool)
    ensures
        ok == valid_utf8(bytes@),
{
    match std::str::from_utf8(bytes) {
        Ok(_) => true,
        Err(_) => false,
    }
}

/// Decodes a datagram into the metric it carries.
pub fn decode(datagram: &[u8]) -> (metric: Option<Metric>)
    ensures
        match metric {
            Some(m) => spec_decode(datagram@) == Some(m@) && m@.wf(),
            None => spec_decode(datagram@) is None,
        },
{
    if is_utf8(datagram) {
        parse_metric(datagram)
    } else {
        None
    }
}

} // verus!
