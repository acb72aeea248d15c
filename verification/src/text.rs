//! Decimal text, as bytes.
//!
//! Everything the daemon reads or writes is ASCII-framed text. This module
//! says what the text of an integer and of a [`Number`] is, renders both, and
//! reads a `Number` back from its text.

use crate::number::{Number, SCALE};
use vstd::prelude::*;
use vstd::slice::slice_subrange;
use vstd::string::StringSliceAdditionalSpecFns;

verus! {

pub const NEWLINE: u8 = 10;

pub const CARRIAGE_RETURN: u8 = 13;

pub const SPACE: u8 = 32;

pub const MINUS: u8 = 45;

pub const DOT: u8 = 46;

pub const ZERO: u8 = 48;

pub const NINE: u8 = 57;

pub const COLON: u8 = 58;

pub const AT: u8 = 64;

pub const BAR: u8 = 124;

/// The bytes of a piece of text.
pub open spec fn text(s: &str) -> Seq<u8> {
    s.spec_bytes()
}

/// The ASCII digit for `d`, where `0 <= d <= 9`.
pub open spec fn digit(d: int) -> u8 {
    (ZERO + d) as u8
}

/// Whether `b` is an ASCII digit.
pub open spec fn is_digit(b: u8) -> bool {
    ZERO <= b <= NINE
}

/// Whether every byte of `s` is an ASCII digit.
pub open spec fn all_digits(s: Seq<u8>) -> bool {
    forall|i: int| 0 <= i < s.len() ==> is_digit(#[trigger] s[i])
}

/// The decimal digits of `n`, most significant first, without leading zeros.
pub open spec fn nat_text(n: nat) -> Seq<u8>
    decreases n,
{
    if n < 10 {
        seq![digit(n as int)]
    } else {
        nat_text(n / 10).push(digit((n % 10) as int))
    }
}

/// The decimal text of an integer: a minus sign for a negative one, then its digits.
pub open spec fn int_text(v: int) -> Seq<u8> {
    if v < 0 {
        seq![MINUS] + nat_text((-v) as nat)
    } else {
        nat_text(v as nat)
    }
}

/// The last `width` decimal digits of `n`, zero-padded on the left.
pub open spec fn padded_text(n: nat, width: nat) -> Seq<u8>
    decreases width,
{
    if width == 0 {
        Seq::empty()
    } else {
        padded_text(n / 10, (width - 1) as nat).push(digit((n % 10) as int))
    }
}

/// The digits of the fraction `f / 10^width` with trailing zeros removed; empty for zero.
pub open spec fn fraction_text(f: nat, width: nat) -> Seq<u8>
    decreases width,
{
    if width == 0 {
        Seq::empty()
    } else if f % 10 == 0 {
        fraction_text(f / 10, (width - 1) as nat)
    } else {
        padded_text(f, width)
    }
}

/// The text of a number: sign, whole part, and, unless the fraction is zero, a
/// dot and up to six fractional digits with no trailing zeros.
pub open spec fn number_text(v: int) -> Seq<u8> {
    let m: nat = (if v < 0 { -v } else { v }) as nat;
    let sign: Seq<u8> = if v < 0 { seq![MINUS] } else { Seq::empty() };
    let whole = nat_text(m / (SCALE as nat));
    let f = m % (SCALE as nat);
    if f == 0 {
        sign + whole
    } else {
        sign + whole + seq![DOT] + fraction_text(f, 6)
    }
}

/// Appends the bytes of `s`.
pub fn push_bytes(out: &mut Vec<u8>, s: &[u8])
    ensures
        final(out)@ == old(out)@ + s@,
{
    out.extend_from_slice(s);
    assert(out@ =~= old(out)@ + s@);
}

/// Appends a piece of text.
pub fn push_str(out: &mut Vec<u8>, s: &str)
    ensures
        final(out)@ == old(out)@ + text(s),
{
    push_bytes(out, s.as_bytes());
}

/// Appends the decimal digits of `n`.
pub fn push_nat(out: &mut Vec<u8>, n: u64)
    ensures
        final(out)@ == old(out)@ + nat_text(n as nat),
    decreases n,
{
    if n < 10 {
        out.push(ZERO + n as u8);
        assert(out@ =~= old(out)@ + nat_text(n as nat));
    } else {
        push_nat(out, n / 10);
        out.push(ZERO + (n % 10) as u8);
        assert(out@ =~= old(out)@ + nat_text(n as nat));
    }
}

/// Appends the decimal text of a signed integer.
pub fn push_int(out: &mut Vec<u8>, v: i64)
    ensures
        final(out)@ == old(out)@ + int_text(v as int),
{
    if v < 0 {
        out.push(MINUS);
        let m: u64 = (-(v + 1)) as u64 + 1;
        push_nat(out, m);
        assert(out@ =~= old(out)@ + int_text(v as int));
    } else {
        push_nat(out, v as u64);
    }
}

/// Appends the last `width` digits of `n`, zero-padded.
fn push_padded(out: &mut Vec<u8>, n: u64, width: u8)
    ensures
        final(out)@ == old(out)@ + padded_text(n as nat, width as nat),
    decreases width,
{
    if width == 0 {
        assert(out@ =~= old(out)@ + padded_text(n as nat, width as nat));
    } else {
        push_padded(out, n / 10, width - 1);
        out.push(ZERO + (n % 10) as u8);
        assert(out@ =~= old(out)@ + padded_text(n as nat, width as nat));
    }
}

/// Appends the digits of a fraction without its trailing zeros.
fn push_fraction(out: &mut Vec<u8>, f: u64, width: u8)
    ensures
        final(out)@ == old(out)@ + fraction_text(f as nat, width as nat),
    decreases width,
{
    if width == 0 {
        assert(out@ =~= old(out)@ + fraction_text(f as nat, width as nat));
    } else if f % 10 == 0 {
        push_fraction(out, f / 10, width - 1);
    } else {
        push_padded(out, f, width);
    }
}

/// Appends the text of a number.
pub fn push_number(out: &mut Vec<u8>, n: Number)
    ensures
        final(out)@ == old(out)@ + number_text(n@),
{
    let v = n.millionths;
    let m: u64 = if v < 0 { (-(v + 1)) as u64 + 1 } else { v as u64 };
    if v < 0 {
        out.push(MINUS);
    }
    let scale: u64 = SCALE as u64;
    push_nat(out, m / scale);
    let f = m % scale;
    if f != 0 {
        out.push(DOT);
        push_fraction(out, f, 6);
    }
    assert(out@ =~= old(out)@ + number_text(n@));
}

/// The text of a number, on its own. [`parse_number`] reads it back as the
/// same number, unless the number is the least one, whose magnitude is one
/// more than the parser takes.
pub fn number_to_text(n: Number) -> (out: Vec<u8>)
    ensures
        out@ == number_text(n@),
        n@ > i64::MIN ==> spec_parse_number(out@) == Some(n@),
{
    let mut out: Vec<u8> = Vec::new();
    push_number(&mut out, n);
    proof {
        if n@ > i64::MIN {
            lemma_number_text_reads_back(n@);
        }
    }
    out
}

/// Whether two byte strings are equal.
pub fn bytes_eq(a: &[u8], b: &[u8]) -> (same: bool)
    ensures
        same == (a@ == b@),
{
    if a.len() != b.len() {
        return false;
    }
    let mut i: usize = 0;
    while i < a.len()
        invariant
            a@.len() == b@.len(),
            i <= a@.len(),
            forall|j: int| 0 <= j < i ==> a@[j] == b@[j],
        decreases a@.len() - i,
    {
        if a[i] != b[i] {
            return false;
        }
        i += 1;
    }
    assert(a@ =~= b@);
    true
}

/// Where `b` first occurs in `s`, or the length of `s` if it does not.
pub open spec fn first_index(s: Seq<u8>, b: u8) -> int
    decreases s.len(),
{
    if s.len() == 0 {
        0
    } else if s[0] == b {
        0
    } else {
        1 + first_index(s.drop_first(), b)
    }
}

/// `first_index` is the one position that `b` holds with no `b` before it.
pub proof fn lemma_first_index(s: Seq<u8>, b: u8, i: int)
    requires
        0 <= i <= s.len(),
        forall|j: int| 0 <= j < i ==> s[j] != b,
        i < s.len() ==> s[i] == b,
    ensures
        first_index(s, b) == i,
    decreases s.len(),
{
    if s.len() == 0 || i == 0 {
    } else {
        let rest = s.drop_first();
        assert(forall|j: int| 0 <= j < i - 1 ==> rest[j] == s[j + 1]);
        lemma_first_index(rest, b, i - 1);
    }
}

/// Finds the first `b` in `s`.
pub fn find_byte(s: &[u8], b: u8) -> (i: usize)
    ensures
        i == first_index(s@, b),
        i <= s@.len(),
{
    let mut i: usize = 0;
    while i < s.len() && s[i] != b
        invariant
            i <= s@.len(),
            forall|j: int| 0 <= j < i ==> s@[j] != b,
        decreases s@.len() - i,
    {
        i += 1;
    }
    proof {
        lemma_first_index(s@, b, i as int);
    }
    i
}

/// The number that a string of digits denotes.
pub open spec fn digits_value(s: Seq<u8>) -> nat
    decreases s.len(),
{
    if s.len() == 0 {
        0
    } else {
        digits_value(s.drop_last()) * 10 + (s.last() - ZERO) as nat
    }
}

/// The weight, in millionths, of the fractional digit at place `i`, counted
/// from zero: the first digit counts tenths, the sixth millionths, and digits
/// past the sixth weigh nothing.
pub open spec fn place_weight(i: int) -> nat {
    if i == 0 {
        100_000
    } else if i == 1 {
        10_000
    } else if i == 2 {
        1_000
    } else if i == 3 {
        100
    } else if i == 4 {
        10
    } else if i == 5 {
        1
    } else {
        0
    }
}

/// The millionths that a string of fractional digits denotes.
pub open spec fn fraction_value(s: Seq<u8>) -> nat
    decreases s.len(),
{
    if s.len() == 0 {
        0
    } else {
        fraction_value(s.drop_last()) + (s.last() - ZERO) as nat * place_weight(s.len() - 1)
    }
}

/// What a piece of text denotes as a number, in millionths.
///
/// The text is an optional minus sign, one or more digits, and optionally a
/// dot followed by one or more digits. Fractional digits past the sixth are
/// dropped. Text of any other shape, or whose magnitude does not fit, denotes
/// nothing.
pub open spec fn spec_parse_number(s: Seq<u8>) -> Option<int> {
    let negative = s.len() > 0 && s[0] == MINUS;
    let body = if negative { s.drop_first() } else { s };
    let dot = first_index(body, DOT);
    let whole = body.take(dot);
    let has_dot = dot < body.len();
    let fraction = if has_dot { body.skip(dot + 1) } else { Seq::empty() };
    let magnitude = digits_value(whole) * (SCALE as nat) + fraction_value(fraction);
    if whole.len() > 0 && all_digits(whole) && all_digits(fraction) && (has_dot ==> fraction.len()
        > 0) && magnitude <= i64::MAX {
        Some(if negative { -(magnitude as int) } else { magnitude as int })
    } else {
        None
    }
}

/// A longer string of digits never denotes less than a prefix of it.
proof fn lemma_digits_value_prefix(s: Seq<u8>, i: int)
    requires
        0 <= i <= s.len(),
        all_digits(s),
    ensures
        digits_value(s.take(i)) <= digits_value(s),
    decreases s.len() - i,
{
    if i == s.len() {
        assert(s.take(i) =~= s);
    } else {
        lemma_digits_value_prefix(s, i + 1);
        let longer = s.take(i + 1);
        assert(longer.drop_last() =~= s.take(i));
        assert(is_digit(s[i]));
        assert(longer.last() == s[i]);
    }
}

/// Reads the digits of the whole part. `None` stands for a byte that is no
/// digit or a value past `limit`.
fn parse_whole(s: &[u8], limit: u64) -> (r: Option<u64>)
    requires
        limit <= 1_000_000_000_000_000,
    ensures
        match r {
            Some(v) => all_digits(s@) && digits_value(s@) == v && v <= limit,
            None => !all_digits(s@) || digits_value(s@) > limit,
        },
{
    let mut acc: u64 = 0;
    let mut i: usize = 0;
    while i < s.len()
        invariant
            i <= s@.len(),
            limit <= 1_000_000_000_000_000,
            all_digits(s@.take(i as int)),
            acc == digits_value(s@.take(i as int)),
            acc <= limit,
        decreases s@.len() - i,
    {
        let b = s[i];
        if b < ZERO || b > NINE {
            assert(!is_digit(s@[i as int]));
            return None;
        }
        let next: u64 = acc * 10 + (b - ZERO) as u64;
        proof {
            let longer = s@.take(i + 1);
            assert(longer.drop_last() =~= s@.take(i as int));
            assert(longer.last() == b);
            assert(next == digits_value(longer));
            assert forall|j: int| 0 <= j < longer.len() implies is_digit(#[trigger] longer[j]) by {
                if j < i {
                    assert(longer[j] == s@.take(i as int)[j]);
                }
            }
        }
        if next > limit {
            proof {
                if all_digits(s@) {
                    lemma_digits_value_prefix(s@, i + 1);
                }
            }
            return None;
        }
        acc = next;
        i += 1;
    }
    assert(s@.take(i as int) =~= s@);
    Some(acc)
}

/// Reads the digits of the fraction. `None` stands for a byte that is no digit.
fn parse_fraction(s: &[u8]) -> (r: Option<u64>)
    ensures
        match r {
            Some(v) => all_digits(s@) && fraction_value(s@) == v && v < 1_000_000,
            None => !all_digits(s@),
        },
{
    let mut acc: u64 = 0;
    let mut weight: u64 = 100_000;
    let mut i: usize = 0;
    while i < s.len()
        invariant
            i <= s@.len(),
            weight == place_weight(i as int),
            all_digits(s@.take(i as int)),
            acc == fraction_value(s@.take(i as int)),
            acc + 10 * weight <= 1_000_000,
            acc < 1_000_000,
        decreases s@.len() - i,
    {
        let b = s[i];
        if b < ZERO || b > NINE {
            assert(!is_digit(s@[i as int]));
            return None;
        }
        proof {
            let longer = s@.take(i + 1);
            assert(longer.drop_last() =~= s@.take(i as int));
            assert(longer.last() == b);
            assert forall|j: int| 0 <= j < longer.len() implies is_digit(#[trigger] longer[j]) by {
                if j < i {
                    assert(longer[j] == s@.take(i as int)[j]);
                }
            }
            assert((b - ZERO) * weight <= 9 * weight) by (nonlinear_arith)
                requires
                    0 <= b - ZERO <= 9,
            ;
        }
        acc = acc + (b - ZERO) as u64 * weight;
        weight = weight / 10;
        i += 1;
    }
    assert(s@.take(i as int) =~= s@);
    Some(acc)
}

/// Reads a number from its text.
pub fn parse_number(s: &[u8]) -> (r: Option<Number>)
    ensures
        match r {
            Some(n) => spec_parse_number(s@) == Some(n@),
            None => spec_parse_number(s@) is None,
        },
{
    let negative = s.len() > 0 && s[0] == MINUS;
    let body = if negative { slice_subrange(s, 1, s.len()) } else { s };
    assert(body@ =~= if negative { s@.drop_first() } else { s@ });
    let dot = find_byte(body, DOT);
    let has_dot = dot < body.len();
    let whole_text = slice_subrange(body, 0, dot);
    assert(whole_text@ =~= body@.take(dot as int));
    if dot == 0 {
        return None;
    }
    let whole = match parse_whole(whole_text, 9_223_372_036_854) {
        Some(v) => v,
        None => {
            proof {
                if all_digits(whole_text@) {
                    assert(digits_value(whole_text@) * 1_000_000 > i64::MAX);
                }
            }
            return None;
        },
    };
    let fraction: u64 = if has_dot {
        let fraction_text = slice_subrange(body, dot + 1, body.len());
        assert(fraction_text@ =~= body@.skip(dot + 1));
        if fraction_text.len() == 0 {
            return None;
        }
        match parse_fraction(fraction_text) {
            Some(v) => v,
            None => {
                return None;
            },
        }
    } else {
        0
    };
    let magnitude: u64 = whole * (SCALE as u64) + fraction;
    if magnitude > i64::MAX as u64 {
        return None;
    }
    let value: i64 = magnitude as i64;
    Some(Number { millionths: if negative { -value } else { value } })
}

/// The digits of a natural number are digits, and denote it.
pub proof fn lemma_nat_text(n: nat)
    ensures
        nat_text(n).len() > 0,
        all_digits(nat_text(n)),
        digits_value(nat_text(n)) == n,
    decreases n,
{
    let s = nat_text(n);
    if n < 10 {
        assert(s.drop_last() =~= Seq::<u8>::empty());
        assert(s.last() == 48 + n);
        assert(digits_value(s.drop_last()) == 0);
    } else {
        lemma_nat_text(n / 10);
        assert(s.drop_last() =~= nat_text(n / 10));
        assert(s.last() == 48 + n % 10);
        assert forall|i: int| 0 <= i < s.len() implies is_digit(#[trigger] s[i]) by {
            if i < s.len() - 1 {
                assert(s[i] == nat_text(n / 10)[i]);
            }
        }
    }
}

/// Ten to the power `k`, for `k` up to six.
spec fn tens(k: int) -> nat {
    if k == 0 {
        1
    } else if k == 1 {
        10
    } else if k == 2 {
        100
    } else if k == 3 {
        1_000
    } else if k == 4 {
        10_000
    } else if k == 5 {
        100_000
    } else {
        1_000_000
    }
}

/// Zero-padded digits, read as the first digits of a fraction, denote the
/// number they were made from.
proof fn lemma_padded_text(n: nat, width: nat)
    requires
        width <= 6,
    ensures
        padded_text(n, width).len() == width,
        all_digits(padded_text(n, width)),
        fraction_value(padded_text(n, width)) == (n % tens(width as int)) * tens(6 - width),
    decreases width,
{
    let s = padded_text(n, width);
    if width > 0 {
        let shorter = padded_text(n / 10, (width - 1) as nat);
        lemma_padded_text(n / 10, (width - 1) as nat);
        assert(s.drop_last() =~= shorter);
        assert(s.last() == 48 + n % 10);
        assert forall|i: int| 0 <= i < s.len() implies is_digit(#[trigger] s[i]) by {
            if i < s.len() - 1 {
                assert(s[i] == shorter[i]);
            }
        }
        let high = (n / 10) % tens(width - 1);
        let low = n % 10;
        let unit = tens(6 - width);
        assert(place_weight(width - 1) == unit);
        assert(tens(7 - width) == 10 * unit);
        assert(tens(width as int) == 10 * tens(width - 1));
        vstd::arithmetic::div_mod::lemma_mod_breakdown(n as int, 10, tens(width - 1) as int);
        assert(n % tens(width as int) == 10 * high + low);
        assert(fraction_value(s) == high * (10 * unit) + low * unit);
        assert(high * (10 * unit) + low * unit == (10 * high + low) * unit) by (nonlinear_arith);
    } else {
        assert(n % 1 == 0);
    }
}

/// The digits of a fraction denote it.
proof fn lemma_fraction_text(f: nat, width: nat)
    requires
        width <= 6,
        f < tens(width as int),
    ensures
        all_digits(fraction_text(f, width)),
        fraction_value(fraction_text(f, width)) == f * tens(6 - width),
        f > 0 ==> fraction_text(f, width).len() > 0,
    decreases width,
{
    let unit = tens(6 - width);
    if width == 0 {
        assert(f == 0);
        assert(f * unit == 0);
    } else if f % 10 == 0 {
        assert(tens(width as int) == 10 * tens(width - 1));
        lemma_fraction_text(f / 10, (width - 1) as nat);
        assert(tens(7 - width) == 10 * unit);
        assert((f / 10) * (10 * unit) == f * unit) by (nonlinear_arith)
            requires
                f == 10 * (f / 10),
        ;
    } else {
        lemma_padded_text(f, width);
        vstd::arithmetic::div_mod::lemma_small_mod(f, tens(width as int));
    }
}

/// Digits, a dot and more bytes split at the dot; digits alone have no dot.
proof fn lemma_split_at_dot(whole: Seq<u8>, fraction: Seq<u8>)
    requires
        all_digits(whole),
    ensures
        first_index(whole, DOT) == whole.len(),
        first_index(whole + seq![DOT] + fraction, DOT) == whole.len(),
        (whole + seq![DOT] + fraction).take(whole.len() as int) == whole,
        (whole + seq![DOT] + fraction).skip(whole.len() as int + 1) == fraction,
{
    let body = whole + seq![DOT] + fraction;
    assert forall|j: int| 0 <= j < whole.len() implies whole[j] != DOT && body[j] != DOT by {
        assert(is_digit(whole[j]));
        assert(body[j] == whole[j]);
    }
    assert(body[whole.len() as int] == DOT);
    lemma_first_index(whole, DOT, whole.len() as int);
    lemma_first_index(body, DOT, whole.len() as int);
    assert(body.take(whole.len() as int) =~= whole);
    assert(body.skip(whole.len() as int + 1) =~= fraction);
}

/// What the text of a magnitude denotes: the magnitude.
proof fn lemma_magnitude_reads_back(m: nat)
    requires
        m <= i64::MAX,
    ensures
        spec_parse_number(number_text(m as int)) == Some(m as int),
        number_text(m as int).len() > 0,
        is_digit(number_text(m as int)[0]),
{
    let whole = nat_text(m / 1_000_000);
    let f: nat = m % 1_000_000;
    let fraction = fraction_text(f, 6);
    let t = number_text(m as int);
    lemma_nat_text(m / 1_000_000);
    lemma_fraction_text(f, 6);
    assert(is_digit(whole[0]));
    assert(digits_value(whole) * (SCALE as nat) == (m / 1_000_000) * 1_000_000);
    if f == 0 {
        lemma_split_at_dot(whole, Seq::empty());
        assert(t =~= whole);
        assert(first_index(t, DOT) == t.len());
        assert(t.take(t.len() as int) =~= t);
        assert(fraction_value(Seq::<u8>::empty()) == 0);
        assert(all_digits(Seq::<u8>::empty()));
    } else {
        lemma_split_at_dot(whole, fraction);
        assert(t =~= whole + seq![DOT] + fraction);
        assert(t[0] == whole[0]);
        let dot = first_index(t, DOT);
        assert(dot == whole.len());
        assert(dot < t.len());
        assert(t.take(dot) == whole);
        assert(t.skip(dot + 1) == fraction);
        assert(fraction_value(fraction) == f * 1);
        assert(fraction.len() > 0);
    }
}

/// The text of a number reads back as that number. Only the least number
/// falls outside: its magnitude is one more than the parser takes.
pub proof fn lemma_number_text_reads_back(v: int)
    requires
        -i64::MAX <= v <= i64::MAX,
    ensures
        spec_parse_number(number_text(v)) == Some(v),
{
    if v < 0 {
        let m = (-v) as nat;
        let body = number_text(m as int);
        let t = number_text(v);
        lemma_magnitude_reads_back(m);
        assert(t =~= seq![MINUS] + body);
        assert(t.drop_first() =~= body);
        assert(t[0] == MINUS);
        assert(body[0] != MINUS);
    } else {
        lemma_magnitude_reads_back(v as nat);
    }
}

} // verus!
