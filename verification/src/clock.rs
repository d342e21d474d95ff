//! Timestamps for the request log: the current UTC instant, taken from the
//! clock through one trusted call, and its ISO-8601 rendering with
//! millisecond precision, e.g. `2024-01-02T03:04:05.678Z`.
use crate::ascii::{spec_digit, digit, COLON, DIGIT_ZERO, DOT, HYPHEN, UPPER_T, UPPER_Z};
use chrono::{Datelike, Timelike};
use vstd::prelude::*;

verus! {

/// One UTC instant, split into its calendar and clock components.
pub struct Timestamp {
    pub year: i32,
    pub month: u8,
    pub day: u8,
    pub hour: u8,
    pub minute: u8,
    pub second: u8,
    pub milli: u16,
}

impl Timestamp {
    /// Component ranges: what any civil UTC instant satisfies.  The
    /// millisecond field may reach 1999 while a leap second is inserted.
    pub open spec fn wf(self) -> bool {
        &&& 1 <= self.month <= 12
        &&& 1 <= self.day <= 31
        &&& self.hour < 24
        &&& self.minute < 60
        &&& self.second < 60
        &&& self.milli < 2000
    }
}

/// The decimal digits of `n`, most significant first.
pub open spec fn dec_rep(n: nat) -> Seq<u8>
    decreases n,
{
    if n < 10 {
        seq![spec_digit(n as int)]
    } else {
        dec_rep(n / 10) + seq![spec_digit((n % 10) as int)]
    }
}

/// `n` zero-padded to at least two digits.
pub open spec fn pad2(n: nat) -> Seq<u8> {
    if n < 10 {
        seq![DIGIT_ZERO] + dec_rep(n)
    } else {
        dec_rep(n)
    }
}

/// `n` zero-padded to at least three digits.
pub open spec fn pad3(n: nat) -> Seq<u8> {
    if n < 10 {
        seq![DIGIT_ZERO, DIGIT_ZERO] + dec_rep(n)
    } else if n < 100 {
        seq![DIGIT_ZERO] + dec_rep(n)
    } else {
        dec_rep(n)
    }
}

/// `n` zero-padded to at least four digits.
pub open spec fn pad4(n: nat) -> Seq<u8> {
    if n < 10 {
        seq![DIGIT_ZERO, DIGIT_ZERO, DIGIT_ZERO] + dec_rep(n)
    } else if n < 100 {
        seq![DIGIT_ZERO, DIGIT_ZERO] + dec_rep(n)
    } else if n < 1000 {
        seq![DIGIT_ZERO] + dec_rep(n)
    } else {
        dec_rep(n)
    }
}

/// The year, four digits and zero-padded, with a leading minus sign for
/// years before year zero.
pub open spec fn year_text(y: int) -> Seq<u8> {
    if y >= 0 {
        pad4(y as nat)
    } else {
        seq![HYPHEN] + pad4((-y) as nat)
    }
}

/// The ISO-8601 rendering of a timestamp, millisecond precision, UTC
/// designator `Z`.
pub open spec fn ts_text(t: Timestamp) -> Seq<u8> {
    year_text(t.year as int) + seq![HYPHEN] + pad2(t.month as nat) + seq![HYPHEN] + pad2(
        t.day as nat,
    ) + seq![UPPER_T] + pad2(t.hour as nat) + seq![COLON] + pad2(t.minute as nat) + seq![COLON]
        + pad2(t.second as nat) + seq![DOT] + pad3(t.milli as nat) + seq![UPPER_Z]
}

/// Appends the decimal digits of `n`.
pub fn push_dec(out: &mut Vec<u8>, n: u64)
    ensures
        final(out)@ == old(out)@ + dec_rep(n as nat),
    decreases n,
{
    if n < 10 {
        out.push(digit(n as u8));
    } else {
        push_dec(out, n / 10);
        out.push(digit((n % 10) as u8));
        proof {
            assert(out@ =~= old(out)@ + dec_rep(n as nat));
        }
    }
}

/// Appends `n` zero-padded to at least two digits.
fn push_pad2(out: &mut Vec<u8>, n: u8)
    ensures
        final(out)@ == old(out)@ + pad2(n as nat),
{
    if n < 10 {
        out.push(DIGIT_ZERO);
    }
    push_dec(out, n as u64);
    proof {
        assert(out@ =~= old(out)@ + pad2(n as nat));
    }
}

/// Appends `n` zero-padded to at least three digits.
fn push_pad3(out: &mut Vec<u8>, n: u16)
    ensures
        final(out)@ == old(out)@ + pad3(n as nat),
{
    if n < 10 {
        out.push(DIGIT_ZERO);
        out.push(DIGIT_ZERO);
    } else if n < 100 {
        out.push(DIGIT_ZERO);
    }
    push_dec(out, n as u64);
    proof {
        assert(out@ =~= old(out)@ + pad3(n as nat));
    }
}

/// Appends the year, zero-padded to at least four digits, signed.
fn push_year(out: &mut Vec<u8>, y: i32)
    ensures
        final(out)@ == old(out)@ + year_text(y as int),
{
    let mut m: u64 = 0;
    if y < 0 {
        out.push(HYPHEN);
        m = (-(y as i64)) as u64;
    } else {
        m = y as u64;
    }
    if m < 10 {
        out.push(DIGIT_ZERO);
        out.push(DIGIT_ZERO);
        out.push(DIGIT_ZERO);
    } else if m < 100 {
        out.push(DIGIT_ZERO);
        out.push(DIGIT_ZERO);
    } else if m < 1000 {
        out.push(DIGIT_ZERO);
    }
    push_dec(out, m);
    proof {
        assert(out@ =~= old(out)@ + year_text(y as int));
    }
}

/// Renders a timestamp as ISO-8601 with millisecond precision.
pub fn format_timestamp(t: &Timestamp) -> (r: Vec<u8>)
    ensures
        r@ == ts_text(*t),
{
    let mut out: Vec<u8> = Vec::new();
    push_year(&mut out, t.year);
    out.push(HYPHEN);
    push_pad2(&mut out, t.month);
    out.push(HYPHEN);
    push_pad2(&mut out, t.day);
    out.push(UPPER_T);
    push_pad2(&mut out, t.hour);
    out.push(COLON);
    push_pad2(&mut out, t.minute);
    out.push(COLON);
    push_pad2(&mut out, t.second);
    out.push(DOT);
    push_pad3(&mut out, t.milli);
    out.push(UPPER_Z);
    proof {
        assert(out@ =~= ts_text(*t));
    }
    out
}

/// Every byte of a decimal rendering is a digit byte.
proof fn lemma_dec_rep_digits(n: nat)
    ensures
        forall|i: int| 0 <= i < dec_rep(n).len() ==> 48 <= #[trigger] dec_rep(n)[i] <= 57,
    decreases n,
{
    if n >= 10 {
        lemma_dec_rep_digits(n / 10);
        let a = dec_rep(n / 10);
        let d = spec_digit((n % 10) as int);
        assert forall|i: int| 0 <= i < dec_rep(n).len() implies 48 <= #[trigger] dec_rep(n)[i]
            <= 57 by {
            if i < a.len() {
                assert(dec_rep(n)[i] == a[i]);
            } else {
                assert(dec_rep(n)[i] == d);
            }
        }
    }
}

/// A rendered timestamp never holds a line feed: a log record stays one line.
pub proof fn lemma_ts_text_single_line(t: Timestamp)
    ensures
        crate::bytes::single_line(ts_text(t)),
{
    lemma_dec_rep_digits((t.month as nat));
    lemma_dec_rep_digits((t.day as nat));
    lemma_dec_rep_digits((t.hour as nat));
    lemma_dec_rep_digits((t.minute as nat));
    lemma_dec_rep_digits((t.second as nat));
    lemma_dec_rep_digits((t.milli as nat));
    let y = t.year as int;
    if y >= 0 {
        lemma_dec_rep_digits(y as nat);
    } else {
        lemma_dec_rep_digits((-y) as nat);
    }
}

/// The current UTC instant, read from the system clock.
///
/// Relies on chrono's `Utc::now` for the instant and on its `Datelike` and
/// `Timelike` accessors (`year`, `month`, `day`, `hour`, `minute`, `second`)
/// and `timestamp_subsec_millis` for the components.  chrono documents the
/// ranges: month 1..=12, day 1..=31, hour 0..24, minute and second 0..60,
/// and milliseconds below 2000 (above 999 only while a leap second is
/// inserted).  Nothing more can be promised of a clock reading.
#[verifier::external_body]
pub fn now_timestamp() -> (r: Timestamp)
    ensures
        r.wf(),
{
    let now = chrono::Utc::now();
    Timestamp {
        year: now.year(),
        month: now.month() as u8,
        day: now.day() as u8,
        hour: now.hour() as u8,
        minute: now.minute() as u8,
        second: now.second() as u8,
        milli: now.timestamp_subsec_millis() as u16,
    }
}

} // verus!
