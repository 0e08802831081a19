//! Text helpers: building strings, the decimal text of an integer, and the
//! text of a moment in time.

use vstd::prelude::*;

verus! {

/// Appends one character, by `String::push` from std.
///
/// Trusted: the string afterwards is the string before with `c` at its end.
#[verifier::external_body]
pub(crate) fn push_char(s: &mut String, c: char)
    ensures
        final(s)@ == old(s)@.push(c),
{
    s.push(c)
}

/// The character that writes the digit `d`.
pub open spec fn digit_char(d: int) -> char {
    if d == 0 {
        '0'
    } else if d == 1 {
        '1'
    } else if d == 2 {
        '2'
    } else if d == 3 {
        '3'
    } else if d == 4 {
        '4'
    } else if d == 5 {
        '5'
    } else if d == 6 {
        '6'
    } else if d == 7 {
        '7'
    } else if d == 8 {
        '8'
    } else {
        '9'
    }
}

/// The decimal digits of `n`, most significant first, without leading zeros.
pub open spec fn digits(n: nat) -> Seq<char>
    decreases n,
{
    if n < 10 {
        seq![digit_char(n as int)]
    } else {
        digits(n / 10).push(digit_char((n % 10) as int))
    }
}

/// The decimal text of `n`: a minus sign if `n` is negative, then its digits.
pub open spec fn decimal(n: int) -> Seq<char> {
    if n < 0 {
        seq!['-'] + digits((-n) as nat)
    } else {
        digits(n as nat)
    }
}

fn digit(d: u64) -> (c: char)
    requires
        d < 10,
    ensures
        c == digit_char(d as int),
{
    if d == 0 {
        '0'
    } else if d == 1 {
        '1'
    } else if d == 2 {
        '2'
    } else if d == 3 {
        '3'
    } else if d == 4 {
        '4'
    } else if d == 5 {
        '5'
    } else if d == 6 {
        '6'
    } else if d == 7 {
        '7'
    } else if d == 8 {
        '8'
    } else {
        '9'
    }
}

fn push_digits(s: &mut String, n: u64)
    ensures
        final(s)@ == old(s)@ + digits(n as nat),
    decreases n,
{
    if n >= 10 {
        push_digits(s, n / 10);
    }
    push_char(s, digit(n % 10));
}

/// Writes `n` in decimal.
pub fn decimal_text(n: i64) -> (text: String)
    ensures
        text@ == decimal(n as int),
{
    let mut text = String::new();
    if n < 0 {
        push_char(&mut text, '-');
        let magnitude: i128 = -(n as i128);
        push_digits(&mut text, magnitude as u64);
    } else {
        push_digits(&mut text, n as u64);
    }
    text
}

/// The text of a truth value: `true` or `false`.
pub open spec fn boolean(b: bool) -> Seq<char> {
    if b {
        "true"@
    } else {
        "false"@
    }
}

/// Writes `b` as `true` or `false`.
pub fn bool_text(b: bool) -> (text: String)
    ensures
        text@ == boolean(b),
{
    if b {
        "true".to_owned()
    } else {
        "false".to_owned()
    }
}

/// The format in which a moment is written: the date, a `T`, the time of day
/// and a `Z`, as in `2019-01-01T00:00:00Z`.
pub const TIMESTAMP_FORMAT: &'static str = "%FT%H:%M:%SZ";

/// The first second of the year -100000.
pub const TIMESTAMP_MIN: i64 = -3_217_862_419_200;

/// The last second of the year 100000.
pub const TIMESTAMP_MAX: i64 = 3_093_559_603_199;

/// A moment, in seconds since 1970-01-01T00:00:00Z, falls in a year whose
/// dates can be written: from -100000 to 100000.
pub open spec fn spec_in_calendar(seconds: i64) -> bool {
    TIMESTAMP_MIN <= seconds <= TIMESTAMP_MAX
}

/// Whether a moment falls in a year whose dates can be written.
#[verifier::when_used_as_spec(spec_in_calendar)]
pub fn in_calendar(seconds: i64) -> (yes: bool)
    ensures
        yes == spec_in_calendar(seconds),
{
    TIMESTAMP_MIN <= seconds && seconds <= TIMESTAMP_MAX
}

/// The text that the `time` crate writes for the moment `seconds` after
/// 1970-01-01T00:00:00Z, taken in UTC, under the format `format`.
pub uninterp spec fn utc_text(seconds: i64, format: Seq<char>) -> Seq<char>;

/// Formats a moment in UTC, by `OffsetDateTime::from_unix_timestamp` and
/// `OffsetDateTime::format` of the `time` crate.
///
/// Trusted: for a moment within the calendar and the format
/// [`TIMESTAMP_FORMAT`], the call returns, and what it returns depends on the
/// moment and the format alone. Outside the calendar the crate panics, and so
/// does it on a format it cannot parse; both are left out.
#[verifier::external_body]
fn format_utc(seconds: i64, format: &str) -> (text: String)
    requires
        spec_in_calendar(seconds),
        format@ == TIMESTAMP_FORMAT@,
    ensures
        text@ == utc_text(seconds, format@),
{
    time::OffsetDateTime::from_unix_timestamp(seconds).format(format)
}

/// Writes a moment as date and time of day in UTC.
pub fn timestamp_text(seconds: i64) -> (text: String)
    requires
        spec_in_calendar(seconds),
    ensures
        text@ == utc_text(seconds, TIMESTAMP_FORMAT@),
{
    format_utc(seconds, TIMESTAMP_FORMAT)
}

} // verus!
