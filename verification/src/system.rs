//! What the library reads from the machine: the clock, the local date and
//! time, and the clipboard. None of these can be predicted, so the contracts
//! here state what holds whatever the machine answers.
use std::time::{Duration, SystemTime, SystemTimeError, UNIX_EPOCH};
use chrono::{DateTime, Local, NaiveDateTime};
use vstd::prelude::*;
use crate::text::{decimal, decimal_chars, is_digit, string_of};

verus! {

// ---------------------------------------------------------------------------
// Wall clock and identifiers
// ---------------------------------------------------------------------------

/// A point in time of the system clock.
#[verifier::external_type_specification]
#[verifier::external_body]
pub struct ExSystemTime(SystemTime);

/// The error `SystemTime::duration_since` returns for a time before the epoch.
#[verifier::external_type_specification]
#[verifier::external_body]
pub struct ExSystemTimeError(SystemTimeError);

/// `SystemTime::now`: the current time of the system clock; nothing is
/// claimed of it.
#[verifier::external_body]
fn system_now() -> SystemTime {
    SystemTime::now()
}

/// `SystemTime::duration_since`, measured from `UNIX_EPOCH`; nothing is
/// claimed of the duration, nor of when the error comes.
#[verifier::external_body]
fn since_unix_epoch(t: &SystemTime) -> Result<Duration, SystemTimeError> {
    t.duration_since(UNIX_EPOCH)
}

/// `Duration::as_micros`: the whole microseconds in `d`; `Duration` is opaque
/// here, so nothing is claimed of the number.
#[verifier::external_body]
fn duration_as_micros(d: &Duration) -> u128 {
    d.as_micros()
}

/// An identifier made from the clock: the decimal rendering of some number of
/// microseconds.
pub open spec fn is_clock_id(id: Seq<char>) -> bool {
    exists|n: u128| id == #[trigger] decimal(n as nat)
}

/// The identifier for a clock reading: the microseconds since the Unix
/// epoch in decimal, or `"0"` when the clock read earlier than the epoch.
pub fn id_from_micros(micros: Option<u128>) -> (id: String)
    ensures
        micros matches Some(n) ==> id@ == decimal(n as nat),
        micros is None ==> id@ == seq!['0'],
{
    let n: u128 = match micros {
        Some(n) => n,
        None => 0,
    };
    let digits = decimal_chars(n);
    string_of(digits.as_slice())
}

/// A fresh identifier: the number of microseconds since the Unix epoch,
/// written in decimal (`"0"` when the clock reads earlier than the epoch).
pub fn unique_id() -> (id: String)
    ensures
        is_clock_id(id@),
{
    let now = system_now();
    let micros: Option<u128> = match since_unix_epoch(&now) {
        Ok(d) => Some(duration_as_micros(&d)),
        Err(_) => None,
    };
    let id = id_from_micros(micros);
    proof {
        if micros is None {
            assert(decimal(0) == seq!['0']);
            assert(id@ == decimal(0u128 as nat));
        }
    }
    id
}

// ---------------------------------------------------------------------------
// Local date and time
// ---------------------------------------------------------------------------

/// A calendar date and wall-clock time, without a time zone.
#[verifier::external_type_specification]
#[verifier::external_body]
pub struct ExNaiveDateTime(NaiveDateTime);

/// `Duration::as_secs`: the whole seconds in `d`; nothing is claimed of them.
#[verifier::external_body]
fn duration_secs(d: &Duration) -> u64 {
    d.as_secs()
}

/// `Duration::subsec_nanos`: the fractional part of `d` in nanoseconds, which
/// std documents as always less than one billion.
#[verifier::external_body]
fn duration_subsec_nanos(d: &Duration) -> (n: u32)
    ensures
        n < 1_000_000_000,
{
    d.subsec_nanos()
}

/// The latest clock reading, in seconds since the Unix epoch, that is turned
/// into a local date and time (about the year 255 000; chrono's dates end in
/// the year 262 143, and the local offset must still fit).
pub const LOCAL_CLOCK_LIMIT: u64 = 8_000_000_000_000;

/// The local wall-clock date and time of a Unix timestamp:
/// `chrono::DateTime::from_timestamp`, then `with_timezone(&Local)`, then
/// `naive_local` (the zoned types cannot be named here, so the three calls
/// stand together). For timestamps within `LOCAL_CLOCK_LIMIT` and a
/// sub-second part below one billion, chrono's source gives a date every time
/// and `naive_local` stays in range; which date is not stated.
#[verifier::external_body]
fn local_from_timestamp(secs: i64, nanos: u32) -> (r: Option<NaiveDateTime>)
    requires
        0 <= secs <= LOCAL_CLOCK_LIMIT,
        nanos < 1_000_000_000,
    ensures
        r is Some,
{
    match DateTime::from_timestamp(secs, nanos) {
        Some(utc) => Some(utc.with_timezone(&Local).naive_local()),
        None => None,
    }
}

/// The local date and time now, read from the system clock; `None` when the
/// clock reads earlier than the Unix epoch or past `LOCAL_CLOCK_LIMIT`.
pub(crate) fn local_now() -> Option<NaiveDateTime> {
    let now = system_now();
    match since_unix_epoch(&now) {
        Ok(d) => {
            let secs = duration_secs(&d);
            let nanos = duration_subsec_nanos(&d);
            if secs <= LOCAL_CLOCK_LIMIT {
                local_from_timestamp(secs as i64, nanos)
            } else {
                None
            }
        },
        Err(_) => None,
    }
}

/// The format `%d/%m/%Y`.
pub open spec fn date_format() -> Seq<char> {
    seq!['%', 'd', '/', '%', 'm', '/', '%', 'Y']
}

/// The format `%H:%M`.
pub open spec fn time_format() -> Seq<char> {
    seq!['%', 'H', ':', '%', 'M']
}

/// The format `%d/%m/%Y %H:%M`.
pub open spec fn date_time_format() -> Seq<char> {
    date_format() + seq![' '] + time_format()
}

/// Two ASCII digits.
pub open spec fn is_two_digits(s: Seq<char>) -> bool {
    s.len() == 2 && is_digit(s[0]) && is_digit(s[1])
}

/// A year as `%Y` writes it: at least four digits, with a leading sign for
/// years outside 1..=9999.
pub open spec fn is_year_text(s: Seq<char>) -> bool {
    ||| (s.len() >= 4 && forall|i: int| 0 <= i < s.len() ==> is_digit(#[trigger] s[i]))
    ||| (s.len() >= 5 && (s[0] == '+' || s[0] == '-') && forall|i: int|
        1 <= i < s.len() ==> is_digit(#[trigger] s[i]))
}

/// A date as `%d/%m/%Y` writes it.
pub open spec fn is_date_text(s: Seq<char>) -> bool {
    &&& s.len() >= 10
    &&& is_two_digits(s.take(2))
    &&& s[2] == '/'
    &&& is_two_digits(s.subrange(3, 5))
    &&& s[5] == '/'
    &&& is_year_text(s.skip(6))
}

/// A time as `%H:%M` writes it.
pub open spec fn is_time_text(s: Seq<char>) -> bool {
    &&& s.len() == 5
    &&& is_two_digits(s.take(2))
    &&& s[2] == ':'
    &&& is_two_digits(s.skip(3))
}

/// `chrono::NaiveDateTime::format`, applied to one reading `dt` with the
/// date, time, and date-and-time formats, each rendered to a `String`. The
/// date and the time have the shape chrono documents for `%d`, `%m`, `%Y`,
/// `%H` and `%M` (zero-padded day, month, hour and minute; a year of at least
/// four digits, signed outside 1..=9999); chrono renders a format item by
/// item, so the date-and-time text is the date, a space, and the time. Which
/// digits depends on `dt`, which is opaque here; no clause states them.
#[verifier::external_body]
pub(crate) fn format_stamp(
    dt: &NaiveDateTime,
    date_fmt: &str,
    time_fmt: &str,
    date_time_fmt: &str,
) -> (r: (String, String, String))
    requires
        date_fmt@ == date_format(),
        time_fmt@ == time_format(),
        date_time_fmt@ == date_time_format(),
    ensures
        is_date_text(r.0@),
        is_time_text(r.1@),
        r.2@ == r.0@ + seq![' '] + r.1@,
{
    (
        dt.format(date_fmt).to_string(),
        dt.format(time_fmt).to_string(),
        dt.format(date_time_fmt).to_string(),
    )
}

// ---------------------------------------------------------------------------
// Clipboard
// ---------------------------------------------------------------------------

/// A handle on the system clipboard.
#[verifier::external_type_specification]
#[verifier::external_body]
pub struct ExClipboard(arboard::Clipboard);

/// The error the clipboard reports.
#[verifier::external_type_specification]
#[verifier::external_body]
pub struct ExClipboardError(arboard::Error);

/// `arboard::Clipboard::new`: may fail when no clipboard is available;
/// nothing is claimed of when.
#[verifier::external_body]
fn clipboard_new() -> Result<arboard::Clipboard, arboard::Error> {
    arboard::Clipboard::new()
}

/// `arboard::Clipboard::get_text`: the text on the clipboard, or an error when
/// it holds none; nothing is claimed of the text.
#[verifier::external_body]
fn clipboard_get_text(c: &mut arboard::Clipboard) -> Result<String, arboard::Error> {
    c.get_text()
}

/// The text a clipboard read gives: the text itself, or the empty string
/// when the clipboard could not be opened or held no text.
pub fn clipboard_or_empty(read: Result<String, arboard::Error>) -> (s: String)
    ensures
        read matches Ok(t) ==> s == t,
        read is Err ==> s@.len() == 0,
{
    match read {
        Ok(t) => t,
        Err(_) => String::new(),
    }
}

/// The text on the clipboard, or the empty string when there is none or the
/// clipboard cannot be opened. What the clipboard holds cannot be known
/// here, so no clause states it.
pub fn clipboard_text() -> String {
    let read = match clipboard_new() {
        Ok(mut c) => clipboard_get_text(&mut c),
        Err(e) => Err(e),
    };
    clipboard_or_empty(read)
}

} // verus!
