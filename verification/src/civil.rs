use chrono::Datelike;
use chrono::Timelike;
use vstd::prelude::*;

verus! {

/// The last unix timestamp this library accepts: 9999-12-31T23:59:59Z.
/// Everything in this range is well inside what chrono can represent.
pub const MAX_SUPPORTED_TIMESTAMP: i64 = 253402300799;

/// A civil (wall-clock) date and time in some fixed time zone.
#[derive(Clone, Copy, Debug, PartialEq, Eq, Structural)]
pub struct CivilTime {
    pub year: i32,
    pub month: u8,
    pub day: u8,
    pub hour: u8,
    pub minute: u8,
    pub second: u8,
}

/// The civil time in the publication time zone (Europe/Paris, daylight
/// saving accounted for) of the instant `ts` seconds after the unix epoch.
pub uninterp spec fn paris_civil_of(ts: i64) -> CivilTime;

/// The civil time in UTC of the instant `ts` seconds after the unix epoch.
pub uninterp spec fn utc_civil_of(ts: i64) -> CivilTime;

/// Relies on chrono::DateTime::from_timestamp and chrono_tz's Europe::Paris
/// table: the local civil time of a unix instant in a named zone depends on
/// the instant alone, and the conversion is total on the admitted range.
#[verifier::external_body]
pub(crate) fn paris_civil(ts: i64) -> (r: CivilTime)
    requires
        0 <= ts <= MAX_SUPPORTED_TIMESTAMP,
    ensures
        r == paris_civil_of(ts),
{
    let utc = chrono::DateTime::<chrono::Utc>::from_timestamp(ts, 0)
        .expect("timestamp in supported range");
    let local = utc.with_timezone(&chrono_tz::Europe::Paris);
    CivilTime {
        year: local.year(),
        month: local.month() as u8,
        day: local.day() as u8,
        hour: local.hour() as u8,
        minute: local.minute() as u8,
        second: local.second() as u8,
    }
}

/// Relies on chrono::DateTime::from_timestamp: the UTC calendar fields of a
/// unix instant depend on the instant alone; on the admitted range the year
/// lies between 1970 and 9999 and the other fields are ordinary calendar
/// fields.
#[verifier::external_body]
pub(crate) fn utc_civil(ts: i64) -> (r: CivilTime)
    requires
        0 <= ts <= MAX_SUPPORTED_TIMESTAMP,
    ensures
        r == utc_civil_of(ts),
        1970 <= r.year <= 9999,
        1 <= r.month <= 12,
        1 <= r.day <= 31,
        r.hour <= 23,
        r.minute <= 59,
        r.second <= 59,
{
    let utc = chrono::DateTime::<chrono::Utc>::from_timestamp(ts, 0)
        .expect("timestamp in supported range");
    CivilTime {
        year: utc.year(),
        month: utc.month() as u8,
        day: utc.day() as u8,
        hour: utc.hour() as u8,
        minute: utc.minute() as u8,
        second: utc.second() as u8,
    }
}

/// The characters of a run of ASCII bytes, one per byte.
pub open spec fn ascii_chars(bytes: Seq<u8>) -> Seq<char> {
    bytes.map_values(|b: u8| b as char)
}

/// Relies on String::from_utf8: ASCII bytes are valid UTF-8 and decode to
/// exactly one character per byte.
#[verifier::external_body]
pub(crate) fn ascii_to_string(bytes: Vec<u8>) -> (r: String)
    requires
        forall|i: int| 0 <= i < bytes@.len() ==> bytes@[i] < 128,
    ensures
        r@ == ascii_chars(bytes@),
{
    String::from_utf8(bytes).expect("ascii bytes are valid utf-8")
}

/// The bytes of a civil date's cache key, the calendar date written as
/// `YYYY-MM-DD` (45 is the hyphen, 48 the zero digit).
pub open spec fn date_key_bytes(c: CivilTime) -> Seq<u8> {
    seq![
        (48 + (c.year / 1000) % 10) as u8,
        (48 + (c.year / 100) % 10) as u8,
        (48 + (c.year / 10) % 10) as u8,
        (48 + c.year % 10) as u8,
        45u8,
        (48 + c.month / 10) as u8,
        (48 + c.month % 10) as u8,
        45u8,
        (48 + c.day / 10) as u8,
        (48 + c.day % 10) as u8,
    ]
}

/// The characters of a civil date's cache key.
pub open spec fn date_key_chars(c: CivilTime) -> Seq<char> {
    ascii_chars(date_key_bytes(c))
}

/// Format the calendar date of `c` as its cache key, `YYYY-MM-DD`.
pub fn date_key(c: CivilTime) -> (r: String)
    requires
        0 <= c.year <= 9999,
        c.month <= 99,
        c.day <= 99,
    ensures
        r@ == date_key_chars(c),
{
    let mut bytes: Vec<u8> = Vec::new();
    let y: u32 = c.year as u32;
    bytes.push(48 + ((y / 1000) % 10) as u8);
    bytes.push(48 + ((y / 100) % 10) as u8);
    bytes.push(48 + ((y / 10) % 10) as u8);
    bytes.push(48 + (y % 10) as u8);
    bytes.push(45);
    bytes.push(48 + c.month / 10);
    bytes.push(48 + c.month % 10);
    bytes.push(45);
    bytes.push(48 + c.day / 10);
    bytes.push(48 + c.day % 10);
    proof {
        assert(bytes@ =~= date_key_bytes(c));
    }
    ascii_to_string(bytes)
}

} // verus!
