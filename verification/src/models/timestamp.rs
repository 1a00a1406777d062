//! Timestamping types and functions.
//!
//! A `Timestamp` counts the non-leap seconds elapsed since the Unix epoch
//! (1970-01-01T00:00:00Z). Calendar conversions go through `chrono`.

use crate::models::error::{Error, Result};
use crate::text::{all_digits, chars_to_string, digits_value, dec_int, i64_to_dec, parse_i64, parse_i64_spec, str_to_chars};
use chrono::{DateTime, TimeZone, Utc};
use vstd::prelude::*;
use vstd::string::StringExecFns;

verus! {

/// The starting date time.
pub const MIN_DATETIME: &'static str = "2019-07-25T00:00:00Z";

/// The maximum accepted error noise of time measures. The internet is messy.
pub const MAX_TIMENOISE: i64 = 3_600;

/// A reading of the clock, as `Timestamp::now` gives it. The definition is
/// closed: outside this module a time counts as a reading only where the
/// clock gave it, so a check "at the current time" cannot be made at a
/// time of the caller's choosing. `lemma_plausible_now_bounds` states the
/// range that every reading lies in.
pub closed spec fn plausible_now(now: Timestamp) -> bool {
    0 <= now.0 <= 10_000_000_000_000
}

/// Every reading of the clock lies between the epoch and the last date
/// that `chrono` represents.
pub broadcast proof fn lemma_plausible_now_bounds(now: Timestamp)
    ensures
        #[trigger] plausible_now(now) ==> 0 <= now.0 <= 10_000_000_000_000,
{
}

/// A timestamp is acceptable at the time `now` when it does not precede
/// `MIN_DATETIME` nor follow `now` by more than the time noise.
pub open spec fn timestamp_ok_at(t: Timestamp, now: Timestamp) -> bool {
    min_unix_time() <= t.0 <= now.0 + MAX_TIMENOISE
}

/// The Unix time of `MIN_DATETIME`.
pub open spec fn min_unix_time() -> int {
    1564012800
}

/// The smallest year `chrono` represents.
pub open spec fn chrono_min_year() -> int {
    -262143
}

/// The largest year `chrono` represents.
pub open spec fn chrono_max_year() -> int {
    262142
}

/// A leap year of the proleptic Gregorian calendar.
pub open spec fn is_leap_year(y: int) -> bool {
    y % 4 == 0 && (y % 100 != 0 || y % 400 == 0)
}

/// The number of days of a month of the proleptic Gregorian calendar.
pub open spec fn days_in_month(y: int, m: int) -> int {
    if m == 2 {
        if is_leap_year(y) { 29 } else { 28 }
    } else if m == 4 || m == 6 || m == 9 || m == 11 {
        30
    } else {
        31
    }
}

/// A calendar date that `chrono` can represent.
pub open spec fn valid_date(y: int, m: int, d: int) -> bool {
    &&& chrono_min_year() <= y <= chrono_max_year()
    &&& 1 <= m <= 12
    &&& 1 <= d <= days_in_month(y, m)
}

/// A time of day without leap seconds.
pub open spec fn valid_time(h: int, mi: int, s: int) -> bool {
    0 <= h < 24 && 0 <= mi < 60 && 0 <= s < 60
}

/// Days from 1970-01-01 to the given date of the proleptic Gregorian calendar.
pub open spec fn days_from_civil(y: int, m: int, d: int) -> int {
    let yy = if m <= 2 { y - 1 } else { y };
    let era = yy / 400;
    let yoe = yy - era * 400;
    let mp = (m + 9) % 12;
    let doy = (153 * mp + 2) / 5 + d - 1;
    let doe = yoe * 365 + yoe / 4 - yoe / 100 + doy;
    era * 146097 + doe - 719468
}

/// The Unix time of a UTC date and time.
pub open spec fn unix_time(y: int, m: int, d: int, h: int, mi: int, s: int) -> int {
    days_from_civil(y, m, d) * 86400 + h * 3600 + mi * 60 + s
}

/// `s` has the exact shape `YYYY-MM-DDTHH:MM:SSZ`.
pub open spec fn rfc3339_basic(s: Seq<char>) -> bool {
    &&& s.len() == 20
    &&& all_digits(s.subrange(0, 4))
    &&& all_digits(s.subrange(5, 7))
    &&& all_digits(s.subrange(8, 10))
    &&& all_digits(s.subrange(11, 13))
    &&& all_digits(s.subrange(14, 16))
    &&& all_digits(s.subrange(17, 19))
    &&& s[4] == '-' && s[7] == '-' && s[10] == 'T'
    &&& s[13] == ':' && s[16] == ':' && s[19] == 'Z'
}

/// The six numeric fields of a `YYYY-MM-DDTHH:MM:SSZ` string.
pub open spec fn rfc3339_fields(s: Seq<char>) -> (int, int, int, int, int, int) {
    (
        digits_value(s.subrange(0, 4)) as int,
        digits_value(s.subrange(5, 7)) as int,
        digits_value(s.subrange(8, 10)) as int,
        digits_value(s.subrange(11, 13)) as int,
        digits_value(s.subrange(14, 16)) as int,
        digits_value(s.subrange(17, 19)) as int,
    )
}

/// The date of a `YYYY-MM-DDTHH:MM:SSZ` string exists.
pub open spec fn rfc3339_date_valid(s: Seq<char>) -> bool {
    let (y, m, d, h, mi, sec) = rfc3339_fields(s);
    valid_date(y, m, d)
}

/// The time of day of a `YYYY-MM-DDTHH:MM:SSZ` string is valid and no leap second.
pub open spec fn rfc3339_time_valid(s: Seq<char>) -> bool {
    let (y, m, d, h, mi, sec) = rfc3339_fields(s);
    valid_time(h, mi, sec)
}

/// The Unix time of the fields of a `YYYY-MM-DDTHH:MM:SSZ` string.
pub open spec fn rfc3339_unix_time(s: Seq<char>) -> int {
    let (y, m, d, h, mi, sec) = rfc3339_fields(s);
    unix_time(y, m, d, h, mi, sec)
}

/// What `chrono` gives back when parsing `s` as a `DateTime<Utc>`:
/// the Unix time of the date, or `None` when `s` is rejected.
pub uninterp spec fn chrono_parse_utc(s: Seq<char>) -> Option<i64>;

/// `Utc.with_ymd_and_hms(year, month, day, hour, min, sec)` followed by
/// `timestamp()`. The contract restates chrono's documentation: `None` on
/// an out-of-range year, an invalid month, day, hour, minute or second, and
/// otherwise the number of non-leap seconds since the Unix epoch.
#[verifier::external_body]
fn chrono_utc_timestamp(year: i32, month: u32, day: u32, hour: u32, min: u32, sec: u32) -> (r:
    Option<i64>)
    ensures
        r == (if valid_date(year as int, month as int, day as int) && valid_time(
            hour as int,
            min as int,
            sec as int,
        ) {
            Some(unix_time(year as int, month as int, day as int, hour as int, min as int, sec as int) as i64)
        } else {
            None
        }),
{
    Utc.with_ymd_and_hms(year, month, day, hour, min, sec).single().map(|dt| dt.timestamp())
}

/// `s.parse::<DateTime<Utc>>()` followed by `timestamp()`, the error
/// rendered with `Display`. The contract names the result, and restates
/// RFC 3339 for strings of the exact shape `YYYY-MM-DDTHH:MM:SSZ`: such a
/// string is rejected when its date does not exist and, when its time of
/// day is valid and not a leap second, gives the Unix time of its fields.
/// The text of the error is left unsaid.
#[verifier::external_body]
fn chrono_parse_rfc3339(s: &str) -> (r: core::result::Result<i64, String>)
    ensures
        match r {
            Ok(v) => chrono_parse_utc(s@) == Some(v),
            Err(_) => chrono_parse_utc(s@) is None,
        },
        rfc3339_basic(s@) && !rfc3339_date_valid(s@) ==> r is Err,
        rfc3339_basic(s@) && rfc3339_date_valid(s@) && rfc3339_time_valid(s@) ==> (r is Ok
            && r->Ok_0 == rfc3339_unix_time(s@)),
{
    match s.parse::<DateTime<Utc>>() {
        Ok(dt) => Ok(dt.timestamp()),
        Err(e) => Err(format!("{}", e)),
    }
}

/// `Utc::now().timestamp()`: the current Unix time. It depends on the
/// clock; the contract states only that it lies within the range of
/// dates that `chrono` represents (and after the epoch, as `Utc::now`
/// panics otherwise).
#[verifier::external_body]
fn chrono_now() -> (r: i64)
    ensures
        0 <= r <= 10_000_000_000_000,
{
    Utc::now().timestamp()
}

/// A `Timestamp` is an integer representing the number of seconds elapsed since
/// the `Epoch` time (1970-01-01:00:00:00.0000...).
#[derive(Copy, Clone, Eq, PartialEq, Structural, Ord, PartialOrd, Debug, Hash)]
pub struct Timestamp(pub i64);

impl Timestamp {
    /// Creates a UTC unix `Timestamp` from a given date, of 1970 or later.
    pub fn new(year: u32, month: u32, day: u32, hour: u32, min: u32, sec: u32) -> (r: Result<Timestamp>)
        requires
            (1970 <= year && 1 <= month <= 12 && day <= 31 && hour <= 23 && min <= 59 && sec <= 59) ==> valid_date(
                year as i32 as int,
                month as int,
                day as int,
            ),
        ensures
            match r {
                Ok(t) => 1970 <= year && 1 <= month <= 12 && day <= 31 && hour <= 23 && min <= 59 && sec <= 59
                    && t.0 == unix_time(
                    year as i32 as int,
                    month as int,
                    day as int,
                    hour as int,
                    min as int,
                    sec as int,
                ),
                Err(e) => e is InvalidTimestamp && !(1970 <= year && 1 <= month <= 12 && day <= 31 && hour <= 23
                    && min <= 59 && sec <= 59),
            },
    {
        if year < 1970 {
            return Err(Error::InvalidTimestamp);
        }
        if month > 12 || month == 0 {
            return Err(Error::InvalidTimestamp);
        }
        if day > 31 {
            return Err(Error::InvalidTimestamp);
        }
        if hour > 23 {
            return Err(Error::InvalidTimestamp);
        }
        if min > 59 {
            return Err(Error::InvalidTimestamp);
        }
        if sec > 59 {
            return Err(Error::InvalidTimestamp);
        }
        let t = chrono_utc_timestamp(year as i32, month, day, hour, min, sec);
        Ok(Timestamp(t.unwrap()))
    }

    /// Returns the minimum `Timestamp`.
    pub fn min_value() -> (r: Timestamp)
        ensures
            r.0 == min_unix_time(),
    {
        proof {
            reveal_strlit("2019-07-25T00:00:00Z");
            let s = MIN_DATETIME@;
            assert(s.subrange(0, 4) =~= seq!['2', '0', '1', '9']);
            assert(s.subrange(5, 7) =~= seq!['0', '7']);
            assert(s.subrange(8, 10) =~= seq!['2', '5']);
            assert(s.subrange(11, 13) =~= seq!['0', '0']);
            assert(s.subrange(14, 16) =~= seq!['0', '0']);
            assert(s.subrange(17, 19) =~= seq!['0', '0']);
            reveal_with_fuel(digits_value, 5);
            assert(rfc3339_fields(s) == (2019int, 7int, 25int, 0int, 0int, 0int));
        }
        match Timestamp::parse(MIN_DATETIME) {
            Ok(t) => t,
            Err(_) => Timestamp(0),
        }
    }

    /// Creates a `Timestamp` from a UTC date time string in rfc3339 format.
    /// e.g.: `2018-01-18T00:00:00Z`
    pub fn parse(s: &str) -> (r: Result<Timestamp>)
        ensures
            match r {
                Ok(t) => chrono_parse_utc(s@) == Some(t.0),
                Err(e) => chrono_parse_utc(s@) is None && e is Chrono,
            },
            rfc3339_basic(s@) && !rfc3339_date_valid(s@) ==> r is Err,
            rfc3339_basic(s@) && rfc3339_date_valid(s@) && rfc3339_time_valid(s@) ==> (r is Ok
                && r->Ok_0.0 == rfc3339_unix_time(s@)),
    {
        match chrono_parse_rfc3339(s) {
            Ok(v) => Ok(Timestamp(v)),
            Err(msg) => Err(Error::Chrono { msg }),
        }
    }

    /// Creates a `Timestamp` from a string.
    pub fn from_string(s: &str) -> (r: Result<Timestamp>)
        ensures
            match r {
                Ok(t) => parse_i64_spec(s@) == Some(t.0),
                Err(e) => parse_i64_spec(s@) is None && e is Parse,
            },
    {
        let cs = str_to_chars(s);
        match parse_i64(&cs) {
            Some(v) => Ok(Timestamp(v)),
            None => Err(Error::Parse { msg: String::from_str("invalid digit found in string") }),
        }
    }

    /// Converts the `Timestamp` to string.
    pub fn to_string(self) -> (r: String)
        ensures
            r@ == dec_int(self.0 as int),
    {
        let cs = i64_to_dec(self.0);
        chars_to_string(&cs)
    }

    /// Returns the current time timestamp.
    pub fn now() -> (r: Timestamp)
        ensures
            plausible_now(r),
    {
        Timestamp(chrono_now())
    }

    /// Returns the `Timestamp` with the maximum time noise.
    pub fn with_noise(self) -> (r: Timestamp)
        requires
            self.0 + MAX_TIMENOISE <= i64::MAX,
        ensures
            r.0 == self.0 + MAX_TIMENOISE,
    {
        Timestamp(self.0 + MAX_TIMENOISE)
    }

    /// Returns the time difference between this `Timestamp` and an other.
    pub fn diff(self, other: Timestamp) -> (r: i64)
        requires
            i64::MIN <= self.0 - other.0 <= i64::MAX,
        ensures
            r == self.0 - other.0,
    {
        self.0 - other.0
    }

    /// Validates the `Timestamp` against the given current time: it must
    /// not precede `MIN_DATETIME` nor follow `now` by more than the time noise.
    pub fn validate_at(self, now: Timestamp) -> (r: Result<()>)
        requires
            now.0 + MAX_TIMENOISE <= i64::MAX,
        ensures
            r is Ok <==> min_unix_time() <= self.0 <= now.0 + MAX_TIMENOISE,
            r matches Err(e) ==> e is InvalidTimestamp,
    {
        if self.0 < Timestamp::min_value().0 {
            return Err(Error::InvalidTimestamp);
        }
        if self.0 > now.with_noise().0 {
            return Err(Error::InvalidTimestamp);
        }
        Ok(())
    }

    /// Validates the `Timestamp`: it must not precede `MIN_DATETIME` nor
    /// follow the current time by more than the time noise.
    pub fn validate(self) -> (r: Result<()>)
        ensures
            r is Err ==> r->Err_0 is InvalidTimestamp,
            exists|now: Timestamp| #[trigger] plausible_now(now) && (r is Ok <==> timestamp_ok_at(self, now)),
    {
        let now = Timestamp::now();
        let r = self.validate_at(now);
        assert(plausible_now(now));
        r
    }
}

impl Default for Timestamp {
    /// The current time.
    fn default() -> (r: Timestamp)
        ensures
            plausible_now(r),
    {
        Timestamp::now()
    }
}

/// Parsing the rendering of a `Timestamp` gives it back.
pub proof fn lemma_timestamp_string_roundtrip(t: Timestamp)
    ensures
        parse_i64_spec(dec_int(t.0 as int)) == Some(t.0),
{
    crate::text::lemma_parse_dec_int(t.0);
}

} // verus!
