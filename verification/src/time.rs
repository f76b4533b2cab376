//! Instants in UTC and the Apple (Cocoa) epoch used by `chat.db`.
//!
//! An instant is held as whole seconds since the Unix epoch plus a sub-second
//! nanosecond count, the same two numbers a `chrono::DateTime<Utc>` carries.
//! Construction and RFC 3339 rendering go through `chrono`; the epoch
//! arithmetic around it is this crate's own and is verified here.

use vstd::prelude::*;
use chrono::{DateTime, NaiveDate, NaiveDateTime, TimeZone, Utc};
use crate::text::{debug_quoted, debug_str, push_str, string_from_chars};

verus! {

/// Whole seconds between the Unix epoch (`1970-01-01T00:00:00Z`) and the
/// Apple/Cocoa reference epoch (`2001-01-01T00:00:00Z`).
pub const APPLE_EPOCH_OFFSET_SECONDS: i64 = 978_307_200;

/// One second in nanoseconds.
pub const NANOS_PER_SEC: i64 = 1_000_000_000;

/// Below this magnitude a raw Messages timestamp counts *seconds* since the
/// Apple epoch (legacy rows); at or above it, *nanoseconds* (modern rows).
pub const NANOSECOND_THRESHOLD: i64 = 1_000_000_000_000;

/// The first second chrono represents, 00:00:00 on 1 January of year
/// −262143 (`NaiveDate::MIN`), in seconds from the Unix epoch.
pub const CHRONO_MIN_SECS: i64 = -8_334_601_228_800;

/// The last second chrono represents, 23:59:59 on 31 December of year 262142
/// (`NaiveDate::MAX`), in seconds from the Unix epoch.
pub const CHRONO_MAX_SECS: i64 = 8_210_266_876_799;

/// Whether `chrono` represents the instant `secs` seconds + `nanos`
/// nanoseconds after the Unix epoch (`DateTime::<Utc>::from_timestamp`
/// returns `Some`): the day must fall within chrono's calendar, and the
/// nanoseconds must stay below one second, or below two on the last second
/// of a minute (a leap second).
pub open spec fn chrono_timestamp_ok(secs: i64, nanos: u32) -> bool {
    &&& CHRONO_MIN_SECS <= secs <= CHRONO_MAX_SECS
    &&& (nanos < 1_000_000_000 || (nanos < 2_000_000_000 && secs % 60 == 59))
}

/// The text `chrono`'s `DateTime::<Utc>::to_rfc3339` renders for the instant
/// `secs` + `nanos`.
pub uninterp spec fn rfc3339_text(secs: i64, nanos: u32) -> Seq<char>;

/// `DateTime::<Utc>::from_timestamp`: chrono splits the seconds into days and
/// seconds of the day, accepts the days its calendar holds
/// (`NaiveDate::from_num_days_from_ce_opt`) and the second and nanoseconds
/// `NaiveTime::from_num_seconds_from_midnight_opt` accepts, and gives the pair
/// back unchanged.
#[verifier::external_body]
fn chrono_from_timestamp(secs: i64, nanos: u32) -> (r: Option<(i64, u32)>)
    ensures
        r == (if chrono_timestamp_ok(secs, nanos) {
            Some((secs, nanos))
        } else {
            None::<(i64, u32)>
        }),
{
    DateTime::<Utc>::from_timestamp(secs, nanos).map(|d| (d.timestamp(), d.timestamp_subsec_nanos()))
}

/// `Utc.timestamp_millis_opt(ms).single()`: chrono splits the milliseconds with
/// Euclidean division and then accepts exactly what `from_timestamp` accepts.
#[verifier::external_body]
fn chrono_from_timestamp_millis(ms: i64) -> (r: Option<(i64, u32)>)
    ensures
        ({
            let secs = ((ms as int) / 1000) as i64;
            let nanos = ((ms as int) % 1000 * 1_000_000) as u32;
            r == (if chrono_timestamp_ok(secs, nanos) {
                Some((secs, nanos))
            } else {
                None::<(i64, u32)>
            })
        }),
{
    Utc.timestamp_millis_opt(ms).single().map(|d| (d.timestamp(), d.timestamp_subsec_nanos()))
}

/// `DateTime::<Utc>::to_rfc3339` of an instant chrono accepts.
#[verifier::external_body]
fn chrono_to_rfc3339(secs: i64, nanos: u32) -> (r: String)
    requires
        chrono_timestamp_ok(secs, nanos),
    ensures
        r@ == rfc3339_text(secs, nanos),
{
    match DateTime::<Utc>::from_timestamp(secs, nanos) {
        Some(d) => d.to_rfc3339(),
        None => String::new(),
    }
}


/// What `NaiveDateTime::parse_from_str(v, fmt)` gives, read as UTC, in Unix
/// milliseconds.
pub uninterp spec fn naive_datetime_millis(v: Seq<char>, fmt: Seq<char>) -> Option<i64>;

/// What `NaiveDate::parse_from_str(v, fmt)` gives, at midnight UTC, in Unix
/// milliseconds.
pub uninterp spec fn naive_date_millis(v: Seq<char>, fmt: Seq<char>) -> Option<i64>;

/// `NaiveDateTime::parse_from_str(v, fmt)` read as UTC, in milliseconds.
#[verifier::external_body]
pub(crate) fn chrono_parse_naive_datetime_millis(v: &str, fmt: &str) -> (r: Option<i64>)
    ensures
        r == naive_datetime_millis(v@, fmt@),
{
    NaiveDateTime::parse_from_str(v, fmt).ok().map(|n| Utc.from_utc_datetime(&n).timestamp_millis())
}

/// `NaiveDate::parse_from_str(v, fmt)` at 00:00:00 read as UTC, in
/// milliseconds (`and_hms_opt(0, 0, 0)` never fails).
#[verifier::external_body]
pub(crate) fn chrono_parse_naive_date_millis(v: &str, fmt: &str) -> (r: Option<i64>)
    ensures
        r == naive_date_millis(v@, fmt@),
{
    NaiveDate::parse_from_str(v, fmt).ok().and_then(|d| d.and_hms_opt(0, 0, 0)).map(
        |n| Utc.from_utc_datetime(&n).timestamp_millis(),
    )
}

/// A UTC instant: `secs` seconds after the Unix epoch plus `nanos`
/// nanoseconds. Every value is one that chrono represents.
#[derive(Debug, Clone, Copy, PartialEq, Eq)]
pub struct UtcTime {
    secs: i64,
    nanos: u32,
}

impl UtcTime {
    #[verifier::type_invariant]
    spec fn inv(self) -> bool {
        &&& chrono_timestamp_ok(self.secs, self.nanos)
        &&& -8_400_000_000_000 <= self.secs <= 8_400_000_000_000
    }

    pub closed spec fn spec_secs(self) -> i64 {
        self.secs
    }

    pub closed spec fn spec_nanos(self) -> u32 {
        self.nanos
    }

    /// The instant `secs` + `nanos`, when chrono represents it.
    pub fn from_timestamp(secs: i64, nanos: u32) -> (r: Option<UtcTime>)
        ensures
            r is Some <==> chrono_timestamp_ok(secs, nanos),
            r matches Some(t) ==> t.spec_secs() == secs && t.spec_nanos() == nanos,
            (nanos < 1_000_000_000 && -8_000_000_000_000 <= secs <= 8_000_000_000_000) ==> r is Some,
            nanos >= 2_000_000_000 ==> r is None,
    {
        match chrono_from_timestamp(secs, nanos) {
            Some((s, n)) => Some(UtcTime { secs: s, nanos: n }),
            None => None,
        }
    }

    /// Seconds since the Unix epoch (`DateTime::timestamp`).
    pub fn timestamp(&self) -> (r: i64)
        ensures
            r == self.spec_secs(),
            chrono_timestamp_ok(self.spec_secs(), self.spec_nanos()),
    {
        proof {
            use_type_invariant(self);
        }
        self.secs
    }

    /// Nanoseconds past the second (`DateTime::timestamp_subsec_nanos`).
    pub fn subsec_nanos(&self) -> (r: u32)
        ensures
            r == self.spec_nanos(),
    {
        self.nanos
    }

    /// Unix milliseconds: `secs * 1000 + nanos / 10^6`
    /// (`DateTime::timestamp_millis`).
    pub open spec fn spec_millis(self) -> int {
        self.spec_secs() * 1000 + self.spec_nanos() / 1_000_000
    }

    /// `DateTime::timestamp_millis`.
    pub fn timestamp_millis(&self) -> (r: i64)
        ensures
            r == self.spec_millis(),
    {
        proof {
            use_type_invariant(self);
        }
        self.secs * 1000 + (self.nanos / 1_000_000) as i64
    }

    /// RFC 3339 text of the instant (`DateTime::to_rfc3339`).
    pub fn to_rfc3339(&self) -> (r: String)
        ensures
            r@ == rfc3339_text(self.spec_secs(), self.spec_nanos()),
    {
        proof {
            use_type_invariant(self);
        }
        chrono_to_rfc3339(self.secs, self.nanos)
    }
}

/// The optional instant as RFC 3339 text.
pub fn iso(ts: Option<UtcTime>) -> (r: Option<String>)
    ensures
        r is Some <==> ts is Some,
        ts matches Some(t) ==> r->Some_0@ == rfc3339_text(t.spec_secs(), t.spec_nanos()),
{
    match ts {
        Some(t) => Some(t.to_rfc3339()),
        None => None,
    }
}

/// The instant a raw Messages timestamp denotes: none for the `0` sentinel,
/// else the seconds and nanoseconds of [`apple_parts`] when they form a valid
/// instant.
pub open spec fn apple_instant(raw: i64, r: Option<UtcTime>) -> bool {
    &&& raw == 0 ==> r is None
    &&& raw != 0 ==> (r is Some <==> apple_parts(raw).1 < NANOS_PER_SEC)
    &&& r matches Some(t) ==> t.spec_secs() == apple_parts(raw).0 && t.spec_nanos() == apple_parts(raw).1
}

/// Rust's truncating integer division (rounds toward zero), for `b > 0`.
pub open spec fn trunc_div(a: int, b: int) -> int {
    if a >= 0 {
        a / b
    } else {
        -((-a) / b)
    }
}

/// Seconds and nanoseconds since the Unix epoch denoted by a raw Messages
/// timestamp, before chrono validates them: nanosecond rows split with Rust's
/// truncating `/` and `%` (the remainder cast to `u32`, which wraps for a
/// negative remainder), legacy rows count whole seconds.
pub open spec fn apple_parts(raw: i64) -> (i64, u32) {
    if raw >= NANOSECOND_THRESHOLD || raw <= -NANOSECOND_THRESHOLD {
        let q = trunc_div(raw as int, NANOS_PER_SEC as int);
        let r = raw as int - q * NANOS_PER_SEC;
        ((q + APPLE_EPOCH_OFFSET_SECONDS) as i64, (if r >= 0 { r } else { r + 0x1_0000_0000 }) as u32)
    } else {
        ((raw + APPLE_EPOCH_OFFSET_SECONDS) as i64, 0u32)
    }
}

/// Convert a raw Messages timestamp (Apple epoch) to a UTC instant.
///
/// Modern databases count nanoseconds since `2001-01-01T00:00:00Z`, older rows
/// whole seconds. `0` (the "unset" sentinel) gives `None`, and so does a
/// negative nanosecond value that is not a whole second (its remainder wraps
/// to an invalid nanosecond count).
pub fn apple_time_to_utc(raw: i64) -> (r: Option<UtcTime>)
    ensures
        apple_instant(raw, r),
        raw == 0 ==> r is None,
        raw != 0 ==> (r is Some <==> apple_parts(raw).1 < NANOS_PER_SEC),
        r matches Some(t) ==> t.spec_secs() == apple_parts(raw).0 && t.spec_nanos()
            == apple_parts(raw).1,
{
    if raw == 0 {
        return None;
    }
    let big = raw >= NANOSECOND_THRESHOLD || raw <= -NANOSECOND_THRESHOLD;
    let mut secs_since_2001 = raw;
    let mut nanos: u32 = 0;
    if big {
        let q = raw / NANOS_PER_SEC;
        let rem = raw % NANOS_PER_SEC;
        assert(q == trunc_div(raw as int, NANOS_PER_SEC as int));
        assert(rem == raw - q * NANOS_PER_SEC);
        assert(-10_000_000_000 <= q <= 10_000_000_000) by (nonlinear_arith)
            requires
                q == trunc_div(raw as int, NANOS_PER_SEC as int),
                i64::MIN <= raw <= i64::MAX,
        ;
        assert(-NANOS_PER_SEC < rem < NANOS_PER_SEC) by (nonlinear_arith)
            requires
                q == trunc_div(raw as int, NANOS_PER_SEC as int),
                rem == raw - q * NANOS_PER_SEC,
        ;
        secs_since_2001 = q;
        nanos = rem as u32;
        assert(nanos == (if rem >= 0 { rem as int } else { rem + 0x1_0000_0000 })) by (bit_vector)
            requires
                nanos == rem as u32,
                -1_000_000_000 < rem < 1_000_000_000,
        ;
    }
    let secs = secs_since_2001 + APPLE_EPOCH_OFFSET_SECONDS;
    proof {
        assert(secs == apple_parts(raw).0);
        assert(nanos == apple_parts(raw).1);
        if nanos < 1_000_000_000 {
            assert(-8_000_000_000_000 <= secs <= 8_000_000_000_000);
        } else {
            assert(nanos >= 2_000_000_000);
        }
    }
    UtcTime::from_timestamp(secs, nanos)
}

/// Apple-epoch nanoseconds of an instant: the inverse of the nanosecond path
/// of [`apple_time_to_utc`].
pub open spec fn apple_nanos(t: UtcTime) -> int {
    (t.spec_secs() - APPLE_EPOCH_OFFSET_SECONDS) * NANOS_PER_SEC + t.spec_nanos()
}

/// Convert a UTC instant back to a raw Messages nanosecond timestamp (used for
/// `before` pagination cursors). The value, and the whole-second part of it,
/// must fit in an `i64`: instants between the years 1709 and 2293.
pub fn utc_to_apple_nanos(dt: UtcTime) -> (r: i64)
    requires
        i64::MIN <= (dt.spec_secs() - APPLE_EPOCH_OFFSET_SECONDS) * NANOS_PER_SEC,
        apple_nanos(dt) <= i64::MAX,
    ensures
        r == apple_nanos(dt),
{
    proof {
        use_type_invariant(dt);
    }
    let s = dt.timestamp();
    assert(-10_000_000_000 <= s - APPLE_EPOCH_OFFSET_SECONDS <= 10_000_000_000) by (nonlinear_arith)
        requires
            i64::MIN <= (s - APPLE_EPOCH_OFFSET_SECONDS) * NANOS_PER_SEC,
            (s - APPLE_EPOCH_OFFSET_SECONDS) * NANOS_PER_SEC + dt.spec_nanos() <= i64::MAX,
            0 <= dt.spec_nanos() <= 0xffff_ffff,
    ;
    let seconds_since_2001 = s - APPLE_EPOCH_OFFSET_SECONDS;
    let n = dt.subsec_nanos();
    seconds_since_2001 * NANOS_PER_SEC + n as i64
}

/// The instant `millis` Unix milliseconds denote, when chrono represents it;
/// `0` (unknown) gives `None`.
pub closed spec fn instant_from_millis(millis: i64) -> Option<UtcTime> {
    let secs = ((millis as int) / 1000) as i64;
    let nanos = ((millis as int) % 1000 * 1_000_000) as u32;
    if millis == 0 || !chrono_timestamp_ok(secs, nanos) {
        None
    } else {
        Some(UtcTime { secs, nanos })
    }
}

/// The instant `millis` Unix milliseconds denote; `0` (unknown) gives `None`.
pub fn datetime_from_millis(millis: i64) -> (r: Option<UtcTime>)
    ensures
        r == instant_from_millis(millis),
        millis == 0 ==> r is None,
        millis != 0 ==> (r is Some <==> chrono_timestamp_ok(
            ((millis as int) / 1000) as i64,
            ((millis as int) % 1000 * 1_000_000) as u32,
        )),
        r matches Some(t) ==> t.spec_millis() == millis && t.spec_secs() == (millis as int) / 1000,
{
    if millis == 0 {
        return None;
    }
    match chrono_from_timestamp_millis(millis) {
        Some((s, n)) => {
            let t = UtcTime { secs: s, nanos: n };
            assert(t.spec_millis() == millis) by (nonlinear_arith)
                requires
                    s == (millis as int) / 1000,
                    n == (millis as int) % 1000 * 1_000_000,
                    t.spec_millis() == s * 1000 + n / 1_000_000,
            ;
            Some(t)
        },
        None => None,
    }
}

} // verus!

verus! {

/// Round trip of the Apple nanosecond encoding: for an instant whose Apple
/// nanosecond count is at least the nanosecond threshold (so the decoder takes
/// the nanosecond path) and whose sub-second part is an ordinary (non-leap)
/// nanosecond count, decoding the encoded value gives the same seconds and
/// nanoseconds back.
pub proof fn lemma_apple_nanos_round_trip(t: UtcTime)
    requires
        NANOSECOND_THRESHOLD <= apple_nanos(t) <= i64::MAX,
        t.spec_nanos() < NANOS_PER_SEC,
    ensures
        apple_parts(apple_nanos(t) as i64) == (t.spec_secs(), t.spec_nanos()),
{
    let raw = apple_nanos(t);
    let x = t.spec_secs() - APPLE_EPOCH_OFFSET_SECONDS;
    let n = t.spec_nanos() as int;
    assert(raw / (NANOS_PER_SEC as int) == x && raw - x * NANOS_PER_SEC == n) by (nonlinear_arith)
        requires
            raw == x * NANOS_PER_SEC + n,
            0 <= n < NANOS_PER_SEC,
            raw >= 0,
    ;
}


/// [`utc_to_apple_nanos`] where it is defined: `None` for an instant outside
/// the years 1709 to 2293, whose raw timestamp does not fit in an `i64`.
pub fn utc_to_apple_nanos_checked(dt: UtcTime) -> (r: Option<i64>)
    ensures
        r is Some <==> (i64::MIN <= (dt.spec_secs() - APPLE_EPOCH_OFFSET_SECONDS) * NANOS_PER_SEC
            && apple_nanos(dt) <= i64::MAX),
        r matches Some(v) ==> v == apple_nanos(dt),
{
    let secs = dt.timestamp();
    proof {
        use_type_invariant(dt);
    }
    let s = secs - APPLE_EPOCH_OFFSET_SECONDS;
    if s < -9_223_372_036 || s > 9_223_372_036 {
        assert(!(i64::MIN <= s * NANOS_PER_SEC <= i64::MAX)) by (nonlinear_arith)
            requires
                s < -9_223_372_036 || s > 9_223_372_036,
        ;
        return None;
    }
    assert(i64::MIN <= s * NANOS_PER_SEC <= i64::MAX) by (nonlinear_arith)
        requires
            -9_223_372_036 <= s <= 9_223_372_036,
    ;
    let base = s * NANOS_PER_SEC;
    let n = dt.subsec_nanos() as i64;
    if base > i64::MAX - n {
        return None;
    }
    Some(utc_to_apple_nanos(dt))
}

/// The instant (seconds and nanoseconds, in UTC) `DateTime::parse_from_rfc3339`
/// reads from `v`, if it parses.
pub uninterp spec fn rfc3339_instant(v: Seq<char>) -> Option<(i64, u32)>;

/// `DateTime::parse_from_rfc3339(v)` converted to UTC, as seconds and
/// nanoseconds; on failure the parse error's message (its wording is not
/// stated).
///
/// Every `DateTime` lies in chrono's calendar range, whose seconds stay within
/// ±8.4·10^12 of the epoch, and its sub-second part stays below two seconds'
/// worth of nanoseconds (a leap second at most).
#[verifier::external_body]
pub(crate) fn chrono_parse_rfc3339_instant(v: &str) -> (r: Result<(i64, u32), String>)
    ensures
        r is Ok <==> rfc3339_instant(v@) is Some,
        r matches Ok(p) ==> rfc3339_instant(v@) == Some(p),
        r matches Ok(p) ==> -8_400_000_000_000 <= p.0 <= 8_400_000_000_000 && p.1 < 2_000_000_000,
{
    match DateTime::parse_from_rfc3339(v) {
        Ok(d) => Ok((d.timestamp(), d.timestamp_subsec_nanos())),
        Err(e) => Err(e.to_string()),
    }
}

/// The message of a refused ISO-8601 cursor: the cursor quoted as Rust's
/// `Debug` quotes a string, then the parser's reason.
pub open spec fn invalid_cursor_message(v: Seq<char>, reason: Seq<char>) -> Seq<char> {
    "invalid ISO-8601 timestamp "@ + debug_quoted(v) + ": "@ + reason
}

fn invalid_cursor(v: &str, reason: &str) -> (r: String)
    ensures
        r@ == invalid_cursor_message(v@, reason@),
{
    let mut out: Vec<char> = Vec::new();
    push_str(&mut out, "invalid ISO-8601 timestamp ");
    let q = debug_str(v);
    push_str(&mut out, q.as_str());
    push_str(&mut out, ": ");
    push_str(&mut out, reason);
    string_from_chars(out.as_slice())
}

/// Parse an ISO-8601 (RFC 3339) pagination cursor into a UTC instant. A
/// cursor that does not parse is refused with its reason; one chrono parses
/// is accepted whenever chrono also represents the instant in UTC.
pub fn parse_iso(s: &str) -> (r: Result<UtcTime, String>)
    ensures
        rfc3339_instant(s@) is None ==> r is Err,
        r matches Ok(t) ==> rfc3339_instant(s@) == Some((t.spec_secs(), t.spec_nanos())),
        (rfc3339_instant(s@) matches Some(p) && chrono_timestamp_ok(p.0, p.1)) ==> r is Ok,
        r matches Err(e) ==> exists|reason: Seq<char>| e@ == invalid_cursor_message(s@, reason),
{
    match chrono_parse_rfc3339_instant(s) {
        Ok((secs, nanos)) => match UtcTime::from_timestamp(secs, nanos) {
            Some(t) => Ok(t),
            None => Err(invalid_cursor(s, "out of range")),
        },
        Err(e) => Err(invalid_cursor(s, e.as_str())),
    }
}

/// The Unix milliseconds of the instant `DateTime::parse_from_rfc3339` reads
/// from `v`, as chrono's `timestamp_millis` counts them: whole seconds times
/// a thousand plus the whole milliseconds of the sub-second part.
pub open spec fn rfc3339_millis(v: Seq<char>) -> Option<i64> {
    match rfc3339_instant(v) {
        Some(p) => Some((p.0 * 1000 + p.1 / 1_000_000) as i64),
        None => None,
    }
}

/// `DateTime::parse_from_rfc3339(v)` in Unix milliseconds; on failure the
/// parser's message.
pub(crate) fn parse_rfc3339_millis(v: &str) -> (r: Result<i64, String>)
    ensures
        r is Ok <==> rfc3339_millis(v@) is Some,
        r matches Ok(ms) ==> rfc3339_millis(v@) == Some(ms),
{
    match chrono_parse_rfc3339_instant(v) {
        Ok((secs, nanos)) => {
            let ms = secs * 1000 + (nanos / 1_000_000) as i64;
            Ok(ms)
        },
        Err(e) => Err(e),
    }
}

/// Parse an ISO-8601 (RFC 3339) pagination cursor into Unix milliseconds.
pub fn parse_iso_millis(s: &str) -> (r: Result<i64, String>)
    ensures
        r is Ok <==> rfc3339_millis(s@) is Some,
        r matches Ok(ms) ==> rfc3339_millis(s@) == Some(ms),
        r matches Err(e) ==> exists|reason: Seq<char>| e@ == invalid_cursor_message(s@, reason),
{
    match parse_rfc3339_millis(s) {
        Ok(ms) => Ok(ms),
        Err(e) => Err(invalid_cursor(s, e.as_str())),
    }
}

} // verus!
