//! Time: reading the system clock and writing a moment as text.

use crate::moment::{is_stamp, is_stamp_text};
use std::fmt::Write;
use vstd::prelude::*;

verus! {

/// A moment in UTC as a count from 1970-01-01T00:00:00: whole seconds, and
/// nanoseconds into the running second.
#[derive(Clone, Copy, Debug, PartialEq, Eq)]
pub struct UnixTime {
    pub secs: i64,
    pub nanos: u32,
}

/// The number of nanoseconds in a second.
pub const NANOS_PER_SEC: u32 = 1_000_000_000;

impl UnixTime {
    /// The moment as one number: nanoseconds from the epoch, negative
    /// before it.
    pub open spec fn offset(self) -> int {
        self.secs * NANOS_PER_SEC + self.nanos
    }

    /// The moment that lies `secs` seconds and `nanos` nanoseconds after the
    /// epoch, where `nanos` is less than a second and the moment can be
    /// held.
    pub fn after_epoch(secs: u64, nanos: u32) -> (r: Option<UnixTime>)
        ensures
            r is Some <==> nanos < NANOS_PER_SEC && secs <= i64::MAX,
            r matches Some(t) ==> t.secs == secs && t.nanos == nanos && t.offset() == secs
                * NANOS_PER_SEC + nanos,
    {
        if nanos < NANOS_PER_SEC && secs <= 0x7fff_ffff_ffff_ffff {
            Some(UnixTime { secs: secs as i64, nanos })
        } else {
            None
        }
    }

    /// The moment that lies `secs` seconds and `nanos` nanoseconds before
    /// the epoch, where `nanos` is less than a second and the moment can be
    /// held. The nanoseconds of a moment count forward from a whole second,
    /// so a moment within a second before the epoch has the second -1.
    pub fn before_epoch(secs: u64, nanos: u32) -> (r: Option<UnixTime>)
        ensures
            r is Some <==> nanos < NANOS_PER_SEC && secs + (if nanos == 0 {
                0int
            } else {
                1int
            }) <= -(i64::MIN as int),
            r matches Some(t) ==> t.nanos < NANOS_PER_SEC && t.offset() == -(secs * NANOS_PER_SEC
                + nanos),
    {
        if nanos >= NANOS_PER_SEC {
            None
        } else if nanos == 0 {
            if secs <= 0x7fff_ffff_ffff_ffff {
                Some(UnixTime { secs: -(secs as i64), nanos: 0 })
            } else if secs == 0x8000_0000_0000_0000 {
                Some(UnixTime { secs: i64::MIN, nanos: 0 })
            } else {
                None
            }
        } else if secs <= 0x7fff_ffff_ffff_ffff {
            Some(UnixTime { secs: -(secs as i64) - 1, nanos: NANOS_PER_SEC - nanos })
        } else {
            None
        }
    }
}

/// `std::time::SystemTime`, a reading of the system clock. Nothing is known
/// of what a value holds.
#[verifier::external_type_specification]
#[verifier::external_body]
pub struct ExSystemTime(std::time::SystemTime);

/// `std::time::SystemTime::now` reads the system clock. Nothing is claimed of
/// the reading.
pub assume_specification[ std::time::SystemTime::now ]() -> (t: std::time::SystemTime)
;

/// `std::time::SystemTime::duration_since`, taken from the Unix epoch: the
/// whole seconds and the nanoseconds that `t` lies after it, or `None` where
/// `t` lies before it. Nothing is claimed of the numbers.
#[verifier::external_body]
fn since_unix_epoch(t: &std::time::SystemTime) -> (r: Option<(u64, u32)>)
{
    t.duration_since(std::time::UNIX_EPOCH).ok().map(|d| (d.as_secs(), d.subsec_nanos()))
}

/// The pattern of the time stamp in a backup's file name: year, month, day,
/// an underscore, hour, minute, second.
pub open spec fn stamp_pattern() -> Seq<char> {
    "%Y%m%d_%H%M%S"@
}

/// What chrono writes for the UTC moment `secs` seconds and `nanos`
/// nanoseconds after the Unix epoch under the strftime pattern `pattern`;
/// `None` where chrono has no such moment or rejects the pattern.
pub uninterp spec fn utc_formatted(secs: int, nanos: int, pattern: Seq<char>) -> Option<Seq<char>>;

/// What chrono writes for the same moment in RFC 3339 form; `None` where
/// chrono has no such moment.
pub uninterp spec fn utc_rfc3339(secs: int, nanos: int) -> Option<Seq<char>>;

/// `chrono::DateTime::format`, on the moment that
/// `chrono::DateTime::from_timestamp` makes of `secs` and `nanos`, asked for
/// the stamp's pattern only. What is written depends on the arguments alone
/// and comes back under the name `utc_formatted`. Chrono reports a moment
/// out of its range without panicking; it comes back as `None`.
#[verifier::external_body]
fn format_utc(secs: i64, nanos: u32, pattern: &str) -> (r: Option<String>)
    requires
        pattern@ == stamp_pattern(),
    ensures
        r.deep_view() == utc_formatted(secs as int, nanos as int, pattern@),
{
    let moment = chrono::DateTime::from_timestamp(secs, nanos)?;
    let mut out = String::new();
    write!(out, "{}", moment.format(pattern)).ok()?;
    Some(out)
}

/// `chrono::DateTime::to_rfc3339`, on the moment that
/// `chrono::DateTime::from_timestamp` makes of `secs` and `nanos`. What is
/// written depends on the two arguments alone and comes back under the name
/// `utc_rfc3339`. A moment out of chrono's range comes back as `None`.
#[verifier::external_body]
fn rfc3339_utc(secs: i64, nanos: u32) -> (r: Option<String>)
    ensures
        r.deep_view() == utc_rfc3339(secs as int, nanos as int),
{
    chrono::DateTime::from_timestamp(secs, nanos).map(|moment| moment.to_rfc3339())
}

/// The time stamp of the moment `secs` seconds and `nanos` nanoseconds after
/// the epoch: what chrono writes for it under the stamp's pattern, where
/// that has the layout of a time stamp. A moment in a year of more than
/// four digits has none, nor has one within a leap second.
pub open spec fn stamp_at(secs: int, nanos: int) -> Option<Seq<char>> {
    match utc_formatted(secs, nanos, stamp_pattern()) {
        Some(text) => if is_stamp_text(text) {
            Some(text)
        } else {
            None
        },
        None => None,
    }
}

/// The time stamp that a backup made at `at` carries in its name, if `at`
/// has one.
pub fn backup_stamp(at: UnixTime) -> (r: Option<String>)
    ensures
        r.deep_view() == stamp_at(at.secs as int, at.nanos as int),
{
    match format_utc(at.secs, at.nanos, "%Y%m%d_%H%M%S") {
        Some(text) => if is_stamp(text.as_str()) {
            Some(text)
        } else {
            None
        },
        None => None,
    }
}

/// `at` in RFC 3339 form.
pub fn rfc3339(at: UnixTime) -> (r: Option<String>)
    ensures
        r.deep_view() == utc_rfc3339(at.secs as int, at.nanos as int),
{
    rfc3339_utc(at.secs, at.nanos)
}

/// `stamp` is the time stamp of a moment that the clock can give.
pub open spec fn is_clock_stamp(stamp: Seq<char>) -> bool {
    exists|secs: int, nanos: int|
        0 <= secs && 0 <= nanos < NANOS_PER_SEC && #[trigger] stamp_at(secs, nanos) == Some(
            stamp,
        )
}

/// `date` is the RFC 3339 form of a moment that the clock can give.
pub open spec fn is_clock_date(date: Seq<char>) -> bool {
    exists|secs: int, nanos: int|
        0 <= secs && 0 <= nanos < NANOS_PER_SEC && #[trigger] utc_rfc3339(secs, nanos) == Some(
            date,
        )
}

/// The system clock's reading, or `None` where the clock stands before 1970
/// or beyond what `UnixTime` holds.
pub fn current_time() -> (r: Option<UnixTime>)
    ensures
        r matches Some(t) ==> 0 <= t.secs && t.nanos < NANOS_PER_SEC,
{
    let now = std::time::SystemTime::now();
    match since_unix_epoch(&now) {
        Some((secs, nanos)) => UnixTime::after_epoch(secs, nanos),
        None => None,
    }
}

/// The time stamp of the clock's reading, or `None` where the clock gives
/// no moment or one that has no time stamp.
pub fn current_stamp() -> (r: Option<String>)
    ensures
        r matches Some(stamp) ==> is_clock_stamp(stamp@),
{
    match current_time() {
        Some(now) => {
            let stamp = backup_stamp(now);
            assert(stamp.deep_view() == stamp_at(now.secs as int, now.nanos as int));
            stamp
        },
        None => None,
    }
}

/// The clock's reading in RFC 3339 form, or `None` where the clock gives no
/// moment that can be written.
pub fn current_date() -> (r: Option<String>)
    ensures
        r matches Some(date) ==> is_clock_date(date@),
{
    match current_time() {
        Some(now) => {
            let date = rfc3339(now);
            assert(date.deep_view() == utc_rfc3339(now.secs as int, now.nanos as int));
            date
        },
        None => None,
    }
}

} // verus!
