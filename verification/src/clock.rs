//! Points in time, and their RFC 3339 form.
use vstd::prelude::*;

pub mod laws;

verus! {

/// The number of seconds in a day.
pub const SECS_PER_DAY: i64 = 86400;

/// A point in time: whole seconds since the Unix epoch, and the nanoseconds since then. During a
/// leap second the nanoseconds run on past one thousand million.
#[derive(Debug, Clone, Copy, PartialEq, Eq, Structural)]
pub struct Timestamp {
    pub secs: i64,
    pub nanos: u32,
}

/// The point in time that an RFC 3339 text denotes, as seconds and nanoseconds: what chrono's
/// `DateTime::parse_from_rfc3339` reads from it. `None` where it reads nothing.
pub uninterp spec fn rfc3339_instant(text: Seq<char>) -> Option<(i64, u32)>;

/// The RFC 3339 text of a point in time in UTC: what chrono's `DateTime::to_rfc3339` writes.
/// `None` where chrono's calendar has no such point in time.
pub uninterp spec fn rfc3339_text(secs: i64, nanos: u32) -> Option<Seq<char>>;

/// Calls `chrono::DateTime::parse_from_rfc3339` and takes the result apart into the seconds and
/// nanoseconds since the epoch. The contract claims only that the result is a function of the
/// text.
#[verifier::external_body]
fn read_rfc3339(text: &str) -> (r: Option<(i64, u32)>)
    ensures
        r == rfc3339_instant(text@),
{
    match chrono::DateTime::parse_from_rfc3339(text) {
        Ok(t) => Some((t.timestamp(), t.timestamp_subsec_nanos())),
        Err(_) => None,
    }
}

/// Calls `chrono::DateTime::from_timestamp` and, on what it returns,
/// `chrono::DateTime::to_rfc3339`. The contract claims only that the result is a function of the
/// two numbers.
#[verifier::external_body]
fn write_rfc3339(secs: i64, nanos: u32) -> (r: Option<String>)
    ensures
        r is Some == rfc3339_text(secs, nanos) is Some,
        r is Some ==> r->0@ == rfc3339_text(secs, nanos)->0,
{
    match chrono::DateTime::from_timestamp(secs, nanos) {
        Some(t) => Some(t.to_rfc3339()),
        None => None,
    }
}

impl Timestamp {
    /// The second, as counted without leap seconds, that lies `days` days before `self`.
    pub open spec fn secs_before(self, days: int) -> int {
        if self.nanos >= 1_000_000_000 {
            self.secs + 1 - days * SECS_PER_DAY
        } else {
            self.secs - days * SECS_PER_DAY
        }
    }

    /// The nanoseconds within that second.
    pub open spec fn nanos_before(self) -> int {
        if self.nanos >= 1_000_000_000 {
            self.nanos - 1_000_000_000
        } else {
            self.nanos as int
        }
    }

    /// `self` comes before the point that lies `days` days before `now`.
    pub open spec fn is_older_than(self, days: int, now: Timestamp) -> bool {
        ||| self.secs < now.secs_before(days)
        ||| self.secs == now.secs_before(days) && self.nanos < now.nanos_before()
    }

    /// The point in time that an RFC 3339 text denotes.
    pub open spec fn read(text: Seq<char>) -> Option<Timestamp> {
        match rfc3339_instant(text) {
            Some(t) => Some(Timestamp { secs: t.0, nanos: t.1 }),
            None => None,
        }
    }

    /// The RFC 3339 text of the point that lies `days` days before `self`. `None` where the
    /// calendar has no such point.
    pub open spec fn text_days_before(self, days: int) -> Option<Seq<char>> {
        if i64::MIN <= self.secs_before(days) <= i64::MAX {
            rfc3339_text(self.secs_before(days) as i64, self.nanos_before() as u32)
        } else {
            None
        }
    }

    /// Reads an RFC 3339 text: `None` where it is not one.
    pub fn parse(text: &str) -> (r: Option<Timestamp>)
        ensures
            r == Timestamp::read(text@),
    {
        match read_rfc3339(text) {
            Some(t) => Some(Timestamp { secs: t.0, nanos: t.1 }),
            None => None,
        }
    }

    /// Writes `self` as an RFC 3339 text: `None` where the calendar does not reach so far.
    pub fn to_rfc3339(&self) -> (r: Option<String>)
        ensures
            r is Some == rfc3339_text(self.secs, self.nanos) is Some,
            r is Some ==> r->0@ == rfc3339_text(self.secs, self.nanos)->0,
    {
        write_rfc3339(self.secs, self.nanos)
    }

    /// Whether `self` comes before the point that lies `days` days before `now`.
    pub fn older_than(&self, days: i64, now: Timestamp) -> (r: bool)
        ensures
            r == self.is_older_than(days as int, now),
    {
        let leap: bool = now.nanos >= 1_000_000_000;
        let span: i128 = (days as i128) * (SECS_PER_DAY as i128);
        let secs: i128 = (now.secs as i128) + (if leap {
            1i128
        } else {
            0i128
        }) - span;
        let nanos: u32 = if leap {
            now.nanos - 1_000_000_000
        } else {
            now.nanos
        };
        (self.secs as i128) < secs || ((self.secs as i128) == secs && self.nanos < nanos)
    }

    /// Writes the point that lies `days` days before `self` as an RFC 3339 text: `None` where
    /// the calendar does not reach so far.
    pub fn days_before_rfc3339(&self, days: i64) -> (r: Option<String>)
        ensures
            r is Some == self.text_days_before(days as int) is Some,
            r is Some ==> r->0@ == self.text_days_before(days as int)->0,
    {
        let leap: bool = self.nanos >= 1_000_000_000;
        let span: i128 = (days as i128) * (SECS_PER_DAY as i128);
        let secs: i128 = (self.secs as i128) + (if leap {
            1i128
        } else {
            0i128
        }) - span;
        let nanos: u32 = if leap {
            self.nanos - 1_000_000_000
        } else {
            self.nanos
        };
        if secs < i64::MIN as i128 || secs > i64::MAX as i128 {
            return None;
        }
        write_rfc3339(secs as i64, nanos)
    }
}

} // verus!
