//! How points in time are read, written and counted.
use vstd::prelude::*;

use super::Timestamp;

verus! {

/// The nanoseconds since the epoch, outside leap seconds.
pub open spec fn total_nanos(t: Timestamp) -> int {
    t.secs * 1_000_000_000 + t.nanos
}

/// One point in time is more than `days` days before another exactly when more than so many times
/// 86,400 seconds lie between them.
pub proof fn a_day_has_86400_seconds(t: Timestamp, days: int, now: Timestamp)
    requires
        t.nanos < 1_000_000_000,
        now.nanos < 1_000_000_000,
    ensures
        t.is_older_than(days, now) <==> total_nanos(now) - total_nanos(t) > days * 86_400
            * 1_000_000_000,
{
    assert(days * super::SECS_PER_DAY == days * 86_400);
    assert(days * 86_400 * 1_000_000_000 == (days * 86_400) * 1_000_000_000);
}

/// Days back are compared by the second, and within one second by the nanosecond.
pub proof fn days_back_are_compared_by_the_second(t: Timestamp, days: int, now: Timestamp)
    requires
        now.nanos < 1_000_000_000,
    ensures
        t.is_older_than(days, now) <==> (t.secs < now.secs - days * 86_400 || (t.secs == now.secs
            - days * 86_400 && t.nanos < now.nanos)),
{
}

/// Within a leap second, days are counted back from the second that follows it.
pub proof fn a_leap_second_counts_as_the_next(t: Timestamp, days: int, now: Timestamp)
    requires
        now.nanos >= 1_000_000_000,
    ensures
        t.is_older_than(days, now) <==> (t.secs < now.secs + 1 - days * 86_400 || (t.secs
            == now.secs + 1 - days * 86_400 && t.nanos < now.nanos - 1_000_000_000)),
{
}

/// What is read from a text is the second and the nanosecond that the text denotes, and nothing is
/// read from a text that denotes none.
pub proof fn a_text_is_read_as_it_is(text: Seq<char>)
    ensures
        super::rfc3339_instant(text) is None ==> Timestamp::read(text) is None,
        super::rfc3339_instant(text) matches Some((secs, nanos)) ==> Timestamp::read(text) == Some(
            Timestamp { secs, nanos },
        ),
{
}

/// The text of a point some days back is that of the same nanosecond so many times 86,400 seconds
/// earlier.
pub proof fn days_are_counted_back_in_seconds(now: Timestamp, days: int)
    requires
        now.nanos < 1_000_000_000,
        i64::MIN <= now.secs - days * 86_400 <= i64::MAX,
    ensures
        now.text_days_before(days) == super::rfc3339_text(
            (now.secs - days * 86_400) as i64,
            now.nanos,
        ),
{
}

/// Within a leap second, the text of a point some days back is counted from the second that follows
/// it; where that is out of range, there is none.
pub proof fn days_back_from_a_leap_second(now: Timestamp, days: int)
    requires
        now.nanos >= 1_000_000_000,
    ensures
        ({
            let secs = now.secs + 1 - days * 86_400;
            now.text_days_before(days) == (if i64::MIN <= secs <= i64::MAX {
                super::rfc3339_text(secs as i64, (now.nanos - 1_000_000_000) as u32)
            } else {
                None
            })
        }),
{
}

} // verus!
