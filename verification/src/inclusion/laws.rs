//! What decides whether a repository is polled.
use vstd::prelude::*;

use super::{Decision, Override, SkipReason};
use crate::clock::Timestamp;

verus! {

/// An override is written as one of two words, and no other word stands for one.
pub proof fn overrides_are_two_words(s: Seq<char>)
    ensures
        Override::Include.text() == "include"@,
        Override::Exclude.text() == "exclude"@,
        s == "include"@ ==> Override::named(s) == Some(Override::Include),
        s == "exclude"@ ==> Override::named(s) == Some(Override::Exclude),
        s != "include"@ && s != "exclude"@ ==> Override::named(s) is None,
{
    super::override_text_round_trips(Override::Exclude, s);
}

/// A reason is written as one of five words.
pub proof fn reasons_are_five_words(s: Seq<char>)
    ensures
        SkipReason::Muted.text() == "muted"@,
        SkipReason::Glob.text() == "glob"@,
        SkipReason::Archived.text() == "archived"@,
        SkipReason::Stale.text() == "stale"@,
        SkipReason::Gone.text() == "gone"@,
        SkipReason::named(s) is Some <==> s == "muted"@ || s == "glob"@ || s == "archived"@ || s
            == "stale"@ || s == "gone"@,
{
}

/// A repository that is included has no reason to be skipped, and one that is skipped has the
/// reason that it is skipped for.
pub proof fn a_decision_tells_its_reason(reason: SkipReason)
    ensures
        Decision::Included.reason() is None,
        Decision::Included.reason_text() is None,
        Decision::Skipped(reason).reason() == Some(reason),
        Decision::Skipped(reason).reason_text() == Some(reason.text()),
{
}

/// A push is known exactly when there is a text of it and the text denotes a point in time, and
/// then it was at that point.
pub proof fn a_push_is_known_by_its_text(pushed_at: Option<Seq<char>>)
    ensures
        pushed_at is None ==> super::push_time(pushed_at) is None,
        pushed_at is Some && crate::clock::rfc3339_instant(pushed_at->0) is None
            ==> super::push_time(pushed_at) is None,
        pushed_at is Some ==> (crate::clock::rfc3339_instant(pushed_at->0) matches Some(
            (secs, nanos),
        ) ==> super::push_time(pushed_at) == Some(Timestamp { secs, nanos })),
{
}

/// A repository is dormant exactly when its last push is known and more than ninety days lie
/// between it and now.
pub proof fn dormant_means_ninety_days(pushed: Option<Timestamp>, now: Timestamp)
    requires
        now.nanos < 1_000_000_000,
        pushed is Some ==> pushed->0.nanos < 1_000_000_000,
    ensures
        super::dormant(pushed, now) <==> pushed is Some && crate::clock::laws::total_nanos(now)
            - crate::clock::laws::total_nanos(pushed->0) > 90 * 86_400 * 1_000_000_000,
{
    if pushed is Some {
        crate::clock::laws::a_day_has_86400_seconds(pushed->0, 90, now);
    }
}

/// A push that is known makes a repository dormant exactly when it is more than ninety days old.
pub proof fn dormant_is_older_than_ninety_days(t: Timestamp, now: Timestamp)
    ensures
        super::dormant(Some(t), now) <==> t.is_older_than(90, now),
        !super::dormant(None, now),
{
}

/// A repository with runs on record is never stale, however long its last push lies back; one
/// without any is stale exactly when it is dormant and nothing else decides.
pub proof fn runs_keep_a_dormant_repository_in(
    user_override: Option<Override>,
    glob_ignored: bool,
    archived: bool,
    is_dormant: bool,
)
    ensures
        super::decision(user_override, glob_ignored, archived, true, is_dormant)
            == super::decision(user_override, glob_ignored, archived, true, false),
        super::decision(user_override, glob_ignored, archived, true, is_dormant)
            != Decision::Skipped(SkipReason::Stale),
        super::decision(user_override, glob_ignored, archived, false, is_dormant)
            == Decision::Skipped(SkipReason::Stale) <==> is_dormant && user_override is None
            && !glob_ignored && !archived,
{
}

} // verus!
