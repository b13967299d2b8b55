//! Deciding which repositories are worth polling.
//!
//! With hundreds of repositories visible and a handful producing runs, polling everything costs
//! minutes per cycle for nothing. This module is the single place that decides what to skip.
use vstd::prelude::*;
use vstd::string::*;

use crate::clock::Timestamp;
use crate::text::text_eq;

pub mod laws;

verus! {

broadcast use vstd::string::group_string_axioms;

/// A repository untouched for this long is assumed dormant, unless it has runs.
pub const STALE_DAYS: i64 = 90;

/// A manual decision recorded from the web UI, overriding the automatic rules.
#[derive(Debug, Clone, Copy, PartialEq, Eq, Structural)]
pub enum Override {
    Include,
    Exclude,
}

impl Override {
    /// The text that stands for an override.
    pub open spec fn text(self) -> Seq<char> {
        match self {
            Override::Include => "include"@,
            Override::Exclude => "exclude"@,
        }
    }

    /// The override that a text stands for.
    pub open spec fn named(s: Seq<char>) -> Option<Override> {
        if s == "include"@ {
            Some(Override::Include)
        } else if s == "exclude"@ {
            Some(Override::Exclude)
        } else {
            None
        }
    }

    /// Reads an override: `None` where the text stands for none.
    pub fn parse(s: &str) -> (r: Option<Override>)
        ensures
            r == Override::named(s@),
    {
        if text_eq(s, "include") {
            Some(Override::Include)
        } else if text_eq(s, "exclude") {
            Some(Override::Exclude)
        } else {
            None
        }
    }

    /// The text that stands for the override.
    pub fn as_str(&self) -> (r: &'static str)
        ensures
            r@ == self.text(),
    {
        match self {
            Override::Include => "include",
            Override::Exclude => "exclude",
        }
    }
}

/// Reading back the text of an override gives that override, and only that text does.
pub proof fn override_text_round_trips(o: Override, s: Seq<char>)
    ensures
        Override::named(o.text()) == Some(o),
        Override::named(s) == Some(o) ==> s == o.text(),
{
    reveal_strlit("include");
    reveal_strlit("exclude");
    assert("include"@[0] != "exclude"@[0]);
}

/// Why a repository is not being polled.
#[derive(Debug, Clone, Copy, PartialEq, Eq, Structural)]
pub enum SkipReason {
    /// Muted by hand in the web UI.
    Muted,
    /// Matched an `ignore` glob in the config file.
    Glob,
    /// Archived on GitHub, so it cannot run workflows at all.
    Archived,
    /// No pushes in `STALE_DAYS`, and no runs on record.
    Stale,
    /// Discovery no longer returns it: deleted, renamed, or access lost.
    Gone,
}

impl SkipReason {
    /// The text that stands for a reason.
    pub open spec fn text(self) -> Seq<char> {
        match self {
            SkipReason::Muted => "muted"@,
            SkipReason::Glob => "glob"@,
            SkipReason::Archived => "archived"@,
            SkipReason::Stale => "stale"@,
            SkipReason::Gone => "gone"@,
        }
    }

    /// The reason that a text stands for.
    pub open spec fn named(s: Seq<char>) -> Option<SkipReason> {
        if s == "muted"@ {
            Some(SkipReason::Muted)
        } else if s == "glob"@ {
            Some(SkipReason::Glob)
        } else if s == "archived"@ {
            Some(SkipReason::Archived)
        } else if s == "stale"@ {
            Some(SkipReason::Stale)
        } else if s == "gone"@ {
            Some(SkipReason::Gone)
        } else {
            None
        }
    }

    /// The text that stands for the reason.
    pub fn as_str(&self) -> (r: &'static str)
        ensures
            r@ == self.text(),
    {
        match self {
            SkipReason::Muted => "muted",
            SkipReason::Glob => "glob",
            SkipReason::Archived => "archived",
            SkipReason::Stale => "stale",
            SkipReason::Gone => "gone",
        }
    }

    /// Reads a reason: `None` where the text stands for none.
    pub fn parse(s: &str) -> (r: Option<SkipReason>)
        ensures
            r == SkipReason::named(s@),
    {
        if text_eq(s, "muted") {
            Some(SkipReason::Muted)
        } else if text_eq(s, "glob") {
            Some(SkipReason::Glob)
        } else if text_eq(s, "archived") {
            Some(SkipReason::Archived)
        } else if text_eq(s, "stale") {
            Some(SkipReason::Stale)
        } else if text_eq(s, "gone") {
            Some(SkipReason::Gone)
        } else {
            None
        }
    }
}

/// Reading back the text of a reason gives that reason, and only that text does.
pub proof fn skip_reason_text_round_trips(reason: SkipReason, s: Seq<char>)
    ensures
        SkipReason::named(reason.text()) == Some(reason),
        SkipReason::named(s) == Some(reason) ==> s == reason.text(),
{
    reveal_strlit("muted");
    reveal_strlit("glob");
    reveal_strlit("archived");
    reveal_strlit("stale");
    reveal_strlit("gone");
    assert("muted"@.len() == 5 && "glob"@.len() == 4 && "archived"@.len() == 8 && "stale"@.len()
        == 5 && "gone"@.len() == 4);
    assert("muted"@[0] != "stale"@[0]);
    assert("glob"@[1] != "gone"@[1]);
}

/// Whether a repository is polled, and if not, why not.
#[derive(Debug, Clone, Copy, PartialEq, Eq, Structural)]
pub enum Decision {
    Included,
    Skipped(SkipReason),
}

impl Decision {
    /// The reason of a repository that is skipped.
    pub open spec fn reason(self) -> Option<SkipReason> {
        match self {
            Decision::Included => None,
            Decision::Skipped(r) => Some(r),
        }
    }

    /// The text of that reason.
    pub open spec fn reason_text(self) -> Option<Seq<char>> {
        match self {
            Decision::Included => None,
            Decision::Skipped(r) => Some(r.text()),
        }
    }

    pub fn is_included(&self) -> (r: bool)
        ensures
            r == (*self == Decision::Included),
    {
        matches!(self, Decision::Included)
    }

    pub fn skip_reason(&self) -> (r: Option<SkipReason>)
        ensures
            r == self.reason(),
    {
        match self {
            Decision::Included => None,
            Decision::Skipped(r) => Some(*r),
        }
    }
}

/// Everything the decision depends on, gathered by the caller.
#[derive(Debug, Clone)]
pub struct RepoFacts<'a> {
    pub user_override: Option<Override>,
    /// Matches an `ignore` glob from the config file.
    pub glob_ignored: bool,
    pub archived: bool,
    /// RFC 3339, as GitHub reports it. `None` if never seen.
    pub pushed_at: Option<&'a str>,
    /// Whether any run for this repository is stored, which keeps a
    /// scheduled-only workflow visible even with no pushes.
    pub has_runs: bool,
}

/// The last push, where it is known, lies more than `STALE_DAYS` days before `now`.
pub open spec fn dormant(pushed: Option<Timestamp>, now: Timestamp) -> bool {
    pushed is Some && pushed->0.is_older_than(STALE_DAYS as int, now)
}

/// The time of a push that is recorded as a text. Nothing is known of one that is missing or
/// cannot be read.
pub open spec fn push_time(pushed_at: Option<Seq<char>>) -> Option<Timestamp> {
    match pushed_at {
        Some(raw) => Timestamp::read(raw),
        None => None,
    }
}

/// The decision on a repository. A manual override outranks every automatic rule; a glob outranks
/// the archived state, and that outranks staleness.
pub open spec fn decision(
    user_override: Option<Override>,
    glob_ignored: bool,
    archived: bool,
    has_runs: bool,
    is_dormant: bool,
) -> Decision {
    match user_override {
        Some(Override::Exclude) => Decision::Skipped(SkipReason::Muted),
        Some(Override::Include) => Decision::Included,
        None => if glob_ignored {
            Decision::Skipped(SkipReason::Glob)
        } else if archived {
            Decision::Skipped(SkipReason::Archived)
        } else if !has_runs && is_dormant {
            Decision::Skipped(SkipReason::Stale)
        } else {
            Decision::Included
        },
    }
}

/// Decide whether to poll a repository.
///
/// Order is the design: a manual override outranks every automatic rule, so a
/// repository the rules would skip can still be rescued, otherwise a
/// scheduled-only workflow in a dormant repository would be unreachable, since
/// `ignore` globs can only subtract.
pub fn decide(f: &RepoFacts, now: Timestamp) -> (r: Decision)
    ensures
        r == decision(
            f.user_override,
            f.glob_ignored,
            f.archived,
            f.has_runs,
            dormant(push_time(crate::text::optional_str(f.pushed_at)), now),
        ),
{
    decide_at(f, read_push_time(f.pushed_at), now)
}

/// Decides on a repository whose last push was at `pushed`, whatever `pushed_at` says.
pub fn decide_at(f: &RepoFacts, pushed: Option<Timestamp>, now: Timestamp) -> (r: Decision)
    ensures
        r == decision(
            f.user_override,
            f.glob_ignored,
            f.archived,
            f.has_runs,
            dormant(pushed, now),
        ),
{
    match f.user_override {
        Some(Override::Exclude) => {
            return Decision::Skipped(SkipReason::Muted);
        },
        Some(Override::Include) => {
            return Decision::Included;
        },
        None => {},
    }
    if f.glob_ignored {
        return Decision::Skipped(SkipReason::Glob);
    }
    if f.archived {
        return Decision::Skipped(SkipReason::Archived);
    }
    if !f.has_runs && is_stale(pushed, now) {
        return Decision::Skipped(SkipReason::Stale);
    }
    Decision::Included
}

/// Unparsable or missing timestamps count as unknown: skipping a repository we
/// know nothing about would hide it with no way for the user to notice.
fn read_push_time(pushed_at: Option<&str>) -> (r: Option<Timestamp>)
    ensures
        r == push_time(crate::text::optional_str(pushed_at)),
{
    match pushed_at {
        Some(raw) => Timestamp::parse(raw),
        None => None,
    }
}

/// Whether a push at `pushed` is so long ago that the repository counts as dormant. Where nothing
/// is known of it, it counts as fresh.
pub fn is_stale(pushed: Option<Timestamp>, now: Timestamp) -> (r: bool)
    ensures
        r == dormant(pushed, now),
{
    match pushed {
        Some(t) => t.older_than(STALE_DAYS, now),
        None => false,
    }
}

/// A manual override decides alone: whatever the automatic rules find, a muted repository is
/// skipped as muted, and a forced one is included.
pub proof fn an_override_outranks_every_rule(
    o: Override,
    glob_ignored: bool,
    archived: bool,
    has_runs: bool,
    is_dormant: bool,
)
    ensures
        decision(Some(o), glob_ignored, archived, has_runs, is_dormant) == (match o {
            Override::Exclude => Decision::Skipped(SkipReason::Muted),
            Override::Include => Decision::Included,
        }),
{
}

/// Without an override, a repository is skipped exactly when it matches a glob, is archived, or is
/// dormant with no runs on record; the reason is the first of these that holds.
pub proof fn the_automatic_rules(glob_ignored: bool, archived: bool, has_runs: bool, is_dormant: bool)
    ensures
        ({
            let d = decision(None, glob_ignored, archived, has_runs, is_dormant);
            &&& (d == Decision::Included) == !(glob_ignored || archived || (is_dormant && !has_runs))
            &&& (d == Decision::Skipped(SkipReason::Glob)) == glob_ignored
            &&& (d == Decision::Skipped(SkipReason::Archived)) == (archived && !glob_ignored)
            &&& (d == Decision::Skipped(SkipReason::Stale)) == (is_dormant && !has_runs && !archived
                && !glob_ignored)
        }),
{
}

/// A repository of which no push time is known is never dormant; one that is dormant stays so as
/// time goes on, counted without leap seconds.
pub proof fn dormancy_lasts(pushed: Option<Timestamp>, now: Timestamp, later: Timestamp)
    requires
        now.secs_before(0) < later.secs_before(0) || (now.secs_before(0) == later.secs_before(0)
            && now.nanos_before() <= later.nanos_before()),
    ensures
        !dormant(None, now),
        dormant(pushed, now) ==> dormant(pushed, later),
{
}

} // verus!
