use gh_web_dash::clock::Timestamp;
use gh_web_dash::inclusion::{
    decide, decide_at, is_stale, Decision, Override, RepoFacts, SkipReason,
};

fn now() -> Timestamp {
    Timestamp::parse("2026-08-04T00:00:00Z").unwrap()
}

fn facts() -> RepoFacts<'static> {
    RepoFacts {
        user_override: None,
        glob_ignored: false,
        archived: false,
        pushed_at: Some("2026-08-01T00:00:00Z"),
        has_runs: false,
    }
}

#[test]
fn a_fresh_unremarkable_repo_is_included() {
    assert_eq!(decide(&facts(), now()), Decision::Included);
}

#[test]
fn globs_archived_and_stale_each_skip_with_their_own_reason() {
    let mut f = facts();
    f.glob_ignored = true;
    assert_eq!(decide(&f, now()), Decision::Skipped(SkipReason::Glob));

    let mut f = facts();
    f.archived = true;
    assert_eq!(decide(&f, now()), Decision::Skipped(SkipReason::Archived));

    let mut f = facts();
    f.pushed_at = Some("2020-01-01T00:00:00Z");
    assert_eq!(decide(&f, now()), Decision::Skipped(SkipReason::Stale));
}

#[test]
fn muting_outranks_every_automatic_rule() {
    let mut f = facts();
    f.user_override = Some(Override::Exclude);
    assert_eq!(decide(&f, now()), Decision::Skipped(SkipReason::Muted));

    // Even one the rules would have included.
    f.glob_ignored = false;
    f.archived = false;
    assert_eq!(decide(&f, now()), Decision::Skipped(SkipReason::Muted));
}

#[test]
fn forcing_include_rescues_a_repo_every_rule_would_skip() {
    let mut f = facts();
    f.user_override = Some(Override::Include);
    f.glob_ignored = true;
    f.archived = true;
    f.pushed_at = Some("2010-01-01T00:00:00Z");
    assert_eq!(decide(&f, now()), Decision::Included);
}

#[test]
fn stored_runs_keep_a_dormant_repo_in() {
    // The scheduled-workflow case: no pushes for years, but it still runs.
    let mut f = facts();
    f.pushed_at = Some("2020-01-01T00:00:00Z");
    f.has_runs = true;
    assert_eq!(decide(&f, now()), Decision::Included);
}

#[test]
fn archived_beats_stale_so_the_reason_is_the_useful_one() {
    let mut f = facts();
    f.archived = true;
    f.pushed_at = Some("2010-01-01T00:00:00Z");
    assert_eq!(decide(&f, now()), Decision::Skipped(SkipReason::Archived));
}

#[test]
fn a_glob_match_reports_glob_even_when_also_archived() {
    let mut f = facts();
    f.glob_ignored = true;
    f.archived = true;
    assert_eq!(decide(&f, now()), Decision::Skipped(SkipReason::Glob));
}

#[test]
fn the_staleness_boundary_is_ninety_days() {
    let mut f = facts();
    f.pushed_at = Some("2026-05-07T00:00:00Z"); // 89 days before now()
    assert_eq!(decide(&f, now()), Decision::Included);

    f.pushed_at = Some("2026-05-05T00:00:00Z"); // 91 days before now()
    assert_eq!(decide(&f, now()), Decision::Skipped(SkipReason::Stale));
}

#[test]
fn unknown_or_unparsable_push_times_count_as_fresh() {
    let mut f = facts();
    f.pushed_at = None;
    assert_eq!(decide(&f, now()), Decision::Included);

    f.pushed_at = Some("not a date");
    assert_eq!(decide(&f, now()), Decision::Included);
}

#[test]
fn override_strings_round_trip() {
    assert_eq!(Override::parse("include"), Some(Override::Include));
    assert_eq!(Override::parse("exclude"), Some(Override::Exclude));
    assert_eq!(Override::parse("nonsense"), None);
    assert_eq!(
        Override::parse(Override::Include.as_str()),
        Some(Override::Include)
    );
}

#[test]
fn skip_reason_strings_round_trip() {
    for r in [
        SkipReason::Muted,
        SkipReason::Glob,
        SkipReason::Archived,
        SkipReason::Stale,
        SkipReason::Gone,
    ] {
        assert_eq!(SkipReason::parse(r.as_str()), Some(r));
    }
    assert_eq!(SkipReason::parse("nope"), None);
}

#[test]
fn the_boundary_itself_is_not_stale() {
    // Exactly ninety days before now().
    let mut f = facts();
    f.pushed_at = Some("2026-05-06T00:00:00Z");
    assert_eq!(decide(&f, now()), Decision::Included);
    f.pushed_at = Some("2026-05-05T23:59:59.999999999Z");
    assert_eq!(decide(&f, now()), Decision::Skipped(SkipReason::Stale));
    // The same instant in another time zone.
    f.pushed_at = Some("2026-05-06T02:00:00+02:00");
    assert_eq!(decide(&f, now()), Decision::Included);
}

#[test]
fn staleness_goes_by_the_time_that_is_handed_in() {
    let old = Timestamp { secs: 0, nanos: 0 };
    let edge = Timestamp {
        secs: 90 * 86400,
        nanos: 0,
    };
    let past = Timestamp {
        secs: 90 * 86400,
        nanos: 1,
    };
    assert!(!is_stale(Some(old), edge));
    assert!(is_stale(Some(old), past));
    assert!(!is_stale(None, past));
}

#[test]
fn the_decision_goes_by_the_push_time_that_is_handed_in() {
    let f = facts();
    let long_ago = Timestamp { secs: 0, nanos: 0 };
    assert_eq!(
        decide_at(&f, Some(long_ago), now()),
        Decision::Skipped(SkipReason::Stale)
    );
    assert_eq!(decide_at(&f, None, now()), Decision::Included);
}

#[test]
fn a_decision_tells_its_reason() {
    assert!(Decision::Included.is_included());
    assert_eq!(Decision::Included.skip_reason(), None);
    let d = Decision::Skipped(SkipReason::Gone);
    assert!(!d.is_included());
    assert_eq!(d.skip_reason(), Some(SkipReason::Gone));
    assert_eq!(SkipReason::Stale.as_str(), "stale");
}
