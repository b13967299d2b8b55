use gh_web_dash::store::{Health, RepoSummary, Store, StoredRun};

/// A run with every field settable that matters to these tests.
fn run_full(
    id: i64,
    repo: &str,
    workflow: &str,
    status: &str,
    conclusion: Option<&str>,
    started: &str,
) -> StoredRun {
    StoredRun {
        id,
        repo_full_name: repo.to_string(),
        workflow_name: workflow.to_string(),
        branch: "main".to_string(),
        actor: "autarch".to_string(),
        status: status.to_string(),
        conclusion: conclusion.map(std::string::ToString::to_string),
        commit_sha: "abc123".to_string(),
        commit_subject: "Do a thing".to_string(),
        html_url: format!("https://github.com/{repo}/actions/runs/{id}"),
        started_at: started.to_string(),
        workflow_path: Some(".github/workflows/lint.yml".to_string()),
    }
}

#[test]
fn upsert_is_idempotent_and_updates_in_place() {
    let mut s = Store::open_in_memory().unwrap();
    s.upsert_repo("autarch/precious", "main").unwrap();

    s.upsert_run(&run_full(
        1,
        "autarch/precious",
        "W",
        "completed",
        Some("success"),
        "2026-08-04T10:00:00Z",
    ))
    .unwrap();
    s.upsert_run(&run_full(
        1,
        "autarch/precious",
        "W",
        "completed",
        Some("success"),
        "2026-08-04T10:00:00Z",
    ))
    .unwrap();
    assert_eq!(
        s.repo_history("autarch/precious", 10).unwrap()[0]
            .runs
            .len(),
        1
    );

    s.upsert_run(&run_full(
        1,
        "autarch/precious",
        "W",
        "completed",
        Some("failure"),
        "2026-08-04T10:00:00Z",
    ))
    .unwrap();
    let h = s.repo_history("autarch/precious", 10).unwrap();
    assert_eq!(h[0].runs.len(), 1);
    assert_eq!(h[0].runs[0].conclusion.as_deref(), Some("failure"));
}

#[test]
fn prune_removes_only_old_runs() {
    let mut s = Store::open_in_memory().unwrap();
    s.upsert_repo("autarch/precious", "main").unwrap();
    s.upsert_run(&run_full(
        1,
        "autarch/precious",
        "W",
        "completed",
        Some("success"),
        "2020-01-01T00:00:00Z",
    ))
    .unwrap();
    s.upsert_run(&run_full(
        2,
        "autarch/precious",
        "W",
        "completed",
        Some("success"),
        "2026-08-04T09:00:00Z",
    ))
    .unwrap();

    let removed = s.prune_before("2026-07-05T00:00:00Z").unwrap();
    assert_eq!(removed, 1);
    let rows = &s.repo_history("autarch/precious", 10).unwrap()[0].runs;
    assert_eq!(rows.iter().map(|r| r.id).collect::<Vec<_>>(), vec![2]);
}

#[test]
fn etag_round_trips_and_starts_empty() {
    let mut s = Store::open_in_memory().unwrap();
    s.upsert_repo("autarch/precious", "main").unwrap();
    assert_eq!(s.repo_etag("autarch/precious").unwrap(), None);
    s.set_repo_etag("autarch/precious", "W/\"abc\"").unwrap();
    assert_eq!(
        s.repo_etag("autarch/precious").unwrap(),
        Some("W/\"abc\"".to_string())
    );
}

#[test]
fn etag_for_unknown_repo_is_none_not_an_error() {
    let mut s = Store::open_in_memory().unwrap();
    assert_eq!(s.repo_etag("autarch/never-seen").unwrap(), None);
}

#[test]
fn upsert_repo_updates_default_branch_without_losing_etag() {
    let mut s = Store::open_in_memory().unwrap();
    s.upsert_repo("autarch/precious", "master").unwrap();
    s.set_repo_etag("autarch/precious", "W/\"abc\"").unwrap();
    s.upsert_repo("autarch/precious", "main").unwrap();
    assert_eq!(
        s.repo_etag("autarch/precious").unwrap(),
        Some("W/\"abc\"".to_string())
    );
    assert_eq!(s.active_repos().unwrap()[0].default_branch, "main");
}

#[test]
fn ignored_repos_are_excluded_from_active_repos() {
    let mut s = Store::open_in_memory().unwrap();
    s.upsert_repo("autarch/precious", "main").unwrap();
    s.upsert_repo("autarch/scratch", "main").unwrap();
    s.set_repo_ignored("autarch/scratch", true).unwrap();
    let names: Vec<_> = s
        .active_repos()
        .unwrap()
        .into_iter()
        .map(|r| r.full_name)
        .collect();
    assert_eq!(names, vec!["autarch/precious".to_string()]);
}

fn summaries(s: &Store, failures_only: bool) -> Vec<RepoSummary> {
    s.repo_summaries(failures_only).unwrap()
}

#[test]
fn health_orders_least_bad_to_worst() {
    assert!(Health::Success < Health::Neutral);
    assert!(Health::Neutral < Health::Running);
    assert!(Health::Running < Health::Failure);
}

#[test]
fn health_classifies_runs() {
    assert_eq!(Health::of("completed", Some("success")), Health::Success);
    assert_eq!(Health::of("completed", Some("failure")), Health::Failure);
    assert_eq!(Health::of("completed", Some("timed_out")), Health::Failure);
    assert_eq!(
        Health::of("completed", Some("startup_failure")),
        Health::Failure
    );
    assert_eq!(Health::of("completed", Some("cancelled")), Health::Neutral);
    assert_eq!(Health::of("completed", Some("skipped")), Health::Neutral);
    assert_eq!(Health::of("in_progress", None), Health::Running);
    assert_eq!(Health::of("queued", None), Health::Running);
}

#[test]
fn summary_takes_the_latest_run_of_each_workflow() {
    let mut s = Store::open_in_memory().unwrap();
    s.upsert_repo("autarch/precious", "main").unwrap();
    // Older failure, newer success — the newer one wins.
    s.upsert_run(&run_full(
        1,
        "autarch/precious",
        "Run tests",
        "completed",
        Some("failure"),
        "2026-08-04T09:00:00Z",
    ))
    .unwrap();
    s.upsert_run(&run_full(
        2,
        "autarch/precious",
        "Run tests",
        "completed",
        Some("success"),
        "2026-08-04T10:00:00Z",
    ))
    .unwrap();
    s.upsert_run(&run_full(
        3,
        "autarch/precious",
        "Lint",
        "completed",
        Some("success"),
        "2026-08-04T08:00:00Z",
    ))
    .unwrap();

    let out = summaries(&s, false);
    assert_eq!(out.len(), 1);
    assert_eq!(out[0].workflows.len(), 2);
    let names: Vec<_> = out[0]
        .workflows
        .iter()
        .map(|w| w.workflow_name.clone())
        .collect();
    assert_eq!(names, vec!["Lint".to_string(), "Run tests".to_string()]);
    let tests = out[0]
        .workflows
        .iter()
        .find(|w| w.workflow_name == "Run tests")
        .unwrap();
    assert_eq!(tests.health, Health::Success);
    assert_eq!(out[0].health, Health::Success);
}

#[test]
fn repo_health_is_the_worst_workflow_even_when_it_is_the_older_one() {
    let mut s = Store::open_in_memory().unwrap();
    s.upsert_repo("autarch/precious", "main").unwrap();
    // The failing workflow ran EARLIER than the passing one.
    s.upsert_run(&run_full(
        1,
        "autarch/precious",
        "Run tests",
        "completed",
        Some("failure"),
        "2026-08-04T09:00:00Z",
    ))
    .unwrap();
    s.upsert_run(&run_full(
        2,
        "autarch/precious",
        "Lint",
        "completed",
        Some("success"),
        "2026-08-04T11:00:00Z",
    ))
    .unwrap();

    let out = summaries(&s, false);
    assert_eq!(out[0].health, Health::Failure);
    // Repo time is the NEWEST run across workflows, regardless of health.
    assert_eq!(out[0].started_at, "2026-08-04T11:00:00Z");
}

#[test]
fn running_outranks_success_but_not_failure() {
    let mut s = Store::open_in_memory().unwrap();
    s.upsert_repo("a/one", "main").unwrap();
    s.upsert_run(&run_full(
        1,
        "a/one",
        "W1",
        "completed",
        Some("success"),
        "2026-08-04T09:00:00Z",
    ))
    .unwrap();
    s.upsert_run(&run_full(
        2,
        "a/one",
        "W2",
        "in_progress",
        None,
        "2026-08-04T10:00:00Z",
    ))
    .unwrap();
    assert_eq!(summaries(&s, false)[0].health, Health::Running);

    s.upsert_run(&run_full(
        3,
        "a/one",
        "W3",
        "completed",
        Some("failure"),
        "2026-08-04T08:00:00Z",
    ))
    .unwrap();
    assert_eq!(summaries(&s, false)[0].health, Health::Failure);
}

#[test]
fn store_repos_are_sorted_by_most_recent_activity() {
    let mut s = Store::open_in_memory().unwrap();
    for (i, (repo, started)) in [
        ("a/old", "2026-08-01T09:00:00Z"),
        ("a/newest", "2026-08-04T09:00:00Z"),
        ("a/middle", "2026-08-03T09:00:00Z"),
    ]
    .iter()
    .enumerate()
    {
        s.upsert_repo(repo, "main").unwrap();
        s.upsert_run(&run_full(
            i64::try_from(i).unwrap() + 1,
            repo,
            "W",
            "completed",
            Some("success"),
            started,
        ))
        .unwrap();
    }
    let names: Vec<_> = summaries(&s, false)
        .into_iter()
        .map(|r| r.full_name)
        .collect();
    assert_eq!(
        names,
        vec![
            "a/newest".to_string(),
            "a/middle".to_string(),
            "a/old".to_string()
        ]
    );
}

#[test]
fn repos_with_no_runs_do_not_appear() {
    let mut s = Store::open_in_memory().unwrap();
    s.upsert_repo("a/empty", "main").unwrap();
    assert!(summaries(&s, false).is_empty());
}

#[test]
fn ignored_repos_do_not_appear_in_summaries() {
    let mut s = Store::open_in_memory().unwrap();
    s.upsert_repo("a/kept", "main").unwrap();
    s.upsert_repo("a/hidden", "main").unwrap();
    s.upsert_run(&run_full(
        1,
        "a/kept",
        "W",
        "completed",
        Some("success"),
        "2026-08-04T09:00:00Z",
    ))
    .unwrap();
    s.upsert_run(&run_full(
        2,
        "a/hidden",
        "W",
        "completed",
        Some("success"),
        "2026-08-04T10:00:00Z",
    ))
    .unwrap();
    s.set_repo_ignored("a/hidden", true).unwrap();

    let names: Vec<_> = summaries(&s, false)
        .into_iter()
        .map(|r| r.full_name)
        .collect();
    assert_eq!(names, vec!["a/kept".to_string()]);
}

#[test]
fn failures_only_keeps_repos_whose_worst_workflow_failed() {
    let mut s = Store::open_in_memory().unwrap();
    s.upsert_repo("a/broken", "main").unwrap();
    s.upsert_repo("a/fine", "main").unwrap();
    s.upsert_repo("a/busy", "main").unwrap();
    s.upsert_run(&run_full(
        1,
        "a/broken",
        "W",
        "completed",
        Some("failure"),
        "2026-08-04T09:00:00Z",
    ))
    .unwrap();
    s.upsert_run(&run_full(
        2,
        "a/fine",
        "W",
        "completed",
        Some("success"),
        "2026-08-04T10:00:00Z",
    ))
    .unwrap();
    s.upsert_run(&run_full(
        3,
        "a/busy",
        "W",
        "in_progress",
        None,
        "2026-08-04T11:00:00Z",
    ))
    .unwrap();

    let names: Vec<_> = summaries(&s, true)
        .into_iter()
        .map(|r| r.full_name)
        .collect();
    assert_eq!(names, vec!["a/broken".to_string()]);
}

#[test]
fn summary_carries_the_fields_the_row_displays() {
    let mut s = Store::open_in_memory().unwrap();
    s.upsert_repo("a/one", "main").unwrap();
    s.upsert_run(&run_full(
        7,
        "a/one",
        "Run tests",
        "completed",
        Some("failure"),
        "2026-08-04T09:00:00Z",
    ))
    .unwrap();

    let w = &summaries(&s, false)[0].workflows[0];
    assert_eq!(w.branch, "main");
    assert_eq!(w.commit_subject, "Do a thing");
    assert_eq!(w.html_url, "https://github.com/a/one/actions/runs/7");
    assert_eq!(w.started_at, "2026-08-04T09:00:00Z");
}

#[test]
fn history_is_newest_first_per_workflow() {
    let mut s = Store::open_in_memory().unwrap();
    s.upsert_repo("a/one", "main").unwrap();
    s.upsert_run(&run_full(
        1,
        "a/one",
        "Run tests",
        "completed",
        Some("success"),
        "2026-08-04T09:00:00Z",
    ))
    .unwrap();
    s.upsert_run(&run_full(
        2,
        "a/one",
        "Run tests",
        "completed",
        Some("failure"),
        "2026-08-04T11:00:00Z",
    ))
    .unwrap();
    s.upsert_run(&run_full(
        3,
        "a/one",
        "Lint",
        "completed",
        Some("success"),
        "2026-08-04T10:00:00Z",
    ))
    .unwrap();

    let h = s.repo_history("a/one", 10).unwrap();
    let names: Vec<_> = h.iter().map(|w| w.workflow_name.clone()).collect();
    assert_eq!(names, vec!["Lint".to_string(), "Run tests".to_string()]);

    let tests = h.iter().find(|w| w.workflow_name == "Run tests").unwrap();
    assert_eq!(
        tests.runs.iter().map(|r| r.id).collect::<Vec<_>>(),
        vec![2, 1]
    );
}

#[test]
fn history_limit_applies_per_workflow_not_per_repo() {
    let mut s = Store::open_in_memory().unwrap();
    s.upsert_repo("a/one", "main").unwrap();
    for i in 1..=5 {
        s.upsert_run(&run_full(
            i,
            "a/one",
            "W1",
            "completed",
            Some("success"),
            &format!("2026-08-04T0{i}:00:00Z"),
        ))
        .unwrap();
        s.upsert_run(&run_full(
            i + 100,
            "a/one",
            "W2",
            "completed",
            Some("success"),
            &format!("2026-08-04T0{i}:30:00Z"),
        ))
        .unwrap();
    }
    let h = s.repo_history("a/one", 2).unwrap();
    assert_eq!(h.len(), 2);
    for w in &h {
        assert_eq!(
            w.runs.len(),
            2,
            "workflow {} should be capped at 2",
            w.workflow_name
        );
    }
}

#[test]
fn history_of_an_ignored_or_unknown_repo_is_empty() {
    let mut s = Store::open_in_memory().unwrap();
    s.upsert_repo("a/hidden", "main").unwrap();
    s.upsert_run(&run_full(
        1,
        "a/hidden",
        "W",
        "completed",
        Some("success"),
        "2026-08-04T09:00:00Z",
    ))
    .unwrap();
    s.set_repo_ignored("a/hidden", true).unwrap();

    assert!(s.repo_history("a/hidden", 10).unwrap().is_empty());
    assert!(s.repo_history("a/never-seen", 10).unwrap().is_empty());
}

#[test]
fn workflow_path_round_trips_and_reaches_summaries_and_history() {
    let mut s = Store::open_in_memory().unwrap();
    s.upsert_repo("a/one", "main").unwrap();
    s.upsert_run(&run_full(
        1,
        "a/one",
        "Run tests",
        "completed",
        Some("success"),
        "2026-08-04T09:00:00Z",
    ))
    .unwrap();

    assert_eq!(
        s.repo_summaries(false).unwrap()[0].workflows[0].workflow_path,
        Some(".github/workflows/lint.yml".to_string())
    );
    assert_eq!(
        s.repo_history("a/one", 10).unwrap()[0].runs[0].workflow_path,
        Some(".github/workflows/lint.yml".to_string())
    );
}

#[test]
fn runs_stored_before_the_migration_have_no_workflow_path() {
    let mut s = Store::open_in_memory().unwrap();
    s.upsert_repo("a/one", "main").unwrap();
    let mut r = run_full(
        1,
        "a/one",
        "W",
        "completed",
        Some("success"),
        "2026-08-04T09:00:00Z",
    );
    r.workflow_path = None;
    s.upsert_run(&r).unwrap();

    assert_eq!(
        s.repo_summaries(false).unwrap()[0].workflows[0].workflow_path,
        None
    );
}

#[test]
fn a_run_of_an_unknown_repository_is_refused() {
    let mut s = Store::open_in_memory().unwrap();
    let r = run_full(1, "a/none", "W", "queued", None, "2026-08-04T09:00:00Z");
    assert_eq!(
        s.upsert_run(&r).unwrap_err().message(),
        "FOREIGN KEY constraint failed"
    );
    s.upsert_repo("a/none", "main").unwrap();
    s.upsert_run(&r).unwrap();
    assert_eq!(s.repo_history("a/none", 10).unwrap().len(), 1);
}

#[test]
fn a_known_run_keeps_its_repository_and_workflow() {
    let mut s = Store::open_in_memory().unwrap();
    s.upsert_repo("a/one", "main").unwrap();
    s.upsert_run(&run_full(
        1,
        "a/one",
        "W",
        "queued",
        None,
        "2026-08-04T09:00:00Z",
    ))
    .unwrap();
    // The same ID under another repository, which is not even stored, updates in place.
    s.upsert_run(&run_full(
        1,
        "a/two",
        "V",
        "completed",
        Some("success"),
        "2026-08-04T10:00:00Z",
    ))
    .unwrap();
    let h = s.repo_history("a/one", 10).unwrap();
    assert_eq!(h[0].workflow_name, "W");
    assert_eq!(h[0].runs[0].repo_full_name, "a/one");
    assert_eq!(h[0].runs[0].status, "completed");
    assert_eq!(h[0].runs[0].started_at, "2026-08-04T10:00:00Z");
}

#[test]
fn an_override_needs_a_known_repository_and_other_updates_do_not() {
    let mut s = Store::open_in_memory().unwrap();
    assert_eq!(
        s.set_repo_override("a/none", Some("include"))
            .unwrap_err()
            .message(),
        "unknown repository: a/none"
    );
    s.set_repo_facts("a/none", true, None).unwrap();
    s.set_repo_decision("a/none", false, Some("glob")).unwrap();
    s.set_repo_ignored("a/none", true).unwrap();
    s.set_repo_etag("a/none", "x").unwrap();
    assert!(s.all_repo_names().unwrap().is_empty());
}

#[test]
fn facts_carry_the_override_and_whether_there_are_runs() {
    let mut s = Store::open_in_memory().unwrap();
    assert!(s.repo_facts("a/one").unwrap().is_none());
    s.upsert_repo("a/one", "main").unwrap();
    s.set_repo_facts("a/one", true, Some("2026-08-04T09:00:00Z"))
        .unwrap();
    s.set_repo_override("a/one", Some("include")).unwrap();
    let f = s.repo_facts("a/one").unwrap().unwrap();
    assert!(f.archived);
    assert_eq!(f.pushed_at.as_deref(), Some("2026-08-04T09:00:00Z"));
    assert_eq!(f.user_override.as_deref(), Some("include"));
    assert!(!f.has_runs);
    s.upsert_run(&run_full(
        1,
        "a/one",
        "W",
        "queued",
        None,
        "2026-08-04T09:00:00Z",
    ))
    .unwrap();
    assert!(s.repo_facts("a/one").unwrap().unwrap().has_runs);
}

#[test]
fn a_run_that_starts_at_the_cutoff_stays() {
    let mut s = Store::open_in_memory().unwrap();
    s.upsert_repo("a/one", "main").unwrap();
    for (id, started) in [(1, "2026-01-01"), (2, "2026-01-02"), (3, "2026-01-03")] {
        s.upsert_run(&run_full(id, "a/one", "W", "queued", None, started))
            .unwrap();
    }
    assert_eq!(s.prune_before("2026-01-02").unwrap(), 1);
    assert_eq!(s.prune_before("2026-01-02").unwrap(), 0);
    let ids: Vec<i64> = s.repo_history("a/one", 10).unwrap()[0]
        .runs
        .iter()
        .map(|r| r.id)
        .collect();
    assert_eq!(ids, vec![3, 2]);
}

#[test]
fn an_empty_history_limit_gives_an_empty_history() {
    let mut s = Store::open_in_memory().unwrap();
    s.upsert_repo("a/one", "main").unwrap();
    s.upsert_run(&run_full(
        1,
        "a/one",
        "W",
        "queued",
        None,
        "2026-08-04T09:00:00Z",
    ))
    .unwrap();
    assert!(s.repo_history("a/one", 0).unwrap().is_empty());
    assert_eq!(s.repo_history("a/one", usize::MAX).unwrap().len(), 1);
}

#[test]
fn rows_go_out_and_come_back() {
    let mut s = Store::open_in_memory().unwrap();
    s.upsert_repo("b/two", "main").unwrap();
    s.upsert_repo("a/one", "dev").unwrap();
    s.upsert_run(&run_full(
        5,
        "b/two",
        "W",
        "queued",
        None,
        "2026-08-04T09:00:00Z",
    ))
    .unwrap();
    s.upsert_run(&run_full(
        3,
        "a/one",
        "W",
        "queued",
        None,
        "2026-08-04T09:00:00Z",
    ))
    .unwrap();
    let (repos, runs) = s.rows();
    let names: Vec<&str> = repos.iter().map(|r| r.full_name.as_str()).collect();
    assert_eq!(names, vec!["a/one", "b/two"]);
    assert_eq!(runs.iter().map(|r| r.id).collect::<Vec<_>>(), vec![3, 5]);

    let back = Store::from_rows(repos.clone(), runs.clone()).unwrap();
    assert_eq!(back.active_repos().unwrap()[0].default_branch, "dev");
    assert_eq!(back.repo_summaries(false).unwrap().len(), 2);

    // Out of order, twice, or without its repository.
    assert!(Store::from_rows(repos.iter().rev().cloned().collect(), vec![]).is_none());
    assert!(Store::from_rows(
        vec![repos[0].clone(), repos[0].clone()],
        vec![]
    )
    .is_none());
    assert!(Store::from_rows(
        vec![repos[0].clone()],
        vec![runs[0].clone(), runs[0].clone()]
    )
    .is_none());
    assert!(Store::from_rows(vec![repos[0].clone()], vec![runs[1].clone()]).is_none());
    assert!(Store::from_rows(vec![], vec![]).is_some());
}

#[test]
fn changes_are_what_differs() {
    let mut s = Store::open_in_memory().unwrap();
    for name in ["a/one", "b/two", "c/three"] {
        s.upsert_repo(name, "main").unwrap();
    }
    for (id, started) in [(1, "2026-01-01"), (2, "2026-02-01"), (3, "2026-03-01")] {
        s.upsert_run(&run_full(id, "a/one", "W", "queued", None, started))
            .unwrap();
    }
    let before = s.snapshot();
    let none = s.changes_since(&before);
    assert!(none.repos.is_empty() && none.runs.is_empty() && none.dropped.is_empty());

    s.upsert_repo("b/two", "main").unwrap();
    s.set_repo_etag("c/three", "x").unwrap();
    s.upsert_repo("a/new", "main").unwrap();
    s.prune_before("2026-01-15").unwrap();
    s.upsert_run(&run_full(2, "a/one", "W", "queued", None, "2026-02-01"))
        .unwrap();
    s.upsert_run(&run_full(
        3,
        "a/one",
        "W",
        "completed",
        Some("success"),
        "2026-03-01",
    ))
    .unwrap();
    s.upsert_run(&run_full(9, "a/new", "W", "queued", None, "2026-04-01"))
        .unwrap();
    let c = s.changes_since(&before);
    let names: Vec<&str> = c.repos.iter().map(|r| r.full_name.as_str()).collect();
    assert_eq!(names, vec!["a/new", "c/three"]);
    assert_eq!(c.repos[1].etag.as_deref(), Some("x"));
    assert_eq!(c.runs.iter().map(|r| r.id).collect::<Vec<_>>(), vec![3, 9]);
    assert_eq!(c.runs[0].conclusion.as_deref(), Some("success"));
    assert_eq!(c.dropped, vec![1]);
}

#[test]
fn the_worse_of_two_states_is_the_larger_one() {
    let all = [
        Health::Success,
        Health::Neutral,
        Health::Running,
        Health::Failure,
    ];
    for a in all {
        for b in all {
            assert_eq!(a.worse(b), a.max(b));
        }
    }
}

/// Rows in an order that depends on `seed`, with ties in every key.
fn scattered(seed: u64) -> Vec<StoredRun> {
    let mut state = seed;
    let mut next = |n: u64| -> u64 {
        state = state
            .wrapping_mul(6364136223846793005)
            .wrapping_add(1442695040888963407);
        (state >> 33) % n
    };
    (0..60)
        .map(|_| {
            let id = next(40) as i64 - 10;
            let repo = format!("r/{}", next(5));
            let workflow = ["Lint", "Tests", "lint", "é", ""][next(5) as usize];
            let status = ["completed", "queued"][next(2) as usize];
            let conclusion = [Some("success"), Some("failure"), Some("skipped"), None]
                [next(4) as usize];
            let started = format!("2026-08-0{}T00:00:00Z", next(4) + 1);
            run_full(id, &repo, workflow, status, conclusion, &started)
        })
        .collect()
}

/// The same rows in a database, asked in SQL.
#[test]
fn reports_agree_with_a_database() {
    for seed in 0..20u64 {
        let conn = rusqlite::Connection::open_in_memory().unwrap();
        conn.execute_batch(
            "PRAGMA foreign_keys = ON;
             CREATE TABLE repos (full_name TEXT PRIMARY KEY, ignored INTEGER NOT NULL);
             CREATE TABLE runs (id INTEGER PRIMARY KEY,
                 repo TEXT NOT NULL REFERENCES repos(full_name), workflow TEXT NOT NULL,
                 status TEXT NOT NULL, conclusion TEXT, started TEXT NOT NULL);",
        )
        .unwrap();
        let mut s = Store::open_in_memory().unwrap();
        for i in 0..4 {
            let name = format!("r/{i}");
            s.upsert_repo(&name, "main").unwrap();
            s.set_repo_ignored(&name, i == 2).unwrap();
            conn.execute(
                "INSERT INTO repos VALUES (?1, ?2)",
                (&name, i == 2),
            )
            .unwrap();
        }
        for r in scattered(seed) {
            let kept = s.upsert_run(&r).is_ok();
            let stored = conn
                .execute(
                    "INSERT INTO runs VALUES (?1, ?2, ?3, ?4, ?5, ?6)
                     ON CONFLICT(id) DO UPDATE SET status = excluded.status,
                         conclusion = excluded.conclusion, started = excluded.started",
                    (
                        r.id,
                        &r.repo_full_name,
                        &r.workflow_name,
                        &r.status,
                        &r.conclusion,
                        &r.started_at,
                    ),
                )
                .is_ok();
            assert_eq!(kept, stored);
        }

        for repo in ["r/0", "r/1", "r/2", "r/3", "r/4"] {
            for cap in [1usize, 2, 10] {
                let mut stmt = conn
                    .prepare(
                        "SELECT id FROM (SELECT runs.*, ROW_NUMBER() OVER (
                             PARTITION BY workflow ORDER BY started DESC, id DESC) AS rn
                         FROM runs JOIN repos ON repos.full_name = runs.repo
                         WHERE repos.ignored = 0 AND runs.repo = ?1)
                         WHERE rn <= ?2 ORDER BY workflow, started DESC, id DESC",
                    )
                    .unwrap();
                let expected: Vec<i64> = stmt
                    .query_map((repo, cap as i64), |row| row.get(0))
                    .unwrap()
                    .map(|id| id.unwrap())
                    .collect();
                let got: Vec<i64> = s
                    .repo_history(repo, cap)
                    .unwrap()
                    .iter()
                    .flat_map(|w| w.runs.iter().map(|r| r.id))
                    .collect();
                assert_eq!(got, expected, "{repo} {cap} {seed}");
            }
        }

        let mut stmt = conn
            .prepare(
                "SELECT repo, MAX(started) AS newest FROM (SELECT runs.*, ROW_NUMBER() OVER (
                     PARTITION BY repo, workflow ORDER BY started DESC, id DESC) AS rn
                 FROM runs JOIN repos ON repos.full_name = runs.repo WHERE repos.ignored = 0)
                 WHERE rn = 1 GROUP BY repo ORDER BY newest DESC, repo",
            )
            .unwrap();
        let expected: Vec<(String, String)> = stmt
            .query_map([], |row| Ok((row.get(0)?, row.get(1)?)))
            .unwrap()
            .map(|r| r.unwrap())
            .collect();
        let got: Vec<(String, String)> = summaries(&s, false)
            .into_iter()
            .map(|r| (r.full_name, r.started_at))
            .collect();
        assert_eq!(got, expected, "{seed}");

        for m in s.managed_repos().unwrap() {
            let n: i64 = conn
                .query_row(
                    "SELECT count(*) FROM runs WHERE repo = ?1",
                    [&m.full_name],
                    |row| row.get(0),
                )
                .unwrap();
            assert_eq!(m.run_count as i64, n);
        }
        let cutoff = "2026-08-03T00:00:00Z";
        let removed = conn
            .execute("DELETE FROM runs WHERE started < ?1", [cutoff])
            .unwrap();
        assert_eq!(s.prune_before(cutoff).unwrap(), removed);
    }
}
