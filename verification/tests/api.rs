use gh_web_dash::clock::Timestamp;
use gh_web_dash::config::Config;
use gh_web_dash::server::{
    history, managed, override_unstored, repos, set_override, status, HistoryParams, ManagedResponse, OverrideBody,
    ReposParams,
};
use gh_web_dash::store::{Health, ManagedRepo, Store, StoredRun};
use gh_web_dash::sync::SyncState;

fn run(
    id: i64,
    repo: &str,
    workflow: &str,
    status: &str,
    conclusion: Option<&str>,
    started: &str,
) -> StoredRun {
    StoredRun {
        id,
        repo_full_name: repo.into(),
        workflow_name: workflow.into(),
        branch: "main".into(),
        actor: "autarch".into(),
        status: status.into(),
        conclusion: conclusion.map(std::string::ToString::to_string),
        commit_sha: "abc123".into(),
        commit_subject: "Do a thing".into(),
        html_url: format!("https://github.com/{repo}/actions/runs/{id}"),
        started_at: started.into(),
        workflow_path: Some(".github/workflows/lint.yml".to_string()),
    }
}

fn seeded_store() -> Store {
    let mut store = Store::open_in_memory().unwrap();
    for repo in ["autarch/precious", "autarch/ubi"] {
        store.upsert_repo(repo, "main").unwrap();
    }
    // precious: two workflows, one failing, newest activity
    // ubi: one workflow, healthy, older
    for r in [
        run(
            1,
            "autarch/precious",
            "Run tests",
            "completed",
            Some("success"),
            "2026-08-04T09:00:00Z",
        ),
        run(
            2,
            "autarch/precious",
            "Run tests",
            "completed",
            Some("failure"),
            "2026-08-04T11:00:00Z",
        ),
        run(
            3,
            "autarch/precious",
            "Lint",
            "completed",
            Some("success"),
            "2026-08-04T10:00:00Z",
        ),
        run(
            4,
            "autarch/ubi",
            "Run tests",
            "completed",
            Some("success"),
            "2026-08-04T08:00:00Z",
        ),
    ] {
        store.upsert_run(&r).unwrap();
    }
    store
}

fn now() -> Timestamp {
    Timestamp::parse("2026-08-05T00:00:00Z").unwrap()
}

fn names(store: &Store, failures_only: Option<bool>) -> Vec<String> {
    repos(store, &ReposParams { failures_only })
        .unwrap()
        .repos
        .into_iter()
        .map(|r| r.full_name)
        .collect()
}

fn put(store: &mut Store, repo: &str, value: Option<&str>) -> Result<ManagedResponse, u16> {
    let cfg = Config::from_toml("").unwrap();
    let body = OverrideBody {
        repo: repo.to_string(),
        value: value.map(std::string::ToString::to_string),
    };
    set_override(store, &cfg, &body, now())
}

fn row(rows: &[ManagedRepo], name: &str) -> ManagedRepo {
    rows.iter().find(|r| r.full_name == name).unwrap().clone()
}

#[test]
fn api_repos_are_sorted_by_most_recent_activity() {
    assert_eq!(
        names(&seeded_store(), None),
        vec!["autarch/precious", "autarch/ubi"]
    );
}

#[test]
fn repo_carries_workflows_and_rolled_up_health() {
    let v = repos(&seeded_store(), &ReposParams::default()).unwrap();
    let precious = &v.repos[0];
    assert_eq!(precious.health, Health::Failure);
    let wfs = &precious.workflows;
    assert_eq!(wfs.len(), 2);
    let names: Vec<&str> = wfs.iter().map(|w| w.workflow_name.as_str()).collect();
    assert_eq!(names, vec!["Lint", "Run tests"]);
    let tests = wfs
        .iter()
        .find(|w| w.workflow_name == "Run tests")
        .unwrap();
    assert_eq!(tests.health, Health::Failure);
    assert_eq!(tests.branch, "main");
}

#[test]
fn failures_only_filters_repos() {
    let store = seeded_store();
    assert_eq!(names(&store, Some(true)), vec!["autarch/precious"]);
    assert_eq!(names(&store, Some(false)).len(), 2);
}

#[test]
fn history_returns_each_workflow_newest_first() {
    let params = HistoryParams {
        repo: "autarch/precious".to_string(),
    };
    let wfs = history(&seeded_store(), &params).unwrap().workflows;
    assert_eq!(wfs.len(), 2);
    let tests = wfs
        .iter()
        .find(|w| w.workflow_name == "Run tests")
        .unwrap();
    let ids: Vec<i64> = tests.runs.iter().map(|r| r.id).collect();
    assert_eq!(ids, vec![2, 1]);
}

#[test]
fn history_of_an_unknown_repo_is_empty_not_an_error() {
    let params = HistoryParams {
        repo: "autarch/nope".to_string(),
    };
    assert!(history(&seeded_store(), &params)
        .unwrap()
        .workflows
        .is_empty());
}

#[test]
fn a_history_strip_holds_ten_runs() {
    let mut store = seeded_store();
    for i in 0..12 {
        store
            .upsert_run(&run(
                100 + i,
                "autarch/ubi",
                "Long",
                "completed",
                Some("success"),
                "2026-08-04T09:00:00Z",
            ))
            .unwrap();
    }
    let params = HistoryParams {
        repo: "autarch/ubi".to_string(),
    };
    let wfs = history(&store, &params).unwrap().workflows;
    let ids: Vec<i64> = wfs[0].runs.iter().map(|r| r.id).collect();
    assert_eq!(ids, (102..112).rev().collect::<Vec<i64>>());
}

#[test]
fn status_reports_sync_state() {
    let v = status(&SyncState::default());
    assert_eq!(v.error_count, 0);
    assert!(v.last_success.is_none());
    // Null when no cycle is running: the page keys off this.
    assert!(v.progress.is_none());
}

#[test]
fn managed_lists_every_repo_included_or_not() {
    let mut store = seeded_store();
    store.upsert_repo("autarch/quiet", "main").unwrap();
    store
        .set_repo_decision("autarch/quiet", false, Some("stale"))
        .unwrap();

    let rows = managed(&store).unwrap().repos;

    // Skipped repos appear too: the point of the page is explaining absences.
    let names: Vec<&str> = rows.iter().map(|r| r.full_name.as_str()).collect();
    assert!(names.contains(&"autarch/quiet"), "got: {names:?}");

    let quiet = row(&rows, "autarch/quiet");
    assert!(!quiet.included);
    assert_eq!(quiet.skip_reason.as_deref(), Some("stale"));
    assert_eq!(quiet.run_count, 0);

    let precious = row(&rows, "autarch/precious");
    assert!(precious.included);
    assert_eq!(precious.run_count, 3);
}

#[test]
fn muting_takes_effect_immediately() {
    let mut store = seeded_store();
    let v = put(&mut store, "autarch/precious", Some("exclude")).unwrap();

    // The response already reflects the re-evaluation: no waiting for discovery.
    let precious = row(&v.repos, "autarch/precious");
    assert!(!precious.included);
    assert_eq!(precious.skip_reason.as_deref(), Some("muted"));
    assert_eq!(precious.user_override.as_deref(), Some("exclude"));

    // And it is really gone from the dashboard, not just relabelled.
    assert!(store
        .repo_summaries(false)
        .unwrap()
        .iter()
        .all(|r| r.full_name != "autarch/precious"));
}

#[test]
fn clearing_an_override_restores_the_automatic_answer() {
    for clear in [None, Some("")] {
        let mut store = seeded_store();
        put(&mut store, "autarch/precious", Some("exclude")).unwrap();
        let v = put(&mut store, "autarch/precious", clear).unwrap();

        let precious = row(&v.repos, "autarch/precious");
        assert!(precious.included);
        assert!(precious.user_override.is_none());
        assert!(precious.skip_reason.is_none());
    }
}

#[test]
fn an_unknown_override_value_is_rejected() {
    let mut store = seeded_store();
    assert_eq!(
        put(&mut store, "autarch/precious", Some("maybe")).unwrap_err(),
        400
    );
    assert!(row(&managed(&store).unwrap().repos, "autarch/precious").included);
}

#[test]
fn overriding_an_unknown_repo_is_not_found() {
    let mut store = seeded_store();
    assert_eq!(
        put(&mut store, "autarch/never-heard-of-it", Some("exclude")).unwrap_err(),
        404
    );
    // The value is looked at first.
    assert_eq!(
        put(&mut store, "autarch/never-heard-of-it", Some("maybe")).unwrap_err(),
        400
    );
}

#[test]
fn an_override_under_globs_that_cannot_be_used_is_a_server_error() {
    let mut store = seeded_store();
    let cfg = Config::from_toml(r#"ignore = ["["]"#).unwrap();
    let body = OverrideBody {
        repo: "autarch/ubi".to_string(),
        value: Some("exclude".to_string()),
    };
    assert_eq!(
        set_override(&mut store, &cfg, &body, now()).unwrap_err(),
        500
    );
    let ubi = row(&managed(&store).unwrap().repos, "autarch/ubi");
    assert_eq!(ubi.user_override.as_deref(), Some("exclude"));
    assert!(ubi.included);
}

#[test]
fn including_anyway_outranks_a_glob() {
    let mut store = seeded_store();
    let cfg = Config::from_toml(r#"ignore = ["autarch/*"]"#).unwrap();
    let body = OverrideBody {
        repo: "autarch/ubi".to_string(),
        value: Some("include".to_string()),
    };
    let v = set_override(&mut store, &cfg, &body, now()).unwrap();
    assert!(row(&v.repos, "autarch/ubi").included);
}

#[test]
fn an_override_that_cannot_be_stored_finds_no_repository() {
    for (value, expected) in [
        (None, 404),
        (Some(""), 404),
        (Some("exclude"), 404),
        (Some("maybe"), 400),
    ] {
        let body = OverrideBody {
            repo: "autarch/ubi".to_string(),
            value: value.map(std::string::ToString::to_string),
        };
        assert_eq!(override_unstored(&body), expected);
    }
}
