use gh_web_dash::clock::Timestamp;
use gh_web_dash::config::Config;
use gh_web_dash::github::{
    Actor, Client, Commit, GithubError, ReplyHead, Repo, Run, RunsResponse,
};
use gh_web_dash::inclusion::{Decision, SkipReason};
use gh_web_dash::store::{Store, StoredRepo};
use gh_web_dash::sync::{
    apply_decision, discover_repos, discovery_due, effective_interval, record_decision,
    store_runs, sync_runs, SyncProgress, SyncState, SyncStatus,
};

fn now() -> Timestamp {
    Timestamp::parse("2026-08-05T00:00:00Z").unwrap()
}

fn client() -> Client {
    Client::new("https://api.test".to_string(), "t".to_string())
}

fn run(id: i64, branch: &str, login: &str, actor_type: &str) -> Run {
    Run {
        id,
        workflow_id: None,
        workflow_name: "test.yml".into(),
        path: Some(".github/workflows/test.yml".into()),
        head_branch: branch.into(),
        status: "completed".into(),
        conclusion: Some("success".into()),
        head_sha: "abc123".into(),
        html_url: format!("https://github.com/autarch/a/actions/runs/{id}"),
        run_started_at: Some("2026-08-04T10:00:00Z".into()),
        updated_at: "2026-08-04T10:05:00Z".into(),
        actor: Actor {
            login: login.into(),
            actor_type: actor_type.into(),
        },
        head_commit: Some(Commit {
            message: "Do a thing".into(),
        }),
    }
}

/// What comes of asking about a repository, given the status, the ETag and the runs.
fn answer(
    full_name: &str,
    status: u16,
    etag: Option<&str>,
    runs: Vec<Run>,
) -> Result<RunsResponse, GithubError> {
    let head = ReplyHead {
        status,
        etag: etag.map(str::to_string),
        rate_limit_remaining: None,
    };
    client().list_runs(full_name, &head, runs)
}

/// One whole pass. `respond` answers for each repository.
fn pass(
    store: &mut Store,
    state: &mut SyncState,
    respond: impl Fn(&str) -> Result<RunsResponse, GithubError>,
) -> Vec<(usize, usize)> {
    let mut seen = Vec::new();
    let repos = store.active_repos().map_err(|e| e.message());
    let mut cycle = sync_runs(repos, state).unwrap();
    while cycle.request(&client(), store).is_some() {
        let p = state.snapshot().progress.unwrap();
        seen.push((p.done, p.total));
        let name = cycle.repos[cycle.next].full_name.clone();
        cycle.receive(store, state, "autarch", respond(&name));
    }
    let p = state.snapshot().progress.unwrap();
    seen.push((p.done, p.total));
    cycle.finish(store, state, now());
    seen
}

fn all_run_ids(store: &Store) -> Vec<i64> {
    let mut ids: Vec<i64> = store
        .active_repos()
        .unwrap()
        .into_iter()
        .flat_map(|r| store.repo_history(&r.full_name, 100).unwrap())
        .flat_map(|h| h.runs)
        .map(|r| r.id)
        .collect();
    ids.sort_unstable();
    ids
}

fn repo(full_name: &str) -> Repo {
    Repo {
        full_name: full_name.to_string(),
        default_branch: "main".to_string(),
        archived: false,
        pushed_at: None,
    }
}

fn active(store: &Store) -> Vec<String> {
    store
        .active_repos()
        .unwrap()
        .into_iter()
        .map(|r| r.full_name)
        .collect()
}

#[test]
fn progress_is_cleared_when_a_cycle_ends() {
    let mut store = Store::open_in_memory().unwrap();
    store.upsert_repo("autarch/a", "main").unwrap();
    let mut state = SyncState::default();

    assert!(state.snapshot().progress.is_none(), "idle before the cycle");
    pass(&mut store, &mut state, |name| {
        answer(name, 200, None, vec![run(1, "main", "autarch", "User")])
    });
    assert!(
        state.snapshot().progress.is_none(),
        "idle again after the cycle"
    );
}

#[test]
fn progress_counts_every_repo_including_failures() {
    let mut store = Store::open_in_memory().unwrap();
    store.upsert_repo("autarch/ok", "main").unwrap();
    store.upsert_repo("autarch/gone", "main").unwrap();
    let mut state = SyncState::default();

    let seen = pass(&mut store, &mut state, |name| {
        if name == "autarch/ok" {
            answer(name, 200, None, vec![run(1, "main", "autarch", "User")])
        } else {
            answer(name, 404, None, vec![])
        }
    });
    assert_eq!(seen, vec![(0, 2), (1, 2), (2, 2)]);
}

#[test]
fn stores_kept_runs_and_drops_bot_runs() {
    let mut store = Store::open_in_memory().unwrap();
    store.upsert_repo("autarch/a", "main").unwrap();
    store.upsert_repo("autarch/b", "main").unwrap();
    let mut state = SyncState::default();

    pass(&mut store, &mut state, |name| {
        if name == "autarch/a" {
            answer(name, 200, None, vec![run(1, "main", "autarch", "User")])
        } else {
            let bot = run(2, "dependabot/x", "dependabot[bot]", "Bot");
            answer(name, 200, None, vec![bot])
        }
    });

    let ids = all_run_ids(&store);
    assert_eq!(ids, vec![1]);
    assert_eq!(state.snapshot().error_count, 0);
    let h = store.repo_history("autarch/a", 10).unwrap();
    let stored = &h[0].runs[0];
    assert_eq!(stored.commit_subject, "Do a thing");
    assert_eq!(stored.started_at, "2026-08-04T10:00:00Z");
    assert_eq!(
        stored.workflow_path.as_deref(),
        Some(".github/workflows/test.yml")
    );
}

#[test]
fn all_repos_failing_leaves_last_success_unset() {
    let mut store = Store::open_in_memory().unwrap();
    store.upsert_repo("autarch/gone", "main").unwrap();
    let mut state = SyncState::default();

    pass(&mut store, &mut state, |name| answer(name, 500, None, vec![]));

    assert_eq!(state.snapshot().last_success, None);
    assert_eq!(state.snapshot().error_count, 1);
    assert_eq!(
        state.snapshot().last_error.as_deref(),
        Some("autarch/gone: HTTP 500 from https://api.test/repos/autarch/gone/actions/runs")
    );
}

#[test]
fn one_failing_repo_does_not_stop_the_cycle() {
    let mut store = Store::open_in_memory().unwrap();
    store.upsert_repo("autarch/gone", "main").unwrap();
    store.upsert_repo("autarch/ok", "main").unwrap();
    let mut state = SyncState::default();

    pass(&mut store, &mut state, |name| {
        if name == "autarch/ok" {
            answer(name, 200, None, vec![run(7, "main", "autarch", "User")])
        } else {
            answer(name, 404, None, vec![])
        }
    });

    let ids = all_run_ids(&store);
    assert_eq!(ids, vec![7]);
    assert_eq!(state.snapshot().error_count, 1);
    assert_eq!(
        state.snapshot().last_success.as_deref(),
        Some("2026-08-05T00:00:00+00:00")
    );
}

#[test]
fn stores_etag_and_sends_it_next_time() {
    let mut store = Store::open_in_memory().unwrap();
    store.upsert_repo("autarch/a", "main").unwrap();
    let mut state = SyncState::default();

    pass(&mut store, &mut state, |name| {
        answer(
            name,
            200,
            Some("W/\"abc\""),
            vec![run(1, "main", "autarch", "User")],
        )
    });
    assert_eq!(
        store.repo_etag("autarch/a").unwrap(),
        Some("W/\"abc\"".to_string())
    );

    let repos = store.active_repos().map_err(|e| e.message());
    let cycle = sync_runs(repos, &mut state).unwrap();
    let req = cycle.request(&client(), &store).unwrap();
    assert!(req
        .headers
        .contains(&("if-none-match".to_string(), "W/\"abc\"".to_string())));
}

#[test]
fn discovery_marks_ignored_repos() {
    let mut store = Store::open_in_memory().unwrap();
    let cfg = Config::from_toml(r#"ignore = ["autarch/old-*"]"#).unwrap();
    let repos = vec![repo("autarch/precious"), repo("autarch/old-junk")];

    discover_repos(&mut store, &cfg, &repos, now()).unwrap();

    assert_eq!(active(&store), vec!["autarch/precious".to_string()]);
    let managed = store.managed_repos().unwrap();
    assert_eq!(managed[0].full_name, "autarch/old-junk");
    assert_eq!(managed[0].skip_reason.as_deref(), Some("glob"));
}

#[test]
fn discovery_ignores_repos_no_longer_returned() {
    let mut store = Store::open_in_memory().unwrap();
    // Simulate a repo stored from an earlier cycle that has since vanished
    // (deleted, or access revoked).
    store.upsert_repo("autarch/vanished", "main").unwrap();
    let cfg = Config::from_toml("").unwrap();

    discover_repos(&mut store, &cfg, &vec![repo("autarch/precious")], now()).unwrap();

    assert_eq!(active(&store), vec!["autarch/precious".to_string()]);
    let managed = store.managed_repos().unwrap();
    assert_eq!(managed[1].skip_reason.as_deref(), Some("gone"));
}

#[test]
fn discovery_keeps_an_override() {
    let mut store = Store::open_in_memory().unwrap();
    store.upsert_repo("a/muted", "main").unwrap();
    store.set_repo_override("a/muted", Some("exclude")).unwrap();
    let cfg = Config::from_toml("").unwrap();
    discover_repos(&mut store, &cfg, &vec![repo("a/muted")], now()).unwrap();
    assert!(active(&store).is_empty());
    let m = &store.managed_repos().unwrap()[0];
    assert_eq!(m.skip_reason.as_deref(), Some("muted"));
    assert_eq!(m.user_override.as_deref(), Some("exclude"));
}

#[test]
fn discovery_skips_archived_and_dormant_repositories() {
    let mut store = Store::open_in_memory().unwrap();
    let cfg = Config::from_toml("").unwrap();
    let mut archived = repo("a/archived");
    archived.archived = true;
    let mut dormant = repo("a/dormant");
    dormant.pushed_at = Some("2020-01-01T00:00:00Z".to_string());
    let mut fresh = repo("a/fresh");
    fresh.pushed_at = Some("2026-08-01T00:00:00Z".to_string());
    discover_repos(&mut store, &cfg, &vec![archived, dormant, fresh], now()).unwrap();
    assert_eq!(active(&store), vec!["a/fresh".to_string()]);
    let reasons: Vec<Option<String>> = store
        .managed_repos()
        .unwrap()
        .into_iter()
        .map(|m| m.skip_reason)
        .collect();
    assert_eq!(
        reasons,
        vec![Some("archived".to_string()), Some("stale".to_string()), None]
    );
}

#[test]
fn discovery_with_globs_that_cannot_be_used_stops_at_once() {
    let mut store = Store::open_in_memory().unwrap();
    let cfg = Config::from_toml(r#"ignore = ["a/["]"#).unwrap();
    let err = discover_repos(&mut store, &cfg, &vec![repo("a/one"), repo("a/two")], now())
        .unwrap_err();
    assert_eq!(err.message(), "invalid ignore glob: a/[");
    assert_eq!(store.all_repo_names().unwrap(), vec!["a/one".to_string()]);
    assert!(discover_repos(&mut store, &cfg, &vec![], now()).is_ok());
    assert!(active(&store).is_empty());
}

#[test]
fn a_decision_needs_a_known_repository() {
    let mut store = Store::open_in_memory().unwrap();
    let cfg = Config::from_toml("").unwrap();
    let err = apply_decision(&mut store, &cfg, "a/none", now()).unwrap_err();
    assert_eq!(err.message(), "unknown repository: a/none");
    store.upsert_repo("a/none", "main").unwrap();
    assert_eq!(
        apply_decision(&mut store, &cfg, "a/none", now()).unwrap(),
        Decision::Included
    );
    record_decision(&mut store, "a/none", Decision::Skipped(SkipReason::Stale));
    assert!(active(&store).is_empty());
}

#[test]
fn a_rejected_token_says_how_to_refresh_it() {
    let mut store = Store::open_in_memory().unwrap();
    store.upsert_repo("a/one", "main").unwrap();
    let mut state = SyncState::default();
    pass(&mut store, &mut state, |name| answer(name, 401, None, vec![]));
    assert_eq!(
        state.snapshot().last_error.as_deref(),
        Some("GitHub rejected the token — run `gh auth login` to refresh it")
    );
}

#[test]
fn a_run_that_cannot_be_stored_is_counted() {
    let mut store = Store::open_in_memory().unwrap();
    let mut state = SyncState::default();
    let unknown = StoredRepo {
        full_name: "a/none".to_string(),
        default_branch: "main".to_string(),
    };
    store_runs(
        &mut store,
        &mut state,
        &unknown,
        "autarch",
        &vec![run(-5, "main", "autarch", "User")],
    );
    assert_eq!(state.snapshot().error_count, 1);
    assert_eq!(
        state.snapshot().last_error.as_deref(),
        Some("failed to store run -5: FOREIGN KEY constraint failed")
    );
}

#[test]
fn repositories_that_cannot_be_read_are_an_error() {
    let mut state = SyncState::default();
    assert!(sync_runs(Err("disk full".to_string()), &mut state).is_none());
    let s = state.snapshot();
    assert_eq!(s.error_count, 1);
    assert_eq!(
        s.last_error.as_deref(),
        Some("cannot read repositories: disk full")
    );
    assert!(s.progress.is_none());
}

#[test]
fn a_pass_drops_runs_after_thirty_days() {
    let mut store = Store::open_in_memory().unwrap();
    store.upsert_repo("a/one", "main").unwrap();
    let mut state = SyncState::default();
    let mut old = run(1, "main", "autarch", "User");
    old.run_started_at = Some("2026-07-05T23:59:59Z".to_string());
    let mut young = run(2, "main", "autarch", "User");
    young.run_started_at = Some("2026-07-06T00:00:01Z".to_string());
    let runs = vec![old, young];
    pass(&mut store, &mut state, |name| {
        answer(name, 200, None, runs.clone())
    });
    assert_eq!(all_run_ids(&store), vec![2]);
}

#[test]
fn the_end_of_a_pass_goes_by_the_texts_that_are_handed_in() {
    let mut store = Store::open_in_memory().unwrap();
    store.upsert_repo("a/one", "main").unwrap();
    let mut state = SyncState::default();
    let repos = store.active_repos().map_err(|e| e.message());
    let mut cycle = sync_runs(repos, &mut state).unwrap();
    let resp = RunsResponse {
        runs: vec![run(1, "main", "autarch", "User")],
        etag: None,
        not_modified: false,
        rate_limit_remaining: Some(77),
    };
    cycle.receive(&mut store, &mut state, "autarch", Ok(resp));
    assert!(cycle.any_success);
    cycle.finish_at(
        &mut store,
        &mut state,
        Some("2027".to_string()),
        Some("then".to_string()),
    );
    assert!(all_run_ids(&store).is_empty());
    assert_eq!(state.snapshot().last_success.as_deref(), Some("then"));
    assert_eq!(state.snapshot().rate_limit_remaining, Some(77));
}

#[test]
fn an_answer_that_cannot_be_stored_counts_its_kept_runs() {
    let mut store = Store::open_in_memory().unwrap();
    store.upsert_repo("a/one", "main").unwrap();
    store.upsert_repo("a/two", "main").unwrap();
    let mut state = SyncState::default();
    let repos = store.active_repos().map_err(|e| e.message());
    let mut cycle = sync_runs(repos, &mut state).unwrap();
    let runs = vec![
        run(1, "main", "autarch", "User"),
        run(2, "main", "app[bot]", "Bot"),
        run(3, "main", "someone", "User"),
    ];
    let resp = answer("a/one", 200, Some("x"), runs);
    cycle.receive_unstored(&mut state, "autarch", resp, "disk full");
    assert_eq!(state.snapshot().error_count, 2);
    assert_eq!(
        state.snapshot().last_error.as_deref(),
        Some("failed to store run 3: disk full")
    );
    let p = state.snapshot().progress.unwrap();
    assert_eq!((p.done, p.total), (1, 2));
    cycle.receive_unstored(
        &mut state,
        "autarch",
        answer("a/two", 404, None, vec![]),
        "disk full",
    );
    assert_eq!(
        state.snapshot().last_error.as_deref(),
        Some("a/two: HTTP 404 from https://api.test/repos/a/two/actions/runs")
    );
    assert!(cycle.request(&client(), &store).is_none());

    // The pass is a success all the same: an answer came.
    cycle.end(&mut state, Some("then".to_string()));
    assert_eq!(state.snapshot().last_success.as_deref(), Some("then"));
    assert!(state.snapshot().progress.is_none());
    assert_eq!(store.repo_etag("a/one").unwrap(), None);
}

#[test]
fn the_error_names_the_first_pattern_that_is_no_glob() {
    let mut store = Store::open_in_memory().unwrap();
    store.upsert_repo("a/one", "main").unwrap();
    let cfg = Config::from_toml(r#"ignore = ["ok/*", "x/[", "y/["]"#).unwrap();
    let err = apply_decision(&mut store, &cfg, "a/one", now()).unwrap_err();
    assert_eq!(err.message(), "invalid ignore glob: x/[");
}

#[test]
fn errors_start_from_zero_in_each_pass_and_the_message_stays() {
    let mut store = Store::open_in_memory().unwrap();
    store.upsert_repo("a/one", "main").unwrap();
    let mut state = SyncState::default();
    pass(&mut store, &mut state, |name| answer(name, 500, None, vec![]));
    assert_eq!(state.snapshot().error_count, 1);
    pass(&mut store, &mut state, |name| answer(name, 304, None, vec![]));
    assert_eq!(state.snapshot().error_count, 0);
    assert!(state.snapshot().last_error.is_some());
    assert!(state.snapshot().last_success.is_some());
}

#[test]
fn poll_interval_is_recorded_for_the_status_endpoint() {
    let mut state = SyncState::default();
    assert_eq!(state.snapshot().poll_interval_secs, None);
    state.record_poll_interval(600);
    assert_eq!(state.snapshot().poll_interval_secs, Some(600));
}

#[test]
fn poll_interval_doubles_when_rate_limit_is_low() {
    assert_eq!(effective_interval(180, Some(4000)), 180);
    assert_eq!(effective_interval(180, Some(499)), 360);
    assert_eq!(effective_interval(180, None), 180);
}

#[test]
fn the_rate_limit_floor_itself_is_not_low() {
    assert_eq!(effective_interval(180, Some(500)), 180);
    assert_eq!(effective_interval(180, Some(-1)), 360);
}

#[test]
fn discovery_is_due_at_first_and_then_every_hour() {
    assert!(discovery_due(None));
    assert!(!discovery_due(Some(3599)));
    assert!(discovery_due(Some(3600)));
}

#[test]
fn a_status_starts_empty() {
    let s = SyncStatus::default();
    assert!(s.progress.is_none() && s.last_success.is_none() && s.last_error.is_none());
    assert_eq!(s.error_count, 0);
    assert_eq!((s.rate_limit_remaining, s.poll_interval_secs), (None, None));
    assert_eq!(SyncProgress::default(), SyncProgress { done: 0, total: 0 });
}

#[test]
fn a_copy_of_a_client_asks_the_same() {
    let c = client();
    let copy = c.clone();
    assert_eq!((copy.base_url, copy.token), (c.base_url, c.token));
}
