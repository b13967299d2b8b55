use gh_web_dash::github::{
    is_success, Actor, Client, Commit, GithubError, Repo, ReplyHead, Run, GITHUB_API,
};

fn client() -> Client {
    Client::new("https://api.test/".to_string(), "test-token".to_string())
}

fn header<'a>(headers: &'a [(String, String)], name: &str) -> Option<&'a str> {
    headers
        .iter()
        .find(|(n, _)| n == name)
        .map(|(_, v)| v.as_str())
}

fn repo(full_name: &str) -> Repo {
    Repo {
        full_name: full_name.to_string(),
        default_branch: "main".to_string(),
        archived: false,
        pushed_at: None,
    }
}

fn run(id: i64) -> Run {
    Run {
        id,
        workflow_id: None,
        workflow_name: "test.yml".into(),
        path: None,
        head_branch: "main".into(),
        status: "completed".into(),
        conclusion: Some("failure".into()),
        head_sha: "abc123".into(),
        html_url: format!("https://github.com/autarch/a/actions/runs/{id}"),
        run_started_at: Some("2026-08-04T10:00:00Z".into()),
        updated_at: "2026-08-04T10:05:00Z".into(),
        actor: Actor {
            login: "autarch".into(),
            actor_type: "User".into(),
        },
        head_commit: Some(Commit {
            message: "Fix the thing\n\nDetails here".into(),
        }),
    }
}

fn head(status: u16, etag: Option<&str>, remaining: Option<&str>) -> ReplyHead {
    ReplyHead {
        status,
        etag: etag.map(str::to_string),
        rate_limit_remaining: remaining.map(str::to_string),
    }
}

#[test]
fn fetches_current_user() {
    let c = client();
    let req = c.current_user_request();
    assert_eq!(req.url, "https://api.test/user");
    assert_eq!(
        header(&req.headers, "authorization"),
        Some("Bearer test-token")
    );
    assert_eq!(
        header(&req.headers, "accept"),
        Some("application/vnd.github+json")
    );
    assert_eq!(
        header(&req.headers, "x-github-api-version"),
        Some("2022-11-28")
    );
    assert_eq!(c.current_user(200, "autarch".into()).unwrap(), "autarch");
    let err = c.current_user(403, String::new()).unwrap_err();
    assert_eq!(err.message(), "HTTP 403 from https://api.test/user");
}

#[test]
fn lists_repos_across_pages() {
    let c = client();
    let mut listing = c.list_repos(false);
    let req = listing.request(&c);
    assert_eq!(req.url, "https://api.test/user/repos");
    assert_eq!(header(&req.query, "page"), Some("1"));
    assert_eq!(header(&req.query, "per_page"), Some("100"));
    assert_eq!(header(&req.query, "affiliation"), Some("owner"));
    assert_eq!(header(&req.query, "sort"), Some("pushed"));
    listing.receive(&c, 200, vec![repo("autarch/a")]).unwrap();
    assert!(listing.done);
    assert_eq!(listing.repos.len(), 1);
    assert_eq!(listing.repos[0].full_name, "autarch/a");
    assert_eq!(listing.repos[0].default_branch, "main");
}

#[test]
fn a_full_page_asks_for_the_next_one() {
    let c = client();
    let mut listing = c.list_repos(true);
    assert_eq!(
        header(&listing.request(&c).query, "affiliation"),
        Some("owner,organization_member")
    );
    let page: Vec<Repo> = (0..100).map(|i| repo(&format!("a/{i}"))).collect();
    listing.receive(&c, 200, page).unwrap();
    assert!(!listing.done);
    assert_eq!(header(&listing.request(&c).query, "page"), Some("2"));
    listing.receive(&c, 200, vec![]).unwrap();
    assert!(listing.done);
    assert_eq!(listing.repos.len(), 100);
    assert_eq!(listing.repos[99].full_name, "a/99");
}

#[test]
fn a_page_that_fails_leaves_the_listing_as_it_is() {
    let c = client();
    let mut listing = c.list_repos(true);
    let err = listing
        .receive(&c, 502, vec![repo("a/b")])
        .unwrap_err()
        .message();
    assert_eq!(err, "HTTP 502 from https://api.test/user/repos");
    assert!(listing.repos.is_empty());
    assert!(!listing.done);
}

#[test]
fn fetches_runs_and_reports_etag_and_rate_limit() {
    let resp = client()
        .list_runs(
            "autarch/a",
            &head(200, Some("W/\"abc\""), Some("4321")),
            vec![run(42)],
        )
        .unwrap();
    assert!(!resp.not_modified);
    assert_eq!(resp.etag.as_deref(), Some("W/\"abc\""));
    assert_eq!(resp.rate_limit_remaining, Some(4321));
    assert_eq!(resp.runs.len(), 1);
    let r = &resp.runs[0];
    assert_eq!(r.id, 42);
    assert_eq!(r.workflow_name, "test.yml");
    assert_eq!(r.actor.login, "autarch");
    // Only the commit subject, not the body.
    assert_eq!(r.commit_subject(), "Fix the thing");
    assert_eq!(r.started_at(), "2026-08-04T10:00:00Z");
}

#[test]
fn a_rate_limit_that_is_no_number_is_unknown() {
    for (text, expected) in [
        ("", None),
        ("many", None),
        ("12 ", None),
        ("-3", Some(-3)),
        ("+7", Some(7)),
        ("9223372036854775807", Some(i64::MAX)),
        ("-9223372036854775808", Some(i64::MIN)),
        ("9223372036854775808", None),
        ("-", None),
    ] {
        let resp = client()
            .list_runs("a/b", &head(200, None, Some(text)), vec![])
            .unwrap();
        assert_eq!(resp.rate_limit_remaining, expected, "{text:?}");
    }
}

#[test]
fn not_modified_yields_no_runs() {
    let c = client();
    let req = c.list_runs_request("autarch/a", Some("W/\"abc\""));
    assert_eq!(req.url, "https://api.test/repos/autarch/a/actions/runs");
    assert_eq!(header(&req.headers, "if-none-match"), Some("W/\"abc\""));
    assert_eq!(header(&req.query, "per_page"), Some("50"));
    let resp = c
        .list_runs("autarch/a", &head(304, None, None), vec![])
        .unwrap();
    assert!(resp.not_modified);
    assert!(resp.runs.is_empty());
}

#[test]
fn without_an_etag_nothing_is_conditional() {
    let req = client().list_runs_request("autarch/a", None);
    assert_eq!(header(&req.headers, "if-none-match"), None);
    assert_eq!(req.headers.len(), 3);
}

#[test]
fn missing_repo_is_an_error_not_a_panic() {
    let err = client()
        .list_runs("autarch/gone", &head(404, None, None), vec![])
        .unwrap_err();
    assert!(
        matches!(err, GithubError::Status { status: 404, .. }),
        "got: {err:?}"
    );
    assert!(!err.is_unauthorized());
}

#[test]
fn unauthorized_is_distinguishable() {
    let err = client()
        .list_runs("autarch/a", &head(401, None, None), vec![])
        .unwrap_err();
    assert!(err.is_unauthorized(), "got: {err:?}");
}

#[test]
fn a_transport_error_names_its_cause() {
    let err = GithubError::Transport("connection refused".into());
    assert_eq!(err.message(), "request failed: connection refused");
    assert!(!err.is_unauthorized());
}

#[test]
fn success_is_the_two_hundreds() {
    assert!(!is_success(199));
    assert!(is_success(200));
    assert!(is_success(299));
    assert!(!is_success(300));
    assert!(!is_success(304));
}

#[test]
fn trailing_slashes_of_the_base_url_do_not_matter() {
    for base in ["https://x", "https://x/", "https://x///"] {
        let c = Client::new(base.to_string(), "t".to_string());
        assert_eq!(c.current_user_request().url, "https://x/user");
    }
    assert_eq!(
        Client::new(GITHUB_API.to_string(), "t".to_string()).base_url,
        "https://api.github.com"
    );
}

#[test]
fn commit_subject_handles_missing_commit() {
    let r = Run {
        id: 1,
        workflow_id: None,
        workflow_name: "test.yml".into(),
        path: None,
        head_branch: "main".into(),
        status: "completed".into(),
        conclusion: None,
        head_sha: "abc".into(),
        html_url: "https://example.com".into(),
        run_started_at: None,
        updated_at: "2026-08-04T10:00:00Z".into(),
        actor: Actor {
            login: "autarch".into(),
            actor_type: "User".into(),
        },
        head_commit: None,
    };
    assert_eq!(r.commit_subject(), "");
    // With no run_started_at, fall back to updated_at so ordering still works.
    assert_eq!(r.started_at(), "2026-08-04T10:00:00Z");
}

#[test]
fn a_commit_subject_ends_with_its_line() {
    for message in ["", "\n", "one", "one\n", "one\r\ntwo", "one\rtwo", "one\r", "\r\n"] {
        let mut r = run(1);
        r.head_commit = Some(Commit {
            message: message.to_string(),
        });
        assert_eq!(
            r.commit_subject(),
            message.lines().next().unwrap_or(""),
            "{message:?}"
        );
    }
}
