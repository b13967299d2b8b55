//! Keeping the store up to date: which repositories are polled, what an answer changes, and what
//! the header of the page says of it.
use vstd::prelude::*;
use vstd::string::*;

use crate::clock::Timestamp;
use crate::config::{Config, IgnoreError};
use crate::filter::{should_keep, RunCandidate};
use crate::github::{Client, GithubError, Repo, Request, Run, RunsResponse};
use crate::inclusion::{decide, Decision, Override, RepoFacts, SkipReason};
use crate::store::{Store, StoredRepo, StoredRun};
use crate::text::{copied, signed_decimal_text, text_eq};

pub mod effects;
pub mod laws;

verus! {

broadcast use vstd::string::group_string_axioms;

/// Below this many remaining API calls, back off.
pub const RATE_LIMIT_FLOOR: i64 = 500;

/// How long runs are kept.
pub const RETENTION_DAYS: i64 = 30;

/// How often repository discovery runs, relative to the run sync.
pub const DISCOVERY_INTERVAL_SECS: u64 = 3600;

/// How far through a cycle the poller is, counted in repositories: a 304 is
/// as much progress as a full fetch, so the count moves steadily.
#[derive(Debug, Clone, Copy, PartialEq, Eq, Structural)]
pub struct SyncProgress {
    pub done: usize,
    pub total: usize,
}

impl Default for SyncProgress {
    fn default() -> (r: SyncProgress)
        ensures
            r == (SyncProgress { done: 0, total: 0 }),
    {
        SyncProgress { done: 0, total: 0 }
    }
}

/// What the header of the page shows.
#[derive(Debug)]
pub struct SyncStatus {
    /// Set while a cycle is running, `None` when idle. The page shows this
    /// instead of guessing from when the refresh button was pressed, so the
    /// indicator also covers scheduled cycles and cannot get stuck.
    pub progress: Option<SyncProgress>,
    pub last_success: Option<String>,
    pub error_count: usize,
    pub rate_limit_remaining: Option<i64>,
    pub last_error: Option<String>,
    /// The poll interval actually in effect for the next cycle, in seconds
    /// (after any low-rate-limit backoff). The UI derives its staleness
    /// threshold from this so backoff itself doesn't trip the alarm.
    pub poll_interval_secs: Option<u64>,
}

/// The mathematical form of a [`SyncStatus`].
#[verifier::ext_equal]
pub struct StatusView {
    pub progress: Option<SyncProgress>,
    pub last_success: Option<Seq<char>>,
    pub error_count: int,
    pub rate_limit_remaining: Option<i64>,
    pub last_error: Option<Seq<char>>,
    pub poll_interval_secs: Option<u64>,
}

impl View for SyncStatus {
    type V = StatusView;

    open spec fn view(&self) -> StatusView {
        StatusView {
            progress: self.progress,
            last_success: crate::text::optional_text(self.last_success),
            error_count: self.error_count as int,
            rate_limit_remaining: self.rate_limit_remaining,
            last_error: crate::text::optional_text(self.last_error),
            poll_interval_secs: self.poll_interval_secs,
        }
    }
}

impl Default for SyncStatus {
    fn default() -> (r: SyncStatus)
        ensures
            r@ == StatusView::initial(),
    {
        SyncStatus {
            progress: None,
            last_success: None,
            error_count: 0,
            rate_limit_remaining: None,
            last_error: None,
            poll_interval_secs: None,
        }
    }
}

impl Clone for SyncStatus {
    fn clone(&self) -> (r: SyncStatus)
        ensures
            r == *self,
    {
        SyncStatus {
            progress: self.progress,
            last_success: copied(&self.last_success),
            error_count: self.error_count,
            rate_limit_remaining: self.rate_limit_remaining,
            last_error: copied(&self.last_error),
            poll_interval_secs: self.poll_interval_secs,
        }
    }
}

impl StatusView {
    /// The status before the first cycle.
    pub open spec fn initial() -> StatusView {
        StatusView {
            progress: None,
            last_success: None,
            error_count: 0,
            rate_limit_remaining: None,
            last_error: None,
            poll_interval_secs: None,
        }
    }

    /// The status after one more error.
    pub open spec fn with_error(self, msg: Seq<char>) -> StatusView {
        StatusView { error_count: self.error_count + 1, last_error: Some(msg), ..self }
    }

    /// The status after a success at `now`, with the rate limit where it is known.
    pub open spec fn with_success(self, rate_limit: Option<i64>, now: Seq<char>) -> StatusView {
        StatusView {
            last_success: Some(now),
            rate_limit_remaining: if rate_limit is Some {
                rate_limit
            } else {
                self.rate_limit_remaining
            },
            ..self
        }
    }

    /// The status at the start of a cycle over `total` repositories.
    pub open spec fn begun(self, total: usize) -> StatusView {
        StatusView { error_count: 0, progress: Some(SyncProgress { done: 0, total }), ..self }
    }

    /// The status with one more repository done, where a cycle is running.
    pub open spec fn advanced(self) -> StatusView {
        match self.progress {
            Some(p) => StatusView {
                progress: Some(SyncProgress { done: (p.done + 1) as usize, total: p.total }),
                ..self
            },
            None => self,
        }
    }

    /// The status with no cycle running.
    pub open spec fn ended(self) -> StatusView {
        StatusView { progress: None, ..self }
    }
}

/// The sync status for the header.
#[derive(Debug)]
pub struct SyncState {
    status: SyncStatus,
}

impl View for SyncState {
    type V = StatusView;

    closed spec fn view(&self) -> StatusView {
        self.status@
    }
}

impl Default for SyncState {
    fn default() -> (r: SyncState)
        ensures
            r@ == StatusView::initial(),
    {
        SyncState { status: SyncStatus::default() }
    }
}

impl SyncState {
    /// The status as it is now.
    pub fn snapshot(&self) -> (r: SyncStatus)
        ensures
            r@ == self@,
    {
        self.status.clone()
    }

    /// Records that a cycle succeeded at `now`, and the rate limit where it is known.
    pub fn record_success(&mut self, rate_limit: Option<i64>, now: String)
        ensures
            final(self)@ == old(self)@.with_success(rate_limit, now@),
    {
        self.status.last_success = Some(now);
        if rate_limit.is_some() {
            self.status.rate_limit_remaining = rate_limit;
        }
    }

    /// Counts an error, and keeps its message.
    pub fn record_error(&mut self, msg: String)
        requires
            old(self)@.error_count < usize::MAX,
        ensures
            final(self)@ == old(self)@.with_error(msg@),
    {
        self.status.error_count = self.status.error_count + 1;
        self.status.last_error = Some(msg);
    }

    /// Counts errors from zero again. The last message stays.
    pub fn reset_errors(&mut self)
        ensures
            final(self)@ == (StatusView { error_count: 0, ..old(self)@ }),
    {
        self.status.error_count = 0;
    }

    /// A cycle over `total` repositories starts.
    pub fn begin_cycle(&mut self, total: usize)
        ensures
            final(self)@ == (StatusView {
                progress: Some(SyncProgress { done: 0, total }),
                ..old(self)@
            }),
    {
        self.status.progress = Some(SyncProgress { done: 0, total });
    }

    /// One more repository is done.
    pub fn advance_cycle(&mut self)
        requires
            old(self)@.progress matches Some(p) ==> p.done < usize::MAX,
        ensures
            final(self)@ == old(self)@.advanced(),
    {
        match self.status.progress {
            Some(p) => {
                self.status.progress = Some(SyncProgress { done: p.done + 1, total: p.total });
            },
            None => {},
        }
    }

    /// The cycle is over.
    pub fn end_cycle(&mut self)
        ensures
            final(self)@ == old(self)@.ended(),
    {
        self.status.progress = None;
    }

    /// Record the poll interval that will govern the next cycle's wait, so
    /// the UI can size its staleness threshold off the real value instead of
    /// a hardcoded default.
    pub fn record_poll_interval(&mut self, secs: u64)
        ensures
            final(self)@ == (StatusView { poll_interval_secs: Some(secs), ..old(self)@ }),
    {
        self.status.poll_interval_secs = Some(secs);
    }
}

/// The rate limit is running low.
pub open spec fn is_low(remaining: Option<i64>) -> bool {
    remaining is Some && remaining->0 < RATE_LIMIT_FLOOR
}

/// Double the interval when the rate limit is running low.
pub fn effective_interval(base_secs: u64, remaining: Option<i64>) -> (r: u64)
    requires
        is_low(remaining) ==> base_secs * 2 <= u64::MAX,
    ensures
        r == if is_low(remaining) {
            base_secs * 2
        } else {
            base_secs as int
        },
{
    match remaining {
        Some(n) => if n < RATE_LIMIT_FLOOR {
            base_secs * 2
        } else {
            base_secs
        },
        None => base_secs,
    }
}

/// Whether the repositories are to be discovered again, given the seconds since that last
/// succeeded: always where it never did.
pub fn discovery_due(elapsed_secs: Option<u64>) -> (r: bool)
    ensures
        r == (elapsed_secs is None || elapsed_secs->0 >= DISCOVERY_INTERVAL_SECS),
{
    match elapsed_secs {
        Some(secs) => secs >= DISCOVERY_INTERVAL_SECS,
        None => true,
    }
}

/// Why no decision on a repository could be made.
#[derive(Debug)]
pub enum DecisionError {
    /// The `ignore` globs cannot be used.
    Globs(IgnoreError),
    /// No repository has this name.
    UnknownRepository(String),
}

impl DecisionError {
    /// The text of [`DecisionError::message`].
    pub open spec fn message_text(self) -> Seq<char> {
        match self {
            DecisionError::Globs(e) => e.message_text(),
            DecisionError::UnknownRepository(name) => "unknown repository: "@ + name@,
        }
    }

    /// What to tell the user.
    pub fn message(&self) -> (r: String)
        ensures
            r@ == self.message_text(),
    {
        match self {
            DecisionError::Globs(e) => e.message(),
            DecisionError::UnknownRepository(name) => "unknown repository: ".to_owned().concat(
                name.as_str(),
            ),
        }
    }
}

/// The override that a stored text stands for.
pub open spec fn stored_override(text: Option<Seq<char>>) -> Option<Override> {
    match text {
        Some(t) => Override::named(t),
        None => None,
    }
}

/// The decision on a stored repository.
pub open spec fn decision_on(
    tables: crate::store::Tables,
    ignore: Seq<Seq<char>>,
    full_name: Seq<char>,
    now: Timestamp,
) -> Decision {
    let facts = tables.facts(full_name)->0;
    crate::inclusion::decision(
        stored_override(facts.user_override),
        crate::config::is_glob_ignored(ignore, full_name),
        facts.archived,
        facts.has_runs,
        crate::inclusion::dormant(crate::inclusion::push_time(facts.pushed_at), now),
    )
}

/// The tables after a decision on a repository has been recorded.
pub open spec fn decided(
    tables: crate::store::Tables,
    full_name: Seq<char>,
    decision: Decision,
) -> crate::store::Tables {
    tables.with_decision(full_name, decision == Decision::Included, decision.reason_text())
}

/// Records the decision on a repository.
pub fn record_decision(store: &mut Store, full_name: &str, decision: Decision)
    requires
        old(store).wf(),
    ensures
        final(store).wf(),
        final(store)@ == decided(old(store)@, full_name@, decision),
{
    let reason: Option<&str> = match decision.skip_reason() {
        Some(r) => Some(r.as_str()),
        None => None,
    };
    let _ = store.set_repo_decision(full_name, decision.is_included(), reason);
}

/// Re-evaluate one repository's inclusion and store the result. Used by
/// discovery, and by the UI so a toggle takes effect now rather than within
/// the hour.
pub fn apply_decision(store: &mut Store, cfg: &Config, full_name: &str, now: Timestamp) -> (r:
    Result<Decision, DecisionError>)
    requires
        old(store).wf(),
    ensures
        final(store).wf(),
        r is Ok == (crate::config::usable(cfg@.ignore) && old(store)@.repos.dom().contains(
            full_name@,
        )),
        r matches Ok(d) ==> d == decision_on(old(store)@, cfg@.ignore, full_name@, now)
            && final(store)@ == decided(old(store)@, full_name@, d),
        cfg@.ignore.len() == 0 && old(store)@.repos.dom().contains(full_name@) ==> r is Ok,
        r matches Err(e) ==> final(store)@ == old(store)@ && (e is Globs
            == !crate::config::usable(cfg@.ignore)) && (e is Globs
            ==> crate::config::is_ignore_error(cfg@.ignore, e->Globs_0)) && (e is UnknownRepository
            ==> e->UnknownRepository_0@ == full_name@),
{
    let matcher = match cfg.ignore_matcher() {
        Ok(m) => m,
        Err(e) => {
            return Err(DecisionError::Globs(e));
        },
    };
    let facts = match store.repo_facts(full_name) {
        Ok(Some(f)) => f,
        _ => {
            return Err(DecisionError::UnknownRepository(full_name.to_owned()));
        },
    };
    let user_override: Option<Override> = match &facts.user_override {
        Some(text) => Override::parse(text.as_str()),
        None => None,
    };
    let pushed_at: Option<&str> = match &facts.pushed_at {
        Some(text) => Some(text.as_str()),
        None => None,
    };
    let glob_ignored = matcher.is_ignored(full_name);
    proof {
        crate::config::matcher_follows_the_globs(cfg@.ignore, full_name@);
    }
    let decision = decide(
        &RepoFacts {
            user_override,
            glob_ignored,
            archived: facts.archived,
            pushed_at,
            has_runs: facts.has_runs,
        },
        now,
    );
    record_decision(store, full_name, decision);
    Ok(decision)
}

/// The tables after one listed repository has been recorded, before the decision on it.
pub open spec fn recorded(tables: crate::store::Tables, repo: Repo) -> crate::store::Tables {
    tables.with_repo(repo.full_name@, repo.default_branch@).with_facts(
        repo.full_name@,
        repo.archived,
        crate::text::optional_text(repo.pushed_at),
    )
}

/// The tables after one listed repository has been recorded and decided on.
pub open spec fn discovered(
    tables: crate::store::Tables,
    ignore: Seq<Seq<char>>,
    repo: Repo,
    now: Timestamp,
) -> crate::store::Tables {
    let t = recorded(tables, repo);
    decided(t, repo.full_name@, decision_on(t, ignore, repo.full_name@, now))
}

/// The tables after the first `k` listed repositories have been recorded and decided on.
pub open spec fn discovered_all(
    tables: crate::store::Tables,
    ignore: Seq<Seq<char>>,
    repos: Seq<Repo>,
    now: Timestamp,
    k: int,
) -> crate::store::Tables
    decreases k,
{
    if k <= 0 {
        tables
    } else {
        discovered(discovered_all(tables, ignore, repos, now, k - 1), ignore, repos[k - 1], now)
    }
}

/// A repository is on the list.
pub open spec fn is_listed(repos: Seq<Repo>, full_name: Seq<char>) -> bool {
    exists|i: int| 0 <= i < repos.len() && (#[trigger] repos[i]).full_name@ == full_name
}

/// The row of a repository that is gone.
pub open spec fn gone_row(row: crate::store::RepoRowView) -> crate::store::RepoRowView {
    crate::store::RepoRowView { ignored: true, skip_reason: Some(SkipReason::Gone.text()), ..row }
}

/// The tables with every repository that is not on the list marked as gone.
pub open spec fn with_gone(tables: crate::store::Tables, repos: Seq<Repo>) -> crate::store::Tables {
    crate::store::Tables {
        repos: Map::new(
            |n: Seq<char>| tables.repos.dom().contains(n),
            |n: Seq<char>|
                if is_listed(repos, n) {
                    tables.repos[n]
                } else {
                    gone_row(tables.repos[n])
                },
        ),
        runs: tables.runs,
    }
}

fn is_repo_listed(repos: &Vec<Repo>, full_name: &str) -> (r: bool)
    ensures
        r == is_listed(repos@, full_name@),
{
    let mut i: usize = 0;
    while i < repos.len()
        invariant
            i <= repos.len(),
            forall|j: int| 0 <= j < i ==> (#[trigger] repos@[j]).full_name@ != full_name@,
        decreases repos.len() - i,
    {
        if text_eq(repos[i].full_name.as_str(), full_name) {
            assert(repos@[i as int].full_name@ == full_name@);
            return true;
        }
        i += 1;
    }
    false
}

/// Record the repository list, marking ignored ones. A repository that is no longer on it
/// has been deleted, renamed, or the token has lost access: either way, stop polling it.
/// Where the globs cannot be used, nothing comes after the first repository is recorded.
pub fn discover_repos(store: &mut Store, cfg: &Config, repos: &Vec<Repo>, now: Timestamp) -> (r:
    Result<(), DecisionError>)
    requires
        old(store).wf(),
    ensures
        final(store).wf(),
        r is Ok == (crate::config::usable(cfg@.ignore) || repos@.len() == 0),
        r is Ok ==> final(store)@ == with_gone(
            discovered_all(old(store)@, cfg@.ignore, repos@, now, repos@.len() as int),
            repos@,
        ),
        cfg@.ignore.len() == 0 ==> r is Ok,
        r matches Err(e) ==> e is Globs && crate::config::is_ignore_error(
            cfg@.ignore,
            e->Globs_0,
        ) && final(store)@ == recorded(old(store)@, repos@[0]),
{
    let ghost start = store@;
    let ghost ignore = cfg@.ignore;
    let mut k: usize = 0;
    while k < repos.len()
        invariant
            store.wf(),
            ignore == cfg@.ignore,
            k <= repos.len(),
            k > 0 ==> crate::config::usable(ignore),
            start == old(store)@,
            store@ == discovered_all(start, ignore, repos@, now, k as int),
        decreases repos.len() - k,
    {
        let repo = &repos[k];
        let pushed_at: Option<&str> = match &repo.pushed_at {
            Some(text) => Some(text.as_str()),
            None => None,
        };
        let ghost before = store@;
        let _ = store.upsert_repo(repo.full_name.as_str(), repo.default_branch.as_str());
        let _ = store.set_repo_facts(repo.full_name.as_str(), repo.archived, pushed_at);
        assert(store@ == recorded(before, *repo));
        match apply_decision(store, cfg, repo.full_name.as_str(), now) {
            Ok(_) => {},
            Err(e) => {
                return Err(e);
            },
        }
        k += 1;
    }
    let ghost listed = store@;
    let names = match store.all_repo_names() {
        Ok(names) => names,
        Err(_) => Vec::new(),
    };
    let ghost all = crate::text::texts(names@);
    let mut j: usize = 0;
    while j < names.len()
        invariant
            store.wf(),
            j <= names.len(),
            all == crate::text::texts(names@),
            crate::store::lists(all, listed.repos.dom()),
            store@.runs == listed.runs,
            store@.repos.dom() == listed.repos.dom(),
            forall|n: Seq<char>| #[trigger]
                listed.repos.dom().contains(n) ==> store@.repos[n] == if all.take(
                    j as int,
                ).contains(n) && !is_listed(repos@, n) {
                    gone_row(listed.repos[n])
                } else {
                    listed.repos[n]
                },
        decreases names.len() - j,
    {
        let name = &names[j];
        let ghost before = store@;
        assert(all[j as int] == name@);
        assert(all.contains(name@));
        if !is_repo_listed(repos, name.as_str()) {
            let _ = store.set_repo_decision(name.as_str(), false, Some(SkipReason::Gone.as_str()));
            assert(store@.repos.dom() =~= before.repos.dom());
        }
        proof {
            assert(all.take(j + 1) =~= all.take(j as int).push(name@));
            assert(!all.take(j as int).contains(name@)) by {
                if all.take(j as int).contains(name@) {
                    let i = choose|i: int| 0 <= i < j && all.take(j as int)[i] == name@;
                    assert(crate::text::text_lt(all[i], all[j as int]));
                    crate::text::lemma_text_lt_irreflexive(name@);
                }
            }
            assert forall|n: Seq<char>| #[trigger]
                listed.repos.dom().contains(n) implies store@.repos[n] == (if all.take(
                j + 1,
            ).contains(n) && !is_listed(repos@, n) {
                gone_row(listed.repos[n])
            } else {
                listed.repos[n]
            }) by {
                if n != name@ {
                    assert(all.take(j + 1).contains(n) == all.take(j as int).contains(n)) by {
                        if all.take(j + 1).contains(n) {
                            let more = all.take(j + 1);
                            let i = choose|i: int| 0 <= i < more.len() && more[i] == n;
                            assert(all.take(j as int)[i] == n);
                        }
                        if all.take(j as int).contains(n) {
                            let i = choose|i: int| 0 <= i < j && all.take(j as int)[i] == n;
                            assert(all.take(j + 1)[i] == n);
                        }
                    }
                } else {
                    assert(all.take(j + 1)[j as int] == n);
                }
            }
        }
        j += 1;
    }
    proof {
        assert(all.take(j as int) =~= all);
        let marked = with_gone(listed, repos@);
        assert forall|n: Seq<char>| #[trigger]
            listed.repos.dom().contains(n) implies store@.repos[n] == marked.repos[n] by {
            assert(all.contains(n));
        }
        assert(store@.repos =~= marked.repos);
    }
    Ok(())
}

/// A run of a repository as it is stored.
pub open spec fn stored_form(full_name: Seq<char>, run: Run) -> crate::store::RunView {
    crate::store::RunView {
        id: run.id,
        repo_full_name: full_name,
        workflow_name: run.workflow_name@,
        branch: run.head_branch@,
        actor: run.actor.login@,
        status: run.status@,
        conclusion: crate::text::optional_text(run.conclusion),
        commit_sha: run.head_sha@,
        commit_subject: run.subject(),
        html_url: run.html_url@,
        started_at: run.start(),
        workflow_path: crate::text::optional_text(run.path),
    }
}

/// A run of a repository with this default branch is kept for this user.
pub open spec fn is_kept(run: Run, default_branch: Seq<char>, user: Seq<char>) -> bool {
    crate::filter::kept(
        run.head_branch@,
        run.actor.login@,
        run.actor.actor_type@,
        default_branch,
        user,
    )
}

/// What is said of a run that could not be stored.
pub open spec fn failure_text(id: i64, cause: Seq<char>) -> Seq<char> {
    "failed to store run "@ + crate::text::signed_decimal(id as int) + ": "@ + cause
}

/// What is said of an answer that did not come.
pub open spec fn error_text(full_name: Seq<char>, e: GithubError) -> Seq<char> {
    if e.unauthorized() {
        "GitHub rejected the token — run `gh auth login` to refresh it"@
    } else {
        full_name + ": "@ + e.message_text()
    }
}

/// The tables and the status after the first `k` runs of an answer: those that are kept are
/// stored, and one that cannot be stored is counted as an error.
pub open spec fn after_runs(
    tables: crate::store::Tables,
    status: StatusView,
    repo: StoredRepo,
    user: Seq<char>,
    runs: Seq<Run>,
    k: int,
) -> (crate::store::Tables, StatusView)
    decreases k,
{
    if k <= 0 {
        (tables, status)
    } else {
        let (t, s) = after_runs(tables, status, repo, user, runs, k - 1);
        let run = runs[k - 1];
        let stored = stored_form(repo.full_name@, run);
        if !is_kept(run, repo.default_branch@, user) {
            (t, s)
        } else if t.accepts(stored) {
            (t.with_run(stored), s)
        } else {
            (t, s.with_error(failure_text(run.id, "FOREIGN KEY constraint failed"@)))
        }
    }
}

/// The tables after the `ETag` of an answer, where it has one, has been recorded.
pub open spec fn with_answer_etag(
    tables: crate::store::Tables,
    full_name: Seq<char>,
    etag: Option<String>,
) -> crate::store::Tables {
    match etag {
        Some(tag) => tables.with_etag(full_name, tag@),
        None => tables,
    }
}

/// The tables and the status after the answer about a repository. One that did not come is
/// counted as an error, and is progress all the same.
pub open spec fn after_answer(
    tables: crate::store::Tables,
    status: StatusView,
    repo: StoredRepo,
    user: Seq<char>,
    answer: Result<RunsResponse, GithubError>,
) -> (crate::store::Tables, StatusView) {
    match answer {
        Ok(resp) => {
            let (t, s) = after_runs(
                with_answer_etag(tables, repo.full_name@, resp.etag),
                status,
                repo,
                user,
                resp.runs@,
                resp.runs@.len() as int,
            );
            (t, s.advanced())
        },
        Err(e) => (tables, status.with_error(error_text(repo.full_name@, e)).advanced()),
    }
}

/// The status after the first `k` runs of an answer where none can be stored: each that would be
/// kept is counted as an error.
pub open spec fn after_lost_runs(
    status: StatusView,
    repo: StoredRepo,
    user: Seq<char>,
    runs: Seq<Run>,
    cause: Seq<char>,
    k: int,
) -> StatusView
    decreases k,
{
    if k <= 0 {
        status
    } else {
        let s = after_lost_runs(status, repo, user, runs, cause, k - 1);
        if is_kept(runs[k - 1], repo.default_branch@, user) {
            s.with_error(failure_text(runs[k - 1].id, cause))
        } else {
            s
        }
    }
}

/// The status after the answer about a repository where the store cannot be reached.
pub open spec fn after_unstored(
    status: StatusView,
    repo: StoredRepo,
    user: Seq<char>,
    answer: Result<RunsResponse, GithubError>,
    cause: Seq<char>,
) -> StatusView {
    match answer {
        Ok(resp) => after_lost_runs(
            status,
            repo,
            user,
            resp.runs@,
            cause,
            resp.runs@.len() as int,
        ).advanced(),
        Err(e) => status.with_error(error_text(repo.full_name@, e)).advanced(),
    }
}

/// How many errors an answer can bring at most.
pub open spec fn most_errors(answer: Result<RunsResponse, GithubError>) -> int {
    match answer {
        Ok(resp) => resp.runs@.len() as int,
        Err(_) => 1,
    }
}

/// What to say of a run that could not be stored.
pub fn store_failure(id: i64, cause: &str) -> (r: String)
    ensures
        r@ == failure_text(id, cause@),
{
    "failed to store run ".to_owned().concat(signed_decimal_text(id).as_str()).concat(
        ": ",
    ).concat(cause)
}

/// What to say of an answer that did not come.
pub fn answer_failure(full_name: &str, e: &GithubError) -> (r: String)
    ensures
        r@ == error_text(full_name@, *e),
{
    if e.is_unauthorized() {
        "GitHub rejected the token — run `gh auth login` to refresh it".to_owned()
    } else {
        full_name.to_owned().concat(": ").concat(e.message().as_str())
    }
}

/// A run of a repository as it is stored.
pub fn to_stored(full_name: &str, run: &Run) -> (r: StoredRun)
    ensures
        r@ == stored_form(full_name@, *run),
{
    StoredRun {
        id: run.id,
        repo_full_name: full_name.to_owned(),
        workflow_name: run.workflow_name.clone(),
        branch: run.head_branch.clone(),
        actor: run.actor.login.clone(),
        status: run.status.clone(),
        conclusion: copied(&run.conclusion),
        commit_sha: run.head_sha.clone(),
        commit_subject: run.commit_subject(),
        html_url: run.html_url.clone(),
        started_at: run.started_at(),
        workflow_path: copied(&run.path),
    }
}

/// One pass over every active repository. Errors are counted, never fatal.
#[derive(Debug)]
pub struct SyncCycle {
    pub repos: Vec<StoredRepo>,
    /// The repository to ask about next.
    pub next: usize,
    /// The rate limit of the latest answer that had one.
    pub rate_limit: Option<i64>,
    /// Some answer came.
    pub any_success: bool,
}

impl SyncCycle {
    /// A pass over these repositories before the first answer.
    pub open spec fn new(repos: Vec<StoredRepo>) -> SyncCycle {
        SyncCycle { repos, next: 0, rate_limit: None, any_success: false }
    }

    /// The pass after the answer about the next repository.
    pub open spec fn after(self, answer: Result<RunsResponse, GithubError>) -> SyncCycle {
        SyncCycle {
            repos: self.repos,
            next: (self.next + 1) as usize,
            rate_limit: match answer {
                Ok(resp) => if resp.rate_limit_remaining is Some {
                    resp.rate_limit_remaining
                } else {
                    self.rate_limit
                },
                Err(_) => self.rate_limit,
            },
            any_success: self.any_success || answer is Ok,
        }
    }
}

/// Starts a pass over the active repositories, given what came of reading them. There is none
/// where they could not be read.
pub fn sync_runs(repos: Result<Vec<StoredRepo>, String>, state: &mut SyncState) -> (r: Option<
    SyncCycle,
>)
    requires
        repos is Err ==> old(state)@.error_count < usize::MAX,
    ensures
        r is Some == repos is Ok,
        repos matches Ok(list) ==> r == Some(SyncCycle::new(list)) && final(state)@ == old(
            state,
        )@.begun(list@.len() as usize),
        repos matches Err(cause) ==> final(state)@ == old(state)@.with_error(
            "cannot read repositories: "@ + cause@,
        ),
{
    match repos {
        Ok(list) => {
            state.reset_errors();
            state.begin_cycle(list.len());
            Some(SyncCycle { repos: list, next: 0, rate_limit: None, any_success: false })
        },
        Err(cause) => {
            state.record_error("cannot read repositories: ".to_owned().concat(cause.as_str()));
            None
        },
    }
}

impl SyncCycle {
    /// The request about the next repository, with the `ETag` of the last answer about it: none
    /// where every repository has been asked about.
    pub fn request(&self, client: &Client, store: &Store) -> (r: Option<Request>)
        requires
            store.wf(),
        ensures
            r is Some == (self.next < self.repos@.len()),
            r matches Some(req) ==> req@ == crate::github::runs_request(
                client.base_url@,
                client.token@,
                self.repos@[self.next as int].full_name@,
                store@.etag(self.repos@[self.next as int].full_name@),
            ),
    {
        if self.next >= self.repos.len() {
            return None;
        }
        let full_name = self.repos[self.next].full_name.as_str();
        let etag = match store.repo_etag(full_name) {
            Ok(etag) => etag,
            Err(_) => None,
        };
        let tag: Option<&str> = match &etag {
            Some(t) => Some(t.as_str()),
            None => None,
        };
        Some(client.list_runs_request(full_name, tag))
    }

    /// Takes the answer about the next repository.
    pub fn receive(
        &mut self,
        store: &mut Store,
        state: &mut SyncState,
        current_user: &str,
        answer: Result<RunsResponse, GithubError>,
    )
        requires
            old(store).wf(),
            old(self).next < old(self).repos@.len(),
            old(state)@.error_count + most_errors(answer) <= usize::MAX,
            old(state)@.progress matches Some(p) ==> p.done < usize::MAX,
        ensures
            final(store).wf(),
            (final(store)@, final(state)@) == after_answer(
                old(store)@,
                old(state)@,
                old(self).repos@[old(self).next as int],
                current_user@,
                answer,
            ),
            *final(self) == old(self).after(answer),
    {
        let repo = &self.repos[self.next];
        match &answer {
            Err(e) => {
                state.record_error(answer_failure(repo.full_name.as_str(), e));
            },
            Ok(resp) => {
                if let Some(tag) = &resp.etag {
                    let _ = store.set_repo_etag(repo.full_name.as_str(), tag.as_str());
                }
                store_runs(store, state, repo, current_user, &resp.runs);
                self.any_success = true;
                if resp.rate_limit_remaining.is_some() {
                    self.rate_limit = resp.rate_limit_remaining;
                }
            },
        }
        state.advance_cycle();
        assert(self.next < self.repos.len());
        self.next = self.next + 1;
    }

    /// Takes the answer about the next repository where the store cannot be reached, for this
    /// cause: each of its runs that would be kept is counted as an error.
    pub fn receive_unstored(
        &mut self,
        state: &mut SyncState,
        current_user: &str,
        answer: Result<RunsResponse, GithubError>,
        cause: &str,
    )
        requires
            old(self).next < old(self).repos@.len(),
            old(state)@.error_count + most_errors(answer) <= usize::MAX,
            old(state)@.progress matches Some(p) ==> p.done < usize::MAX,
        ensures
            final(state)@ == after_unstored(
                old(state)@,
                old(self).repos@[old(self).next as int],
                current_user@,
                answer,
                cause@,
            ),
            *final(self) == old(self).after(answer),
    {
        let repo = &self.repos[self.next];
        match &answer {
            Err(e) => {
                state.record_error(answer_failure(repo.full_name.as_str(), e));
            },
            Ok(resp) => {
                lose_runs(state, repo, current_user, &resp.runs, cause);
                self.any_success = true;
                if resp.rate_limit_remaining.is_some() {
                    self.rate_limit = resp.rate_limit_remaining;
                }
            },
        }
        state.advance_cycle();
        assert(self.next < self.repos.len());
        self.next = self.next + 1;
    }

    /// Ends the pass at `now`: runs older than `RETENTION_DAYS` days are dropped, and the pass
    /// counts as a success where some answer came.
    pub fn finish(&self, store: &mut Store, state: &mut SyncState, now: Timestamp)
        requires
            old(store).wf(),
            self.next == self.repos@.len(),
        ensures
            final(store).wf(),
            final(store)@ == after_prune(
                old(store)@,
                now.text_days_before(RETENTION_DAYS as int),
            ),
            final(state)@ == after_pass(
                *self,
                old(state)@,
                crate::clock::rfc3339_text(now.secs, now.nanos),
            ),
    {
        self.finish_at(store, state, now.days_before_rfc3339(RETENTION_DAYS), now.to_rfc3339());
    }

    /// Ends the pass, given the cutoff before which runs are dropped and the time of the end, both
    /// as texts. Without a cutoff no run is dropped; without a time no success is recorded.
    pub fn finish_at(
        &self,
        store: &mut Store,
        state: &mut SyncState,
        cutoff: Option<String>,
        now: Option<String>,
    )
        requires
            old(store).wf(),
            self.next == self.repos@.len(),
        ensures
            final(store).wf(),
            final(store)@ == after_prune(old(store)@, crate::text::optional_text(cutoff)),
            final(state)@ == after_pass(
                *self,
                old(state)@,
                crate::text::optional_text(now),
            ),
    {
        if let Some(c) = cutoff {
            let _ = store.prune_before(c.as_str());
        }
        self.end(state, now);
    }

    /// Ends the pass at the time that a text gives, where no run can be dropped.
    pub fn end(&self, state: &mut SyncState, now: Option<String>)
        requires
            self.next == self.repos@.len(),
        ensures
            final(state)@ == after_pass(*self, old(state)@, crate::text::optional_text(now)),
    {
        if self.any_success {
            if let Some(t) = now {
                state.record_success(self.rate_limit, t);
            }
        }
        state.end_cycle();
    }
}

/// The tables without the runs that started before the cutoff, where there is one.
pub open spec fn after_prune(
    tables: crate::store::Tables,
    cutoff: Option<Seq<char>>,
) -> crate::store::Tables {
    match cutoff {
        Some(c) => tables.pruned(c),
        None => tables,
    }
}

/// The status after a pass that ended at `now`.
pub open spec fn after_pass(
    cycle: SyncCycle,
    status: StatusView,
    now: Option<Seq<char>>,
) -> StatusView {
    if cycle.any_success && now is Some {
        status.with_success(cycle.rate_limit, now->0).ended()
    } else {
        status.ended()
    }
}

proof fn lemma_error_bound(
    tables: crate::store::Tables,
    status: StatusView,
    repo: StoredRepo,
    user: Seq<char>,
    runs: Seq<Run>,
    k: int,
)
    requires
        0 <= k,
    ensures
        status.error_count <= after_runs(tables, status, repo, user, runs, k).1.error_count
            <= status.error_count + k,
        after_runs(tables, status, repo, user, runs, k).1.progress == status.progress,
    decreases k,
{
    if k > 0 {
        lemma_error_bound(tables, status, repo, user, runs, k - 1);
    }
}

/// Stores the runs of an answer that are kept.
pub fn store_runs(
    store: &mut Store,
    state: &mut SyncState,
    repo: &StoredRepo,
    current_user: &str,
    runs: &Vec<Run>,
)
    requires
        old(store).wf(),
        old(state)@.error_count + runs@.len() <= usize::MAX,
    ensures
        final(store).wf(),
        (final(store)@, final(state)@) == after_runs(
            old(store)@,
            old(state)@,
            *repo,
            current_user@,
            runs@,
            runs@.len() as int,
        ),
        final(state)@.progress == old(state)@.progress,
{
    let ghost tables = store@;
    let ghost status = state@;
    let mut k: usize = 0;
    while k < runs.len()
        invariant
            store.wf(),
            k <= runs.len(),
            status.error_count + runs@.len() <= usize::MAX,
            (store@, state@) == after_runs(
                tables,
                status,
                *repo,
                current_user@,
                runs@,
                k as int,
            ),
        decreases runs.len() - k,
    {
        proof {
            lemma_error_bound(tables, status, *repo, current_user@, runs@, k as int);
        }
        let run = &runs[k];
        if keeps(repo, current_user, run) {
            let stored = to_stored(repo.full_name.as_str(), run);
            match store.upsert_run(&stored) {
                Ok(_) => {},
                Err(e) => {
                    state.record_error(store_failure(run.id, e.message().as_str()));
                },
            }
        }
        k += 1;
    }
    proof {
        lemma_error_bound(tables, status, *repo, current_user@, runs@, k as int);
    }
}

proof fn lemma_lost_bound(
    status: StatusView,
    repo: StoredRepo,
    user: Seq<char>,
    runs: Seq<Run>,
    cause: Seq<char>,
    k: int,
)
    requires
        0 <= k,
    ensures
        after_lost_runs(status, repo, user, runs, cause, k).error_count <= status.error_count + k,
        after_lost_runs(status, repo, user, runs, cause, k).progress == status.progress,
    decreases k,
{
    if k > 0 {
        lemma_lost_bound(status, repo, user, runs, cause, k - 1);
    }
}

/// Whether a run of a repository is kept.
fn keeps(repo: &StoredRepo, current_user: &str, run: &Run) -> (r: bool)
    ensures
        r == is_kept(*run, repo.default_branch@, current_user@),
{
    let candidate = RunCandidate {
        branch: run.head_branch.clone(),
        actor_login: run.actor.login.clone(),
        actor_type: run.actor.actor_type.clone(),
    };
    should_keep(&candidate, repo.default_branch.as_str(), current_user)
}

/// Counts the runs of an answer that would be kept as errors.
fn lose_runs(
    state: &mut SyncState,
    repo: &StoredRepo,
    current_user: &str,
    runs: &Vec<Run>,
    cause: &str,
)
    requires
        old(state)@.error_count + runs@.len() <= usize::MAX,
    ensures
        final(state)@ == after_lost_runs(
            old(state)@,
            *repo,
            current_user@,
            runs@,
            cause@,
            runs@.len() as int,
        ),
        final(state)@.progress == old(state)@.progress,
{
    let ghost status = state@;
    let mut k: usize = 0;
    while k < runs.len()
        invariant
            k <= runs.len(),
            status.error_count + runs@.len() <= usize::MAX,
            state@ == after_lost_runs(
                status,
                *repo,
                current_user@,
                runs@,
                cause@,
                k as int,
            ),
        decreases runs.len() - k,
    {
        proof {
            lemma_lost_bound(status, *repo, current_user@, runs@, cause@, k as int);
        }
        let run = &runs[k];
        if keeps(repo, current_user, run) {
            state.record_error(store_failure(run.id, cause));
        }
        k += 1;
    }
    proof {
        lemma_lost_bound(status, *repo, current_user@, runs@, cause@, k as int);
    }
}

} // verus!
