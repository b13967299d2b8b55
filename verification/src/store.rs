//! The repositories and runs that the dashboard knows, and what it asks of them.
use vstd::prelude::*;
use vstd::string::*;

use crate::text::{copied, owned, text_before, text_eq};

pub mod changes;
pub mod laws;
pub mod reports;
pub mod shown;

verus! {

broadcast use vstd::string::group_string_axioms;

/// A workflow run as stored and served. Timestamps are RFC 3339 strings, which
/// sort correctly as text and need no conversion on the way to JSON.
#[derive(Debug)]
pub struct StoredRun {
    pub id: i64,
    pub repo_full_name: String,
    pub workflow_name: String,
    pub branch: String,
    pub actor: String,
    pub status: String,
    pub conclusion: Option<String>,
    pub commit_sha: String,
    pub commit_subject: String,
    pub html_url: String,
    pub started_at: String,
    /// The workflow's file path, e.g. `.github/workflows/lint.yml`. GitHub's
    /// workflow page is addressed by file name, not by numeric ID: the ID
    /// route renders "This workflow does not exist". `None` until the run is
    /// refetched after the migration.
    pub workflow_path: Option<String>,
}

/// The mathematical form of a [`StoredRun`].
#[verifier::ext_equal]
pub struct RunView {
    pub id: i64,
    pub repo_full_name: Seq<char>,
    pub workflow_name: Seq<char>,
    pub branch: Seq<char>,
    pub actor: Seq<char>,
    pub status: Seq<char>,
    pub conclusion: Option<Seq<char>>,
    pub commit_sha: Seq<char>,
    pub commit_subject: Seq<char>,
    pub html_url: Seq<char>,
    pub started_at: Seq<char>,
    pub workflow_path: Option<Seq<char>>,
}

impl View for StoredRun {
    type V = RunView;

    open spec fn view(&self) -> RunView {
        RunView {
            id: self.id,
            repo_full_name: self.repo_full_name@,
            workflow_name: self.workflow_name@,
            branch: self.branch@,
            actor: self.actor@,
            status: self.status@,
            conclusion: crate::text::optional_text(self.conclusion),
            commit_sha: self.commit_sha@,
            commit_subject: self.commit_subject@,
            html_url: self.html_url@,
            started_at: self.started_at@,
            workflow_path: crate::text::optional_text(self.workflow_path),
        }
    }
}

impl Clone for StoredRun {
    fn clone(&self) -> (r: StoredRun)
        ensures
            r == *self,
    {
        StoredRun {
            id: self.id,
            repo_full_name: self.repo_full_name.clone(),
            workflow_name: self.workflow_name.clone(),
            branch: self.branch.clone(),
            actor: self.actor.clone(),
            status: self.status.clone(),
            conclusion: copied(&self.conclusion),
            commit_sha: self.commit_sha.clone(),
            commit_subject: self.commit_subject.clone(),
            html_url: self.html_url.clone(),
            started_at: self.started_at.clone(),
            workflow_path: copied(&self.workflow_path),
        }
    }
}

/// One repository as stored.
#[derive(Debug)]
pub struct RepoRow {
    pub full_name: String,
    pub default_branch: String,
    /// The `ETag` of the last answer about its runs.
    pub etag: Option<String>,
    /// Not polled, and not shown on the dashboard.
    pub ignored: bool,
    pub user_override: Option<String>,
    pub archived: bool,
    pub pushed_at: Option<String>,
    pub skip_reason: Option<String>,
}

/// The mathematical form of a [`RepoRow`] without its name, which is its key.
#[verifier::ext_equal]
pub struct RepoRowView {
    pub default_branch: Seq<char>,
    pub etag: Option<Seq<char>>,
    pub ignored: bool,
    pub user_override: Option<Seq<char>>,
    pub archived: bool,
    pub pushed_at: Option<Seq<char>>,
    pub skip_reason: Option<Seq<char>>,
}

impl View for RepoRow {
    type V = RepoRowView;

    open spec fn view(&self) -> RepoRowView {
        RepoRowView {
            default_branch: self.default_branch@,
            etag: crate::text::optional_text(self.etag),
            ignored: self.ignored,
            user_override: crate::text::optional_text(self.user_override),
            archived: self.archived,
            pushed_at: crate::text::optional_text(self.pushed_at),
            skip_reason: crate::text::optional_text(self.skip_reason),
        }
    }
}

impl Clone for RepoRow {
    fn clone(&self) -> (r: RepoRow)
        ensures
            r == *self,
    {
        RepoRow {
            full_name: self.full_name.clone(),
            default_branch: self.default_branch.clone(),
            etag: copied(&self.etag),
            ignored: self.ignored,
            user_override: copied(&self.user_override),
            archived: self.archived,
            pushed_at: copied(&self.pushed_at),
            skip_reason: copied(&self.skip_reason),
        }
    }
}

/// A repository of which nothing but the default branch is known: it is polled.
pub open spec fn fresh_row(default_branch: Seq<char>) -> RepoRowView {
    RepoRowView {
        default_branch,
        etag: None,
        ignored: false,
        user_override: None,
        archived: false,
        pushed_at: None,
        skip_reason: None,
    }
}

/// One row of the repository management page.
#[derive(Debug, Clone)]
pub struct ManagedRepo {
    pub full_name: String,
    pub included: bool,
    pub skip_reason: Option<String>,
    pub user_override: Option<String>,
    pub archived: bool,
    pub pushed_at: Option<String>,
    pub run_count: usize,
}

/// The mathematical form of a [`ManagedRepo`].
#[verifier::ext_equal]
pub struct ManagedRepoView {
    pub full_name: Seq<char>,
    pub included: bool,
    pub skip_reason: Option<Seq<char>>,
    pub user_override: Option<Seq<char>>,
    pub archived: bool,
    pub pushed_at: Option<Seq<char>>,
    pub run_count: int,
}

impl View for ManagedRepo {
    type V = ManagedRepoView;

    open spec fn view(&self) -> ManagedRepoView {
        ManagedRepoView {
            full_name: self.full_name@,
            included: self.included,
            skip_reason: crate::text::optional_text(self.skip_reason),
            user_override: crate::text::optional_text(self.user_override),
            archived: self.archived,
            pushed_at: crate::text::optional_text(self.pushed_at),
            run_count: self.run_count as int,
        }
    }
}

/// The stored half of what the inclusion rules need.
#[derive(Debug, Clone)]
pub struct RepoFactsRow {
    pub user_override: Option<String>,
    pub archived: bool,
    pub pushed_at: Option<String>,
    pub has_runs: bool,
}

/// The mathematical form of a [`RepoFactsRow`].
#[verifier::ext_equal]
pub struct RepoFactsRowView {
    pub user_override: Option<Seq<char>>,
    pub archived: bool,
    pub pushed_at: Option<Seq<char>>,
    pub has_runs: bool,
}

impl View for RepoFactsRow {
    type V = RepoFactsRowView;

    open spec fn view(&self) -> RepoFactsRowView {
        RepoFactsRowView {
            user_override: crate::text::optional_text(self.user_override),
            archived: self.archived,
            pushed_at: crate::text::optional_text(self.pushed_at),
            has_runs: self.has_runs,
        }
    }
}

/// A repository that is polled.
#[derive(Debug, Clone)]
pub struct StoredRepo {
    pub full_name: String,
    pub default_branch: String,
}

/// The rolled-up state of a run, a workflow, or a repository.
///
/// The ordering IS the roll-up rule: a repository's health is the maximum over
/// its workflows, so these must run least-bad to worst.
#[derive(Debug, Clone, Copy, PartialEq, Eq, PartialOrd, Ord, Structural)]
pub enum Health {
    Success,
    Neutral,
    Running,
    Failure,
}

impl Health {
    /// How bad a state is.
    pub open spec fn rank(self) -> int {
        match self {
            Health::Success => 0,
            Health::Neutral => 1,
            Health::Running => 2,
            Health::Failure => 3,
        }
    }

    /// The state of a run: one that is not completed is running; a completed one goes by its
    /// conclusion.
    pub open spec fn of_run(status: Seq<char>, conclusion: Option<Seq<char>>) -> Health {
        if status != "completed"@ {
            Health::Running
        } else if conclusion == Some("success"@) {
            Health::Success
        } else if conclusion == Some("failure"@) || conclusion == Some("timed_out"@) || conclusion
            == Some("startup_failure"@) {
            Health::Failure
        } else {
            Health::Neutral
        }
    }

    /// The state of a run with this status and conclusion.
    #[must_use]
    pub fn of(status: &str, conclusion: Option<&str>) -> (r: Health)
        ensures
            r == Health::of_run(status@, crate::text::optional_str(conclusion)),
    {
        if !text_eq(status, "completed") {
            return Health::Running;
        }
        match conclusion {
            Some(c) => if text_eq(c, "success") {
                Health::Success
            } else if text_eq(c, "failure") || text_eq(c, "timed_out") || text_eq(
                c,
                "startup_failure",
            ) {
                Health::Failure
            } else {
                // Cancelled, skipped, neutral, action_required: not broken, not green.
                Health::Neutral
            },
            None => Health::Neutral,
        }
    }

    /// The worse of two states.
    pub fn worse(self, other: Health) -> (r: Health)
        ensures
            r == self || r == other,
            r.rank() >= self.rank(),
            r.rank() >= other.rank(),
    {
        match (self, other) {
            (Health::Failure, _) => self,
            (_, Health::Failure) => other,
            (Health::Running, _) => self,
            (_, Health::Running) => other,
            (Health::Neutral, _) => self,
            (_, _) => other,
        }
    }
}

/// The latest run of one workflow, as the row and its expansion display it.
#[derive(Debug, Clone)]
pub struct WorkflowSummary {
    pub workflow_name: String,
    /// `None` until the run is refetched after the migration; the page omits
    /// the link rather than pointing at a workflow that cannot be resolved.
    pub workflow_path: Option<String>,
    pub health: Health,
    pub branch: String,
    pub commit_subject: String,
    pub html_url: String,
    pub started_at: String,
}

/// The mathematical form of a [`WorkflowSummary`].
#[verifier::ext_equal]
pub struct WorkflowSummaryView {
    pub workflow_name: Seq<char>,
    pub workflow_path: Option<Seq<char>>,
    pub health: Health,
    pub branch: Seq<char>,
    pub commit_subject: Seq<char>,
    pub html_url: Seq<char>,
    pub started_at: Seq<char>,
}

impl View for WorkflowSummary {
    type V = WorkflowSummaryView;

    open spec fn view(&self) -> WorkflowSummaryView {
        WorkflowSummaryView {
            workflow_name: self.workflow_name@,
            workflow_path: crate::text::optional_text(self.workflow_path),
            health: self.health,
            branch: self.branch@,
            commit_subject: self.commit_subject@,
            html_url: self.html_url@,
            started_at: self.started_at@,
        }
    }
}

/// One repository row.
#[derive(Debug, Clone)]
pub struct RepoSummary {
    pub full_name: String,
    pub health: Health,
    /// The newest `started_at` across the workflows below. Drives the sort.
    pub started_at: String,
    pub workflows: Vec<WorkflowSummary>,
}

/// The mathematical form of a [`RepoSummary`].
#[verifier::ext_equal]
pub struct RepoSummaryView {
    pub full_name: Seq<char>,
    pub health: Health,
    pub started_at: Seq<char>,
    pub workflows: Seq<WorkflowSummaryView>,
}

impl View for RepoSummary {
    type V = RepoSummaryView;

    open spec fn view(&self) -> RepoSummaryView {
        RepoSummaryView {
            full_name: self.full_name@,
            health: self.health,
            started_at: self.started_at@,
            workflows: self.workflows@.map_values(|w: WorkflowSummary| w@),
        }
    }
}

/// One workflow's recent runs, newest first: the expansion's history strip.
#[derive(Debug, Clone)]
pub struct WorkflowHistory {
    pub workflow_name: String,
    pub runs: Vec<StoredRun>,
}

/// The mathematical form of a [`WorkflowHistory`].
#[verifier::ext_equal]
pub struct WorkflowHistoryView {
    pub workflow_name: Seq<char>,
    pub runs: Seq<RunView>,
}

impl View for WorkflowHistory {
    type V = WorkflowHistoryView;

    open spec fn view(&self) -> WorkflowHistoryView {
        WorkflowHistoryView {
            workflow_name: self.workflow_name@,
            runs: self.runs@.map_values(|run: StoredRun| run@),
        }
    }
}

/// Why the store refuses a change.
#[derive(Debug)]
pub enum StoreError {
    /// No repository has this name.
    UnknownRepository(String),
    /// A run would belong to a repository that is not stored.
    ForeignKey,
}

impl StoreError {
    /// The text of [`StoreError::message`].
    pub open spec fn message_text(self) -> Seq<char> {
        match self {
            StoreError::UnknownRepository(name) => "unknown repository: "@ + name@,
            StoreError::ForeignKey => "FOREIGN KEY constraint failed"@,
        }
    }

    /// What to tell the user.
    pub fn message(&self) -> (r: String)
        ensures
            r@ == self.message_text(),
    {
        match self {
            StoreError::UnknownRepository(name) => "unknown repository: ".to_owned().concat(
                name.as_str(),
            ),
            StoreError::ForeignKey => "FOREIGN KEY constraint failed".to_owned(),
        }
    }
}

/// What a store holds: repositories by full name, and runs by ID.
#[verifier::ext_equal]
pub struct Tables {
    pub repos: Map<Seq<char>, RepoRowView>,
    pub runs: Map<i64, RunView>,
}

impl Tables {
    /// The tables of a new store.
    pub open spec fn empty() -> Tables {
        Tables { repos: Map::empty(), runs: Map::empty() }
    }

    /// Both tables are finite, each run stands under its ID, and the repository of each run is
    /// stored.
    pub open spec fn valid(self) -> bool {
        &&& self.repos.dom().finite()
        &&& self.runs.dom().finite()
        &&& forall|id: i64| #[trigger]
            self.runs.dom().contains(id) ==> self.runs[id].id == id && self.repos.dom().contains(
                self.runs[id].repo_full_name,
            )
    }

    /// The tables after a repository has been stored: a new one starts as
    /// [`fresh_row`], a known one gets the default branch and keeps the rest.
    pub open spec fn with_repo(self, full_name: Seq<char>, default_branch: Seq<char>) -> Tables {
        let row = if self.repos.dom().contains(full_name) {
            RepoRowView { default_branch, ..self.repos[full_name] }
        } else {
            fresh_row(default_branch)
        };
        Tables { repos: self.repos.insert(full_name, row), runs: self.runs }
    }

    /// The tables after a repository, where it is known, has got `row`.
    pub open spec fn with_row(self, full_name: Seq<char>, row: RepoRowView) -> Tables {
        if self.repos.dom().contains(full_name) {
            Tables { repos: self.repos.insert(full_name, row), runs: self.runs }
        } else {
            self
        }
    }

    /// The tables after GitHub's facts on a repository have been recorded.
    pub open spec fn with_facts(
        self,
        full_name: Seq<char>,
        archived: bool,
        pushed_at: Option<Seq<char>>,
    ) -> Tables {
        self.with_row(full_name, RepoRowView { archived, pushed_at, ..self.repos[full_name] })
    }

    /// The tables after an inclusion decision has been recorded.
    pub open spec fn with_decision(
        self,
        full_name: Seq<char>,
        included: bool,
        skip_reason: Option<Seq<char>>,
    ) -> Tables {
        self.with_row(
            full_name,
            RepoRowView { ignored: !included, skip_reason, ..self.repos[full_name] },
        )
    }

    /// The tables after a manual override has been set or cleared.
    pub open spec fn with_override(self, full_name: Seq<char>, value: Option<Seq<char>>) -> Tables {
        self.with_row(full_name, RepoRowView { user_override: value, ..self.repos[full_name] })
    }

    /// The tables after a repository has been marked as ignored, or not.
    pub open spec fn with_ignored(self, full_name: Seq<char>, ignored: bool) -> Tables {
        self.with_row(full_name, RepoRowView { ignored, ..self.repos[full_name] })
    }

    /// The tables after an `ETag` has been recorded.
    pub open spec fn with_etag(self, full_name: Seq<char>, etag: Seq<char>) -> Tables {
        self.with_row(full_name, RepoRowView { etag: Some(etag), ..self.repos[full_name] })
    }

    /// The `ETag` of a repository: none where it has none, or is unknown.
    pub open spec fn etag(self, full_name: Seq<char>) -> Option<Seq<char>> {
        if self.repos.dom().contains(full_name) {
            self.repos[full_name].etag
        } else {
            None
        }
    }

    /// A run can be stored: it is known already, or its repository is.
    pub open spec fn accepts(self, run: RunView) -> bool {
        self.runs.dom().contains(run.id) || self.repos.dom().contains(run.repo_full_name)
    }

    /// The tables after a run has been stored: of a known one only what may change is replaced.
    pub open spec fn with_run(self, run: RunView) -> Tables {
        let stored = if self.runs.dom().contains(run.id) {
            RunView {
                status: run.status,
                conclusion: run.conclusion,
                commit_subject: run.commit_subject,
                started_at: run.started_at,
                workflow_path: run.workflow_path,
                ..self.runs[run.id]
            }
        } else {
            run
        };
        Tables { repos: self.repos, runs: self.runs.insert(run.id, stored) }
    }

    /// The runs that started before `cutoff`.
    pub open spec fn older_runs(self, cutoff: Seq<char>) -> Set<i64> {
        crate::table::keys_where(
            self.runs,
            |run: RunView| crate::text::text_lt(run.started_at, cutoff),
        )
    }

    /// The tables without the runs that started before `cutoff`.
    pub open spec fn pruned(self, cutoff: Seq<char>) -> Tables {
        Tables { repos: self.repos, runs: self.runs.remove_keys(self.older_runs(cutoff)) }
    }

    /// The runs of a repository.
    pub open spec fn runs_of(self, full_name: Seq<char>) -> Set<i64> {
        crate::table::keys_where(self.runs, |run: RunView| run.repo_full_name == full_name)
    }

    /// A repository is polled and shown.
    pub open spec fn visible(self, full_name: Seq<char>) -> bool {
        self.repos.dom().contains(full_name) && !self.repos[full_name].ignored
    }

    /// The row of the management page for a repository.
    pub open spec fn managed(self, full_name: Seq<char>) -> ManagedRepoView {
        let row = self.repos[full_name];
        ManagedRepoView {
            full_name,
            included: !row.ignored,
            skip_reason: row.skip_reason,
            user_override: row.user_override,
            archived: row.archived,
            pushed_at: row.pushed_at,
            run_count: self.runs_of(full_name).len() as int,
        }
    }

    /// What the inclusion rules need of a repository: nothing where it is unknown.
    pub open spec fn facts(self, full_name: Seq<char>) -> Option<RepoFactsRowView> {
        if self.repos.dom().contains(full_name) {
            let row = self.repos[full_name];
            Some(
                RepoFactsRowView {
                    user_override: row.user_override,
                    archived: row.archived,
                    pushed_at: row.pushed_at,
                    has_runs: self.runs_of(full_name).len() > 0,
                },
            )
        } else {
            None
        }
    }
}

/// The names are in ascending order, and so none occurs twice.
pub open spec fn ascending(names: Seq<Seq<char>>) -> bool {
    forall|i: int, j: int|
        0 <= i < j < names.len() ==> crate::text::text_lt(#[trigger] names[i], #[trigger] names[j])
}

/// The names are in ascending order, and are exactly those in `set`.
pub open spec fn lists(names: Seq<Seq<char>>, set: Set<Seq<char>>) -> bool {
    &&& ascending(names)
    &&& forall|n: Seq<char>| #[trigger] names.contains(n) <==> set.contains(n)
}

/// The repositories, each with its name as its key.
pub open spec fn repo_entries(rows: Seq<RepoRow>) -> Seq<(Seq<char>, RepoRowView)> {
    rows.map_values(|row: RepoRow| (row.full_name@, row@))
}

/// The runs, each with its ID as its key.
pub open spec fn run_entries(runs: Seq<StoredRun>) -> Seq<(i64, RunView)> {
    runs.map_values(|run: StoredRun| (run.id, run@))
}

/// The names of the repositories.
pub open spec fn repo_names(rows: Seq<RepoRow>) -> Seq<Seq<char>> {
    rows.map_values(|row: RepoRow| row.full_name@)
}

/// The repositories are in ascending order of their names, the runs in ascending order of their
/// IDs, and the repository of each run is among the former.
pub open spec fn rows_in_order(repos: Seq<RepoRow>, runs: Seq<StoredRun>) -> bool {
    &&& ascending(repo_names(repos))
    &&& forall|i: int, j: int|
        0 <= i < j < runs.len() ==> (#[trigger] runs[i]).id < (#[trigger] runs[j]).id
    &&& forall|i: int|
        0 <= i < runs.len() ==> repo_names(repos).contains(
            (#[trigger] runs[i]).repo_full_name@,
        )
}

/// The tables that these rows stand for.
pub open spec fn tables_of(repos: Seq<RepoRow>, runs: Seq<StoredRun>) -> Tables {
    Tables {
        repos: crate::table::table(repo_entries(repos)),
        runs: crate::table::table(run_entries(runs)),
    }
}

/// The store of repositories and runs.
#[derive(Debug)]
pub struct Store {
    repos: Vec<RepoRow>,
    runs: Vec<StoredRun>,
}

impl View for Store {
    type V = Tables;

    closed spec fn view(&self) -> Tables {
        tables_of(self.repos@, self.runs@)
    }
}

impl Store {
    /// Both tables are kept in the order of their keys, and the repository of each run is stored.
    pub closed spec fn wf(&self) -> bool {
        rows_in_order(self.repos@, self.runs@)
    }
}

proof fn lemma_ascending_distinct(names: Seq<Seq<char>>, i: int, j: int)
    requires
        ascending(names),
        0 <= i < names.len(),
        0 <= j < names.len(),
        names[i] == names[j],
    ensures
        i == j,
{
    crate::text::lemma_text_lt_irreflexive(names[i]);
}

/// Rows in order have distinct keys.
proof fn lemma_distinct(repos: Seq<RepoRow>, runs: Seq<StoredRun>)
    requires
        rows_in_order(repos, runs),
    ensures
        crate::table::distinct_keys(repo_entries(repos)),
        crate::table::distinct_keys(run_entries(runs)),
{
    let names = repo_names(repos);
    let r = repo_entries(repos);
    assert forall|i: int, j: int|
        0 <= i < r.len() && 0 <= j < r.len() && #[trigger] r[i].0 == #[trigger] r[j].0 implies i
        == j by {
        assert(names[i] == r[i].0 && names[j] == r[j].0);
        lemma_ascending_distinct(names, i, j);
    }
    let u = run_entries(runs);
    assert forall|i: int, j: int|
        0 <= i < u.len() && 0 <= j < u.len() && #[trigger] u[i].0 == #[trigger] u[j].0 implies i
        == j by {
        assert(u[i].0 == runs[i].id && u[j].0 == runs[j].id);
    }
}

/// The names of the rows are the keys of the table.
proof fn lemma_names(repos: Seq<RepoRow>)
    ensures
        forall|n: Seq<char>| #[trigger]
            repo_names(repos).contains(n) <==> crate::table::table(
                repo_entries(repos),
            ).dom().contains(n),
{
    let entries = repo_entries(repos);
    assert forall|n: Seq<char>| #[trigger]
        repo_names(repos).contains(n) <==> crate::table::table(entries).dom().contains(n) by {
        if repo_names(repos).contains(n) {
            let i = choose|i: int| 0 <= i < repos.len() && repo_names(repos)[i] == n;
            assert(crate::table::has_key(entries, i, n));
        }
        if crate::table::table(entries).dom().contains(n) {
            let i = crate::table::lemma_key(entries, n);
            assert(repo_names(repos)[i] == n);
        }
    }
}

/// The table holds each row under its name.
proof fn lemma_repo_row(repos: Seq<RepoRow>, runs: Seq<StoredRun>, i: int)
    requires
        rows_in_order(repos, runs),
        0 <= i < repos.len(),
    ensures
        tables_of(repos, runs).repos.dom().contains(repos[i].full_name@),
        tables_of(repos, runs).repos[repos[i].full_name@] == repos[i]@,
{
    lemma_distinct(repos, runs);
    crate::table::lemma_row(repo_entries(repos), i);
    assert(repo_entries(repos)[i] == (repos[i].full_name@, repos[i]@));
}

/// The table holds each run under its ID.
proof fn lemma_run_row(repos: Seq<RepoRow>, runs: Seq<StoredRun>, i: int)
    requires
        rows_in_order(repos, runs),
        0 <= i < runs.len(),
    ensures
        tables_of(repos, runs).runs.dom().contains(runs[i].id),
        tables_of(repos, runs).runs[runs[i].id] == runs[i]@,
{
    lemma_distinct(repos, runs);
    crate::table::lemma_row(run_entries(runs), i);
    assert(run_entries(runs)[i] == (runs[i].id, runs[i]@));
}

/// Each key of the table is the name of some row.
proof fn lemma_repo_key(repos: Seq<RepoRow>, runs: Seq<StoredRun>, n: Seq<char>) -> (i: int)
    requires
        tables_of(repos, runs).repos.dom().contains(n),
    ensures
        0 <= i < repos.len(),
        repos[i].full_name@ == n,
        tables_of(repos, runs).repos[n] == repos[i]@,
{
    let i = crate::table::lemma_key(repo_entries(repos), n);
    assert(repo_entries(repos)[i] == (repos[i].full_name@, repos[i]@));
    i
}

/// Each key of the table is the ID of some run.
proof fn lemma_run_key(repos: Seq<RepoRow>, runs: Seq<StoredRun>, id: i64) -> (i: int)
    requires
        tables_of(repos, runs).runs.dom().contains(id),
    ensures
        0 <= i < runs.len(),
        runs[i].id == id,
        tables_of(repos, runs).runs[id] == runs[i]@,
{
    let i = crate::table::lemma_key(run_entries(runs), id);
    assert(run_entries(runs)[i] == (runs[i].id, runs[i]@));
    i
}

/// To replace a row by one of the same name is to replace it in the table.
proof fn lemma_row_replaced(repos: Seq<RepoRow>, runs: Seq<StoredRun>, i: int, row: RepoRow)
    requires
        rows_in_order(repos, runs),
        0 <= i < repos.len(),
        row.full_name@ == repos[i].full_name@,
    ensures
        rows_in_order(repos.update(i, row), runs),
        tables_of(repos.update(i, row), runs) == tables_of(repos, runs).with_row(
            row.full_name@,
            row@,
        ),
{
    let new = repos.update(i, row);
    assert(repo_names(new) =~= repo_names(repos));
    lemma_distinct(repos, runs);
    lemma_repo_row(repos, runs, i);
    crate::table::lemma_update(repo_entries(repos), i, row@);
    assert(repo_entries(new) =~= repo_entries(repos).update(
        i,
        (repo_entries(repos)[i].0, row@),
    ));
}

/// To insert a row with a new name where it belongs is to add it to the table.
proof fn lemma_row_inserted(repos: Seq<RepoRow>, runs: Seq<StoredRun>, i: int, row: RepoRow)
    requires
        rows_in_order(repos, runs),
        0 <= i <= repos.len(),
        forall|j: int|
            0 <= j < i ==> crate::text::text_lt((#[trigger] repos[j]).full_name@, row.full_name@),
        forall|j: int|
            i <= j < repos.len() ==> crate::text::text_lt(
                row.full_name@,
                (#[trigger] repos[j]).full_name@,
            ),
    ensures
        rows_in_order(repos.insert(i, row), runs),
        !tables_of(repos, runs).repos.dom().contains(row.full_name@),
        tables_of(repos.insert(i, row), runs).repos == tables_of(repos, runs).repos.insert(
            row.full_name@,
            row@,
        ),
{
    let new = repos.insert(i, row);
    let names = repo_names(repos);
    assert(repo_names(new) =~= names.insert(i, row.full_name@));
    assert forall|a: int, b: int| 0 <= a < b < new.len() implies crate::text::text_lt(
        #[trigger] repo_names(new)[a],
        #[trigger] repo_names(new)[b],
    ) by {
        let a0 = if a < i {
            a
        } else {
            a - 1
        };
        let b0 = if b < i {
            b
        } else {
            b - 1
        };
        if a != i {
            assert(repo_names(new)[a] == names[a0] && names[a0] == repos[a0].full_name@);
        }
        if b != i {
            assert(repo_names(new)[b] == names[b0] && names[b0] == repos[b0].full_name@);
        }
    }
    assert forall|k: int| 0 <= k < runs.len() implies repo_names(new).contains(
        (#[trigger] runs[k]).repo_full_name@,
    ) by {
        let n = runs[k].repo_full_name@;
        let j = choose|j: int| 0 <= j < names.len() && names[j] == n;
        let j1 = if j < i {
            j
        } else {
            j + 1
        };
        assert(repo_names(new)[j1] == n);
    }
    lemma_distinct(repos, runs);
    assert forall|j: int| 0 <= j < repos.len() implies (#[trigger] repo_entries(repos)[j]).0
        != row.full_name@ by {
        assert(repo_entries(repos)[j].0 == repos[j].full_name@);
        crate::text::lemma_text_lt_irreflexive(row.full_name@);
    }
    crate::table::lemma_no_key(repo_entries(repos), row.full_name@);
    crate::table::lemma_insert(repo_entries(repos), i, row.full_name@, row@);
    assert(repo_entries(new) =~= repo_entries(repos).insert(i, (row.full_name@, row@)));
}

/// Where a name belongs among rows in order: those before it are smaller, and where the row there
/// has another name, no row has this one.
proof fn lemma_slot(repos: Seq<RepoRow>, runs: Seq<StoredRun>, i: int, name: Seq<char>)
    requires
        rows_in_order(repos, runs),
        0 <= i <= repos.len(),
        forall|j: int|
            0 <= j < i ==> crate::text::text_lt((#[trigger] repos[j]).full_name@, name),
        i < repos.len() ==> !crate::text::text_lt(repos[i].full_name@, name),
    ensures
        i < repos.len() && repos[i].full_name@ == name ==> tables_of(
            repos,
            runs,
        ).repos.dom().contains(name) && tables_of(repos, runs).repos[name] == repos[i]@,
        !(i < repos.len() && repos[i].full_name@ == name) ==> !tables_of(
            repos,
            runs,
        ).repos.dom().contains(name) && (forall|j: int|
            i <= j < repos.len() ==> crate::text::text_lt(
                name,
                (#[trigger] repos[j]).full_name@,
            )),
{
    let names = repo_names(repos);
    if i < repos.len() && repos[i].full_name@ == name {
        lemma_repo_row(repos, runs, i);
    } else {
        assert forall|j: int| i <= j < repos.len() implies crate::text::text_lt(
            name,
            (#[trigger] repos[j]).full_name@,
        ) by {
            crate::text::lemma_text_lt_total(repos[i].full_name@, name);
            if j > i {
                assert(crate::text::text_lt(names[i], names[j]));
                crate::text::lemma_text_lt_transitive(
                    name,
                    repos[i].full_name@,
                    repos[j].full_name@,
                );
            }
        }
        if tables_of(repos, runs).repos.dom().contains(name) {
            let k = lemma_repo_key(repos, runs, name);
            crate::text::lemma_text_lt_irreflexive(name);
        }
    }
}

/// To replace a run by one of the same ID and repository is to replace it in the table.
proof fn lemma_run_replaced(repos: Seq<RepoRow>, runs: Seq<StoredRun>, i: int, run: StoredRun)
    requires
        rows_in_order(repos, runs),
        0 <= i < runs.len(),
        run.id == runs[i].id,
        run.repo_full_name@ == runs[i].repo_full_name@,
    ensures
        rows_in_order(repos, runs.update(i, run)),
        tables_of(repos, runs.update(i, run)).runs == tables_of(repos, runs).runs.insert(
            run.id,
            run@,
        ),
{
    let new = runs.update(i, run);
    lemma_distinct(repos, runs);
    assert forall|a: int, b: int| 0 <= a < b < new.len() implies (#[trigger] new[a]).id < (
    #[trigger] new[b]).id by {
        assert(new[a].id == runs[a].id && new[b].id == runs[b].id);
    }
    assert forall|k: int| 0 <= k < new.len() implies repo_names(repos).contains(
        (#[trigger] new[k]).repo_full_name@,
    ) by {
        assert(new[k].repo_full_name@ == runs[k].repo_full_name@);
    }
    crate::table::lemma_update(run_entries(runs), i, run@);
    assert(run_entries(new) =~= run_entries(runs).update(i, (run_entries(runs)[i].0, run@)));
}

/// To insert a run with a new ID where it belongs is to add it to the table.
proof fn lemma_run_inserted(repos: Seq<RepoRow>, runs: Seq<StoredRun>, i: int, run: StoredRun)
    requires
        rows_in_order(repos, runs),
        0 <= i <= runs.len(),
        forall|j: int| 0 <= j < i ==> (#[trigger] runs[j]).id < run.id,
        forall|j: int| i <= j < runs.len() ==> run.id < (#[trigger] runs[j]).id,
        repo_names(repos).contains(run.repo_full_name@),
    ensures
        rows_in_order(repos, runs.insert(i, run)),
        !tables_of(repos, runs).runs.dom().contains(run.id),
        tables_of(repos, runs.insert(i, run)).runs == tables_of(repos, runs).runs.insert(
            run.id,
            run@,
        ),
{
    let new = runs.insert(i, run);
    lemma_distinct(repos, runs);
    assert forall|a: int, b: int| 0 <= a < b < new.len() implies (#[trigger] new[a]).id < (
    #[trigger] new[b]).id by {
        let a0 = if a < i {
            a
        } else {
            a - 1
        };
        let b0 = if b < i {
            b
        } else {
            b - 1
        };
        if a != i {
            assert(new[a] == runs[a0]);
        }
        if b != i {
            assert(new[b] == runs[b0]);
        }
    }
    assert forall|k: int| 0 <= k < new.len() implies repo_names(repos).contains(
        (#[trigger] new[k]).repo_full_name@,
    ) by {
        let k0 = if k < i {
            k
        } else {
            k - 1
        };
        if k != i {
            assert(new[k] == runs[k0]);
        }
    }
    assert forall|j: int| 0 <= j < runs.len() implies (#[trigger] run_entries(runs)[j]).0
        != run.id by {
        assert(run_entries(runs)[j].0 == runs[j].id);
    }
    crate::table::lemma_no_key(run_entries(runs), run.id);
    crate::table::lemma_insert(run_entries(runs), i, run.id, run@);
    assert(run_entries(new) =~= run_entries(runs).insert(i, (run.id, run@)));
}

impl Store {
    /// Every state of a store is valid: no name and no ID occurs twice, and each run belongs to a
    /// stored repository.
    pub proof fn every_store_is_valid(&self)
        requires
            self.wf(),
        ensures
            self@.valid(),
    {
        lemma_distinct(self.repos@, self.runs@);
        lemma_names(self.repos@);
        crate::table::lemma_count(repo_entries(self.repos@), |r: RepoRowView| true);
        crate::table::lemma_count(run_entries(self.runs@), |r: RunView| true);
        assert(self@.repos.dom() =~= crate::table::keys_where(self@.repos, |r: RepoRowView| true));
        assert(self@.runs.dom() =~= crate::table::keys_where(self@.runs, |r: RunView| true));
        assert forall|id: i64| #[trigger] self@.runs.dom().contains(id) implies self@.runs[id].id
            == id && self@.repos.dom().contains(self@.runs[id].repo_full_name) by {
            let i = lemma_run_key(self.repos@, self.runs@, id);
            assert(repo_names(self.repos@).contains(self.runs@[i].repo_full_name@));
        }
    }

    /// An empty store.
    pub fn open_in_memory() -> (r: Result<Store, StoreError>)
        ensures
            r is Ok,
            r->Ok_0.wf(),
            r->Ok_0@ == Tables::empty(),
    {
        let store = Store { repos: Vec::new(), runs: Vec::new() };
        proof {
            store.lemma_empty();
        }
        Ok(store)
    }

    proof fn lemma_empty(&self)
        requires
            self.repos@.len() == 0,
            self.runs@.len() == 0,
        ensures
            self.wf(),
            self@ == Tables::empty(),
    {
        assert forall|n: Seq<char>| !self@.repos.dom().contains(n) by {
            crate::table::lemma_no_key(repo_entries(self.repos@), n);
        }
        assert forall|id: i64| !self@.runs.dom().contains(id) by {
            crate::table::lemma_no_key(run_entries(self.runs@), id);
        }
        assert(self@.repos =~= Map::empty());
        assert(self@.runs =~= Map::empty());
    }

    /// The store that rows stand for. `None` where they are not in order, or where a run belongs
    /// to no repository among them.
    pub fn from_rows(repos: Vec<RepoRow>, runs: Vec<StoredRun>) -> (r: Option<Store>)
        ensures
            r is Some == rows_in_order(repos@, runs@),
            r is Some ==> r->0.wf() && r->0@ == tables_of(repos@, runs@),
    {
        let ghost names = repo_names(repos@);
        let mut i: usize = 1;
        while i < repos.len()
            invariant
                1 <= i,
                names == repo_names(repos@),
                i <= repos.len() || repos.len() == 0,
                forall|a: int, b: int|
                    0 <= a < b < i && b < names.len() ==> crate::text::text_lt(
                        #[trigger] names[a],
                        #[trigger] names[b],
                    ),
            decreases repos.len() - i,
        {
            if !text_before(repos[i - 1].full_name.as_str(), repos[i].full_name.as_str()) {
                assert(!crate::text::text_lt(names[i - 1], names[i as int]));
                return None;
            }
            proof {
                assert(crate::text::text_lt(names[i - 1], names[i as int]));
                assert forall|a: int, b: int| 0 <= a < b < i + 1 && b < names.len() implies
                    crate::text::text_lt(#[trigger] names[a], #[trigger] names[b]) by {
                    if b == i && a < i - 1 {
                        crate::text::lemma_text_lt_transitive(names[a], names[i - 1], names[b]);
                    }
                }
            }
            i += 1;
        }
        let store = Store { repos, runs: Vec::new() };
        assert(rows_in_order(store.repos@, store.runs@));
        let mut k: usize = 0;
        while k < runs.len()
            invariant
                store.wf(),
                store.repos == repos,
                store.runs@.len() == 0,
                k <= runs.len(),
                forall|a: int, b: int|
                    0 <= a < b < k ==> (#[trigger] runs@[a]).id < (#[trigger] runs@[b]).id,
                forall|a: int|
                    0 <= a < k ==> repo_names(repos@).contains(
                        (#[trigger] runs@[a]).repo_full_name@,
                    ),
            decreases runs.len() - k,
        {
            proof {
                lemma_names(repos@);
            }
            if k > 0 && runs[k - 1].id >= runs[k].id {
                return None;
            }
            if store.repo_index(runs[k].repo_full_name.as_str()).is_none() {
                assert(!repo_names(repos@).contains(runs@[k as int].repo_full_name@));
                return None;
            }
            k += 1;
        }
        Some(Store { repos: store.repos, runs })
    }

    /// The rows of the store, in order.
    pub fn rows(&self) -> (r: (&Vec<RepoRow>, &Vec<StoredRun>))
        requires
            self.wf(),
        ensures
            rows_in_order(r.0@, r.1@),
            self@ == tables_of(r.0@, r.1@),
    {
        (&self.repos, &self.runs)
    }

    /// Where a name belongs.
    fn repo_slot(&self, full_name: &str) -> (r: usize)
        requires
            self.wf(),
        ensures
            r <= self.repos.len(),
            forall|j: int|
                0 <= j < r ==> crate::text::text_lt(
                    (#[trigger] self.repos@[j]).full_name@,
                    full_name@,
                ),
            r < self.repos.len() ==> !crate::text::text_lt(
                self.repos@[r as int].full_name@,
                full_name@,
            ),
    {
        let ghost names = repo_names(self.repos@);
        let mut low: usize = 0;
        let mut high: usize = self.repos.len();
        while low < high
            invariant
                low <= high <= self.repos.len(),
                names == repo_names(self.repos@),
                ascending(names),
                forall|j: int|
                    0 <= j < low ==> crate::text::text_lt(
                        (#[trigger] self.repos@[j]).full_name@,
                        full_name@,
                    ),
                high < self.repos.len() ==> !crate::text::text_lt(
                    self.repos@[high as int].full_name@,
                    full_name@,
                ),
            decreases high - low,
        {
            let mid: usize = low + (high - low) / 2;
            if text_before(self.repos[mid].full_name.as_str(), full_name) {
                proof {
                    assert forall|j: int| 0 <= j < mid + 1 implies crate::text::text_lt(
                        (#[trigger] self.repos@[j]).full_name@,
                        full_name@,
                    ) by {
                        if j < mid {
                            assert(crate::text::text_lt(names[j], names[mid as int]));
                            crate::text::lemma_text_lt_transitive(
                                names[j],
                                names[mid as int],
                                full_name@,
                            );
                        }
                    }
                }
                low = mid + 1;
            } else {
                high = mid;
            }
        }
        low
    }

    /// The row of a repository, where it is known.
    fn repo_index(&self, full_name: &str) -> (r: Option<usize>)
        requires
            self.wf(),
        ensures
            r is Some == self@.repos.dom().contains(full_name@),
            r is Some ==> r->0 < self.repos.len() && self.repos@[r->0 as int].full_name@
                == full_name@ && self@.repos[full_name@] == self.repos@[r->0 as int]@,
    {
        let i = self.repo_slot(full_name);
        proof {
            lemma_slot(self.repos@, self.runs@, i as int, full_name@);
        }
        if i < self.repos.len() && text_eq(self.repos[i].full_name.as_str(), full_name) {
            Some(i)
        } else {
            None
        }
    }

    /// Where an ID belongs.
    fn run_slot(&self, id: i64) -> (r: usize)
        requires
            self.wf(),
        ensures
            r <= self.runs.len(),
            forall|j: int| 0 <= j < r ==> (#[trigger] self.runs@[j]).id < id,
            forall|j: int| r <= j < self.runs.len() ==> id <= (#[trigger] self.runs@[j]).id,
    {
        let mut low: usize = 0;
        let mut high: usize = self.runs.len();
        while low < high
            invariant
                low <= high <= self.runs.len(),
                forall|i: int, j: int|
                    0 <= i < j < self.runs.len() ==> (#[trigger] self.runs@[i]).id < (
                    #[trigger] self.runs@[j]).id,
                forall|j: int| 0 <= j < low ==> (#[trigger] self.runs@[j]).id < id,
                forall|j: int| high <= j < self.runs.len() ==> id <= (#[trigger] self.runs@[j]).id,
            decreases high - low,
        {
            let mid: usize = low + (high - low) / 2;
            if self.runs[mid].id < id {
                low = mid + 1;
            } else {
                high = mid;
            }
        }
        low
    }

    /// Stores a repository. A new one is polled until a decision says otherwise; of a known one
    /// only the default branch changes.
    pub fn upsert_repo(&mut self, full_name: &str, default_branch: &str) -> (r: Result<
        (),
        StoreError,
    >)
        requires
            old(self).wf(),
        ensures
            final(self).wf(),
            r is Ok,
            final(self)@ == old(self)@.with_repo(full_name@, default_branch@),
    {
        let i = self.repo_slot(full_name);
        proof {
            lemma_slot(self.repos@, self.runs@, i as int, full_name@);
        }
        if i < self.repos.len() && text_eq(self.repos[i].full_name.as_str(), full_name) {
            self.repos[i].default_branch = default_branch.to_owned();
            proof {
                lemma_row_replaced(
                    old(self).repos@,
                    old(self).runs@,
                    i as int,
                    self.repos@[i as int],
                );
            }
        } else {
            let row = RepoRow {
                full_name: full_name.to_owned(),
                default_branch: default_branch.to_owned(),
                etag: None,
                ignored: false,
                user_override: None,
                archived: false,
                pushed_at: None,
                skip_reason: None,
            };
            proof {
                lemma_row_inserted(self.repos@, self.runs@, i as int, row);
            }
            self.repos.insert(i, row);
        }
        Ok(())
    }

    /// Record what GitHub says about a repository, used by the inclusion rules.
    pub fn set_repo_facts(
        &mut self,
        full_name: &str,
        archived: bool,
        pushed_at: Option<&str>,
    ) -> (r: Result<(), StoreError>)
        requires
            old(self).wf(),
        ensures
            final(self).wf(),
            r is Ok,
            final(self)@ == old(self)@.with_facts(
                full_name@,
                archived,
                crate::text::optional_str(pushed_at),
            ),
    {
        match self.repo_index(full_name) {
            Some(i) => {
                self.repos[i].archived = archived;
                self.repos[i].pushed_at = owned(pushed_at);
                proof {
                    assert(self.repos@ =~= old(self).repos@.update(
                        i as int,
                        self.repos@[i as int],
                    ));
                    lemma_row_replaced(
                        old(self).repos@,
                        old(self).runs@,
                        i as int,
                        self.repos@[i as int],
                    );
                }
            },
            None => {},
        }
        Ok(())
    }

    /// Apply an inclusion decision: the effective flag plus the reason the UI
    /// shows. Kept together so the two can never disagree.
    pub fn set_repo_decision(
        &mut self,
        full_name: &str,
        included: bool,
        skip_reason: Option<&str>,
    ) -> (r: Result<(), StoreError>)
        requires
            old(self).wf(),
        ensures
            final(self).wf(),
            r is Ok,
            final(self)@ == old(self)@.with_decision(
                full_name@,
                included,
                crate::text::optional_str(skip_reason),
            ),
    {
        match self.repo_index(full_name) {
            Some(i) => {
                self.repos[i].ignored = !included;
                self.repos[i].skip_reason = owned(skip_reason);
                proof {
                    assert(self.repos@ =~= old(self).repos@.update(
                        i as int,
                        self.repos@[i as int],
                    ));
                    lemma_row_replaced(
                        old(self).repos@,
                        old(self).runs@,
                        i as int,
                        self.repos@[i as int],
                    );
                }
            },
            None => {},
        }
        Ok(())
    }

    /// Sets or clears the manual override of a repository, which must be known.
    pub fn set_repo_override(&mut self, full_name: &str, value: Option<&str>) -> (r: Result<
        (),
        StoreError,
    >)
        requires
            old(self).wf(),
        ensures
            final(self).wf(),
            r is Ok == old(self)@.repos.dom().contains(full_name@),
            r is Err ==> r->Err_0 is UnknownRepository && r->Err_0->UnknownRepository_0@
                == full_name@,
            final(self)@ == old(self)@.with_override(
                full_name@,
                crate::text::optional_str(value),
            ),
    {
        match self.repo_index(full_name) {
            Some(i) => {
                self.repos[i].user_override = owned(value);
                proof {
                    lemma_row_replaced(
                        old(self).repos@,
                        old(self).runs@,
                        i as int,
                        self.repos@[i as int],
                    );
                }
            },
            None => {
                return Err(StoreError::UnknownRepository(full_name.to_owned()));
            },
        }
        Ok(())
    }

    /// Marks a repository as ignored, or not.
    pub fn set_repo_ignored(&mut self, full_name: &str, ignored: bool) -> (r: Result<(), StoreError>)
        requires
            old(self).wf(),
        ensures
            final(self).wf(),
            r is Ok,
            final(self)@ == old(self)@.with_ignored(full_name@, ignored),
    {
        match self.repo_index(full_name) {
            Some(i) => {
                self.repos[i].ignored = ignored;
                proof {
                    lemma_row_replaced(
                        old(self).repos@,
                        old(self).runs@,
                        i as int,
                        self.repos@[i as int],
                    );
                }
            },
            None => {},
        }
        Ok(())
    }

    /// Records the `ETag` of a repository.
    pub fn set_repo_etag(&mut self, full_name: &str, etag: &str) -> (r: Result<(), StoreError>)
        requires
            old(self).wf(),
        ensures
            final(self).wf(),
            r is Ok,
            final(self)@ == old(self)@.with_etag(full_name@, etag@),
    {
        match self.repo_index(full_name) {
            Some(i) => {
                self.repos[i].etag = Some(etag.to_owned());
                proof {
                    lemma_row_replaced(
                        old(self).repos@,
                        old(self).runs@,
                        i as int,
                        self.repos@[i as int],
                    );
                }
            },
            None => {},
        }
        Ok(())
    }

    /// The stored `ETag`, or `None` if the repository has none, or is unknown.
    pub fn repo_etag(&self, full_name: &str) -> (r: Result<Option<String>, StoreError>)
        requires
            self.wf(),
        ensures
            r is Ok,
            crate::text::optional_text(r->Ok_0) == self@.etag(full_name@),
    {
        match self.repo_index(full_name) {
            Some(i) => Ok(copied(&self.repos[i].etag)),
            None => Ok(None),
        }
    }

    /// Stores a run. Of a known one only what may change is replaced; a new one must belong to a
    /// stored repository.
    pub fn upsert_run(&mut self, r: &StoredRun) -> (res: Result<(), StoreError>)
        requires
            old(self).wf(),
        ensures
            final(self).wf(),
            res is Ok == old(self)@.accepts(r@),
            res is Ok ==> final(self)@ == old(self)@.with_run(r@),
            res is Err ==> res->Err_0 is ForeignKey && final(self)@ == old(self)@,
    {
        let i = self.run_slot(r.id);
        if i < self.runs.len() && self.runs[i].id == r.id {
            proof {
                lemma_run_row(self.repos@, self.runs@, i as int);
            }
            self.runs[i].status = r.status.clone();
            self.runs[i].conclusion = copied(&r.conclusion);
            self.runs[i].commit_subject = r.commit_subject.clone();
            self.runs[i].started_at = r.started_at.clone();
            self.runs[i].workflow_path = copied(&r.workflow_path);
            proof {
                assert(self.runs@ =~= old(self).runs@.update(i as int, self.runs@[i as int]));
                lemma_run_replaced(
                    old(self).repos@,
                    old(self).runs@,
                    i as int,
                    self.runs@[i as int],
                );
            }
            return Ok(());
        }
        proof {
            if self@.runs.dom().contains(r.id) {
                let k = lemma_run_key(self.repos@, self.runs@, r.id);
            }
            lemma_names(self.repos@);
        }
        match self.repo_index(r.repo_full_name.as_str()) {
            None => {
                return Err(StoreError::ForeignKey);
            },
            Some(_) => {},
        }
        let run = r.clone();
        proof {
            assert(repo_names(self.repos@).contains(run.repo_full_name@));
            lemma_run_inserted(self.repos@, self.runs@, i as int, run);
        }
        self.runs.insert(i, run);
        Ok(())
    }

    /// How many runs of a repository are stored.
    fn run_count(&self, full_name: &str) -> (r: usize)
        requires
            self.wf(),
        ensures
            r == self@.runs_of(full_name@).len(),
    {
        let ghost entries = run_entries(self.runs@);
        let ghost of_repo = |run: RunView| run.repo_full_name == full_name@;
        let mut count: usize = 0;
        let mut i: usize = 0;
        while i < self.runs.len()
            invariant
                i <= self.runs.len(),
                count <= i,
                entries == run_entries(self.runs@),
                of_repo == (|run: RunView| run.repo_full_name == full_name@),
                count == crate::table::count_rows(entries, i as int, of_repo),
            decreases self.runs.len() - i,
        {
            assert(entries[i as int].1 == self.runs@[i as int]@);
            if text_eq(self.runs[i].repo_full_name.as_str(), full_name) {
                count += 1;
            }
            i += 1;
        }
        proof {
            lemma_distinct(self.repos@, self.runs@);
            crate::table::lemma_count(entries, of_repo);
        }
        count
    }

    /// Every repository with the state the management page displays.
    pub fn managed_repos(&self) -> (r: Result<Vec<ManagedRepo>, StoreError>)
        requires
            self.wf(),
        ensures
            r is Ok,
            is_managed(self@, r->Ok_0@),
    {
        let mut out: Vec<ManagedRepo> = Vec::new();
        let mut i: usize = 0;
        while i < self.repos.len()
            invariant
                self.wf(),
                i <= self.repos.len(),
                managed_names(out@) =~= repo_names(self.repos@).take(i as int),
                forall|k: int|
                    0 <= k < out@.len() ==> (#[trigger] out@[k])@ == self@.managed(
                        out@[k].full_name@,
                    ),
            decreases self.repos.len() - i,
        {
            let row = &self.repos[i];
            proof {
                lemma_repo_row(self.repos@, self.runs@, i as int);
            }
            let ghost before = managed_names(out@);
            out.push(
                ManagedRepo {
                    full_name: row.full_name.clone(),
                    included: !row.ignored,
                    skip_reason: copied(&row.skip_reason),
                    user_override: copied(&row.user_override),
                    archived: row.archived,
                    pushed_at: copied(&row.pushed_at),
                    run_count: self.run_count(row.full_name.as_str()),
                },
            );
            assert(managed_names(out@) =~= before.push(row.full_name@));
            i += 1;
        }
        proof {
            lemma_names(self.repos@);
            assert(repo_names(self.repos@).take(i as int) =~= repo_names(self.repos@));
        }
        Ok(out)
    }

    /// The facts the inclusion rules need for one repository.
    pub fn repo_facts(&self, full_name: &str) -> (r: Result<Option<RepoFactsRow>, StoreError>)
        requires
            self.wf(),
        ensures
            r is Ok,
            r->Ok_0 is Some == self@.facts(full_name@) is Some,
            r->Ok_0 is Some ==> r->Ok_0->0@ == self@.facts(full_name@)->0,
    {
        match self.repo_index(full_name) {
            Some(i) => {
                let row = &self.repos[i];
                Ok(
                    Some(
                        RepoFactsRow {
                            user_override: copied(&row.user_override),
                            archived: row.archived,
                            pushed_at: copied(&row.pushed_at),
                            has_runs: self.run_count(full_name) > 0,
                        },
                    ),
                )
            },
            None => Ok(None),
        }
    }

    /// Every stored repository's full name, ignored or not.
    pub fn all_repo_names(&self) -> (r: Result<Vec<String>, StoreError>)
        requires
            self.wf(),
        ensures
            r is Ok,
            lists(crate::text::texts(r->Ok_0@), self@.repos.dom()),
    {
        let mut out: Vec<String> = Vec::new();
        let mut i: usize = 0;
        while i < self.repos.len()
            invariant
                i <= self.repos.len(),
                crate::text::texts(out@) =~= repo_names(self.repos@).take(i as int),
            decreases self.repos.len() - i,
        {
            let ghost before = crate::text::texts(out@);
            out.push(self.repos[i].full_name.clone());
            assert(crate::text::texts(out@) =~= before.push(self.repos@[i as int].full_name@));
            i += 1;
        }
        proof {
            lemma_names(self.repos@);
            assert(repo_names(self.repos@).take(i as int) =~= repo_names(self.repos@));
        }
        Ok(out)
    }

    /// The repositories that are polled, in the order of their names.
    pub fn active_repos(&self) -> (r: Result<Vec<StoredRepo>, StoreError>)
        requires
            self.wf(),
        ensures
            r is Ok,
            lists(stored_names(r->Ok_0@), Set::new(|n: Seq<char>| self@.visible(n))),
            forall|i: int|
                0 <= i < r->Ok_0@.len() ==> (#[trigger] r->Ok_0@[i]).default_branch@
                    == self@.repos[r->Ok_0@[i].full_name@].default_branch,
    {
        let ghost names = repo_names(self.repos@);
        let mut out: Vec<StoredRepo> = Vec::new();
        let mut i: usize = 0;
        while i < self.repos.len()
            invariant
                self.wf(),
                names == repo_names(self.repos@),
                i <= self.repos.len(),
                ascending(stored_names(out@)),
                forall|k: int|
                    0 <= k < out@.len() ==> self@.visible((#[trigger] out@[k]).full_name@)
                        && out@[k].default_branch@
                        == self@.repos[out@[k].full_name@].default_branch && (forall|j: int|
                        i <= j < names.len() ==> crate::text::text_lt(
                            out@[k].full_name@,
                            #[trigger] names[j],
                        )),
                forall|j: int|
                    0 <= j < i && self@.visible(#[trigger] names[j]) ==> stored_names(
                        out@,
                    ).contains(names[j]),
            decreases self.repos.len() - i,
        {
            let row = &self.repos[i];
            assert(names[i as int] == row.full_name@);
            proof {
                lemma_repo_row(self.repos@, self.runs@, i as int);
            }
            if !row.ignored {
                let ghost before = stored_names(out@);
                out.push(
                    StoredRepo {
                        full_name: row.full_name.clone(),
                        default_branch: row.default_branch.clone(),
                    },
                );
                proof {
                    let after = stored_names(out@);
                    assert(after =~= before.push(row.full_name@));
                    assert forall|a: int, b: int| 0 <= a < b < after.len() implies
                        crate::text::text_lt(#[trigger] after[a], #[trigger] after[b]) by {
                        if b == before.len() {
                            assert(after[a] == out@[a].full_name@);
                            assert(crate::text::text_lt(out@[a].full_name@, names[i as int]));
                        } else {
                            assert(after[a] == before[a] && after[b] == before[b]);
                        }
                    }
                    assert forall|j: int|
                        0 <= j < i + 1 && self@.visible(#[trigger] names[j]) implies after.contains(
                        names[j],
                    ) by {
                        if j < i {
                            let k = choose|k: int| 0 <= k < before.len() && before[k] == names[j];
                            assert(after[k] == names[j]);
                        } else {
                            assert(after[before.len() as int] == names[j]);
                        }
                    }
                }
            }
            i += 1;
        }
        proof {
            lemma_names(self.repos@);
            let listed = stored_names(out@);
            assert forall|n: Seq<char>| #[trigger]
                listed.contains(n) <==> Set::new(|m: Seq<char>| self@.visible(m)).contains(n) by {
                if listed.contains(n) {
                    let k = choose|k: int| 0 <= k < listed.len() && listed[k] == n;
                    assert(out@[k].full_name@ == n);
                }
                if self@.visible(n) {
                    assert(names.contains(n));
                    let j = choose|j: int| 0 <= j < names.len() && names[j] == n;
                    assert(listed.contains(names[j]));
                }
            }
        }
        Ok(out)
    }

    /// Delete runs started before an RFC 3339 cutoff. Returns the number removed.
    pub fn prune_before(&mut self, cutoff_rfc3339: &str) -> (r: Result<usize, StoreError>)
        requires
            old(self).wf(),
        ensures
            final(self).wf(),
            r is Ok,
            r->Ok_0 == old(self)@.older_runs(cutoff_rfc3339@).len(),
            final(self)@ == old(self)@.pruned(cutoff_rfc3339@),
    {
        let ghost repos = self.repos@;
        let ghost runs = self.runs@;
        let ghost entries = run_entries(runs);
        let ghost older = |run: RunView| crate::text::text_lt(run.started_at, cutoff_rfc3339@);
        let mut kept: Vec<StoredRun> = Vec::new();
        let mut removed: usize = 0;
        let mut i: usize = 0;
        while i < self.runs.len()
            invariant
                self.repos@ == repos,
                self.runs@ == runs,
                rows_in_order(repos, runs),
                i <= runs.len(),
                removed <= i,
                entries == run_entries(runs),
                older == (|run: RunView| crate::text::text_lt(run.started_at, cutoff_rfc3339@)),
                removed == crate::table::count_rows(entries, i as int, older),
                forall|k: int|
                    0 <= k < kept@.len() ==> !older((#[trigger] kept@[k])@) && (exists|j: int|
                        0 <= j < i && kept@[k] == #[trigger] runs[j]),
                forall|a: int, b: int|
                    0 <= a < b < kept@.len() ==> (#[trigger] kept@[a]).id < (
                    #[trigger] kept@[b]).id,
                forall|j: int|
                    0 <= j < i && !older((#[trigger] runs[j])@) ==> kept@.contains(runs[j]),
            decreases runs.len() - i,
        {
            assert(entries[i as int].1 == runs[i as int]@);
            if text_before(self.runs[i].started_at.as_str(), cutoff_rfc3339) {
                removed += 1;
            } else {
                let ghost before = kept@;
                kept.push(self.runs[i].clone());
                proof {
                    assert(kept@ =~= before.push(runs[i as int]));
                    assert forall|j: int|
                        0 <= j < i + 1 && !older((#[trigger] runs[j])@) implies kept@.contains(
                        runs[j],
                    ) by {
                        if j < i {
                            let k = choose|k: int| 0 <= k < before.len() && before[k] == runs[j];
                            assert(kept@[k] == runs[j]);
                        } else {
                            assert(kept@[before.len() as int] == runs[j]);
                        }
                    }
                }
            }
            i += 1;
        }
        proof {
            lemma_distinct(repos, runs);
            crate::table::lemma_count(entries, older);
            assert forall|k: int| 0 <= k < kept@.len() implies repo_names(repos).contains(
                (#[trigger] kept@[k]).repo_full_name@,
            ) by {
                assert(!older(kept@[k]@));
            }
            let before = tables_of(repos, runs);
            let after = tables_of(repos, kept@);
            assert forall|id: i64| #[trigger]
                after.runs.dom().contains(id) <==> before.pruned(
                    cutoff_rfc3339@,
                ).runs.dom().contains(id) by {
                if after.runs.dom().contains(id) {
                    let k = lemma_run_key(repos, kept@, id);
                    let j = choose|j: int| 0 <= j < i && kept@[k] == #[trigger] runs[j];
                    lemma_run_row(repos, runs, j);
                    assert(!older(runs[j]@));
                }
                if before.runs.dom().contains(id) && !older(before.runs[id]) {
                    let j = lemma_run_key(repos, runs, id);
                    assert(kept@.contains(runs[j]));
                    let k = choose|k: int| 0 <= k < kept@.len() && kept@[k] == runs[j];
                    lemma_run_row(repos, kept@, k);
                }
            }
            assert forall|id: i64| #[trigger] after.runs.dom().contains(id) implies after.runs[id]
                == before.runs[id] by {
                let k = lemma_run_key(repos, kept@, id);
                let j = choose|j: int| 0 <= j < i && kept@[k] == #[trigger] runs[j];
                lemma_run_row(repos, runs, j);
            }
            assert(after.runs =~= before.pruned(cutoff_rfc3339@).runs);
        }
        self.runs = kept;
        Ok(removed)
    }
}

/// The names of rows of the management page.
pub open spec fn managed_names(rows: Seq<ManagedRepo>) -> Seq<Seq<char>> {
    rows.map_values(|row: ManagedRepo| row.full_name@)
}

/// The rows of the management page: every repository in the order of the names, whether it is
/// polled or not.
pub open spec fn is_managed(tables: Tables, rows: Seq<ManagedRepo>) -> bool {
    &&& lists(managed_names(rows), tables.repos.dom())
    &&& forall|i: int|
        0 <= i < rows.len() ==> (#[trigger] rows[i])@ == tables.managed(rows[i].full_name@)
}

/// The names of repositories that are polled.
pub open spec fn stored_names(repos: Seq<StoredRepo>) -> Seq<Seq<char>> {
    repos.map_values(|repo: StoredRepo| repo.full_name@)
}

} // verus!
