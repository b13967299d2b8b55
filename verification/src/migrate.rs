//! The layout of the database, and the steps that bring an older one up to date.
use vstd::prelude::*;
use vstd::string::*;

use crate::text::text_eq;

pub mod laws;
pub mod stored;

verus! {

broadcast use vstd::string::group_string_axioms;

/// The layout of the first version. Creating it leaves what is already there as it is.
pub const SCHEMA: &'static str = r"
CREATE TABLE IF NOT EXISTS repos (
    full_name      TEXT PRIMARY KEY,
    default_branch TEXT NOT NULL,
    etag           TEXT,
    last_synced    TEXT,
    ignored        INTEGER NOT NULL DEFAULT 0
);
CREATE TABLE IF NOT EXISTS runs (
    id             INTEGER PRIMARY KEY,
    repo_full_name TEXT NOT NULL REFERENCES repos(full_name) ON DELETE CASCADE,
    workflow_name  TEXT NOT NULL,
    branch         TEXT NOT NULL,
    actor          TEXT NOT NULL,
    status         TEXT NOT NULL,
    conclusion     TEXT,
    commit_sha     TEXT NOT NULL,
    commit_subject TEXT NOT NULL,
    html_url       TEXT NOT NULL,
    started_at     TEXT NOT NULL
);
CREATE INDEX IF NOT EXISTS runs_started_at ON runs(started_at DESC);
";

/// A column that the table of repositories got later.
#[derive(Debug, Clone, Copy, PartialEq, Eq, Structural)]
pub enum RepoColumn {
    UserOverride,
    Archived,
    PushedAt,
    SkipReason,
}

impl RepoColumn {
    /// The name of a column.
    pub open spec fn column(self) -> Seq<char> {
        match self {
            RepoColumn::UserOverride => "user_override"@,
            RepoColumn::Archived => "archived"@,
            RepoColumn::PushedAt => "pushed_at"@,
            RepoColumn::SkipReason => "skip_reason"@,
        }
    }

    /// The type of a column.
    pub open spec fn declaration(self) -> Seq<char> {
        match self {
            RepoColumn::Archived => "INTEGER NOT NULL DEFAULT 0"@,
            _ => "TEXT"@,
        }
    }

    /// The name of the column.
    pub fn name(&self) -> (r: &'static str)
        ensures
            r@ == self.column(),
    {
        match self {
            RepoColumn::UserOverride => "user_override",
            RepoColumn::Archived => "archived",
            RepoColumn::PushedAt => "pushed_at",
            RepoColumn::SkipReason => "skip_reason",
        }
    }

    /// The type of the column.
    pub fn decl(&self) -> (r: &'static str)
        ensures
            r@ == self.declaration(),
    {
        match self {
            RepoColumn::Archived => "INTEGER NOT NULL DEFAULT 0",
            _ => "TEXT",
        }
    }
}

/// One step of a migration.
#[derive(Debug, Clone, Copy, PartialEq, Eq, Structural)]
pub enum Step {
    /// An earlier version stored a numeric workflow ID. GitHub addresses a
    /// workflow page by file name, so the ID was useless: drop it.
    DropWorkflowId,
    AddRepoColumn(RepoColumn),
    /// Clearing the ETags in the same step is what backfills the new
    /// column: every repository looks changed on the next cycle, so its
    /// runs are refetched once with the workflow path attached. Doing it
    /// here means it happens exactly once, on the first open after the
    /// upgrade: a restart must not force a full resync.
    AddWorkflowPath,
}

impl Step {
    /// The text of [`Step::sql`].
    pub open spec fn sql_text(self) -> Seq<char> {
        match self {
            Step::DropWorkflowId => "ALTER TABLE runs DROP COLUMN workflow_id;"@,
            Step::AddRepoColumn(c) => "ALTER TABLE repos ADD COLUMN "@ + c.column() + " "@
                + c.declaration() + ";"@,
            Step::AddWorkflowPath =>
                "BEGIN; ALTER TABLE runs ADD COLUMN workflow_path TEXT; UPDATE repos SET etag = NULL; COMMIT;"@,
        }
    }

    /// The text of [`Step::failure`].
    pub open spec fn failure_text(self) -> Seq<char> {
        match self {
            Step::DropWorkflowId => "failed to drop the obsolete runs.workflow_id"@,
            Step::AddRepoColumn(c) => "failed to add repos."@ + c.column(),
            Step::AddWorkflowPath => "failed to add runs.workflow_path"@,
        }
    }

    /// The statements of the step.
    pub fn sql(&self) -> (r: String)
        ensures
            r@ == self.sql_text(),
    {
        match self {
            Step::DropWorkflowId => "ALTER TABLE runs DROP COLUMN workflow_id;".to_owned(),
            Step::AddRepoColumn(c) => "ALTER TABLE repos ADD COLUMN ".to_owned().concat(
                c.name(),
            ).concat(" ").concat(c.decl()).concat(";"),
            Step::AddWorkflowPath =>
                "BEGIN; ALTER TABLE runs ADD COLUMN workflow_path TEXT; UPDATE repos SET etag = NULL; COMMIT;".to_owned(),
        }
    }

    /// What to say where the step fails.
    pub fn failure(&self) -> (r: String)
        ensures
            r@ == self.failure_text(),
    {
        match self {
            Step::DropWorkflowId => "failed to drop the obsolete runs.workflow_id".to_owned(),
            Step::AddRepoColumn(c) => "failed to add repos.".to_owned().concat(c.name()),
            Step::AddWorkflowPath => "failed to add runs.workflow_path".to_owned(),
        }
    }
}

/// The columns of the two tables.
#[verifier::ext_equal]
pub struct Layout {
    pub runs: Set<Seq<char>>,
    pub repos: Set<Seq<char>>,
}

impl Layout {
    /// The layout after a step.
    pub open spec fn after(self, step: Step) -> Layout {
        match step {
            Step::DropWorkflowId => Layout { runs: self.runs.remove("workflow_id"@), ..self },
            Step::AddRepoColumn(c) => Layout { repos: self.repos.insert(c.column()), ..self },
            Step::AddWorkflowPath => Layout { runs: self.runs.insert("workflow_path"@), ..self },
        }
    }

    /// The layout after all these steps.
    pub open spec fn after_all(self, steps: Seq<Step>) -> Layout
        decreases steps.len(),
    {
        if steps.len() == 0 {
            self
        } else {
            self.after_all(steps.drop_last()).after(steps.last())
        }
    }

    /// The step that adds a column to the repositories, where it is missing.
    pub open spec fn missing(self, c: RepoColumn) -> Seq<Step> {
        if self.repos.contains(c.column()) {
            Seq::empty()
        } else {
            seq![Step::AddRepoColumn(c)]
        }
    }

    /// The steps that a layout still needs.
    pub open spec fn steps(self) -> Seq<Step> {
        let drop_id = if self.runs.contains("workflow_id"@) {
            seq![Step::DropWorkflowId]
        } else {
            Seq::empty()
        };
        let add_path = if self.runs.contains("workflow_path"@) {
            Seq::empty()
        } else {
            seq![Step::AddWorkflowPath]
        };
        drop_id + self.missing(RepoColumn::UserOverride) + self.missing(RepoColumn::Archived)
            + self.missing(RepoColumn::PushedAt) + self.missing(RepoColumn::SkipReason) + add_path
    }

    /// The layout has all columns that the dashboard uses, and not the obsolete one.
    pub open spec fn current(self) -> bool {
        &&& !self.runs.contains("workflow_id"@)
        &&& self.runs.contains("workflow_path"@)
        &&& forall|c: RepoColumn| self.repos.contains(#[trigger] c.column())
    }
}

/// The layout of tables with these columns.
pub open spec fn layout(run_columns: Seq<String>, repo_columns: Seq<String>) -> Layout {
    Layout {
        runs: crate::text::texts(run_columns).to_set(),
        repos: crate::text::texts(repo_columns).to_set(),
    }
}

fn has_column(columns: &Vec<String>, name: &str) -> (r: bool)
    ensures
        r == crate::text::texts(columns@).to_set().contains(name@),
{
    let ghost names = crate::text::texts(columns@);
    let mut i: usize = 0;
    while i < columns.len()
        invariant
            i <= columns.len(),
            names == crate::text::texts(columns@),
            forall|j: int| 0 <= j < i ==> #[trigger] names[j] != name@,
        decreases columns.len() - i,
    {
        assert(names[i as int] == columns@[i as int]@);
        if text_eq(columns[i].as_str(), name) {
            assert(names.contains(name@));
            return true;
        }
        i += 1;
    }
    false
}

/// The steps that bring a database with these columns up to date, in order. Each step checks
/// whether it has already been applied, so there are none after the first time.
pub fn migrate(run_columns: &Vec<String>, repo_columns: &Vec<String>) -> (r: Vec<Step>)
    ensures
        r@ == layout(run_columns@, repo_columns@).steps(),
{
    let ghost l = layout(run_columns@, repo_columns@);
    let mut steps: Vec<Step> = Vec::new();
    if has_column(run_columns, "workflow_id") {
        steps.push(Step::DropWorkflowId);
    }
    let ghost s0 = steps@;
    if !has_column(repo_columns, RepoColumn::UserOverride.name()) {
        steps.push(Step::AddRepoColumn(RepoColumn::UserOverride));
    }
    assert(steps@ =~= s0 + l.missing(RepoColumn::UserOverride));
    let ghost s1 = steps@;
    if !has_column(repo_columns, RepoColumn::Archived.name()) {
        steps.push(Step::AddRepoColumn(RepoColumn::Archived));
    }
    assert(steps@ =~= s1 + l.missing(RepoColumn::Archived));
    let ghost s2 = steps@;
    if !has_column(repo_columns, RepoColumn::PushedAt.name()) {
        steps.push(Step::AddRepoColumn(RepoColumn::PushedAt));
    }
    assert(steps@ =~= s2 + l.missing(RepoColumn::PushedAt));
    let ghost s3 = steps@;
    if !has_column(repo_columns, RepoColumn::SkipReason.name()) {
        steps.push(Step::AddRepoColumn(RepoColumn::SkipReason));
    }
    assert(steps@ =~= s3 + l.missing(RepoColumn::SkipReason));
    if !has_column(run_columns, "workflow_path") {
        steps.push(Step::AddWorkflowPath);
    }
    assert(steps@ =~= l.steps());
    steps
}

proof fn lemma_after_all_joined(l: Layout, a: Seq<Step>, b: Seq<Step>)
    ensures
        l.after_all(a + b) == l.after_all(a).after_all(b),
    decreases b.len(),
{
    if b.len() == 0 {
        assert(a + b =~= a);
    } else {
        assert((a + b).drop_last() =~= a + b.drop_last());
        lemma_after_all_joined(l, a, b.drop_last());
    }
}

proof fn lemma_after_one(l: Layout, step: Step)
    ensures
        l.after_all(seq![step]) == l.after(step),
        l.after_all(Seq::empty()) == l,
{
    assert(seq![step].drop_last() =~= Seq::<Step>::empty());
    assert(l.after_all(Seq::<Step>::empty()) == l);
}

/// A migration brings any database up to date.
pub proof fn a_migration_brings_up_to_date(l: Layout)
    ensures
        l.after_all(l.steps()).current(),
{
    let drop_id = if l.runs.contains("workflow_id"@) {
        seq![Step::DropWorkflowId]
    } else {
        Seq::empty()
    };
    let add_path = if l.runs.contains("workflow_path"@) {
        Seq::empty()
    } else {
        seq![Step::AddWorkflowPath]
    };
    let m1 = l.missing(RepoColumn::UserOverride);
    let m2 = l.missing(RepoColumn::Archived);
    let m3 = l.missing(RepoColumn::PushedAt);
    let m4 = l.missing(RepoColumn::SkipReason);
    lemma_after_all_joined(l, drop_id + m1 + m2 + m3 + m4, add_path);
    lemma_after_all_joined(l, drop_id + m1 + m2 + m3, m4);
    lemma_after_all_joined(l, drop_id + m1 + m2, m3);
    lemma_after_all_joined(l, drop_id + m1, m2);
    lemma_after_all_joined(l, drop_id, m1);
    let l0 = l.after_all(drop_id);
    let l1 = l0.after_all(m1);
    let l2 = l1.after_all(m2);
    let l3 = l2.after_all(m3);
    let l4 = l3.after_all(m4);
    lemma_after_one(l, Step::DropWorkflowId);
    lemma_after_one(l0, Step::AddRepoColumn(RepoColumn::UserOverride));
    lemma_after_one(l1, Step::AddRepoColumn(RepoColumn::Archived));
    lemma_after_one(l2, Step::AddRepoColumn(RepoColumn::PushedAt));
    lemma_after_one(l3, Step::AddRepoColumn(RepoColumn::SkipReason));
    lemma_after_one(l4, Step::AddWorkflowPath);
    reveal_strlit("workflow_id");
    reveal_strlit("workflow_path");
    assert("workflow_id"@.len() != "workflow_path"@.len());
    let end = l.after_all(l.steps());
    assert forall|c: RepoColumn| end.repos.contains(#[trigger] c.column()) by {
        match c {
            RepoColumn::UserOverride => {},
            RepoColumn::Archived => {},
            RepoColumn::PushedAt => {},
            RepoColumn::SkipReason => {},
        }
    }
}

/// A database that is up to date needs no step: a migration is done once, and a restart does not
/// clear the ETags again.
pub proof fn a_migration_is_done_once(l: Layout)
    ensures
        l.current() ==> l.steps() == Seq::<Step>::empty(),
        l.after_all(l.steps()).steps() == Seq::<Step>::empty(),
{
    a_migration_brings_up_to_date(l);
    let end = l.after_all(l.steps());
    assert(end.repos.contains(RepoColumn::UserOverride.column()));
    assert(end.repos.contains(RepoColumn::Archived.column()));
    assert(end.repos.contains(RepoColumn::PushedAt.column()));
    assert(end.repos.contains(RepoColumn::SkipReason.column()));
    assert(end.steps() =~= Seq::<Step>::empty());
    if l.current() {
        assert(l.repos.contains(RepoColumn::UserOverride.column()));
        assert(l.repos.contains(RepoColumn::Archived.column()));
        assert(l.repos.contains(RepoColumn::PushedAt.column()));
        assert(l.repos.contains(RepoColumn::SkipReason.column()));
        assert(l.steps() =~= Seq::<Step>::empty());
    }
}

/// The ETags are cleared exactly where the runs have no workflow path yet, in the step that adds
/// it.
pub proof fn etags_are_cleared_with_the_new_column(l: Layout)
    ensures
        l.steps().contains(Step::AddWorkflowPath) == !l.runs.contains("workflow_path"@),
{
    let s = l.steps();
    if !l.runs.contains("workflow_path"@) {
        assert(s[s.len() - 1] == Step::AddWorkflowPath);
    }
}

} // verus!
