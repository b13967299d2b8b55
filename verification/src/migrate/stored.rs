//! What a migration does to what is stored.
use vstd::prelude::*;

use super::{RepoColumn, Step};

verus! {

/// What one column of one row holds.
#[verifier::ext_equal]
pub enum Cell {
    Null,
    Integer(int),
    Text(Seq<char>),
}

impl Cell {
    /// The text in a column that always holds one.
    pub open spec fn text(self) -> Seq<char> {
        match self {
            Cell::Text(s) => s,
            _ => Seq::empty(),
        }
    }

    /// The text in a column that may be empty.
    pub open spec fn optional(self) -> Option<Seq<char>> {
        match self {
            Cell::Text(s) => Some(s),
            _ => None,
        }
    }

    /// The flag in a column: zero means that it is not set.
    pub open spec fn flag(self) -> bool {
        match self {
            Cell::Integer(n) => n != 0,
            _ => false,
        }
    }
}

/// The columns of a row, each with what it holds.
pub type Row = Map<Seq<char>, Cell>;

impl RepoColumn {
    /// What the rows that are already there get in a new column.
    pub open spec fn initial(self) -> Cell {
        match self {
            RepoColumn::Archived => Cell::Integer(0),
            _ => Cell::Null,
        }
    }
}

/// What a row holds in a column of the repositories: where the column is still missing, what it
/// will get there.
pub open spec fn repo_cell(row: Row, column: Seq<char>) -> Cell {
    if row.dom().contains(column) {
        row[column]
    } else if column == RepoColumn::Archived.column() {
        RepoColumn::Archived.initial()
    } else {
        Cell::Null
    }
}

/// What a row holds in a column of the runs: nothing where the column is still missing.
pub open spec fn run_cell(row: Row, column: Seq<char>) -> Cell {
    if row.dom().contains(column) {
        row[column]
    } else {
        Cell::Null
    }
}

/// A repository as its row gives it.
pub open spec fn repo_of(row: Row) -> crate::store::RepoRowView {
    crate::store::RepoRowView {
        default_branch: repo_cell(row, "default_branch"@).text(),
        etag: repo_cell(row, "etag"@).optional(),
        ignored: repo_cell(row, "ignored"@).flag(),
        user_override: repo_cell(row, "user_override"@).optional(),
        archived: repo_cell(row, "archived"@).flag(),
        pushed_at: repo_cell(row, "pushed_at"@).optional(),
        skip_reason: repo_cell(row, "skip_reason"@).optional(),
    }
}

/// A run as its row gives it.
pub open spec fn run_of(id: i64, row: Row) -> crate::store::RunView {
    crate::store::RunView {
        id,
        repo_full_name: run_cell(row, "repo_full_name"@).text(),
        workflow_name: run_cell(row, "workflow_name"@).text(),
        branch: run_cell(row, "branch"@).text(),
        actor: run_cell(row, "actor"@).text(),
        status: run_cell(row, "status"@).text(),
        conclusion: run_cell(row, "conclusion"@).optional(),
        commit_sha: run_cell(row, "commit_sha"@).text(),
        commit_subject: run_cell(row, "commit_subject"@).text(),
        html_url: run_cell(row, "html_url"@).text(),
        started_at: run_cell(row, "started_at"@).text(),
        workflow_path: run_cell(row, "workflow_path"@).optional(),
    }
}

/// The rows with the column `column` set to `cell` in each of them.
pub open spec fn set_in_all<K>(rows: Map<K, Row>, column: Seq<char>, cell: Cell) -> Map<K, Row> {
    Map::new(|k: K| rows.dom().contains(k), |k: K| rows[k].insert(column, cell))
}

/// The rows without the column `column`.
pub open spec fn removed_from_all<K>(rows: Map<K, Row>, column: Seq<char>) -> Map<K, Row> {
    Map::new(|k: K| rows.dom().contains(k), |k: K| rows[k].remove(column))
}

/// A database: its columns, and its rows by the name of the repository and by the ID of the run.
#[verifier::ext_equal]
pub struct Database {
    pub layout: super::Layout,
    pub repos: Map<Seq<char>, Row>,
    pub runs: Map<i64, Row>,
}

impl Database {
    /// Every row has exactly the columns of its table, and the repositories have those of the
    /// first version that are read.
    pub open spec fn valid(self) -> bool {
        &&& self.layout.repos.contains("default_branch"@)
        &&& self.layout.repos.contains("etag"@)
        &&& self.layout.repos.contains("ignored"@)
        &&& forall|n: Seq<char>| #[trigger]
            self.repos.dom().contains(n) ==> self.repos[n].dom() == self.layout.repos
        &&& forall|id: i64| #[trigger]
            self.runs.dom().contains(id) ==> self.runs[id].dom() == self.layout.runs
    }

    /// The database after the statements of a step.
    pub open spec fn after(self, step: Step) -> Database {
        match step {
            Step::DropWorkflowId => Database {
                layout: self.layout.after(step),
                repos: self.repos,
                runs: removed_from_all(self.runs, "workflow_id"@),
            },
            Step::AddRepoColumn(c) => Database {
                layout: self.layout.after(step),
                repos: set_in_all(self.repos, c.column(), c.initial()),
                runs: self.runs,
            },
            Step::AddWorkflowPath => Database {
                layout: self.layout.after(step),
                repos: set_in_all(self.repos, "etag"@, Cell::Null),
                runs: set_in_all(self.runs, "workflow_path"@, Cell::Null),
            },
        }
    }

    /// The database after all these steps.
    pub open spec fn after_all(self, steps: Seq<Step>) -> Database
        decreases steps.len(),
    {
        if steps.len() == 0 {
            self
        } else {
            self.after_all(steps.drop_last()).after(steps.last())
        }
    }

    /// The database after a migration.
    pub open spec fn migrated(self) -> Database {
        self.after_all(self.layout.steps())
    }

    /// The tables that are read from the database.
    pub open spec fn tables(self) -> crate::store::Tables {
        crate::store::Tables {
            repos: Map::new(
                |n: Seq<char>| self.repos.dom().contains(n),
                |n: Seq<char>| repo_of(self.repos[n]),
            ),
            runs: Map::new(
                |id: i64| self.runs.dom().contains(id),
                |id: i64| run_of(id, self.runs[id]),
            ),
        }
    }
}

/// The tables with no `ETag` in any repository.
pub open spec fn without_etags(tables: crate::store::Tables) -> crate::store::Tables {
    crate::store::Tables {
        repos: Map::new(
            |n: Seq<char>| tables.repos.dom().contains(n),
            |n: Seq<char>| crate::store::RepoRowView { etag: None, ..tables.repos[n] },
        ),
        runs: tables.runs,
    }
}

/// What a step does to the tables: only the one that adds the workflow path changes them, and it
/// clears every `ETag`.
pub open spec fn tables_after(tables: crate::store::Tables, step: Step) -> crate::store::Tables {
    match step {
        Step::AddWorkflowPath => without_etags(tables),
        _ => tables,
    }
}

/// A step adds a column only where it is missing.
pub open spec fn fits(layout: super::Layout, step: Step) -> bool {
    match step {
        Step::DropWorkflowId => true,
        Step::AddRepoColumn(c) => !layout.repos.contains(c.column()),
        Step::AddWorkflowPath => !layout.runs.contains("workflow_path"@),
    }
}

proof fn lemma_columns_differ()
    ensures
        "default_branch"@.len() == 14,
        "etag"@.len() == 4,
        "ignored"@.len() == 7,
        "user_override"@.len() == 13,
        "archived"@.len() == 8,
        "pushed_at"@.len() == 9,
        "skip_reason"@.len() == 11,
        "repo_full_name"@.len() == 14,
        "workflow_name"@.len() == 13,
        "branch"@.len() == 6,
        "actor"@.len() == 5,
        "status"@.len() == 6,
        "conclusion"@.len() == 10,
        "commit_sha"@.len() == 10,
        "commit_subject"@.len() == 14,
        "html_url"@.len() == 8,
        "started_at"@.len() == 10,
        "workflow_path"@.len() == 13,
        "workflow_id"@.len() == 11,
        "workflow_path"@ != "workflow_name"@,
{
    reveal_strlit("default_branch");
    reveal_strlit("etag");
    reveal_strlit("ignored");
    reveal_strlit("user_override");
    reveal_strlit("archived");
    reveal_strlit("pushed_at");
    reveal_strlit("skip_reason");
    reveal_strlit("repo_full_name");
    reveal_strlit("workflow_name");
    reveal_strlit("branch");
    reveal_strlit("actor");
    reveal_strlit("status");
    reveal_strlit("conclusion");
    reveal_strlit("commit_sha");
    reveal_strlit("commit_subject");
    reveal_strlit("html_url");
    reveal_strlit("started_at");
    reveal_strlit("workflow_path");
    reveal_strlit("workflow_id");
    assert("workflow_path"@[9] != "workflow_name"@[9]);
}

/// A step that fits leaves a valid database valid, and does to the tables what
/// [`tables_after`] says.
pub proof fn a_step_on_the_tables(db: Database, step: Step)
    requires
        db.valid(),
        fits(db.layout, step),
    ensures
        db.after(step).valid(),
        db.after(step).tables() == tables_after(db.tables(), step),
{
    lemma_columns_differ();
    let new = db.after(step);
    assert forall|n: Seq<char>| #[trigger] new.repos.dom().contains(n) implies new.repos[n].dom()
        == new.layout.repos by {
        assert(db.repos.dom().contains(n));
        assert(new.repos[n].dom() =~= new.layout.repos);
    }
    assert forall|id: i64| #[trigger] new.runs.dom().contains(id) implies new.runs[id].dom()
        == new.layout.runs by {
        assert(db.runs.dom().contains(id));
        assert(new.runs[id].dom() =~= new.layout.runs);
    }
    let left = new.tables();
    let right = tables_after(db.tables(), step);
    assert forall|n: Seq<char>| #[trigger] left.repos.dom().contains(n) implies left.repos[n]
        == right.repos[n] by {
        assert(db.repos.dom().contains(n));
        assert(left.repos[n] =~= right.repos[n]);
    }
    assert forall|id: i64| #[trigger] left.runs.dom().contains(id) implies left.runs[id]
        == right.runs[id] by {
        assert(db.runs.dom().contains(id));
        assert(left.runs[id] =~= right.runs[id]);
    }
    assert(left.repos =~= right.repos);
    assert(left.runs =~= right.runs);
}

/// The rows of a database after a migration: no row comes or goes, a column that was there keeps
/// what it held, but for the ETags where the workflow path was missing, and a new column holds its
/// initial value.
pub open spec fn keeps_values(before: Database, after: Database) -> bool {
    &&& after.repos.dom() == before.repos.dom()
    &&& after.runs.dom() == before.runs.dom()
    &&& forall|n: Seq<char>, column: Seq<char>|
        before.repos.dom().contains(n) && after.layout.repos.contains(column)
            ==> #[trigger] after.repos[n][column] == (if column == "etag"@
            && !before.layout.runs.contains("workflow_path"@) {
            Cell::Null
        } else {
            repo_cell(before.repos[n], column)
        })
    &&& forall|id: i64, column: Seq<char>|
        before.runs.dom().contains(id) && after.layout.runs.contains(column)
            ==> #[trigger] after.runs[id][column] == run_cell(before.runs[id], column)
}

proof fn lemma_joined(db: Database, a: Seq<Step>, b: Seq<Step>)
    ensures
        db.after_all(a + b) == db.after_all(a).after_all(b),
    decreases b.len(),
{
    if b.len() == 0 {
        assert(a + b =~= a);
    } else {
        assert((a + b).drop_last() =~= a + b.drop_last());
        lemma_joined(db, a, b.drop_last());
    }
}

proof fn lemma_one(db: Database, step: Step)
    ensures
        db.after_all(seq![step]) == db.after(step),
        db.after_all(Seq::empty()) == db,
{
    assert(seq![step].drop_last() =~= Seq::<Step>::empty());
    assert(db.after_all(Seq::<Step>::empty()) == db);
}

proof fn lemma_layout(db: Database, steps: Seq<Step>)
    ensures
        db.after_all(steps).layout == db.layout.after_all(steps),
    decreases steps.len(),
{
    if steps.len() > 0 {
        lemma_layout(db, steps.drop_last());
    }
}

/// The step that adds a column to the repositories where it is missing changes no other cell.
proof fn lemma_missing(db: Database, layout: super::Layout, c: RepoColumn)
    requires
        db.valid(),
        layout.repos.contains(c.column()) == db.layout.repos.contains(c.column()),
    ensures
        ({
            let new = db.after_all(layout.missing(c));
            &&& new.valid()
            &&& new.tables() == db.tables()
            &&& new.layout.runs == db.layout.runs
            &&& new.layout.repos == db.layout.repos.insert(c.column())
            &&& new.runs == db.runs
            &&& new.repos.dom() == db.repos.dom()
            &&& forall|n: Seq<char>, column: Seq<char>|
                db.repos.dom().contains(n) ==> #[trigger] repo_cell(new.repos[n], column)
                    == repo_cell(db.repos[n], column)
        }),
{
    lemma_columns_differ();
    lemma_one(db, Step::AddRepoColumn(c));
    let new = db.after_all(layout.missing(c));
    if db.layout.repos.contains(c.column()) {
        assert(new.layout.repos =~= db.layout.repos.insert(c.column()));
    } else {
        a_step_on_the_tables(db, Step::AddRepoColumn(c));
        assert(new.repos.dom() =~= db.repos.dom());
    }
}

/// A migration keeps what is stored: it brings the database up to date, no row comes or goes, every
/// value stays but for the ETags, and the new columns start empty, with no repository archived. The
/// ETags are all cleared where the runs had no workflow path yet, and all kept where they had.
pub proof fn a_migration_keeps_what_is_stored(db: Database)
    requires
        db.valid(),
    ensures
        db.migrated().layout.current(),
        db.migrated().valid(),
        keeps_values(db, db.migrated()),
        db.migrated().tables() == (if db.layout.runs.contains("workflow_path"@) {
            db.tables()
        } else {
            without_etags(db.tables())
        }),
{
    let l = db.layout;
    let drop_id = if l.runs.contains("workflow_id"@) {
        seq![Step::DropWorkflowId]
    } else {
        Seq::empty()
    };
    let add_path = if l.runs.contains("workflow_path"@) {
        Seq::empty()
    } else {
        seq![Step::AddWorkflowPath]
    };
    let m1 = l.missing(RepoColumn::UserOverride);
    let m2 = l.missing(RepoColumn::Archived);
    let m3 = l.missing(RepoColumn::PushedAt);
    let m4 = l.missing(RepoColumn::SkipReason);
    lemma_joined(db, drop_id + m1 + m2 + m3 + m4, add_path);
    lemma_joined(db, drop_id + m1 + m2 + m3, m4);
    lemma_joined(db, drop_id + m1 + m2, m3);
    lemma_joined(db, drop_id + m1, m2);
    lemma_joined(db, drop_id, m1);
    let d0 = db.after_all(drop_id);
    let d1 = d0.after_all(m1);
    let d2 = d1.after_all(m2);
    let d3 = d2.after_all(m3);
    let d4 = d3.after_all(m4);
    let end = d4.after_all(add_path);
    lemma_columns_differ();
    lemma_one(db, Step::DropWorkflowId);
    a_step_on_the_tables(db, Step::DropWorkflowId);
    lemma_missing(d0, l, RepoColumn::UserOverride);
    lemma_missing(d1, l, RepoColumn::Archived);
    lemma_missing(d2, l, RepoColumn::PushedAt);
    lemma_missing(d3, l, RepoColumn::SkipReason);
    lemma_one(d4, Step::AddWorkflowPath);
    if !l.runs.contains("workflow_path"@) {
        a_step_on_the_tables(d4, Step::AddWorkflowPath);
    }
    super::a_migration_brings_up_to_date(l);
    lemma_layout(db, l.steps());
    assert(end == db.migrated());
    assert(end.repos.dom() =~= db.repos.dom());
    assert(end.runs.dom() =~= db.runs.dom());
    assert forall|n: Seq<char>, column: Seq<char>|
        db.repos.dom().contains(n) && end.layout.repos.contains(
            column,
        ) implies #[trigger] end.repos[n][column] == (if column == "etag"@ && !l.runs.contains(
        "workflow_path"@,
    ) {
        Cell::Null
    } else {
        repo_cell(db.repos[n], column)
    }) by {
        assert(repo_cell(d4.repos[n], column) == repo_cell(d3.repos[n], column));
        assert(repo_cell(d3.repos[n], column) == repo_cell(d2.repos[n], column));
        assert(repo_cell(d2.repos[n], column) == repo_cell(d1.repos[n], column));
        assert(repo_cell(d1.repos[n], column) == repo_cell(d0.repos[n], column));
        assert(end.repos.dom().contains(n));
        assert(end.repos[n].dom().contains(column));
        assert(d4.repos.dom().contains(n));
    }
    assert forall|id: i64, column: Seq<char>|
        db.runs.dom().contains(id) && end.layout.runs.contains(
            column,
        ) implies #[trigger] end.runs[id][column] == run_cell(db.runs[id], column) by {
        assert(d0.runs.dom().contains(id));
        assert(end.runs.dom().contains(id));
        assert(end.runs[id].dom().contains(column));
        assert(!end.layout.runs.contains("workflow_id"@));
    }
}

/// A database of the first version has, after a migration, no `ETag`, no manual override, no
/// archived repository, no push time, no reason to skip a repository and no workflow path; all else
/// is as it was.
pub proof fn an_old_database_after_a_migration(db: Database, full_name: Seq<char>, id: i64)
    requires
        db.valid(),
        !db.layout.runs.contains("workflow_path"@),
        forall|c: RepoColumn| !db.layout.repos.contains(#[trigger] c.column()),
    ensures
        ({
            let after = db.migrated().tables();
            &&& after.repos.dom() == db.tables().repos.dom()
            &&& after.runs.dom() == db.tables().runs.dom()
            &&& db.repos.dom().contains(full_name) ==> after.repos[full_name] == (
            crate::store::RepoRowView {
                default_branch: db.repos[full_name]["default_branch"@].text(),
                etag: None,
                ignored: db.repos[full_name]["ignored"@].flag(),
                user_override: None,
                archived: false,
                pushed_at: None,
                skip_reason: None,
            })
            &&& db.runs.dom().contains(id) ==> after.runs[id].workflow_path is None
                && after.runs[id] == db.tables().runs[id]
        }),
{
    lemma_columns_differ();
    a_migration_keeps_what_is_stored(db);
    let after = db.migrated().tables();
    assert(after.repos.dom() =~= db.tables().repos.dom());
    assert(after.runs.dom() =~= db.tables().runs.dom());
    assert(!db.layout.repos.contains(RepoColumn::UserOverride.column()));
    assert(!db.layout.repos.contains(RepoColumn::Archived.column()));
    assert(!db.layout.repos.contains(RepoColumn::PushedAt.column()));
    assert(!db.layout.repos.contains(RepoColumn::SkipReason.column()));
}

/// A second migration changes nothing, whatever was stored in between: the ETags that were set
/// since the first one stay.
pub proof fn a_second_migration_changes_nothing(db: Database, later: Database)
    requires
        later.layout == db.migrated().layout,
    ensures
        later.migrated() == later,
        later.migrated().tables() == later.tables(),
{
    lemma_layout(db, db.layout.steps());
    super::a_migration_is_done_once(db.layout);
    assert(later.layout.steps() == Seq::<Step>::empty());
}

} // verus!
