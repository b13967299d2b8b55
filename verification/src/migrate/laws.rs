//! Which steps a database needs, and what each says to it.
use vstd::prelude::*;

use super::{Layout, RepoColumn, Step};

verus! {

/// The columns that the repositories got later have these names and types.
pub proof fn the_columns_of_later_versions()
    ensures
        RepoColumn::UserOverride.column() == "user_override"@,
        RepoColumn::Archived.column() == "archived"@,
        RepoColumn::PushedAt.column() == "pushed_at"@,
        RepoColumn::SkipReason.column() == "skip_reason"@,
        RepoColumn::UserOverride.declaration() == "TEXT"@,
        RepoColumn::Archived.declaration() == "INTEGER NOT NULL DEFAULT 0"@,
        RepoColumn::PushedAt.declaration() == "TEXT"@,
        RepoColumn::SkipReason.declaration() == "TEXT"@,
{
}

/// Each step says to the database what it is for, and what failed where it fails.
pub proof fn what_a_step_says(c: RepoColumn)
    ensures
        Step::DropWorkflowId.sql_text() == "ALTER TABLE runs DROP COLUMN workflow_id;"@,
        Step::AddRepoColumn(c).sql_text() == "ALTER TABLE repos ADD COLUMN "@ + c.column() + " "@
            + c.declaration() + ";"@,
        Step::AddWorkflowPath.sql_text()
            == "BEGIN; ALTER TABLE runs ADD COLUMN workflow_path TEXT; UPDATE repos SET etag = NULL; COMMIT;"@,
        Step::DropWorkflowId.failure_text() == "failed to drop the obsolete runs.workflow_id"@,
        Step::AddRepoColumn(c).failure_text() == "failed to add repos."@ + c.column(),
        Step::AddWorkflowPath.failure_text() == "failed to add runs.workflow_path"@,
{
}

/// Each step has its place.
pub open spec fn place(step: Step) -> int {
    match step {
        Step::DropWorkflowId => 0,
        Step::AddRepoColumn(RepoColumn::UserOverride) => 1,
        Step::AddRepoColumn(RepoColumn::Archived) => 2,
        Step::AddRepoColumn(RepoColumn::PushedAt) => 3,
        Step::AddRepoColumn(RepoColumn::SkipReason) => 4,
        Step::AddWorkflowPath => 5,
    }
}

/// The steps stand in the order of their places, all of them before place `p`.
pub open spec fn in_order(steps: Seq<Step>, p: int) -> bool {
    &&& forall|i: int, j: int|
        0 <= i < j < steps.len() ==> place(#[trigger] steps[i]) < place(#[trigger] steps[j])
    &&& forall|i: int| 0 <= i < steps.len() ==> place(#[trigger] steps[i]) < p
}

/// A step is added at its place where it is needed.
proof fn lemma_added(a: Seq<Step>, b: Seq<Step>, step: Step, needed: bool)
    requires
        in_order(a, place(step)),
        b == (if needed {
            seq![step]
        } else {
            Seq::<Step>::empty()
        }),
    ensures
        in_order(a + b, place(step) + 1),
        (a + b).contains(step) == needed,
        forall|s: Step| s != step ==> (#[trigger] (a + b).contains(s) <==> a.contains(s)),
{
    let all = a + b;
    let n = a.len() as int;
    assert forall|i: int| 0 <= i < n implies all[i] == a[i] by {}
    if needed {
        assert(all[n] == step);
    }
    assert forall|i: int, j: int| 0 <= i < j < all.len() implies place(#[trigger] all[i]) < place(
        #[trigger] all[j],
    ) by {
        assert(all[i] == a[i]);
        if j < n {
            assert(all[j] == a[j]);
        }
    }
    assert forall|i: int| 0 <= i < all.len() implies place(#[trigger] all[i]) < place(step) + 1 by {
        if i < n {
            assert(all[i] == a[i]);
        }
    }
    assert forall|s: Step| s != step implies (#[trigger] all.contains(s) <==> a.contains(s)) by {
        if all.contains(s) {
            let i = choose|i: int| 0 <= i < all.len() && all[i] == s;
            assert(a[i] == s);
        }
        if a.contains(s) {
            let i = choose|i: int| 0 <= i < a.len() && a[i] == s;
            assert(all[i] == s);
        }
    }
    if all.contains(step) && !needed {
        let i = choose|i: int| 0 <= i < all.len() && all[i] == step;
        assert(a[i] == step);
    }
}

/// A database needs exactly these steps, each once and in this order: the obsolete column goes
/// where it is there, each later column of the repositories comes where it is missing, and so does
/// the workflow path.
pub proof fn which_steps_a_database_needs(l: Layout)
    ensures
        l.steps().contains(Step::DropWorkflowId) == l.runs.contains("workflow_id"@),
        l.steps().contains(Step::AddRepoColumn(RepoColumn::UserOverride)) == !l.repos.contains(
            "user_override"@,
        ),
        l.steps().contains(Step::AddRepoColumn(RepoColumn::Archived)) == !l.repos.contains(
            "archived"@,
        ),
        l.steps().contains(Step::AddRepoColumn(RepoColumn::PushedAt)) == !l.repos.contains(
            "pushed_at"@,
        ),
        l.steps().contains(Step::AddRepoColumn(RepoColumn::SkipReason)) == !l.repos.contains(
            "skip_reason"@,
        ),
        l.steps().contains(Step::AddWorkflowPath) == !l.runs.contains("workflow_path"@),
        in_order(l.steps(), 6),
{
    let none = Seq::<Step>::empty();
    let m0 = if l.runs.contains("workflow_id"@) {
        seq![Step::DropWorkflowId]
    } else {
        Seq::empty()
    };
    let m1 = l.missing(RepoColumn::UserOverride);
    let m2 = l.missing(RepoColumn::Archived);
    let m3 = l.missing(RepoColumn::PushedAt);
    let m4 = l.missing(RepoColumn::SkipReason);
    let m5 = if l.runs.contains("workflow_path"@) {
        Seq::empty()
    } else {
        seq![Step::AddWorkflowPath]
    };
    let s1 = m0 + m1;
    let s2 = s1 + m2;
    let s3 = s2 + m3;
    let s4 = s3 + m4;
    let s5 = s4 + m5;
    assert(none + m0 =~= m0);
    lemma_added(none, m0, Step::DropWorkflowId, l.runs.contains("workflow_id"@));
    lemma_added(
        m0,
        m1,
        Step::AddRepoColumn(RepoColumn::UserOverride),
        !l.repos.contains("user_override"@),
    );
    lemma_added(
        s1,
        m2,
        Step::AddRepoColumn(RepoColumn::Archived),
        !l.repos.contains("archived"@),
    );
    lemma_added(
        s2,
        m3,
        Step::AddRepoColumn(RepoColumn::PushedAt),
        !l.repos.contains("pushed_at"@),
    );
    lemma_added(
        s3,
        m4,
        Step::AddRepoColumn(RepoColumn::SkipReason),
        !l.repos.contains("skip_reason"@),
    );
    lemma_added(s4, m5, Step::AddWorkflowPath, !l.runs.contains("workflow_path"@));
    assert(l.steps() == s5);
}

/// A column is in the layout exactly when it is among the columns that were read.
pub proof fn the_layout_is_that_of_the_columns(
    run_columns: Seq<String>,
    repo_columns: Seq<String>,
    name: Seq<char>,
)
    ensures
        super::layout(run_columns, repo_columns).runs.contains(name) <==> (exists|i: int|
            0 <= i < run_columns.len() && (#[trigger] run_columns[i])@ == name),
        super::layout(run_columns, repo_columns).repos.contains(name) <==> (exists|i: int|
            0 <= i < repo_columns.len() && (#[trigger] repo_columns[i])@ == name),
{
    lemma_columns(run_columns, name);
    lemma_columns(repo_columns, name);
}

proof fn lemma_columns(columns: Seq<String>, name: Seq<char>)
    ensures
        crate::text::texts(columns).to_set().contains(name) <==> (exists|i: int|
            0 <= i < columns.len() && (#[trigger] columns[i])@ == name),
{
    let names = crate::text::texts(columns);
    assert(names.to_set().contains(name) <==> names.contains(name));
    if names.contains(name) {
        let i = choose|i: int| 0 <= i < names.len() && names[i] == name;
        assert(columns[i]@ == name);
    }
    if exists|i: int| 0 <= i < columns.len() && (#[trigger] columns[i])@ == name {
        let i = choose|i: int| 0 <= i < columns.len() && (#[trigger] columns[i])@ == name;
        assert(names[i] == name);
    }
}

/// A database is up to date exactly when the obsolete column is gone and the five later ones are
/// there.
pub proof fn what_is_up_to_date(l: Layout)
    ensures
        l.current() <==> !l.runs.contains("workflow_id"@) && l.runs.contains("workflow_path"@)
            && l.repos.contains("user_override"@) && l.repos.contains("archived"@)
            && l.repos.contains("pushed_at"@) && l.repos.contains("skip_reason"@),
{
    if l.current() {
        assert(l.repos.contains(RepoColumn::UserOverride.column()));
        assert(l.repos.contains(RepoColumn::Archived.column()));
        assert(l.repos.contains(RepoColumn::PushedAt.column()));
        assert(l.repos.contains(RepoColumn::SkipReason.column()));
    }
}

} // verus!
