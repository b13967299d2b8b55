//! What the dashboard shows, said of the stored runs themselves.
use vstd::prelude::*;

use super::Health;

verus! {

/// A run is stored for a repository under its own ID.
proof fn lemma_is_run_of(tables: super::Tables, full_name: Seq<char>, id: i64)
    requires
        tables.valid(),
        tables.runs.dom().contains(id),
        tables.runs[id].repo_full_name == full_name,
    ensures
        super::reports::is_run_of(tables, full_name, tables.runs[id]),
{
}

/// Each workflow of a row is shown as its newest run is stored: there is a stored run of that
/// repository and workflow, started last of all of them, with the larger ID where two started at
/// once, and the workflow has its branch, its commit subject, its page, the path of its workflow,
/// its start and its state.
pub proof fn a_workflow_is_shown_as_its_newest_run(
    tables: super::Tables,
    failures_only: bool,
    rows: Seq<super::RepoSummaryView>,
    i: int,
    w: int,
)
    requires
        tables.valid(),
        super::reports::is_summaries(tables, failures_only, rows),
        0 <= i < rows.len(),
        0 <= w < rows[i].workflows.len(),
    ensures
        exists|id: i64|
            #![trigger tables.runs[id]]
            {
                let run = tables.runs[id];
                let shown = rows[i].workflows[w];
                &&& tables.runs.dom().contains(id)
                &&& run.repo_full_name == rows[i].full_name
                &&& run.workflow_name == shown.workflow_name
                &&& shown.branch == run.branch
                &&& shown.commit_subject == run.commit_subject
                &&& shown.html_url == run.html_url
                &&& shown.workflow_path == run.workflow_path
                &&& shown.started_at == run.started_at
                &&& shown.health == Health::of_run(run.status, run.conclusion)
                &&& forall|other: i64|
                    #![trigger tables.runs[other]]
                    tables.runs.dom().contains(other) && other != id
                        && tables.runs[other].repo_full_name == run.repo_full_name
                        && tables.runs[other].workflow_name == run.workflow_name
                        ==> crate::text::text_lt(tables.runs[other].started_at, run.started_at) || (
                    tables.runs[other].started_at == run.started_at && other < id)
            },
{
    let s = rows[i];
    assert(super::reports::is_repo_summary(tables, rows[i]));
    let run = choose|run: super::RunView| #[trigger]
        super::reports::is_latest(tables, s.full_name, run) && s.workflows[w]
            == super::reports::summary_of(run);
    assert(super::reports::is_latest(tables, s.full_name, run) && s.workflows[w]
        == super::reports::summary_of(run));
    let id = run.id;
    assert(tables.runs[id] == run);
    assert forall|other: i64|
        #![trigger tables.runs[other]]
        tables.runs.dom().contains(other) && other != id && tables.runs[other].repo_full_name
            == run.repo_full_name && tables.runs[other].workflow_name
            == run.workflow_name implies crate::text::text_lt(
        tables.runs[other].started_at,
        run.started_at,
    ) || (tables.runs[other].started_at == run.started_at && other < id) by {
        lemma_is_run_of(tables, s.full_name, other);
    }
}

/// A row shows every workflow of which the repository has a run, once each, in the order of their
/// names.
pub proof fn a_row_shows_every_workflow_once(
    tables: super::Tables,
    failures_only: bool,
    rows: Seq<super::RepoSummaryView>,
    i: int,
    id: i64,
)
    requires
        tables.valid(),
        super::reports::is_summaries(tables, failures_only, rows),
        0 <= i < rows.len(),
    ensures
        rows[i].workflows.len() > 0,
        forall|a: int, b: int|
            0 <= a < b < rows[i].workflows.len() ==> crate::text::text_lt(
                (#[trigger] rows[i].workflows[a]).workflow_name,
                (#[trigger] rows[i].workflows[b]).workflow_name,
            ),
        tables.runs.dom().contains(id) && tables.runs[id].repo_full_name == rows[i].full_name
            ==> exists|w: int|
            0 <= w < rows[i].workflows.len() && (#[trigger] rows[i].workflows[w]).workflow_name
                == tables.runs[id].workflow_name,
{
    let s = rows[i];
    assert(super::reports::is_repo_summary(tables, rows[i]));
    let names = super::reports::workflow_names(s.workflows);
    assert forall|a: int, b: int| 0 <= a < b < s.workflows.len() implies crate::text::text_lt(
        (#[trigger] s.workflows[a]).workflow_name,
        (#[trigger] s.workflows[b]).workflow_name,
    ) by {
        assert(crate::text::text_lt(names[a], names[b]));
    }
    if tables.runs.dom().contains(id) && tables.runs[id].repo_full_name == s.full_name {
        lemma_is_run_of(tables, s.full_name, id);
        assert(names.contains(tables.runs[id].workflow_name));
        let w = choose|w: int| 0 <= w < names.len() && names[w] == tables.runs[id].workflow_name;
        assert(s.workflows[w].workflow_name == tables.runs[id].workflow_name);
    }
}

/// The state of a row is the worst of its workflows: a failure where one failed, else running where
/// one runs, else neutral where one is neither, and a success only where all are. Its time is the
/// newest start among them.
pub proof fn a_row_rolls_its_workflows_up(
    tables: super::Tables,
    failures_only: bool,
    rows: Seq<super::RepoSummaryView>,
    i: int,
)
    requires
        super::reports::is_summaries(tables, failures_only, rows),
        0 <= i < rows.len(),
    ensures
        ({
            let ws = rows[i].workflows;
            let some = |h: Health|
                exists|w: int| 0 <= w < ws.len() && (#[trigger] ws[w]).health == h;
            &&& rows[i].health == Health::Failure <==> some(Health::Failure)
            &&& rows[i].health == Health::Running <==> some(Health::Running) && !some(
                Health::Failure,
            )
            &&& rows[i].health == Health::Neutral <==> some(Health::Neutral) && !some(
                Health::Running,
            ) && !some(Health::Failure)
            &&& rows[i].health == Health::Success <==> !some(Health::Neutral) && !some(
                Health::Running,
            ) && !some(Health::Failure)
        }),
        exists|w: int|
            0 <= w < rows[i].workflows.len() && (#[trigger] rows[i].workflows[w]).started_at
                == rows[i].started_at,
        forall|w: int|
            0 <= w < rows[i].workflows.len() ==> !crate::text::text_lt(
                rows[i].started_at,
                (#[trigger] rows[i].workflows[w]).started_at,
            ),
{
    let s = rows[i];
    let ws = s.workflows;
    assert(super::reports::is_repo_summary(tables, rows[i]));
    let top = choose|w: int| 0 <= w < ws.len() && (#[trigger] ws[w]).health == s.health;
    assert(ws[top].health == s.health);
    let some = |h: Health| exists|w: int| 0 <= w < ws.len() && (#[trigger] ws[w]).health == h;
    assert(some(s.health));
    assert forall|h: Health| #[trigger] some(h) implies h.rank() <= s.health.rank() by {
        let w = choose|w: int| 0 <= w < ws.len() && (#[trigger] ws[w]).health == h;
        assert(ws[w].health == h);
    }
    assert(some(Health::Failure) || !some(Health::Failure));
    assert(some(Health::Running) || !some(Health::Running));
    assert(some(Health::Neutral) || !some(Health::Neutral));
    assert forall|w: int| 0 <= w < ws.len() implies !crate::text::text_lt(
        s.started_at,
        (#[trigger] ws[w]).started_at,
    ) by {
        crate::text::lemma_text_lt_irreflexive(s.started_at);
        if crate::text::text_lt(s.started_at, ws[w].started_at) && crate::text::text_lt(
            ws[w].started_at,
            s.started_at,
        ) {
            crate::text::lemma_text_lt_transitive(s.started_at, ws[w].started_at, s.started_at);
        }
    }
}

/// A repository has a row exactly when it is not ignored and a stored run names it; with only
/// failures asked for, exactly when besides that the state of its row is a failure. No repository
/// has two rows, and they are in the order of their newest starts, latest first, then of their
/// names.
pub proof fn which_repositories_have_a_row(
    tables: super::Tables,
    rows: Seq<super::RepoSummaryView>,
    failures: Seq<super::RepoSummaryView>,
    full_name: Seq<char>,
)
    requires
        tables.valid(),
        super::reports::is_summaries(tables, false, rows),
        super::reports::is_summaries(tables, true, failures),
    ensures
        (exists|i: int| 0 <= i < rows.len() && (#[trigger] rows[i]).full_name == full_name) <==> (
        tables.repos.dom().contains(full_name) && !tables.repos[full_name].ignored && exists|id: i64|
            tables.runs.dom().contains(id) && (#[trigger] tables.runs[id]).repo_full_name
                == full_name),
        forall|s: super::RepoSummaryView| #[trigger]
            failures.contains(s) <==> rows.contains(s) && s.health == Health::Failure,
        forall|i: int, j: int|
            0 <= i < j < rows.len() ==> (#[trigger] rows[i]).full_name != (
            #[trigger] rows[j]).full_name && (crate::text::text_lt(
                rows[j].started_at,
                rows[i].started_at,
            ) || (rows[i].started_at == rows[j].started_at && crate::text::text_lt(
                rows[i].full_name,
                rows[j].full_name,
            ))),
{
    let names = super::reports::summary_names(rows);
    assert(super::reports::has_summary(tables, false, full_name) <==> names.contains(full_name));
    if exists|i: int| 0 <= i < rows.len() && (#[trigger] rows[i]).full_name == full_name {
        let i = choose|i: int| 0 <= i < rows.len() && (#[trigger] rows[i]).full_name == full_name;
        assert(names[i] == full_name);
        let run = choose|run: super::RunView| #[trigger]
            super::reports::is_run_of(tables, full_name, run);
        assert(tables.runs[run.id].repo_full_name == full_name);
    }
    if tables.visible(full_name) && exists|id: i64|
        tables.runs.dom().contains(id) && (#[trigger] tables.runs[id]).repo_full_name
            == full_name {
        let id = choose|id: i64|
            tables.runs.dom().contains(id) && (#[trigger] tables.runs[id]).repo_full_name
                == full_name;
        lemma_is_run_of(tables, full_name, id);
        assert(names.contains(full_name));
        let i = choose|i: int| 0 <= i < names.len() && names[i] == full_name;
        assert(rows[i].full_name == full_name);
    }
    assert forall|s: super::RepoSummaryView| #[trigger]
        failures.contains(s) <==> rows.contains(s) && s.health == Health::Failure by {
        super::reports::failures_only_is_a_filter(tables, rows, failures, s);
    }
    assert forall|i: int, j: int| 0 <= i < j < rows.len() implies (#[trigger] rows[i]).full_name
        != (#[trigger] rows[j]).full_name by {
        assert(super::reports::shown_above(rows[i], rows[j]));
        if rows[i].full_name == rows[j].full_name {
            super::reports::repo_summary_is_determined(tables, rows[i], rows[j]);
            crate::text::lemma_text_lt_irreflexive(rows[i].started_at);
            crate::text::lemma_text_lt_irreflexive(rows[i].full_name);
        }
    }
}

/// The history of a repository that is not ignored shows its runs as they are stored: each is one
/// of its runs, with all its fields, on the strip of its own workflow; a strip has at least one and
/// at most `n` runs, newest start first, larger ID first where two started at once; and the strips
/// are in the order of their workflows.
pub proof fn a_history_shows_stored_runs(
    tables: super::Tables,
    full_name: Seq<char>,
    n: int,
    h: Seq<super::WorkflowHistoryView>,
)
    requires
        super::reports::is_history(tables, full_name, n, h),
    ensures
        forall|g: int, k: int|
            0 <= g < h.len() && 0 <= k < h[g].runs.len() ==> {
                let run = #[trigger] h[g].runs[k];
                &&& tables.runs.dom().contains(run.id)
                &&& tables.runs[run.id] == run
                &&& run.repo_full_name == full_name
                &&& run.workflow_name == h[g].workflow_name
            },
        forall|g: int| 0 <= g < h.len() ==> 1 <= (#[trigger] h[g]).runs.len() <= n,
        forall|g: int, a: int, b: int|
            0 <= g < h.len() && 0 <= a < b < h[g].runs.len() ==> crate::text::text_lt(
                (#[trigger] h[g].runs[b]).started_at,
                (#[trigger] h[g].runs[a]).started_at,
            ) || (h[g].runs[a].started_at == h[g].runs[b].started_at && h[g].runs[a].id
                > h[g].runs[b].id),
        forall|a: int, b: int|
            0 <= a < b < h.len() ==> crate::text::text_lt(
                (#[trigger] h[a]).workflow_name,
                (#[trigger] h[b]).workflow_name,
            ),
{
    if tables.visible(full_name) && n > 0 {
        let names = super::reports::history_names(h);
        assert forall|g: int, k: int|
            0 <= g < h.len() && 0 <= k < h[g].runs.len() implies ({
            let run = #[trigger] h[g].runs[k];
            &&& tables.runs.dom().contains(run.id)
            &&& tables.runs[run.id] == run
            &&& run.repo_full_name == full_name
            &&& run.workflow_name == h[g].workflow_name
        }) by {
            assert(super::reports::is_strip(h[g], n));
            assert(super::reports::is_run_of(tables, full_name, h[g].runs[k]));
        }
        assert forall|g: int, a: int, b: int|
            0 <= g < h.len() && 0 <= a < b < h[g].runs.len() implies crate::text::text_lt(
            (#[trigger] h[g].runs[b]).started_at,
            (#[trigger] h[g].runs[a]).started_at,
        ) || (h[g].runs[a].started_at == h[g].runs[b].started_at && h[g].runs[a].id
            > h[g].runs[b].id) by {
            assert(super::reports::is_strip(h[g], n));
            assert(super::reports::newer(h[g].runs[a], h[g].runs[b]));
        }
        assert forall|a: int, b: int| 0 <= a < b < h.len() implies crate::text::text_lt(
            (#[trigger] h[a]).workflow_name,
            (#[trigger] h[b]).workflow_name,
        ) by {
            assert(crate::text::text_lt(names[a], names[b]));
        }
    }
}

/// No run is missing from the history of a repository that is not ignored: each stored run of it is
/// on the strip of its workflow, or that strip is full of runs that started later, or at once with
/// a larger ID.
pub proof fn a_history_misses_no_run(
    tables: super::Tables,
    full_name: Seq<char>,
    n: int,
    h: Seq<super::WorkflowHistoryView>,
    id: i64,
)
    requires
        tables.valid(),
        super::reports::is_history(tables, full_name, n, h),
        n > 0,
        tables.repos.dom().contains(full_name),
        !tables.repos[full_name].ignored,
        tables.runs.dom().contains(id),
        tables.runs[id].repo_full_name == full_name,
    ensures
        exists|g: int|
            #![trigger h[g]]
            {
                let run = tables.runs[id];
                &&& 0 <= g < h.len()
                &&& h[g].workflow_name == run.workflow_name
                &&& {
                    ||| exists|k: int| 0 <= k < h[g].runs.len() && #[trigger] h[g].runs[k] == run
                    ||| h[g].runs.len() == n && forall|k: int|
                        0 <= k < n ==> crate::text::text_lt(
                            run.started_at,
                            (#[trigger] h[g].runs[k]).started_at,
                        ) || (run.started_at == h[g].runs[k].started_at && run.id
                            < h[g].runs[k].id)
                }
            },
{
    let run = tables.runs[id];
    lemma_is_run_of(tables, full_name, id);
    assert(super::reports::accounted(h, n, run));
    let g = choose|g: int|
        0 <= g < h.len() && super::reports::accounts_for(#[trigger] h[g], n, run);
    if h[g].runs.contains(run) {
        let k = choose|k: int| 0 <= k < h[g].runs.len() && h[g].runs[k] == run;
        assert(h[g].runs[k] == run);
    } else {
        assert forall|k: int| 0 <= k < n implies crate::text::text_lt(
            run.started_at,
            (#[trigger] h[g].runs[k]).started_at,
        ) || (run.started_at == h[g].runs[k].started_at && run.id < h[g].runs[k].id) by {
            assert(super::reports::newer(h[g].runs[k], run));
        }
    }
}

/// A repository that is ignored or unknown has no history, and nobody has one of no runs.
pub proof fn who_has_no_history(
    tables: super::Tables,
    full_name: Seq<char>,
    n: int,
    h: Seq<super::WorkflowHistoryView>,
)
    requires
        super::reports::is_history(tables, full_name, n, h),
    ensures
        !tables.repos.dom().contains(full_name) ==> h.len() == 0,
        tables.repos.dom().contains(full_name) && tables.repos[full_name].ignored ==> h.len() == 0,
        n <= 0 ==> h.len() == 0,
{
}

/// The form of rows and strips has each of them, in their order.
pub proof fn forms_have_every_row(
    rows: Seq<super::RepoSummary>,
    strips: Seq<super::WorkflowHistory>,
)
    ensures
        super::reports::summary_views(rows).len() == rows.len(),
        forall|i: int|
            0 <= i < rows.len() ==> #[trigger] super::reports::summary_views(rows)[i] == rows[i]@,
        super::reports::history_views(strips).len() == strips.len(),
        forall|i: int|
            0 <= i < strips.len() ==> #[trigger] super::reports::history_views(strips)[i]
                == strips[i]@,
{
}

/// What is to be written is each repository and each run that is new or differs, as it is now, and
/// what is to be deleted is each run that is gone; nothing else.
pub proof fn changes_are_exactly_what_differs(
    before: super::Tables,
    after: super::Tables,
    c: super::changes::Changes,
    full_name: Seq<char>,
    id: i64,
)
    requires
        super::changes::are_changes(before, after, c),
    ensures
        (exists|i: int| 0 <= i < c.repos@.len() && (#[trigger] c.repos@[i]).full_name@ == full_name)
            <==> after.repos.dom().contains(full_name) && (!before.repos.dom().contains(full_name)
            || before.repos[full_name] != after.repos[full_name]),
        forall|i: int|
            0 <= i < c.repos@.len() && (#[trigger] c.repos@[i]).full_name@ == full_name
                ==> c.repos@[i]@ == after.repos[full_name],
        (exists|i: int| 0 <= i < c.runs@.len() && (#[trigger] c.runs@[i]).id == id)
            <==> after.runs.dom().contains(id) && (!before.runs.dom().contains(id)
            || before.runs[id] != after.runs[id]),
        forall|i: int|
            0 <= i < c.runs@.len() && (#[trigger] c.runs@[i]).id == id ==> c.runs@[i]@
                == after.runs[id],
        (exists|i: int| 0 <= i < c.dropped@.len() && #[trigger] c.dropped@[i] == id)
            <==> before.runs.dom().contains(id) && !after.runs.dom().contains(id),
{
    let names = super::repo_names(c.repos@);
    let set = Set::new(|n: Seq<char>| super::changes::repo_changed(before, after, n));
    assert(names.contains(full_name) <==> set.contains(full_name));
    if names.contains(full_name) {
        let i = choose|i: int| 0 <= i < names.len() && names[i] == full_name;
        assert(c.repos@[i].full_name@ == full_name);
    }
    assert forall|i: int| 0 <= i < c.repos@.len() implies names.contains(
        (#[trigger] c.repos@[i]).full_name@,
    ) by {
        assert(names[i] == c.repos@[i].full_name@);
    }
    let ids = super::changes::run_ids(c.runs@);
    let changed = Set::new(|k: i64| super::changes::run_changed(before, after, k));
    assert(ids.contains(id) <==> changed.contains(id));
    if ids.contains(id) {
        let i = choose|i: int| 0 <= i < ids.len() && ids[i] == id;
        assert(c.runs@[i].id == id);
    }
    assert forall|i: int| 0 <= i < c.runs@.len() implies ids.contains((#[trigger] c.runs@[i]).id) by {
        assert(ids[i] == c.runs@[i].id);
    }
    let gone = Set::new(
        |k: i64| before.runs.dom().contains(k) && !after.runs.dom().contains(k),
    );
    assert(c.dropped@.contains(id) <==> gone.contains(id));
}

} // verus!
