//! What holds of the store across operations.
use vstd::prelude::*;

use super::Health;

verus! {

/// Storing the same run again changes nothing.
pub proof fn storing_a_run_is_idempotent(tables: super::Tables, run: super::RunView)
    requires
        tables.accepts(run),
    ensures
        tables.with_run(run).accepts(run),
        tables.with_run(run).with_run(run) == tables.with_run(run),
{
    assert(tables.with_run(run).with_run(run).runs =~= tables.with_run(run).runs);
}

/// Storing a known run updates it in place: no run is added, every other run stays as it is, and
/// the run keeps its repository, workflow, branch, actor, commit and page.
pub proof fn storing_a_known_run_updates_it_in_place(
    tables: super::Tables,
    run: super::RunView,
    other: i64,
)
    requires
        tables.runs.dom().contains(run.id),
    ensures
        ({
            let after = tables.with_run(run);
            &&& after.runs.dom() == tables.runs.dom()
            &&& other != run.id && tables.runs.dom().contains(other) ==> after.runs[other]
                == tables.runs[other]
            &&& after.repos == tables.repos
            &&& after.runs[run.id].id == tables.runs[run.id].id
            &&& after.runs[run.id].status == run.status
            &&& after.runs[run.id].conclusion == run.conclusion
            &&& after.runs[run.id].commit_subject == run.commit_subject
            &&& after.runs[run.id].started_at == run.started_at
            &&& after.runs[run.id].workflow_path == run.workflow_path
            &&& after.runs[run.id].repo_full_name == tables.runs[run.id].repo_full_name
            &&& after.runs[run.id].workflow_name == tables.runs[run.id].workflow_name
            &&& after.runs[run.id].branch == tables.runs[run.id].branch
            &&& after.runs[run.id].actor == tables.runs[run.id].actor
            &&& after.runs[run.id].commit_sha == tables.runs[run.id].commit_sha
            &&& after.runs[run.id].html_url == tables.runs[run.id].html_url
        }),
{
    assert(tables.with_run(run).runs.dom() =~= tables.runs.dom());
}

/// A new run is read back as it was stored, and neither another run nor a repository changes.
pub proof fn a_new_run_is_read_back(tables: super::Tables, run: super::RunView, other: i64)
    requires
        !tables.runs.dom().contains(run.id),
    ensures
        ({
            let after = tables.with_run(run);
            &&& after.runs.dom().contains(run.id)
            &&& after.runs[run.id] == run
            &&& after.repos == tables.repos
            &&& other != run.id ==> (after.runs.dom().contains(other) <==> tables.runs.dom().contains(
                other,
            ))
            &&& other != run.id && tables.runs.dom().contains(other) ==> after.runs[other]
                == tables.runs[other]
        }),
{
}

/// Pruning removes the runs that started before the cutoff and no others, leaves the rest and the
/// repositories as they are, and has nothing to do a second time.
pub proof fn pruning_removes_only_old_runs(tables: super::Tables, cutoff: Seq<char>, id: i64)
    requires
        tables.valid(),
    ensures
        ({
            let after = tables.pruned(cutoff);
            &&& after.runs.dom().contains(id) <==> tables.runs.dom().contains(id)
                && !crate::text::text_lt(tables.runs[id].started_at, cutoff)
            &&& after.runs.dom().contains(id) ==> after.runs[id] == tables.runs[id]
            &&& after.repos == tables.repos
            &&& after.older_runs(cutoff).is_empty()
            &&& after.pruned(cutoff) == after
            &&& after.runs.dom().len() + tables.older_runs(cutoff).len()
                == tables.runs.dom().len()
        }),
{
    let after = tables.pruned(cutoff);
    assert(after.older_runs(cutoff) =~= Set::empty());
    assert(after.pruned(cutoff).runs =~= after.runs);
    let old_runs = tables.older_runs(cutoff);
    assert(old_runs.subset_of(tables.runs.dom()));
    vstd::set_lib::lemma_len_subset(old_runs, tables.runs.dom());
    assert(after.runs.dom() =~= tables.runs.dom().difference(old_runs));
    assert(tables.runs.dom() =~= after.runs.dom() + old_runs);
    vstd::set_lib::lemma_len_subset(after.runs.dom(), tables.runs.dom());
    vstd::set_lib::lemma_set_disjoint_lens(after.runs.dom(), old_runs);
}

/// The `ETag` of a repository starts empty, and is what was last recorded for it; that of any
/// other repository stays as it is.
pub proof fn etag_round_trips(
    tables: super::Tables,
    full_name: Seq<char>,
    etag: Seq<char>,
    default_branch: Seq<char>,
    other: Seq<char>,
)
    ensures
        !tables.repos.dom().contains(full_name) ==> tables.etag(full_name) is None
            && tables.with_repo(full_name, default_branch).etag(full_name) is None,
        tables.repos.dom().contains(full_name) ==> tables.with_etag(full_name, etag).etag(full_name)
            == Some(etag),
        other != full_name ==> tables.with_etag(full_name, etag).etag(other) == tables.etag(other),
{
}

/// Storing a known repository again sets its default branch and loses nothing else: neither its
/// `ETag`, nor its override, nor the decision on it.
pub proof fn storing_a_known_repository_keeps_the_rest(
    tables: super::Tables,
    full_name: Seq<char>,
    default_branch: Seq<char>,
)
    requires
        tables.repos.dom().contains(full_name),
    ensures
        ({
            let after = tables.with_repo(full_name, default_branch);
            &&& after.repos.dom() == tables.repos.dom()
            &&& after.repos[full_name].default_branch == default_branch
            &&& after.etag(full_name) == tables.etag(full_name)
            &&& after.repos[full_name].user_override == tables.repos[full_name].user_override
            &&& after.visible(full_name) == tables.visible(full_name)
            &&& after.repos[full_name].skip_reason == tables.repos[full_name].skip_reason
            &&& after.runs == tables.runs
        }),
{
    assert(tables.with_repo(full_name, default_branch).repos.dom() =~= tables.repos.dom());
}

/// Storing a repository a second time with the same branch changes nothing.
pub proof fn storing_a_repository_is_idempotent(
    tables: super::Tables,
    full_name: Seq<char>,
    default_branch: Seq<char>,
)
    ensures
        tables.with_repo(full_name, default_branch).with_repo(full_name, default_branch)
            == tables.with_repo(full_name, default_branch),
{
    let once = tables.with_repo(full_name, default_branch);
    assert(once.with_repo(full_name, default_branch).repos =~= once.repos);
}

/// A new repository is visible: it is polled until a decision says otherwise.
pub proof fn a_new_repository_is_polled(
    tables: super::Tables,
    full_name: Seq<char>,
    default_branch: Seq<char>,
)
    requires
        !tables.repos.dom().contains(full_name),
    ensures
        tables.with_repo(full_name, default_branch).visible(full_name),
{
}

/// Every operation leaves valid tables valid.
pub proof fn operations_keep_tables_valid(
    tables: super::Tables,
    full_name: Seq<char>,
    default_branch: Seq<char>,
    row: super::RepoRowView,
    run: super::RunView,
    cutoff: Seq<char>,
)
    requires
        tables.valid(),
    ensures
        tables.with_repo(full_name, default_branch).valid(),
        tables.with_row(full_name, row).valid(),
        tables.accepts(run) ==> tables.with_run(run).valid(),
        tables.pruned(cutoff).valid(),
{
    vstd::set_lib::lemma_len_subset(tables.pruned(cutoff).runs.dom(), tables.runs.dom());
    let stored = tables.with_run(run);
    assert(stored.runs.dom() =~= tables.runs.dom().insert(run.id));
    let with_repo = tables.with_repo(full_name, default_branch);
    assert(with_repo.repos.dom() =~= tables.repos.dom().insert(full_name));
    let with_row = tables.with_row(full_name, row);
    assert(with_row.repos.dom() =~= tables.repos.dom());
}

/// No operation deletes a repository.
pub proof fn repositories_are_never_deleted(
    tables: super::Tables,
    full_name: Seq<char>,
    default_branch: Seq<char>,
    row: super::RepoRowView,
    run: super::RunView,
    cutoff: Seq<char>,
)
    ensures
        tables.repos.dom().subset_of(tables.with_repo(full_name, default_branch).repos.dom()),
        tables.repos.dom().subset_of(tables.with_row(full_name, row).repos.dom()),
        tables.repos.dom().subset_of(tables.with_run(run).repos.dom()),
        tables.repos.dom().subset_of(tables.pruned(cutoff).repos.dom()),
{
}

/// What is written about one repository leaves every other as it is, and all runs.
pub proof fn updates_are_local(
    tables: super::Tables,
    full_name: Seq<char>,
    row: super::RepoRowView,
    other: Seq<char>,
)
    requires
        other != full_name,
    ensures
        ({
            let after = tables.with_row(full_name, row);
            &&& after.repos.dom().contains(other) == tables.repos.dom().contains(other)
            &&& after.repos.dom().contains(other) ==> after.repos[other] == tables.repos[other]
            &&& after.runs == tables.runs
        }),
        !tables.repos.dom().contains(full_name) ==> tables.with_row(full_name, row) == tables,
{
}

/// The states run from least bad to worst: success, neutral, running, failure.
pub proof fn health_runs_from_least_bad_to_worst(h: Health)
    ensures
        Health::Success.rank() <= h.rank() <= Health::Failure.rank(),
        Health::Success.rank() < Health::Neutral.rank() < Health::Running.rank()
            < Health::Failure.rank(),
{
}

/// A run that is not completed is running, whatever its conclusion says.
pub proof fn an_uncompleted_run_is_running(status: Seq<char>, conclusion: Option<Seq<char>>)
    ensures
        (Health::of_run(status, conclusion) == Health::Running) == (status != "completed"@),
{
}

/// A run can be stored exactly when its ID is known or its repository is.
pub proof fn a_run_needs_its_repository(tables: super::Tables, run: super::RunView)
    ensures
        tables.accepts(run) <==> tables.runs.dom().contains(run.id) || tables.repos.dom().contains(
            run.repo_full_name,
        ),
{
}

/// A new repository has the default branch that it is stored with, and nothing else is known of it.
/// Neither another repository nor a run changes.
pub proof fn a_new_repository_has_its_branch(
    tables: super::Tables,
    full_name: Seq<char>,
    default_branch: Seq<char>,
    other: Seq<char>,
)
    requires
        !tables.repos.dom().contains(full_name),
    ensures
        ({
            let after = tables.with_repo(full_name, default_branch);
            let row = after.repos[full_name];
            &&& after.repos.dom().contains(full_name)
            &&& row.default_branch == default_branch
            &&& row.etag is None
            &&& !row.ignored
            &&& row.user_override is None
            &&& !row.archived
            &&& row.pushed_at is None
            &&& row.skip_reason is None
            &&& after.runs == tables.runs
            &&& other != full_name ==> (after.repos.dom().contains(other)
                <==> tables.repos.dom().contains(other))
            &&& other != full_name && tables.repos.dom().contains(other) ==> after.repos[other]
                == tables.repos[other]
        }),
{
}

/// Two rows have the same default branch and the same `ETag`.
pub open spec fn same_branch_and_etag(a: super::RepoRowView, b: super::RepoRowView) -> bool {
    a.default_branch == b.default_branch && a.etag == b.etag
}

/// Recording GitHub's facts writes these two of a known repository, and nothing else.
pub proof fn recording_facts_writes_the_facts(
    tables: super::Tables,
    full_name: Seq<char>,
    archived: bool,
    pushed_at: Option<Seq<char>>,
)
    requires
        tables.repos.dom().contains(full_name),
    ensures
        ({
            let before = tables.repos[full_name];
            let after = tables.with_facts(full_name, archived, pushed_at).repos[full_name];
            &&& after.archived == archived
            &&& after.pushed_at == pushed_at
            &&& same_branch_and_etag(before, after)
            &&& after.ignored == before.ignored
            &&& after.user_override == before.user_override
            &&& after.skip_reason == before.skip_reason
        }),
{
}

/// Recording a decision hides a repository exactly when it is not included, writes the reason with
/// it, and nothing else.
pub proof fn recording_a_decision_writes_the_flag_and_the_reason(
    tables: super::Tables,
    full_name: Seq<char>,
    included: bool,
    skip_reason: Option<Seq<char>>,
)
    requires
        tables.repos.dom().contains(full_name),
    ensures
        ({
            let before = tables.repos[full_name];
            let tables_after = tables.with_decision(full_name, included, skip_reason);
            let after = tables_after.repos[full_name];
            &&& after.ignored == !included
            &&& tables_after.visible(full_name) == included
            &&& after.skip_reason == skip_reason
            &&& same_branch_and_etag(before, after)
            &&& after.user_override == before.user_override
            &&& after.archived == before.archived
            &&& after.pushed_at == before.pushed_at
        }),
{
}

/// Setting an override writes the override of a known repository, and nothing else.
pub proof fn setting_an_override_writes_the_override(
    tables: super::Tables,
    full_name: Seq<char>,
    value: Option<Seq<char>>,
)
    requires
        tables.repos.dom().contains(full_name),
    ensures
        ({
            let before = tables.repos[full_name];
            let after = tables.with_override(full_name, value).repos[full_name];
            &&& after.user_override == value
            &&& same_branch_and_etag(before, after)
            &&& after.ignored == before.ignored
            &&& after.archived == before.archived
            &&& after.pushed_at == before.pushed_at
            &&& after.skip_reason == before.skip_reason
        }),
{
}

/// Ignoring a repository writes the flag alone, and the `ETag` is written alone too.
pub proof fn the_flag_and_the_etag_are_written_alone(
    tables: super::Tables,
    full_name: Seq<char>,
    ignored: bool,
    etag: Seq<char>,
)
    requires
        tables.repos.dom().contains(full_name),
    ensures
        ({
            let before = tables.repos[full_name];
            let flagged = tables.with_ignored(full_name, ignored).repos[full_name];
            let tagged = tables.with_etag(full_name, etag).repos[full_name];
            &&& flagged.ignored == ignored
            &&& tables.with_ignored(full_name, ignored).visible(full_name) == !ignored
            &&& same_branch_and_etag(before, flagged)
            &&& flagged.user_override == before.user_override
            &&& flagged.archived == before.archived
            &&& flagged.pushed_at == before.pushed_at
            &&& flagged.skip_reason == before.skip_reason
            &&& tagged.etag == Some(etag)
            &&& tagged.default_branch == before.default_branch
            &&& tagged.ignored == before.ignored
            &&& tagged.user_override == before.user_override
            &&& tagged.archived == before.archived
            &&& tagged.pushed_at == before.pushed_at
            &&& tagged.skip_reason == before.skip_reason
        }),
{
}

/// Two tables have the same runs and the same row of this repository.
pub open spec fn same_elsewhere(a: super::Tables, b: super::Tables, other: Seq<char>) -> bool {
    &&& a.runs == b.runs
    &&& a.repos.dom().contains(other) <==> b.repos.dom().contains(other)
    &&& a.repos.dom().contains(other) ==> a.repos[other] == b.repos[other]
}

/// What is written about one repository changes no other repository and no run, and nothing at all
/// where the repository is unknown.
pub proof fn every_update_is_local(
    tables: super::Tables,
    full_name: Seq<char>,
    other: Seq<char>,
    flag: bool,
    text: Option<Seq<char>>,
    etag: Seq<char>,
)
    requires
        other != full_name || !tables.repos.dom().contains(full_name),
    ensures
        same_elsewhere(tables, tables.with_facts(full_name, flag, text), other),
        same_elsewhere(tables, tables.with_decision(full_name, flag, text), other),
        same_elsewhere(tables, tables.with_override(full_name, text), other),
        same_elsewhere(tables, tables.with_ignored(full_name, flag), other),
        same_elsewhere(tables, tables.with_etag(full_name, etag), other),
{
}

/// A repository has runs exactly when some stored run names it, and the number of its runs counts
/// each of them once: none gives zero, and a new run one more.
pub proof fn runs_are_counted_by_their_repository(
    tables: super::Tables,
    full_name: Seq<char>,
    run: super::RunView,
    id: i64,
)
    requires
        tables.valid(),
        !tables.runs.dom().contains(run.id),
    ensures
        tables.runs_of(full_name).contains(id) <==> tables.runs.dom().contains(id)
            && tables.runs[id].repo_full_name == full_name,
        tables.runs_of(full_name).len() == 0 <==> (forall|i: i64| #[trigger]
            tables.runs.dom().contains(i) ==> tables.runs[i].repo_full_name != full_name),
        tables.with_run(run).runs_of(full_name).len() == tables.runs_of(full_name).len() + if run.repo_full_name
            == full_name {
            1int
        } else {
            0int
        },
{
    let mine = tables.runs_of(full_name);
    vstd::set_lib::lemma_len_subset(mine, tables.runs.dom());
    if mine.len() == 0 {
        assert forall|i: i64| #[trigger] tables.runs.dom().contains(i) implies tables.runs[i].repo_full_name
            != full_name by {
            if tables.runs[i].repo_full_name == full_name {
                assert(mine.contains(i));
                assert(mine.remove(i).len() < mine.len());
            }
        }
    }
    if forall|i: i64| #[trigger]
        tables.runs.dom().contains(i) ==> tables.runs[i].repo_full_name != full_name {
        assert(mine =~= Set::empty());
    }
    let after = tables.with_run(run).runs_of(full_name);
    if run.repo_full_name == full_name {
        assert(after =~= mine.insert(run.id));
    } else {
        assert(after =~= mine);
    }
}

/// The facts on a repository are those of its row, and whether any stored run names it; of an
/// unknown repository there are none.
pub proof fn facts_are_those_of_the_row(tables: super::Tables, full_name: Seq<char>)
    requires
        tables.valid(),
    ensures
        tables.facts(full_name) is Some <==> tables.repos.dom().contains(full_name),
        tables.facts(full_name) matches Some(f) ==> f.user_override
            == tables.repos[full_name].user_override && f.archived
            == tables.repos[full_name].archived && f.pushed_at == tables.repos[full_name].pushed_at
            && (f.has_runs <==> exists|id: i64|
            tables.runs.dom().contains(id) && (#[trigger] tables.runs[id]).repo_full_name
                == full_name),
{
    let mine = tables.runs_of(full_name);
    vstd::set_lib::lemma_len_subset(mine, tables.runs.dom());
    if mine.len() > 0 {
        let id = mine.choose();
        assert(mine.contains(id));
        assert(tables.runs[id].repo_full_name == full_name);
    }
    if exists|id: i64|
        tables.runs.dom().contains(id) && (#[trigger] tables.runs[id]).repo_full_name == full_name {
        let id = choose|id: i64|
            tables.runs.dom().contains(id) && (#[trigger] tables.runs[id]).repo_full_name
                == full_name;
        assert(mine.contains(id));
        assert(mine.remove(id).len() < mine.len());
    }
}

/// The row of the management page shows each value of the repository's row as it is, with the
/// number of its runs.
pub proof fn the_page_shows_the_row(tables: super::Tables, full_name: Seq<char>)
    ensures
        ({
            let shown = tables.managed(full_name);
            let row = tables.repos[full_name];
            &&& shown.full_name == full_name
            &&& shown.included == !row.ignored
            &&& shown.skip_reason == row.skip_reason
            &&& shown.user_override == row.user_override
            &&& shown.archived == row.archived
            &&& shown.pushed_at == row.pushed_at
            &&& shown.run_count == tables.runs_of(full_name).len()
        }),
        tables.visible(full_name) <==> tables.repos.dom().contains(full_name)
            && !tables.repos[full_name].ignored,
        tables.etag(full_name) is Some ==> tables.repos.dom().contains(full_name),
        tables.repos.dom().contains(full_name) ==> tables.etag(full_name)
            == tables.repos[full_name].etag,
{
}

/// The management page has one row for each repository, in the order of the names, and each shows
/// that repository.
pub proof fn the_page_has_every_repository_once(
    tables: super::Tables,
    rows: Seq<super::ManagedRepo>,
    full_name: Seq<char>,
)
    requires
        super::is_managed(tables, rows),
    ensures
        forall|i: int, j: int|
            0 <= i < j < rows.len() ==> crate::text::text_lt(
                (#[trigger] rows[i]).full_name@,
                (#[trigger] rows[j]).full_name@,
            ),
        tables.repos.dom().contains(full_name) <==> (exists|i: int|
            0 <= i < rows.len() && (#[trigger] rows[i]).full_name@ == full_name),
        forall|i: int|
            0 <= i < rows.len() && (#[trigger] rows[i]).full_name@ == full_name ==> rows[i].included
                == !tables.repos[full_name].ignored && rows[i]@.skip_reason
                == tables.repos[full_name].skip_reason && rows[i]@.user_override
                == tables.repos[full_name].user_override && rows[i].archived
                == tables.repos[full_name].archived && rows[i]@.pushed_at
                == tables.repos[full_name].pushed_at && rows[i].run_count
                == tables.runs_of(full_name).len(),
{
    let names = super::managed_names(rows);
    assert forall|i: int, j: int| 0 <= i < j < rows.len() implies crate::text::text_lt(
        (#[trigger] rows[i]).full_name@,
        (#[trigger] rows[j]).full_name@,
    ) by {
        assert(crate::text::text_lt(names[i], names[j]));
    }
    if tables.repos.dom().contains(full_name) {
        assert(names.contains(full_name));
        let i = choose|i: int| 0 <= i < names.len() && names[i] == full_name;
        assert(rows[i].full_name@ == full_name);
    }
    assert forall|i: int| 0 <= i < rows.len() implies names.contains(
        (#[trigger] rows[i]).full_name@,
    ) && rows[i]@ == tables.managed(rows[i].full_name@) by {
        assert(names[i] == rows[i].full_name@);
    }
}

/// A list of names is in ascending order and has exactly the names of its set; so no two lists of
/// one set differ.
pub proof fn a_list_has_exactly_its_names(
    a: Seq<Seq<char>>,
    b: Seq<Seq<char>>,
    set: Set<Seq<char>>,
    n: Seq<char>,
)
    requires
        super::lists(a, set),
        super::lists(b, set),
    ensures
        set.contains(n) <==> (exists|i: int| 0 <= i < a.len() && #[trigger] a[i] == n),
        forall|i: int, j: int|
            0 <= i < j < a.len() ==> crate::text::text_lt(#[trigger] a[i], #[trigger] a[j]),
        a == b,
{
    assert(a.contains(n) <==> set.contains(n));
    let lt = |x: Seq<char>, y: Seq<char>| crate::text::text_lt(x, y);
    assert forall|x: Seq<char>, y: Seq<char>| #[trigger] lt(x, y) implies !lt(y, x) by {
        if crate::text::text_lt(y, x) {
            crate::text::lemma_text_lt_transitive(x, y, x);
            crate::text::lemma_text_lt_irreflexive(x);
        }
    }
    crate::table::lemma_same_order(a, b, lt);
}

/// Rows in order stand for the tables that hold each repository under its name and each run under
/// its ID, and nothing else.
pub proof fn rows_stand_for_their_tables(
    repos: Seq<super::RepoRow>,
    runs: Seq<super::StoredRun>,
    full_name: Seq<char>,
    id: i64,
)
    requires
        super::rows_in_order(repos, runs),
    ensures
        ({
            let tables = super::tables_of(repos, runs);
            &&& tables.repos.dom().contains(full_name) <==> (exists|i: int|
                0 <= i < repos.len() && (#[trigger] repos[i]).full_name@ == full_name)
            &&& forall|i: int|
                0 <= i < repos.len() ==> tables.repos[(#[trigger] repos[i]).full_name@] == repos[i]@
            &&& tables.runs.dom().contains(id) <==> (exists|i: int|
                0 <= i < runs.len() && (#[trigger] runs[i]).id == id)
            &&& forall|i: int|
                0 <= i < runs.len() ==> tables.runs[(#[trigger] runs[i]).id] == runs[i]@
        }),
        forall|i: int, j: int|
            0 <= i < j < repos.len() ==> crate::text::text_lt(
                (#[trigger] repos[i]).full_name@,
                (#[trigger] repos[j]).full_name@,
            ),
        forall|i: int, j: int|
            0 <= i < j < runs.len() ==> (#[trigger] runs[i]).id < (#[trigger] runs[j]).id,
        forall|i: int|
            0 <= i < runs.len() ==> exists|j: int|
                0 <= j < repos.len() && (#[trigger] repos[j]).full_name@ == (
                #[trigger] runs[i]).repo_full_name@,
{
    let tables = super::tables_of(repos, runs);
    let names = super::repo_names(repos);
    assert forall|i: int| 0 <= i < repos.len() implies tables.repos.dom().contains(
        (#[trigger] repos[i]).full_name@,
    ) && tables.repos[repos[i].full_name@] == repos[i]@ by {
        super::lemma_repo_row(repos, runs, i);
    }
    assert forall|i: int| 0 <= i < runs.len() implies tables.runs.dom().contains(
        (#[trigger] runs[i]).id,
    ) && tables.runs[runs[i].id] == runs[i]@ by {
        super::lemma_run_row(repos, runs, i);
    }
    if tables.repos.dom().contains(full_name) {
        let i = super::lemma_repo_key(repos, runs, full_name);
    }
    if tables.runs.dom().contains(id) {
        let i = super::lemma_run_key(repos, runs, id);
    }
    assert forall|i: int, j: int| 0 <= i < j < repos.len() implies crate::text::text_lt(
        (#[trigger] repos[i]).full_name@,
        (#[trigger] repos[j]).full_name@,
    ) by {
        assert(crate::text::text_lt(names[i], names[j]));
    }
    assert forall|i: int| 0 <= i < runs.len() implies exists|j: int|
        0 <= j < repos.len() && (#[trigger] repos[j]).full_name@ == (
        #[trigger] runs[i]).repo_full_name@ by {
        let j = choose|j: int| 0 <= j < names.len() && names[j] == runs[i].repo_full_name@;
        assert(repos[j].full_name@ == runs[i].repo_full_name@);
    }
}

/// The form of a run and of a repository holds each of their fields as it is.
pub proof fn forms_of_rows_hold_every_field(run: super::StoredRun, row: super::RepoRow)
    ensures
        run@.id == run.id,
        run@.repo_full_name == run.repo_full_name@,
        run@.workflow_name == run.workflow_name@,
        run@.branch == run.branch@,
        run@.actor == run.actor@,
        run@.status == run.status@,
        run.conclusion matches Some(c) ==> run@.conclusion == Some(c@),
        run.conclusion is None ==> run@.conclusion is None,
        run@.commit_sha == run.commit_sha@,
        run@.commit_subject == run.commit_subject@,
        run@.html_url == run.html_url@,
        run@.started_at == run.started_at@,
        run.workflow_path matches Some(p) ==> run@.workflow_path == Some(p@),
        run.workflow_path is None ==> run@.workflow_path is None,
        row@.default_branch == row.default_branch@,
        row.etag matches Some(t) ==> row@.etag == Some(t@),
        row.etag is None ==> row@.etag is None,
        row@.ignored == row.ignored,
        row.user_override matches Some(t) ==> row@.user_override == Some(t@),
        row.user_override is None ==> row@.user_override is None,
        row@.archived == row.archived,
        row.pushed_at matches Some(t) ==> row@.pushed_at == Some(t@),
        row.pushed_at is None ==> row@.pushed_at is None,
        row.skip_reason matches Some(t) ==> row@.skip_reason == Some(t@),
        row.skip_reason is None ==> row@.skip_reason is None,
{
}

/// The form of what is shown or asked of a repository holds each of its fields as it is.
pub proof fn forms_of_answers_hold_every_field(
    managed: super::ManagedRepo,
    facts: super::RepoFactsRow,
    w: super::WorkflowSummary,
    s: super::RepoSummary,
    h: super::WorkflowHistory,
)
    ensures
        managed@.full_name == managed.full_name@,
        managed@.included == managed.included,
        managed.skip_reason matches Some(t) ==> managed@.skip_reason == Some(t@),
        managed.skip_reason is None ==> managed@.skip_reason is None,
        managed.user_override matches Some(t) ==> managed@.user_override == Some(t@),
        managed.user_override is None ==> managed@.user_override is None,
        managed@.archived == managed.archived,
        managed.pushed_at matches Some(t) ==> managed@.pushed_at == Some(t@),
        managed.pushed_at is None ==> managed@.pushed_at is None,
        managed@.run_count == managed.run_count,
        facts.user_override matches Some(t) ==> facts@.user_override == Some(t@),
        facts.user_override is None ==> facts@.user_override is None,
        facts@.archived == facts.archived,
        facts.pushed_at matches Some(t) ==> facts@.pushed_at == Some(t@),
        facts.pushed_at is None ==> facts@.pushed_at is None,
        facts@.has_runs == facts.has_runs,
        w@.workflow_name == w.workflow_name@,
        w.workflow_path matches Some(t) ==> w@.workflow_path == Some(t@),
        w.workflow_path is None ==> w@.workflow_path is None,
        w@.health == w.health,
        w@.branch == w.branch@,
        w@.commit_subject == w.commit_subject@,
        w@.html_url == w.html_url@,
        w@.started_at == w.started_at@,
        s@.full_name == s.full_name@,
        s@.health == s.health,
        s@.started_at == s.started_at@,
        s@.workflows.len() == s.workflows@.len(),
        forall|i: int|
            0 <= i < s.workflows@.len() ==> #[trigger] s@.workflows[i] == s.workflows@[i]@,
        h@.workflow_name == h.workflow_name@,
        h@.runs.len() == h.runs@.len(),
        forall|i: int| 0 <= i < h.runs@.len() ==> #[trigger] h@.runs[i] == h.runs@[i]@,
{
}

/// A completed run that succeeded is healthy, one that failed, ran out of time or did not even
/// start has failed, and any other conclusion is neither. What has not completed is running.
pub proof fn the_health_of_a_run(status: Seq<char>, conclusion: Option<Seq<char>>)
    ensures
        Health::of_run(status, conclusion) == Health::Running <==> status != "completed"@,
        Health::of_run(status, conclusion) == Health::Success <==> status == "completed"@
            && conclusion == Some("success"@),
        Health::of_run(status, conclusion) == Health::Failure <==> status == "completed"@ && (
        conclusion == Some("failure"@) || conclusion == Some("timed_out"@) || conclusion == Some(
            "startup_failure"@,
        )),
{
    reveal_strlit("success");
    reveal_strlit("failure");
    reveal_strlit("timed_out");
    reveal_strlit("startup_failure");
    assert("success"@.len() == 7 && "timed_out"@.len() == 9 && "startup_failure"@.len() == 15);
    assert("failure"@.len() == 7);
    assert("success"@[0] != "failure"@[0]);
}

/// What the user is told of a change that is refused.
pub proof fn what_is_said_of_a_refused_change(e: super::StoreError)
    ensures
        e matches super::StoreError::UnknownRepository(name) ==> e.message_text()
            == "unknown repository: "@ + name@,
        e is ForeignKey ==> e.message_text() == "FOREIGN KEY constraint failed"@,
{
}

/// A new store holds nothing.
pub proof fn a_new_store_holds_nothing(full_name: Seq<char>, id: i64)
    ensures
        !super::Tables::empty().repos.dom().contains(full_name),
        !super::Tables::empty().runs.dom().contains(id),
{
}

/// The names of repositories that are polled are theirs, in their order.
pub proof fn names_are_those_of_the_repositories(
    repos: Seq<super::StoredRepo>,
    rows: Seq<super::RepoRow>,
    managed: Seq<super::ManagedRepo>,
)
    ensures
        super::stored_names(repos).len() == repos.len(),
        forall|i: int|
            0 <= i < repos.len() ==> #[trigger] super::stored_names(repos)[i]
                == repos[i].full_name@,
        super::repo_names(rows).len() == rows.len(),
        forall|i: int|
            0 <= i < rows.len() ==> #[trigger] super::repo_names(rows)[i] == rows[i].full_name@,
        super::managed_names(managed).len() == managed.len(),
        forall|i: int|
            0 <= i < managed.len() ==> #[trigger] super::managed_names(managed)[i]
                == managed[i].full_name@,
{
}

} // verus!
