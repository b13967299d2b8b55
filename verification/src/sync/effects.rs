//! What an answer, a discovery and a decision do, said of what GitHub gave and of what is stored.
use vstd::prelude::*;

use crate::clock::Timestamp;
use crate::github::{GithubError, Repo, Run, RunsResponse};
use crate::inclusion::{Decision, SkipReason};
use crate::store::{StoredRepo, StoredRun};

verus! {

/// A run of a repository is one to keep.
pub open spec fn is_to_keep(run: Run, repo: StoredRepo, user: Seq<char>) -> bool {
    crate::filter::kept(
        run.head_branch@,
        run.actor.login@,
        run.actor.actor_type@,
        repo.default_branch@,
        user,
    )
}

/// Run `j` is the only one of the answer with its ID.
pub open spec fn occurs_once(runs: Seq<Run>, j: int) -> bool {
    &&& 0 <= j < runs.len()
    &&& forall|i: int| 0 <= i < runs.len() && i != j ==> (#[trigger] runs[i]).id != runs[j].id
}

/// Storing runs changes nothing at an ID that none of those that are kept has.
proof fn lemma_untouched(
    tables: crate::store::Tables,
    status: super::StatusView,
    repo: StoredRepo,
    user: Seq<char>,
    runs: Seq<Run>,
    from: int,
    k: int,
    id: i64,
)
    requires
        0 <= from <= k <= runs.len(),
        forall|i: int|
            from <= i < k ==> (#[trigger] runs[i]).id != id || !is_to_keep(runs[i], repo, user),
    ensures
        ({
            let a = super::after_runs(tables, status, repo, user, runs, from).0;
            let b = super::after_runs(tables, status, repo, user, runs, k).0;
            &&& a.runs.dom().contains(id) <==> b.runs.dom().contains(id)
            &&& a.runs.dom().contains(id) ==> a.runs[id] == b.runs[id]
        }),
    decreases k,
{
    if k > from {
        lemma_untouched(tables, status, repo, user, runs, from, k - 1, id);
        assert(runs[k - 1].id != id || !is_to_keep(runs[k - 1], repo, user));
    }
}

proof fn lemma_repos_stay(
    tables: crate::store::Tables,
    status: super::StatusView,
    repo: StoredRepo,
    user: Seq<char>,
    runs: Seq<Run>,
    k: int,
)
    requires
        0 <= k <= runs.len(),
    ensures
        super::after_runs(tables, status, repo, user, runs, k).0.repos == tables.repos,
    decreases k,
{
    if k > 0 {
        lemma_repos_stay(tables, status, repo, user, runs, k - 1);
    }
}

/// A run that is kept and was not stored before is stored as GitHub gave it: with its repository,
/// workflow, branch, actor, status, conclusion, commit, page and path, the first line of its commit
/// message, and its start.
pub proof fn a_kept_run_is_stored_as_github_gave_it(
    tables: crate::store::Tables,
    status: super::StatusView,
    repo: StoredRepo,
    user: Seq<char>,
    resp: RunsResponse,
    j: int,
)
    requires
        tables.repos.dom().contains(repo.full_name@),
        occurs_once(resp.runs@, j),
        is_to_keep(resp.runs@[j], repo, user),
        !tables.runs.dom().contains(resp.runs@[j].id),
    ensures
        ({
            let run = resp.runs@[j];
            let after = super::after_answer(tables, status, repo, user, Ok(resp)).0;
            let stored = after.runs[run.id];
            &&& after.runs.dom().contains(run.id)
            &&& stored.id == run.id
            &&& stored.repo_full_name == repo.full_name@
            &&& stored.workflow_name == run.workflow_name@
            &&& stored.branch == run.head_branch@
            &&& stored.actor == run.actor.login@
            &&& stored.status == run.status@
            &&& run.conclusion matches Some(c) ==> stored.conclusion == Some(c@)
            &&& run.conclusion is None ==> stored.conclusion is None
            &&& stored.commit_sha == run.head_sha@
            &&& run.head_commit is None ==> stored.commit_subject.len() == 0
            &&& run.head_commit matches Some(c) ==> stored.commit_subject
                == crate::text::first_line(c.message@)
            &&& stored.html_url == run.html_url@
            &&& run.run_started_at matches Some(t) ==> stored.started_at == t@
            &&& run.run_started_at is None ==> stored.started_at == run.updated_at@
            &&& run.path matches Some(p) ==> stored.workflow_path == Some(p@)
            &&& run.path is None ==> stored.workflow_path is None
        }),
{
    let runs = resp.runs@;
    let id = runs[j].id;
    let tagged = super::with_answer_etag(tables, repo.full_name@, resp.etag);
    lemma_untouched(tagged, status, repo, user, runs, 0, j, id);
    lemma_repos_stay(tagged, status, repo, user, runs, j);
    lemma_untouched(tagged, status, repo, user, runs, j + 1, runs.len() as int, id);
    let before = super::after_runs(tagged, status, repo, user, runs, j).0;
    assert(tagged.repos.dom().contains(repo.full_name@));
    assert(!before.runs.dom().contains(id));
    assert(super::after_runs(tagged, status, repo, user, runs, j + 1).0.runs[id]
        == super::stored_form(repo.full_name@, runs[j]));
}

/// A run that is kept and was stored before has the status, the conclusion, the subject, the start
/// and the path that GitHub gives now, and keeps the rest.
pub proof fn a_kept_known_run_is_brought_up_to_date(
    tables: crate::store::Tables,
    status: super::StatusView,
    repo: StoredRepo,
    user: Seq<char>,
    resp: RunsResponse,
    j: int,
)
    requires
        occurs_once(resp.runs@, j),
        is_to_keep(resp.runs@[j], repo, user),
        tables.runs.dom().contains(resp.runs@[j].id),
    ensures
        ({
            let run = resp.runs@[j];
            let old_run = tables.runs[run.id];
            let after = super::after_answer(tables, status, repo, user, Ok(resp)).0;
            let stored = after.runs[run.id];
            &&& after.runs.dom().contains(run.id)
            &&& stored.status == run.status@
            &&& run.conclusion matches Some(c) ==> stored.conclusion == Some(c@)
            &&& run.conclusion is None ==> stored.conclusion is None
            &&& run.head_commit is None ==> stored.commit_subject.len() == 0
            &&& run.head_commit matches Some(c) ==> stored.commit_subject
                == crate::text::first_line(c.message@)
            &&& run.run_started_at matches Some(t) ==> stored.started_at == t@
            &&& run.run_started_at is None ==> stored.started_at == run.updated_at@
            &&& run.path matches Some(p) ==> stored.workflow_path == Some(p@)
            &&& run.path is None ==> stored.workflow_path is None
            &&& stored.id == old_run.id
            &&& stored.repo_full_name == old_run.repo_full_name
            &&& stored.workflow_name == old_run.workflow_name
            &&& stored.branch == old_run.branch
            &&& stored.actor == old_run.actor
            &&& stored.commit_sha == old_run.commit_sha
            &&& stored.html_url == old_run.html_url
        }),
{
    let runs = resp.runs@;
    let id = runs[j].id;
    let tagged = super::with_answer_etag(tables, repo.full_name@, resp.etag);
    lemma_untouched(tagged, status, repo, user, runs, 0, j, id);
    lemma_untouched(tagged, status, repo, user, runs, j + 1, runs.len() as int, id);
    let before = super::after_runs(tagged, status, repo, user, runs, j).0;
    assert(before.runs[id] == tables.runs[id]);
    let stored = super::stored_form(repo.full_name@, runs[j]);
    assert(super::after_runs(tagged, status, repo, user, runs, j + 1).0 == before.with_run(stored));
}

/// An answer changes no run but those in it that are kept.
pub proof fn an_answer_changes_no_other_run(
    tables: crate::store::Tables,
    status: super::StatusView,
    repo: StoredRepo,
    user: Seq<char>,
    resp: RunsResponse,
    id: i64,
)
    requires
        forall|i: int|
            0 <= i < resp.runs@.len() ==> (#[trigger] resp.runs@[i]).id != id || !is_to_keep(
                resp.runs@[i],
                repo,
                user,
            ),
    ensures
        ({
            let after = super::after_answer(tables, status, repo, user, Ok(resp)).0;
            &&& after.runs.dom().contains(id) <==> tables.runs.dom().contains(id)
            &&& tables.runs.dom().contains(id) ==> after.runs[id] == tables.runs[id]
        }),
{
    let tagged = super::with_answer_etag(tables, repo.full_name@, resp.etag);
    lemma_untouched(
        tagged,
        status,
        repo,
        user,
        resp.runs@,
        0,
        resp.runs@.len() as int,
        id,
    );
}

/// An answer writes of the repositories only the `ETag` of its own, where it has one.
pub proof fn an_answer_writes_its_etag_alone(
    tables: crate::store::Tables,
    status: super::StatusView,
    repo: StoredRepo,
    user: Seq<char>,
    resp: RunsResponse,
    full_name: Seq<char>,
)
    ensures
        ({
            let after = super::after_answer(tables, status, repo, user, Ok(resp)).0;
            let a = tables.repos[full_name];
            let b = after.repos[full_name];
            &&& after.repos.dom().contains(full_name) <==> tables.repos.dom().contains(full_name)
            &&& full_name != repo.full_name@ && tables.repos.dom().contains(full_name) ==> a == b
            &&& full_name == repo.full_name@ && tables.repos.dom().contains(full_name) ==> {
                &&& resp.etag matches Some(t) ==> b.etag == Some(t@)
                &&& resp.etag is None ==> b.etag == a.etag
                &&& b.default_branch == a.default_branch
                &&& b.ignored == a.ignored
                &&& b.user_override == a.user_override
                &&& b.archived == a.archived
                &&& b.pushed_at == a.pushed_at
                &&& b.skip_reason == a.skip_reason
            }
        }),
{
    let tagged = super::with_answer_etag(tables, repo.full_name@, resp.etag);
    lemma_repos_stay(tagged, status, repo, user, resp.runs@, resp.runs@.len() as int);
}

/// An answer that did not come changes nothing that is stored. It is one more error, whose message
/// says how to log in again where the token was rejected, and else names the repository and the
/// cause; and it is progress by one.
pub proof fn an_answer_that_did_not_come(
    tables: crate::store::Tables,
    status: super::StatusView,
    repo: StoredRepo,
    user: Seq<char>,
    e: GithubError,
)
    requires
        status.progress matches Some(p) ==> p.done < usize::MAX,
    ensures
        ({
            let (t, s) = super::after_answer(tables, status, repo, user, Err(e));
            &&& t == tables
            &&& s.error_count == status.error_count + 1
            &&& e.unauthorized() ==> s.last_error == Some(
                "GitHub rejected the token — run `gh auth login` to refresh it"@,
            )
            &&& !e.unauthorized() ==> s.last_error == Some(
                repo.full_name@ + ": "@ + e.message_text(),
            )
            &&& s.last_success == status.last_success
            &&& s.rate_limit_remaining == status.rate_limit_remaining
            &&& s.poll_interval_secs == status.poll_interval_secs
            &&& status.progress is None ==> s.progress is None
            &&& status.progress matches Some(p) ==> (s.progress matches Some(q) && q.done == p.done
                + 1 && q.total == p.total)
        }),
{
}

/// An answer about a stored repository counts no error and is progress by one; the rest of the
/// status stays.
pub proof fn an_answer_is_progress(
    tables: crate::store::Tables,
    status: super::StatusView,
    repo: StoredRepo,
    user: Seq<char>,
    resp: RunsResponse,
)
    requires
        tables.repos.dom().contains(repo.full_name@),
        status.progress matches Some(p) ==> p.done < usize::MAX,
    ensures
        ({
            let s = super::after_answer(tables, status, repo, user, Ok(resp)).1;
            &&& s.error_count == status.error_count
            &&& s.last_error == status.last_error
            &&& s.last_success == status.last_success
            &&& s.rate_limit_remaining == status.rate_limit_remaining
            &&& s.poll_interval_secs == status.poll_interval_secs
            &&& status.progress is None ==> s.progress is None
            &&& status.progress matches Some(p) ==> (s.progress matches Some(q) && q.done == p.done
                + 1 && q.total == p.total)
        }),
{
    let tagged = super::with_answer_etag(tables, repo.full_name@, resp.etag);
    super::laws::runs_of_a_stored_repository_are_stored(
        tagged,
        status,
        repo,
        user,
        resp.runs@,
        resp.runs@.len() as int,
    );
}

/// A run of a repository that is not stored is kept nowhere: it is one more error, which names the
/// run and the cause.
pub proof fn a_run_without_its_repository_is_an_error(
    tables: crate::store::Tables,
    status: super::StatusView,
    repo: StoredRepo,
    user: Seq<char>,
    run: Run,
)
    requires
        !tables.repos.dom().contains(repo.full_name@),
        !tables.runs.dom().contains(run.id),
        is_to_keep(run, repo, user),
    ensures
        ({
            let (t, s) = super::after_runs(tables, status, repo, user, seq![run], 1);
            &&& t == tables
            &&& s.error_count == status.error_count + 1
            &&& s.last_error == Some(
                "failed to store run "@ + crate::text::signed_decimal(run.id as int) + ": "@
                    + "FOREIGN KEY constraint failed"@,
            )
        }),
{
    assert(super::after_runs(tables, status, repo, user, seq![run], 0) == (tables, status));
}

/// How many of the first `k` runs are kept.
pub open spec fn kept_among(runs: Seq<Run>, repo: StoredRepo, user: Seq<char>, k: int) -> int
    decreases k,
{
    if k <= 0 {
        0
    } else {
        kept_among(runs, repo, user, k - 1) + if is_to_keep(runs[k - 1], repo, user) {
            1int
        } else {
            0int
        }
    }
}

/// Where the store cannot be reached, each run that would be kept is one more error, and no other;
/// the message is about the last of them.
pub proof fn runs_that_cannot_be_stored_are_counted(
    status: super::StatusView,
    repo: StoredRepo,
    user: Seq<char>,
    runs: Seq<Run>,
    cause: Seq<char>,
    k: int,
)
    requires
        0 <= k <= runs.len(),
    ensures
        ({
            let s = super::after_lost_runs(status, repo, user, runs, cause, k);
            &&& s.error_count == status.error_count + kept_among(runs, repo, user, k)
            &&& s.progress == status.progress
            &&& s.last_success == status.last_success
            &&& k > 0 && is_to_keep(runs[k - 1], repo, user) ==> s.last_error == Some(
                "failed to store run "@ + crate::text::signed_decimal(runs[k - 1].id as int)
                    + ": "@ + cause,
            )
            &&& kept_among(runs, repo, user, k) == 0 ==> s == status
        }),
        kept_among(runs, repo, user, k) >= 0,
    decreases k,
{
    if k > 0 {
        runs_that_cannot_be_stored_are_counted(status, repo, user, runs, cause, k - 1);
    }
}

/// An answer moves a pass to the next repository. It is a success from the first answer that came,
/// and its rate limit is that of the last answer that told one.
pub proof fn an_answer_moves_the_pass_on(
    cycle: super::SyncCycle,
    repos: Vec<StoredRepo>,
    answer: Result<RunsResponse, GithubError>,
)
    requires
        cycle.next < usize::MAX,
    ensures
        cycle.after(answer).repos == cycle.repos,
        cycle.after(answer).next == cycle.next + 1,
        cycle.after(answer).any_success <==> cycle.any_success || answer is Ok,
        answer is Err ==> cycle.after(answer).rate_limit == cycle.rate_limit,
        answer matches Ok(resp) ==> (resp.rate_limit_remaining is None ==> cycle.after(
            answer,
        ).rate_limit == cycle.rate_limit) && (resp.rate_limit_remaining is Some ==> cycle.after(
            answer,
        ).rate_limit == resp.rate_limit_remaining),
        super::SyncCycle::new(repos).repos == repos,
        super::SyncCycle::new(repos).next == 0,
        super::SyncCycle::new(repos).rate_limit is None,
        !super::SyncCycle::new(repos).any_success,
{
}

/// The end of a pass drops exactly the runs that started before the point thirty days earlier, and
/// leaves the others and the repositories as they are.
pub proof fn the_end_of_a_pass_drops_old_runs(
    tables: crate::store::Tables,
    now: Timestamp,
    id: i64,
)
    requires
        now.nanos < 1_000_000_000,
        i64::MIN <= now.secs - 30 * 86_400,
    ensures
        ({
            let after = super::after_prune(
                tables,
                now.text_days_before(super::RETENTION_DAYS as int),
            );
            let cutoff = crate::clock::rfc3339_text((now.secs - 30 * 86_400) as i64, now.nanos);
            &&& after.repos == tables.repos
            &&& cutoff is None ==> after == tables
            &&& cutoff is Some ==> (after.runs.dom().contains(id) <==> tables.runs.dom().contains(id)
                && !crate::text::text_lt(tables.runs[id].started_at, cutoff->0))
            &&& after.runs.dom().contains(id) ==> after.runs[id] == tables.runs[id]
        }),
{
    crate::clock::laws::days_are_counted_back_in_seconds(now, 30);
}

/// The end of a pass writes the time and the rate limit of a success, and no error is forgotten.
pub proof fn the_end_of_a_pass_writes_its_success(
    cycle: super::SyncCycle,
    status: super::StatusView,
    now: Option<Seq<char>>,
)
    ensures
        ({
            let s = super::after_pass(cycle, status, now);
            &&& s.progress is None
            &&& s.error_count == status.error_count
            &&& s.last_error == status.last_error
            &&& s.poll_interval_secs == status.poll_interval_secs
            &&& cycle.any_success && now is Some ==> s.last_success == now
            &&& !cycle.any_success || now is None ==> s.last_success == status.last_success
                && s.rate_limit_remaining == status.rate_limit_remaining
            &&& cycle.any_success && now is Some && cycle.rate_limit is Some
                ==> s.rate_limit_remaining == cycle.rate_limit
            &&& cycle.rate_limit is None ==> s.rate_limit_remaining == status.rate_limit_remaining
        }),
{
}

/// The start of a pass counts errors from zero and shows that none of all repositories is done; all
/// else stays, the last message too.
pub proof fn the_start_of_a_pass(status: super::StatusView, total: usize, msg: Seq<char>)
    ensures
        ({
            let s = status.begun(total);
            &&& s.error_count == 0
            &&& s.progress matches Some(p) && p.done == 0 && p.total == total
            &&& s.last_error == status.last_error
            &&& s.last_success == status.last_success
            &&& s.rate_limit_remaining == status.rate_limit_remaining
            &&& s.poll_interval_secs == status.poll_interval_secs
        }),
        ({
            let s = status.with_error(msg);
            &&& s.error_count == status.error_count + 1
            &&& s.last_error == Some(msg)
            &&& s.progress == status.progress
            &&& s.last_success == status.last_success
            &&& s.rate_limit_remaining == status.rate_limit_remaining
            &&& s.poll_interval_secs == status.poll_interval_secs
        }),
        ({
            let s = super::StatusView::initial();
            &&& s.error_count == 0
            &&& s.progress is None
            &&& s.last_error is None
            &&& s.last_success is None
            &&& s.rate_limit_remaining is None
            &&& s.poll_interval_secs is None
        }),
{
}

/// A success writes its time, and the rate limit only where that is known; the end of a pass clears
/// the progress alone, and an advance moves it by one.
pub proof fn the_steps_of_a_status(
    status: super::StatusView,
    rate_limit: Option<i64>,
    now: Seq<char>,
)
    requires
        status.progress matches Some(p) ==> p.done < usize::MAX,
    ensures
        ({
            let s = status.with_success(rate_limit, now);
            &&& s.last_success == Some(now)
            &&& rate_limit is Some ==> s.rate_limit_remaining == rate_limit
            &&& rate_limit is None ==> s.rate_limit_remaining == status.rate_limit_remaining
            &&& s.error_count == status.error_count
            &&& s.last_error == status.last_error
            &&& s.progress == status.progress
            &&& s.poll_interval_secs == status.poll_interval_secs
        }),
        ({
            let s = status.ended();
            &&& s.progress is None
            &&& s.error_count == status.error_count
            &&& s.last_error == status.last_error
            &&& s.last_success == status.last_success
            &&& s.rate_limit_remaining == status.rate_limit_remaining
            &&& s.poll_interval_secs == status.poll_interval_secs
        }),
        ({
            let s = status.advanced();
            &&& status.progress is None ==> s.progress is None
            &&& status.progress matches Some(p) ==> (s.progress matches Some(q) && q.done == p.done
                + 1 && q.total == p.total)
            &&& s.error_count == status.error_count
            &&& s.last_error == status.last_error
            &&& s.last_success == status.last_success
            &&& s.rate_limit_remaining == status.rate_limit_remaining
            &&& s.poll_interval_secs == status.poll_interval_secs
        }),
{
}

/// The form of a status holds each of its fields as it is.
pub proof fn the_form_of_a_status(s: super::SyncStatus)
    ensures
        s@.progress == s.progress,
        s.last_success matches Some(t) ==> s@.last_success == Some(t@),
        s.last_success is None ==> s@.last_success is None,
        s@.error_count == s.error_count,
        s@.rate_limit_remaining == s.rate_limit_remaining,
        s.last_error matches Some(t) ==> s@.last_error == Some(t@),
        s.last_error is None ==> s@.last_error is None,
        s@.poll_interval_secs == s.poll_interval_secs,
{
}

/// A rate limit is low below five hundred calls; repositories are discovered every hour.
pub proof fn when_to_back_off_and_to_discover(remaining: Option<i64>)
    ensures
        remaining matches Some(n) ==> (super::is_low(remaining) <==> n < 500),
        remaining is None ==> !super::is_low(remaining),
        super::DISCOVERY_INTERVAL_SECS == 60 * 60,
{
}

/// A repository is on the list exactly when some entry has its name.
pub proof fn a_repository_is_listed_by_its_name(repos: Seq<Repo>, full_name: Seq<char>)
    ensures
        super::is_listed(repos, full_name) <==> (exists|i: int|
            0 <= i < repos.len() && (#[trigger] repos[i]).full_name@ == full_name),
{
}

/// After the first `k` entries of a list, the row of each has what its last entry gives.
proof fn lemma_discovered_row(
    tables: crate::store::Tables,
    ignore: Seq<Seq<char>>,
    repos: Seq<Repo>,
    now: Timestamp,
    k: int,
    i: int,
)
    requires
        0 <= i < k <= repos.len(),
        forall|j: int|
            i < j < k ==> (#[trigger] repos[j]).full_name@ != repos[i].full_name@,
    ensures
        ({
            let after = super::discovered_all(tables, ignore, repos, now, k);
            let row = after.repos[repos[i].full_name@];
            &&& after.repos.dom().contains(repos[i].full_name@)
            &&& row.default_branch == repos[i].default_branch@
            &&& row.archived == repos[i].archived
            &&& row.pushed_at == crate::text::optional_text(repos[i].pushed_at)
        }),
    decreases k,
{
    if i < k - 1 {
        lemma_discovered_row(tables, ignore, repos, now, k - 1, i);
        assert(repos[k - 1].full_name@ != repos[i].full_name@);
    }
}

/// After a discovery every repository on the list is stored with the default branch, the archived
/// state and the push time that GitHub gives for it; where it is listed twice, the last entry
/// counts.
pub proof fn discovery_records_what_github_gives(
    tables: crate::store::Tables,
    ignore: Seq<Seq<char>>,
    repos: Seq<Repo>,
    now: Timestamp,
    i: int,
)
    requires
        0 <= i < repos.len(),
        forall|j: int|
            i < j < repos.len() ==> (#[trigger] repos[j]).full_name@ != repos[i].full_name@,
    ensures
        ({
            let after = super::with_gone(
                super::discovered_all(tables, ignore, repos, now, repos.len() as int),
                repos,
            );
            let row = after.repos[repos[i].full_name@];
            &&& after.repos.dom().contains(repos[i].full_name@)
            &&& row.default_branch == repos[i].default_branch@
            &&& row.archived == repos[i].archived
            &&& repos[i].pushed_at matches Some(t) ==> row.pushed_at == Some(t@)
            &&& repos[i].pushed_at is None ==> row.pushed_at is None
        }),
{
    lemma_discovered_row(tables, ignore, repos, now, repos.len() as int, i);
    assert(super::is_listed(repos, repos[i].full_name@));
}

proof fn lemma_discovered_other(
    tables: crate::store::Tables,
    ignore: Seq<Seq<char>>,
    repos: Seq<Repo>,
    now: Timestamp,
    k: int,
    full_name: Seq<char>,
)
    requires
        0 <= k <= repos.len(),
        forall|i: int| 0 <= i < k ==> (#[trigger] repos[i]).full_name@ != full_name,
    ensures
        ({
            let after = super::discovered_all(tables, ignore, repos, now, k);
            &&& after.repos.dom().contains(full_name) <==> tables.repos.dom().contains(full_name)
            &&& tables.repos.dom().contains(full_name) ==> after.repos[full_name]
                == tables.repos[full_name]
        }),
    decreases k,
{
    if k > 0 {
        lemma_discovered_other(tables, ignore, repos, now, k - 1, full_name);
        assert(repos[k - 1].full_name@ != full_name);
    }
}

/// After a discovery a repository that is not on the list is hidden with the reason `gone`, where it
/// was known, and keeps all else; where it was unknown it still is.
pub proof fn discovery_hides_what_is_gone(
    tables: crate::store::Tables,
    ignore: Seq<Seq<char>>,
    repos: Seq<Repo>,
    now: Timestamp,
    full_name: Seq<char>,
)
    requires
        forall|i: int| 0 <= i < repos.len() ==> (#[trigger] repos[i]).full_name@ != full_name,
    ensures
        ({
            let after = super::with_gone(
                super::discovered_all(tables, ignore, repos, now, repos.len() as int),
                repos,
            );
            let a = tables.repos[full_name];
            let b = after.repos[full_name];
            &&& after.repos.dom().contains(full_name) <==> tables.repos.dom().contains(full_name)
            &&& tables.repos.dom().contains(full_name) ==> {
                &&& b.ignored
                &&& b.skip_reason == Some("gone"@)
                &&& b.default_branch == a.default_branch
                &&& b.etag == a.etag
                &&& b.user_override == a.user_override
                &&& b.archived == a.archived
                &&& b.pushed_at == a.pushed_at
            }
        }),
{
    lemma_discovered_other(tables, ignore, repos, now, repos.len() as int, full_name);
    assert(!super::is_listed(repos, full_name));
}

/// A discovery that stops at its first repository has stored it with what GitHub gives, and has
/// touched nothing else.
pub proof fn a_discovery_that_stops(
    tables: crate::store::Tables,
    repo: Repo,
    other: Seq<char>,
)
    requires
        other != repo.full_name@,
    ensures
        ({
            let after = super::recorded(tables, repo);
            let row = after.repos[repo.full_name@];
            &&& after.repos.dom().contains(repo.full_name@)
            &&& row.default_branch == repo.default_branch@
            &&& row.archived == repo.archived
            &&& repo.pushed_at matches Some(t) ==> row.pushed_at == Some(t@)
            &&& repo.pushed_at is None ==> row.pushed_at is None
            &&& after.runs == tables.runs
            &&& after.repos.dom().contains(other) <==> tables.repos.dom().contains(other)
            &&& tables.repos.dom().contains(other) ==> after.repos[other] == tables.repos[other]
        }),
{
}

/// One of the patterns matches the name, with wildcards that do not match a slash.
pub open spec fn some_pattern_matches(ignore: Seq<Seq<char>>, name: Seq<char>) -> bool {
    exists|i: int| 0 <= i < ignore.len() && crate::globs::glob_matches(#[trigger] ignore[i], true, name)
}

/// Some stored run names the repository.
pub open spec fn some_run_names(tables: crate::store::Tables, full_name: Seq<char>) -> bool {
    exists|id: i64|
        tables.runs.dom().contains(id) && (#[trigger] tables.runs[id]).repo_full_name == full_name
}

/// The row of a repository holds no override: nothing, or a word that stands for none.
pub open spec fn has_no_override(tables: crate::store::Tables, full_name: Seq<char>) -> bool {
    tables.repos[full_name].user_override != Some("include"@)
        && tables.repos[full_name].user_override != Some("exclude"@)
}

/// A repository with the override `exclude` is muted and one with `include` is polled, whatever
/// else holds of it. Without an override, one that a pattern matches is skipped for that, and else
/// one that is archived is skipped for that.
pub proof fn what_decides_first(
    tables: crate::store::Tables,
    ignore: Seq<Seq<char>>,
    full_name: Seq<char>,
    now: Timestamp,
)
    requires
        tables.valid(),
        tables.repos.dom().contains(full_name),
    ensures
        ({
            let row = tables.repos[full_name];
            let d = super::decision_on(tables, ignore, full_name, now);
            &&& row.user_override == Some("exclude"@) ==> d == Decision::Skipped(SkipReason::Muted)
            &&& row.user_override == Some("include"@) ==> d == Decision::Included
            &&& has_no_override(tables, full_name) && some_pattern_matches(ignore, full_name) ==> d
                == Decision::Skipped(SkipReason::Glob)
            &&& has_no_override(tables, full_name) && !some_pattern_matches(ignore, full_name)
                && row.archived ==> d == Decision::Skipped(SkipReason::Archived)
        }),
{
    crate::store::laws::facts_are_those_of_the_row(tables, full_name);
    crate::config::laws::a_name_is_ignored_where_a_pattern_matches(ignore, full_name);
    if tables.repos[full_name].user_override is Some {
        crate::inclusion::laws::overrides_are_two_words(tables.repos[full_name].user_override->0);
    }
}

/// A repository without an override, not archived and matched by no pattern is polled where a
/// stored run names it, however long its last push lies back. Where none does, it is stale exactly
/// when its last push can be read and lies more than ninety days back, and else it is polled.
pub proof fn a_stored_run_keeps_a_repository_in(
    tables: crate::store::Tables,
    ignore: Seq<Seq<char>>,
    full_name: Seq<char>,
    now: Timestamp,
)
    requires
        tables.valid(),
        tables.repos.dom().contains(full_name),
        has_no_override(tables, full_name),
        !tables.repos[full_name].archived,
        !some_pattern_matches(ignore, full_name),
        now.nanos < 1_000_000_000,
    ensures
        ({
            let pushed_at = tables.repos[full_name].pushed_at;
            let d = super::decision_on(tables, ignore, full_name, now);
            &&& some_run_names(tables, full_name) ==> d == Decision::Included
            &&& pushed_at is None ==> d == Decision::Included
            &&& pushed_at is Some && crate::clock::rfc3339_instant(pushed_at->0) is None ==> d
                == Decision::Included
            &&& pushed_at is Some && !some_run_names(tables, full_name) ==> (
            crate::clock::rfc3339_instant(pushed_at->0) matches Some((secs, nanos)) ==> nanos
                < 1_000_000_000 ==> d == (if (now.secs - secs) * 1_000_000_000 + (now.nanos - nanos)
                > 90 * 86_400 * 1_000_000_000 {
                Decision::Skipped(SkipReason::Stale)
            } else {
                Decision::Included
            }))
        }),
{
    crate::store::laws::facts_are_those_of_the_row(tables, full_name);
    crate::config::laws::a_name_is_ignored_where_a_pattern_matches(ignore, full_name);
    if tables.repos[full_name].user_override is Some {
        crate::inclusion::laws::overrides_are_two_words(tables.repos[full_name].user_override->0);
    }
    let pushed_at = tables.repos[full_name].pushed_at;
    let pushed = crate::inclusion::push_time(pushed_at);
    crate::inclusion::laws::a_push_is_known_by_its_text(pushed_at);
    if pushed is Some && pushed->0.nanos < 1_000_000_000 {
        crate::inclusion::laws::dormant_means_ninety_days(pushed, now);
    }
}

/// At any time, a repository without an override, not archived, matched by no pattern and named by
/// no stored run is stale exactly when its last push can be read and is more than ninety days old.
pub proof fn a_repository_without_runs_goes_stale(
    tables: crate::store::Tables,
    ignore: Seq<Seq<char>>,
    full_name: Seq<char>,
    now: Timestamp,
)
    requires
        tables.valid(),
        tables.repos.dom().contains(full_name),
        has_no_override(tables, full_name),
        !tables.repos[full_name].archived,
        !some_pattern_matches(ignore, full_name),
        tables.repos[full_name].pushed_at is Some,
        !some_run_names(tables, full_name),
    ensures
        crate::clock::rfc3339_instant(tables.repos[full_name].pushed_at->0) matches Some(
            (secs, nanos),
        ) ==> super::decision_on(tables, ignore, full_name, now) == (if (Timestamp {
            secs,
            nanos,
        }).is_older_than(90, now) {
            Decision::Skipped(SkipReason::Stale)
        } else {
            Decision::Included
        }),
{
    crate::store::laws::facts_are_those_of_the_row(tables, full_name);
    crate::config::laws::a_name_is_ignored_where_a_pattern_matches(ignore, full_name);
    if tables.repos[full_name].user_override is Some {
        crate::inclusion::laws::overrides_are_two_words(tables.repos[full_name].user_override->0);
    }
    let pushed_at = tables.repos[full_name].pushed_at;
    crate::inclusion::laws::a_push_is_known_by_its_text(pushed_at);
    if let Some(t) = crate::inclusion::push_time(pushed_at) {
        crate::inclusion::laws::dormant_is_older_than_ninety_days(t, now);
    }
}

/// A decision on a known repository is written as it is: it hides the repository unless it is to be
/// polled, and gives the word of its reason. All else stays.
pub proof fn a_decision_is_written_as_it_is(
    tables: crate::store::Tables,
    full_name: Seq<char>,
    d: Decision,
)
    requires
        tables.repos.dom().contains(full_name),
    ensures
        ({
            let a = tables.repos[full_name];
            let after = super::decided(tables, full_name, d);
            let b = after.repos[full_name];
            &&& b.ignored == !(d == Decision::Included)
            &&& d == Decision::Included ==> b.skip_reason is None
            &&& d == Decision::Skipped(SkipReason::Muted) ==> b.skip_reason == Some("muted"@)
            &&& d == Decision::Skipped(SkipReason::Glob) ==> b.skip_reason == Some("glob"@)
            &&& d == Decision::Skipped(SkipReason::Archived) ==> b.skip_reason == Some("archived"@)
            &&& d == Decision::Skipped(SkipReason::Stale) ==> b.skip_reason == Some("stale"@)
            &&& d == Decision::Skipped(SkipReason::Gone) ==> b.skip_reason == Some("gone"@)
            &&& b.default_branch == a.default_branch
            &&& b.etag == a.etag
            &&& b.user_override == a.user_override
            &&& b.archived == a.archived
            &&& b.pushed_at == a.pushed_at
            &&& after.runs == tables.runs
        }),
        forall|other: Seq<char>|
            other != full_name && #[trigger] tables.repos.dom().contains(other) ==> super::decided(
                tables,
                full_name,
                d,
            ).repos[other] == tables.repos[other],
{
}

/// What is said of what went wrong.
pub proof fn what_is_said_of_failures(
    id: i64,
    cause: Seq<char>,
    full_name: Seq<char>,
    e: GithubError,
    d: super::DecisionError,
)
    ensures
        super::failure_text(id, cause) == "failed to store run "@ + crate::text::signed_decimal(
            id as int,
        ) + ": "@ + cause,
        e.unauthorized() ==> super::error_text(full_name, e)
            == "GitHub rejected the token — run `gh auth login` to refresh it"@,
        !e.unauthorized() ==> super::error_text(full_name, e) == full_name + ": "@
            + e.message_text(),
        d matches super::DecisionError::Globs(g) ==> d.message_text() == g.message_text(),
        d matches super::DecisionError::UnknownRepository(n) ==> d.message_text()
            == "unknown repository: "@ + n@,
{
}

/// The stored form of a run has every field as GitHub gives it.
pub proof fn the_stored_form_of_a_run(full_name: Seq<char>, run: Run, stored: StoredRun)
    requires
        stored@ == super::stored_form(full_name, run),
    ensures
        stored.id == run.id,
        stored.repo_full_name@ == full_name,
        stored.workflow_name@ == run.workflow_name@,
        stored.branch@ == run.head_branch@,
        stored.actor@ == run.actor.login@,
        stored.status@ == run.status@,
        stored.conclusion is Some <==> run.conclusion is Some,
        run.conclusion matches Some(c) ==> stored.conclusion->0@ == c@,
        stored.commit_sha@ == run.head_sha@,
        stored.html_url@ == run.html_url@,
        run.run_started_at matches Some(t) ==> stored.started_at@ == t@,
        run.run_started_at is None ==> stored.started_at@ == run.updated_at@,
        stored.workflow_path is Some <==> run.path is Some,
        run.path matches Some(p) ==> stored.workflow_path->0@ == p@,
        run.head_commit is None ==> stored.commit_subject@.len() == 0,
        run.head_commit matches Some(c) ==> stored.commit_subject@ == crate::text::first_line(
            c.message@,
        ),
{
}

/// An answer that comes where the store cannot be reached is progress by one all the same, and its
/// errors are the runs that would be kept; one that did not come is one error, as ever.
pub proof fn an_answer_without_a_store_is_progress(
    tables: crate::store::Tables,
    status: super::StatusView,
    repo: StoredRepo,
    user: Seq<char>,
    answer: Result<RunsResponse, GithubError>,
    cause: Seq<char>,
)
    requires
        status.progress matches Some(p) ==> p.done < usize::MAX,
    ensures
        ({
            let s = super::after_unstored(status, repo, user, answer, cause);
            &&& answer matches Ok(resp) ==> s.error_count == status.error_count + kept_among(
                resp.runs@,
                repo,
                user,
                resp.runs@.len() as int,
            )
            &&& answer is Err ==> s == super::after_answer(tables, status, repo, user, answer).1
            &&& s.last_success == status.last_success
            &&& status.progress is None ==> s.progress is None
            &&& status.progress matches Some(p) ==> (s.progress matches Some(q) && q.done == p.done
                + 1 && q.total == p.total)
        }),
{
    match answer {
        Ok(resp) => {
            runs_that_cannot_be_stored_are_counted(
                status,
                repo,
                user,
                resp.runs@,
                cause,
                resp.runs@.len() as int,
            );
        },
        Err(e) => {
            an_answer_that_did_not_come(tables, status, repo, user, e);
        },
    }
}

} // verus!
