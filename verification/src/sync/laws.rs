//! What holds of discovery and of a whole pass over the repositories.
use vstd::prelude::*;

use crate::clock::Timestamp;
use crate::github::{GithubError, Repo, Run, RunsResponse};
use crate::inclusion::{Decision, Override, SkipReason};
use crate::store::StoredRepo;

verus! {

/// The tables and the status after the first `k` answers of a pass.
pub open spec fn after_answers(
    tables: crate::store::Tables,
    status: super::StatusView,
    repos: Seq<StoredRepo>,
    user: Seq<char>,
    answers: Seq<Result<RunsResponse, GithubError>>,
    k: int,
) -> (crate::store::Tables, super::StatusView)
    decreases k,
{
    if k <= 0 {
        (tables, status)
    } else {
        let (t, s) = after_answers(tables, status, repos, user, answers, k - 1);
        super::after_answer(t, s, repos[k - 1], user, answers[k - 1])
    }
}

/// How many of the first `k` answers did not come.
pub open spec fn failed(answers: Seq<Result<RunsResponse, GithubError>>, k: int) -> nat
    decreases k,
{
    if k <= 0 {
        0
    } else {
        failed(answers, k - 1) + if answers[k - 1] is Err {
            1nat
        } else {
            0nat
        }
    }
}

/// Whatever the answers are, each one moves the progress of a pass by one: after `k` of them, `k`
/// repositories of all are done.
pub proof fn progress_counts_every_answer(
    tables: crate::store::Tables,
    status: super::StatusView,
    repos: Seq<StoredRepo>,
    user: Seq<char>,
    answers: Seq<Result<RunsResponse, GithubError>>,
    k: int,
)
    requires
        repos.len() <= usize::MAX,
        answers.len() == repos.len(),
        0 <= k <= repos.len(),
    ensures
        after_answers(
            tables,
            status.begun(repos.len() as usize),
            repos,
            user,
            answers,
            k,
        ).1.progress == Some(
            super::SyncProgress { done: k as usize, total: repos.len() as usize },
        ),
    decreases k,
{
    let begun = status.begun(repos.len() as usize);
    if k > 0 {
        progress_counts_every_answer(tables, status, repos, user, answers, k - 1);
        let (t, s) = after_answers(tables, begun, repos, user, answers, k - 1);
        if let Ok(resp) = answers[k - 1] {
            super::lemma_error_bound(
                super::with_answer_etag(t, repos[k - 1].full_name@, resp.etag),
                s,
                repos[k - 1],
                user,
                resp.runs@,
                resp.runs@.len() as int,
            );
        }
    }
}

/// The runs of a repository that is stored can all be stored: none counts as an error, and the
/// repositories stay as they are.
pub proof fn runs_of_a_stored_repository_are_stored(
    tables: crate::store::Tables,
    status: super::StatusView,
    repo: StoredRepo,
    user: Seq<char>,
    runs: Seq<Run>,
    k: int,
)
    requires
        tables.repos.dom().contains(repo.full_name@),
        0 <= k <= runs.len(),
    ensures
        super::after_runs(tables, status, repo, user, runs, k).1 == status,
        super::after_runs(tables, status, repo, user, runs, k).0.repos == tables.repos,
        forall|j: int|
            0 <= j < k && super::is_kept(#[trigger] runs[j], repo.default_branch@, user)
                ==> super::after_runs(
                tables,
                status,
                repo,
                user,
                runs,
                k,
            ).0.runs.dom().contains(runs[j].id),
    decreases k,
{
    if k > 0 {
        runs_of_a_stored_repository_are_stored(tables, status, repo, user, runs, k - 1);
    }
}

/// A run is in the store after an answer only where it was there before or the answer holds it and
/// it is kept. So the run of a bot is never added.
pub proof fn only_kept_runs_are_added(
    tables: crate::store::Tables,
    status: super::StatusView,
    repo: StoredRepo,
    user: Seq<char>,
    runs: Seq<Run>,
    k: int,
    id: i64,
)
    requires
        0 <= k <= runs.len(),
        super::after_runs(tables, status, repo, user, runs, k).0.runs.dom().contains(id),
    ensures
        tables.runs.dom().contains(id) || exists|j: int|
            0 <= j < k && (#[trigger] runs[j]).id == id && super::is_kept(
                runs[j],
                repo.default_branch@,
                user,
            ),
    decreases k,
{
    if k > 0 {
        let (t, s) = super::after_runs(tables, status, repo, user, runs, k - 1);
        if t.runs.dom().contains(id) {
            only_kept_runs_are_added(tables, status, repo, user, runs, k - 1, id);
        } else {
            assert(runs[k - 1].id == id);
        }
    }
}

/// One repository that fails does not stop a pass: where every repository is stored, the errors of
/// a pass are exactly the answers that did not come, and what the other answers bring is stored.
pub proof fn errors_are_the_answers_that_did_not_come(
    tables: crate::store::Tables,
    status: super::StatusView,
    repos: Seq<StoredRepo>,
    user: Seq<char>,
    answers: Seq<Result<RunsResponse, GithubError>>,
    k: int,
)
    requires
        answers.len() == repos.len(),
        0 <= k <= repos.len(),
        forall|i: int|
            0 <= i < repos.len() ==> tables.repos.dom().contains(
                (#[trigger] repos[i]).full_name@,
            ),
    ensures
        after_answers(tables, status, repos, user, answers, k).1.error_count == status.error_count
            + failed(answers, k),
        after_answers(tables, status, repos, user, answers, k).0.repos.dom()
            == tables.repos.dom(),
        after_answers(tables, status, repos, user, answers, k).1.last_success
            == status.last_success,
        failed(answers, k) == k ==> after_answers(tables, status, repos, user, answers, k).0
            == tables,
    decreases k,
{
    if k > 0 {
        errors_are_the_answers_that_did_not_come(tables, status, repos, user, answers, k - 1);
        lemma_failed_at_most(answers, k - 1);
        let (t, s) = after_answers(tables, status, repos, user, answers, k - 1);
        assert(tables.repos.dom().contains(repos[k - 1].full_name@));
        if let Ok(resp) = answers[k - 1] {
            let tagged = super::with_answer_etag(t, repos[k - 1].full_name@, resp.etag);
            assert(tagged.repos.dom() =~= t.repos.dom());
            runs_of_a_stored_repository_are_stored(
                tagged,
                s,
                repos[k - 1],
                user,
                resp.runs@,
                resp.runs@.len() as int,
            );
        }
    }
}

proof fn lemma_failed_at_most(answers: Seq<Result<RunsResponse, GithubError>>, k: int)
    requires
        0 <= k,
    ensures
        failed(answers, k) <= k,
    decreases k,
{
    if k > 0 {
        lemma_failed_at_most(answers, k - 1);
    }
}

/// A pass after the first `k` of these answers.
pub open spec fn cycle_after(
    cycle: super::SyncCycle,
    answers: Seq<Result<RunsResponse, GithubError>>,
    k: int,
) -> super::SyncCycle
    decreases k,
{
    if k <= 0 {
        cycle
    } else {
        cycle_after(cycle, answers, k - 1).after(answers[k - 1])
    }
}

/// A pass asks about its repositories in order, one after each answer, and has seen a success
/// exactly when some answer came.
pub proof fn a_pass_takes_its_repositories_in_order(
    repos: Vec<StoredRepo>,
    answers: Seq<Result<RunsResponse, GithubError>>,
    k: int,
)
    requires
        0 <= k <= repos@.len() <= usize::MAX,
        answers.len() == repos@.len(),
    ensures
        ({
            let cycle = cycle_after(super::SyncCycle::new(repos), answers, k);
            &&& cycle.repos == repos
            &&& cycle.next == k
            &&& cycle.any_success == (failed(answers, k) < k)
        }),
    decreases k,
{
    if k > 0 {
        a_pass_takes_its_repositories_in_order(repos, answers, k - 1);
        lemma_failed_at_most(answers, k - 1);
    }
}

/// A pass in which no answer came leaves the time of the last success and the stored rows as they
/// were, counts every repository as an error, and is over all the same.
pub proof fn a_pass_without_answers_is_no_success(
    tables: crate::store::Tables,
    status: super::StatusView,
    repos: Vec<StoredRepo>,
    user: Seq<char>,
    answers: Seq<Result<RunsResponse, GithubError>>,
    now: Option<Seq<char>>,
)
    requires
        repos@.len() <= usize::MAX,
        answers.len() == repos@.len(),
        forall|i: int| 0 <= i < answers.len() ==> (#[trigger] answers[i]) is Err,
        forall|i: int|
            0 <= i < repos@.len() ==> tables.repos.dom().contains(
                (#[trigger] repos@[i]).full_name@,
            ),
    ensures
        ({
            let n = repos@.len() as int;
            let (t, s) = after_answers(
                tables,
                status.begun(n as usize),
                repos@,
                user,
                answers,
                n,
            );
            let cycle = cycle_after(super::SyncCycle::new(repos), answers, n);
            let end = super::after_pass(cycle, s, now);
            &&& t == tables
            &&& end.last_success == status.last_success
            &&& end.error_count == n
            &&& end.progress is None
        }),
{
    let n = repos@.len() as int;
    lemma_all_failed(answers, n);
    a_pass_takes_its_repositories_in_order(repos, answers, n);
    errors_are_the_answers_that_did_not_come(
        tables,
        status.begun(n as usize),
        repos@,
        user,
        answers,
        n,
    );
}

proof fn lemma_all_failed(answers: Seq<Result<RunsResponse, GithubError>>, k: int)
    requires
        0 <= k <= answers.len(),
        forall|i: int| 0 <= i < answers.len() ==> (#[trigger] answers[i]) is Err,
    ensures
        failed(answers, k) == k,
    decreases k,
{
    if k > 0 {
        lemma_all_failed(answers, k - 1);
    }
}

/// An answer without runs, such as one that says that nothing has changed, leaves every stored run
/// as it is and counts no error.
pub proof fn an_unmodified_answer_changes_no_run(
    tables: crate::store::Tables,
    status: super::StatusView,
    repo: StoredRepo,
    user: Seq<char>,
    resp: RunsResponse,
)
    requires
        resp.runs@.len() == 0,
    ensures
        super::after_answer(tables, status, repo, user, Ok(resp)).0.runs == tables.runs,
        super::after_answer(tables, status, repo, user, Ok(resp)).1 == status.advanced(),
{
}

/// A pass leaves the poller idle. The time of the last success changes only where some answer
/// came, and the rate limit only where an answer told it.
pub proof fn a_pass_ends_idle(
    cycle: super::SyncCycle,
    status: super::StatusView,
    now: Option<Seq<char>>,
)
    ensures
        super::after_pass(cycle, status, now).progress is None,
        !cycle.any_success ==> super::after_pass(cycle, status, now).last_success
            == status.last_success,
        cycle.any_success && now is Some ==> super::after_pass(cycle, status, now).last_success
            == now,
        cycle.rate_limit is None ==> super::after_pass(cycle, status, now).rate_limit_remaining
            == status.rate_limit_remaining,
{
}

/// The `ETag` of an answer about a stored repository is sent with the next request about it.
pub proof fn an_etag_is_sent_next_time(
    tables: crate::store::Tables,
    status: super::StatusView,
    repo: StoredRepo,
    user: Seq<char>,
    resp: RunsResponse,
    base_url: Seq<char>,
    token: Seq<char>,
)
    requires
        tables.repos.dom().contains(repo.full_name@),
        resp.etag is Some,
    ensures
        ({
            let after = super::after_answer(tables, status, repo, user, Ok(resp)).0;
            let request = crate::github::runs_request(
                base_url,
                token,
                repo.full_name@,
                after.etag(repo.full_name@),
            );
            request.headers.contains(("if-none-match"@, resp.etag->0@))
        }),
{
    let tagged = super::with_answer_etag(tables, repo.full_name@, resp.etag);
    runs_of_a_stored_repository_are_stored(
        tagged,
        status,
        repo,
        user,
        resp.runs@,
        resp.runs@.len() as int,
    );
    let after = super::after_answer(tables, status, repo, user, Ok(resp)).0;
    assert(after.etag(repo.full_name@) == Some(resp.etag->0@));
    let headers = crate::github::common_headers(token);
    let request = crate::github::runs_request(
        base_url,
        token,
        repo.full_name@,
        after.etag(repo.full_name@),
    );
    assert(request.headers[headers.len() as int] == ("if-none-match"@, resp.etag->0@));
}

/// The flag and the reason of a stored decision never disagree: a known repository is visible
/// exactly when it is included, and then it has no reason to be skipped.
pub proof fn the_flag_and_the_reason_agree(
    tables: crate::store::Tables,
    full_name: Seq<char>,
    decision: Decision,
)
    requires
        tables.repos.dom().contains(full_name),
    ensures
        ({
            let after = super::decided(tables, full_name, decision);
            &&& after.visible(full_name) == (decision == Decision::Included)
            &&& after.visible(full_name) == after.repos[full_name].skip_reason is None
            &&& after.repos[full_name].skip_reason == decision.reason_text()
        }),
{
}

/// What a stored repository shows is the decision that its facts call for.
pub open spec fn is_decided(
    tables: crate::store::Tables,
    ignore: Seq<Seq<char>>,
    full_name: Seq<char>,
    now: Timestamp,
) -> bool {
    let decision = super::decision_on(tables, ignore, full_name, now);
    &&& tables.repos.dom().contains(full_name)
    &&& tables.visible(full_name) == (decision == Decision::Included)
    &&& tables.repos[full_name].skip_reason == decision.reason_text()
}

/// Discovery stores every repository on the list and decides on it by its facts, keeps the manual
/// overrides and the runs, and stores no other repository.
pub proof fn discovery_decides_every_listed_repository(
    tables: crate::store::Tables,
    ignore: Seq<Seq<char>>,
    repos: Seq<Repo>,
    now: Timestamp,
    k: int,
    full_name: Seq<char>,
)
    requires
        0 <= k <= repos.len(),
    ensures
        ({
            let after = super::discovered_all(tables, ignore, repos, now, k);
            &&& after.runs == tables.runs
            &&& after.repos.dom().contains(full_name) <==> tables.repos.dom().contains(full_name)
                || super::is_listed(repos.take(k), full_name)
            &&& super::is_listed(repos.take(k), full_name) ==> is_decided(
                after,
                ignore,
                full_name,
                now,
            )
            &&& tables.repos.dom().contains(full_name) ==> after.repos[full_name].user_override
                == tables.repos[full_name].user_override
            &&& tables.repos.dom().contains(full_name) ==> after.etag(full_name) == tables.etag(
                full_name,
            )
        }),
    decreases k,
{
    if k > 0 {
        discovery_decides_every_listed_repository(tables, ignore, repos, now, k - 1, full_name);
        let before = super::discovered_all(tables, ignore, repos, now, k - 1);
        let repo = repos[k - 1];
        let name = repo.full_name@;
        let t = super::recorded(before, repo);
        let after = super::discovered_all(tables, ignore, repos, now, k);
        assert(super::is_listed(repos.take(k), full_name) == (super::is_listed(
            repos.take(k - 1),
            full_name,
        ) || full_name == name)) by {
            if super::is_listed(repos.take(k), full_name) {
                let i = choose|i: int|
                    0 <= i < repos.take(k).len() && (#[trigger] repos.take(k)[i]).full_name@
                        == full_name;
                if i < k - 1 {
                    assert(repos.take(k - 1)[i].full_name@ == full_name);
                }
            }
            if super::is_listed(repos.take(k - 1), full_name) {
                let i = choose|i: int|
                    0 <= i < repos.take(k - 1).len() && (#[trigger] repos.take(
                        k - 1,
                    )[i]).full_name@ == full_name;
                assert(repos.take(k)[i].full_name@ == full_name);
            }
            if full_name == name {
                assert(repos.take(k)[k - 1].full_name@ == full_name);
            }
        }
        if full_name == name {
            assert(after.facts(name) == t.facts(name));
        } else {
            if before.repos.dom().contains(full_name) {
                assert(after.repos[full_name] == before.repos[full_name]);
            }
            assert(after.facts(full_name) == before.facts(full_name));
        }
    } else {
        assert(!super::is_listed(repos.take(0), full_name));
    }
}

/// After a discovery, a repository that is not on the list is not polled, and the reason is that
/// it is gone; one that is on it is decided on by its facts. No manual override is lost.
pub proof fn what_a_discovery_leaves(
    tables: crate::store::Tables,
    ignore: Seq<Seq<char>>,
    repos: Seq<Repo>,
    now: Timestamp,
    full_name: Seq<char>,
)
    ensures
        ({
            let listed = super::discovered_all(tables, ignore, repos, now, repos.len() as int);
            let after = super::with_gone(listed, repos);
            &&& super::is_listed(repos, full_name) ==> is_decided(after, ignore, full_name, now)
            &&& !super::is_listed(repos, full_name) ==> !after.visible(full_name)
            &&& !super::is_listed(repos, full_name) && tables.repos.dom().contains(full_name)
                ==> after.repos[full_name].skip_reason == Some(SkipReason::Gone.text())
            &&& tables.repos.dom().contains(full_name) ==> after.repos.dom().contains(full_name)
                && after.repos[full_name].user_override == tables.repos[full_name].user_override
            &&& after.runs == tables.runs
        }),
{
    let n = repos.len() as int;
    discovery_decides_every_listed_repository(tables, ignore, repos, now, n, full_name);
    assert(repos.take(n) =~= repos);
    let listed = super::discovered_all(tables, ignore, repos, now, n);
    let after = super::with_gone(listed, repos);
    if super::is_listed(repos, full_name) {
        assert(after.facts(full_name) == listed.facts(full_name));
    }
}

/// A manual override takes effect with the decision that follows it, whatever the rules say: a
/// muted repository is no longer visible, and a forced one is. Without an override the decision is
/// that of the rules alone.
pub proof fn an_override_takes_effect_at_once(
    tables: crate::store::Tables,
    ignore: Seq<Seq<char>>,
    full_name: Seq<char>,
    now: Timestamp,
)
    requires
        tables.repos.dom().contains(full_name),
    ensures
        ({
            let muted = tables.with_override(full_name, Some(Override::Exclude.text()));
            let d = super::decision_on(muted, ignore, full_name, now);
            &&& d == Decision::Skipped(SkipReason::Muted)
            &&& !super::decided(muted, full_name, d).visible(full_name)
        }),
        ({
            let forced = tables.with_override(full_name, Some(Override::Include.text()));
            let d = super::decision_on(forced, ignore, full_name, now);
            &&& d == Decision::Included
            &&& super::decided(forced, full_name, d).visible(full_name)
        }),
{
    crate::inclusion::override_text_round_trips(Override::Exclude, Override::Exclude.text());
    crate::inclusion::override_text_round_trips(Override::Include, Override::Include.text());
}

/// Clearing an override restores the automatic answer: muting a repository that has none and
/// clearing that again leaves the decision, and what is stored of it, as if it had never been
/// muted.
pub proof fn clearing_an_override_restores_the_automatic_answer(
    tables: crate::store::Tables,
    ignore: Seq<Seq<char>>,
    full_name: Seq<char>,
    o: Override,
    now: Timestamp,
)
    requires
        tables.repos.dom().contains(full_name),
        tables.repos[full_name].user_override is None,
    ensures
        ({
            let set = tables.with_override(full_name, Some(o.text()));
            let during = super::decided(
                set,
                full_name,
                super::decision_on(set, ignore, full_name, now),
            );
            let cleared = during.with_override(full_name, None);
            let d = super::decision_on(cleared, ignore, full_name, now);
            &&& d == super::decision_on(tables, ignore, full_name, now)
            &&& super::decided(cleared, full_name, d) == super::decided(tables, full_name, d)
        }),
{
    let set = tables.with_override(full_name, Some(o.text()));
    let during = super::decided(set, full_name, super::decision_on(set, ignore, full_name, now));
    let cleared = during.with_override(full_name, None);
    let d = super::decision_on(cleared, ignore, full_name, now);
    assert(cleared.facts(full_name) == tables.facts(full_name));
    assert(super::decided(cleared, full_name, d).repos =~= super::decided(
        tables,
        full_name,
        d,
    ).repos);
}

} // verus!
