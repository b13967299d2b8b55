//! What the pages ask for, and what they are answered.
use vstd::prelude::*;
use vstd::string::*;

use crate::clock::Timestamp;
use crate::config::Config;
use crate::inclusion::{Decision, Override, SkipReason};
use crate::store::{ManagedRepo, RepoSummary, Store, WorkflowHistory};
use crate::sync::{apply_decision, SyncState, SyncStatus};
use crate::text::text_eq;

pub mod laws;

verus! {

broadcast use vstd::string::group_string_axioms;

/// Runs per workflow in an expansion's history strip.
pub const HISTORY_PER_WORKFLOW: usize = 10;

/// The status of a request that makes no sense.
pub const BAD_REQUEST: u16 = 400;

/// The status of a request about what is not there.
pub const NOT_FOUND: u16 = 404;

/// The status of a request that could not be served.
pub const INTERNAL_SERVER_ERROR: u16 = 500;

/// The parameters of the dashboard.
#[derive(Debug)]
pub struct ReposParams {
    pub failures_only: Option<bool>,
}

impl Default for ReposParams {
    fn default() -> (r: ReposParams)
        ensures
            r.failures_only is None,
    {
        ReposParams { failures_only: None }
    }
}

/// The parameters of a history.
#[derive(Debug)]
pub struct HistoryParams {
    pub repo: String,
}

/// The rows of the dashboard.
#[derive(Debug)]
pub struct ReposResponse {
    pub repos: Vec<RepoSummary>,
}

/// What to do with a repository.
#[derive(Debug)]
pub struct OverrideBody {
    pub repo: String,
    /// `"include"`, `"exclude"`, or null to fall back to the automatic rules.
    pub value: Option<String>,
}

/// The rows of the management page.
#[derive(Debug)]
pub struct ManagedResponse {
    pub repos: Vec<ManagedRepo>,
}

/// The history of a repository.
#[derive(Debug)]
pub struct HistoryResponse {
    pub workflows: Vec<WorkflowHistory>,
}

/// A value asks for no override: there is none, or it is empty.
pub open spec fn asks_for_none(value: Option<Seq<char>>) -> bool {
    value is None || value == Some(""@)
}

/// A value is understood: it asks for no override, or names one.
pub open spec fn understood(value: Option<Seq<char>>) -> bool {
    asks_for_none(value) || Override::named(value->0) is Some
}

/// The override that a value which is understood asks for.
pub open spec fn requested(value: Option<Seq<char>>) -> Option<Override> {
    if asks_for_none(value) {
        None
    } else {
        Override::named(value->0)
    }
}

/// The text of an override.
pub open spec fn override_text(o: Option<Override>) -> Option<Seq<char>> {
    match o {
        Some(v) => Some(v.text()),
        None => None,
    }
}

/// Every repository and why it is or is not polled.
pub fn managed(store: &Store) -> (r: Result<ManagedResponse, u16>)
    requires
        store.wf(),
    ensures
        r is Ok,
        crate::store::is_managed(store@, r->Ok_0.repos@),
{
    match store.managed_repos() {
        Ok(repos) => Ok(ManagedResponse { repos }),
        Err(_) => Err(INTERNAL_SERVER_ERROR),
    }
}

/// Record a manual include/exclude and re-evaluate that repository at once. An unknown value is
/// rejected rather than stored as something the rules ignore.
pub fn set_override(store: &mut Store, config: &Config, body: &OverrideBody, now: Timestamp) -> (r:
    Result<ManagedResponse, u16>)
    requires
        old(store).wf(),
    ensures
        final(store).wf(),
        ({
            let value = crate::text::optional_text(body.value);
            let before = old(store)@;
            let set = before.with_override(body.repo@, override_text(requested(value)));
            if !understood(value) {
                r == Err::<ManagedResponse, u16>(BAD_REQUEST) && final(store)@ == before
            } else if !before.repos.dom().contains(body.repo@) {
                r == Err::<ManagedResponse, u16>(NOT_FOUND) && final(store)@ == before
            } else if !crate::config::usable(config@.ignore) {
                r == Err::<ManagedResponse, u16>(INTERNAL_SERVER_ERROR) && final(store)@ == set
            } else {
                &&& final(store)@ == crate::sync::decided(
                    set,
                    body.repo@,
                    crate::sync::decision_on(set, config@.ignore, body.repo@, now),
                )
                &&& r is Ok
                &&& crate::store::is_managed(final(store)@, r->Ok_0.repos@)
            }
        }),
        config@.ignore.len() == 0 && understood(crate::text::optional_text(body.value)) && old(
            store,
        )@.repos.dom().contains(body.repo@) ==> r is Ok,
{
    let mut value: Option<&str> = None;
    if let Some(text) = &body.value {
        if !text_eq(text.as_str(), "") {
            match Override::parse(text.as_str()) {
                Some(o) => {
                    value = Some(o.as_str());
                },
                None => {
                    return Err(BAD_REQUEST);
                },
            }
        }
    }
    match store.set_repo_override(body.repo.as_str(), value) {
        Ok(_) => {},
        Err(_) => {
            return Err(NOT_FOUND);
        },
    }
    match apply_decision(store, config, body.repo.as_str(), now) {
        Ok(_) => {},
        Err(_) => {
            return Err(INTERNAL_SERVER_ERROR);
        },
    }
    managed(store)
}

/// What a request for an override is answered where the store cannot be reached: a value that is
/// not understood is still rejected, and no repository is found.
pub fn override_unstored(body: &OverrideBody) -> (r: u16)
    ensures
        r == if understood(crate::text::optional_text(body.value)) {
            NOT_FOUND
        } else {
            BAD_REQUEST
        },
{
    match &body.value {
        Some(text) => if text_eq(text.as_str(), "") || Override::parse(text.as_str()).is_some() {
            NOT_FOUND
        } else {
            BAD_REQUEST
        },
        None => NOT_FOUND,
    }
}

/// The rows of the dashboard.
pub fn repos(store: &Store, params: &ReposParams) -> (r: Result<ReposResponse, u16>)
    requires
        store.wf(),
    ensures
        r is Ok,
        crate::store::reports::is_summaries(
            store@,
            params.failures_only == Some(true),
            crate::store::reports::summary_views(r->Ok_0.repos@),
        ),
{
    let failures_only: bool = match params.failures_only {
        Some(b) => b,
        None => false,
    };
    match store.repo_summaries(failures_only) {
        Ok(repos) => Ok(ReposResponse { repos }),
        Err(_) => Err(INTERNAL_SERVER_ERROR),
    }
}

/// The history of a repository.
pub fn history(store: &Store, params: &HistoryParams) -> (r: Result<HistoryResponse, u16>)
    requires
        store.wf(),
    ensures
        r is Ok,
        crate::store::reports::is_history(
            store@,
            params.repo@,
            HISTORY_PER_WORKFLOW as int,
            crate::store::reports::history_views(r->Ok_0.workflows@),
        ),
{
    match store.repo_history(params.repo.as_str(), HISTORY_PER_WORKFLOW) {
        Ok(workflows) => Ok(HistoryResponse { workflows }),
        Err(_) => Err(INTERNAL_SERVER_ERROR),
    }
}

/// How the sync is going.
pub fn status(sync: &SyncState) -> (r: SyncStatus)
    ensures
        r@ == sync@,
{
    sync.snapshot()
}

/// Muting a repository shows in the very answer: its row says that it is not included, that it is
/// muted, and which override is set. Every other row stays as it was.
pub proof fn muting_shows_in_the_answer(
    before: crate::store::Tables,
    ignore: Seq<Seq<char>>,
    full_name: Seq<char>,
    now: Timestamp,
    rows: Seq<ManagedRepo>,
    other: Seq<char>,
)
    requires
        before.repos.dom().contains(full_name),
        ({
            let set = before.with_override(full_name, Some(Override::Exclude.text()));
            crate::store::is_managed(
                crate::sync::decided(
                    set,
                    full_name,
                    crate::sync::decision_on(set, ignore, full_name, now),
                ),
                rows,
            )
        }),
    ensures
        exists|i: int|
            0 <= i < rows.len() && (#[trigger] rows[i]).full_name@ == full_name
                && !rows[i].included && rows[i]@.skip_reason == Some(SkipReason::Muted.text())
                && rows[i]@.user_override == Some(Override::Exclude.text()),
        other != full_name && before.repos.dom().contains(other) ==> exists|i: int|
            0 <= i < rows.len() && (#[trigger] rows[i])@ == before.managed(other),
{
    let set = before.with_override(full_name, Some(Override::Exclude.text()));
    let after = crate::sync::decided(
        set,
        full_name,
        crate::sync::decision_on(set, ignore, full_name, now),
    );
    crate::sync::laws::an_override_takes_effect_at_once(before, ignore, full_name, now);
    let names = crate::store::managed_names(rows);
    assert(after.repos.dom().contains(full_name));
    assert(names.contains(full_name));
    let i = choose|i: int| 0 <= i < names.len() && names[i] == full_name;
    assert(rows[i].full_name@ == full_name);
    assert(rows[i]@ == after.managed(full_name));
    if other != full_name && before.repos.dom().contains(other) {
        assert(after.repos.dom().contains(other));
        assert(names.contains(other));
        let j = choose|j: int| 0 <= j < names.len() && names[j] == other;
        assert(rows[j].full_name@ == other);
        assert(rows[j]@ == after.managed(other));
        assert(after.repos[other] == before.repos[other]);
    }
}

} // verus!
