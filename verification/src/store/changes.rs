//! What an operation changed, so that only that has to be written.
use vstd::prelude::*;
use vstd::string::*;

use super::{RepoRow, Store, StoredRun};
use crate::text::{optional_eq, text_eq};

verus! {

broadcast use vstd::string::group_string_axioms;

/// The rows to write and the runs to delete.
#[derive(Debug)]
pub struct Changes {
    pub repos: Vec<RepoRow>,
    pub runs: Vec<StoredRun>,
    pub dropped: Vec<i64>,
}

/// A repository is new or has changed.
pub open spec fn repo_changed(
    before: super::Tables,
    after: super::Tables,
    full_name: Seq<char>,
) -> bool {
    &&& after.repos.dom().contains(full_name)
    &&& !(before.repos.dom().contains(full_name) && before.repos[full_name]
        == after.repos[full_name])
}

/// A run is new or has changed.
pub open spec fn run_changed(before: super::Tables, after: super::Tables, id: i64) -> bool {
    &&& after.runs.dom().contains(id)
    &&& !(before.runs.dom().contains(id) && before.runs[id] == after.runs[id])
}

/// The IDs of the runs.
pub open spec fn run_ids(runs: Seq<StoredRun>) -> Seq<i64> {
    runs.map_values(|run: StoredRun| run.id)
}

/// The IDs are in ascending order, and are exactly those in `set`.
pub open spec fn lists_ids(ids: Seq<i64>, set: Set<i64>) -> bool {
    &&& forall|i: int, j: int| 0 <= i < j < ids.len() ==> #[trigger] ids[i] < #[trigger] ids[j]
    &&& forall|id: i64| #[trigger] ids.contains(id) <==> set.contains(id)
}

/// The changes are exactly what differs between the tables `before` and `after`.
pub open spec fn are_changes(before: super::Tables, after: super::Tables, c: Changes) -> bool {
    &&& super::lists(
        super::repo_names(c.repos@),
        Set::new(|n: Seq<char>| repo_changed(before, after, n)),
    )
    &&& forall|i: int|
        0 <= i < c.repos@.len() ==> (#[trigger] c.repos@[i])@
            == after.repos[c.repos@[i].full_name@]
    &&& lists_ids(run_ids(c.runs@), Set::new(|id: i64| run_changed(before, after, id)))
    &&& forall|i: int|
        0 <= i < c.runs@.len() ==> (#[trigger] c.runs@[i])@ == after.runs[c.runs@[i].id]
    &&& lists_ids(
        c.dropped@,
        Set::new(|id: i64| before.runs.dom().contains(id) && !after.runs.dom().contains(id)),
    )
}

/// The tables after the first `k` of these repositories have been written over what was there.
pub open spec fn repos_written(
    repos: Map<Seq<char>, super::RepoRowView>,
    rows: Seq<RepoRow>,
    k: int,
) -> Map<Seq<char>, super::RepoRowView>
    decreases k,
{
    if k <= 0 {
        repos
    } else {
        repos_written(repos, rows, k - 1).insert(rows[k - 1].full_name@, rows[k - 1]@)
    }
}

/// The tables after the first `k` of these runs have been written over what was there.
pub open spec fn runs_written(
    runs: Map<i64, super::RunView>,
    rows: Seq<StoredRun>,
    k: int,
) -> Map<i64, super::RunView>
    decreases k,
{
    if k <= 0 {
        runs
    } else {
        runs_written(runs, rows, k - 1).insert(rows[k - 1].id, rows[k - 1]@)
    }
}

/// The tables after changes have been written.
pub open spec fn written(before: super::Tables, c: Changes) -> super::Tables {
    super::Tables {
        repos: repos_written(before.repos, c.repos@, c.repos@.len() as int),
        runs: runs_written(before.runs, c.runs@, c.runs@.len() as int).remove_keys(
            c.dropped@.to_set(),
        ),
    }
}

fn same_repo(a: &RepoRow, b: &RepoRow) -> (r: bool)
    ensures
        r == (a@ == b@),
{
    text_eq(a.default_branch.as_str(), b.default_branch.as_str()) && optional_eq(&a.etag, &b.etag)
        && a.ignored == b.ignored && optional_eq(&a.user_override, &b.user_override) && a.archived
        == b.archived && optional_eq(&a.pushed_at, &b.pushed_at) && optional_eq(
        &a.skip_reason,
        &b.skip_reason,
    )
}

fn same_run(a: &StoredRun, b: &StoredRun) -> (r: bool)
    ensures
        r == (a@ == b@),
{
    a.id == b.id && text_eq(a.repo_full_name.as_str(), b.repo_full_name.as_str()) && text_eq(
        a.workflow_name.as_str(),
        b.workflow_name.as_str(),
    ) && text_eq(a.branch.as_str(), b.branch.as_str()) && text_eq(
        a.actor.as_str(),
        b.actor.as_str(),
    ) && text_eq(a.status.as_str(), b.status.as_str()) && optional_eq(
        &a.conclusion,
        &b.conclusion,
    ) && text_eq(a.commit_sha.as_str(), b.commit_sha.as_str()) && text_eq(
        a.commit_subject.as_str(),
        b.commit_subject.as_str(),
    ) && text_eq(a.html_url.as_str(), b.html_url.as_str()) && text_eq(
        a.started_at.as_str(),
        b.started_at.as_str(),
    ) && optional_eq(&a.workflow_path, &b.workflow_path)
}

impl Store {
    /// A store of its own with the rows as they are now: later changes of the one do not show in
    /// the other.
    pub fn snapshot(&self) -> (r: Store)
        ensures
            r@ == self@,
            self.wf() ==> r.wf(),
    {
        let mut repos: Vec<RepoRow> = Vec::new();
        let mut i: usize = 0;
        while i < self.repos.len()
            invariant
                i <= self.repos.len(),
                repos@ =~= self.repos@.take(i as int),
            decreases self.repos.len() - i,
        {
            repos.push(self.repos[i].clone());
            i += 1;
        }
        let mut runs: Vec<StoredRun> = Vec::new();
        let mut k: usize = 0;
        while k < self.runs.len()
            invariant
                k <= self.runs.len(),
                runs@ =~= self.runs@.take(k as int),
            decreases self.runs.len() - k,
        {
            runs.push(self.runs[k].clone());
            k += 1;
        }
        assert(repos@ =~= self.repos@);
        assert(runs@ =~= self.runs@);
        Store { repos, runs }
    }

    /// What has changed since `before`.
    pub fn changes_since(&self, before: &Store) -> (r: Changes)
        requires
            self.wf(),
            before.wf(),
        ensures
            are_changes(before@, self@, r),
    {
        Changes {
            repos: self.changed_repos(before),
            runs: self.changed_runs(before),
            dropped: self.dropped_runs(before),
        }
    }

    /// The place of a run, where it is stored.
    fn run_index(&self, id: i64) -> (r: Option<usize>)
        requires
            self.wf(),
        ensures
            r is Some == self@.runs.dom().contains(id),
            r is Some ==> r->0 < self.runs.len() && self.runs@[r->0 as int].id == id
                && self@.runs[id] == self.runs@[r->0 as int]@,
    {
        let i = self.run_slot(id);
        if i < self.runs.len() && self.runs[i].id == id {
            proof {
                super::lemma_run_row(self.repos@, self.runs@, i as int);
            }
            Some(i)
        } else {
            proof {
                if self@.runs.dom().contains(id) {
                    let k = super::lemma_run_key(self.repos@, self.runs@, id);
                }
            }
            None
        }
    }

    fn changed_repos(&self, before: &Store) -> (r: Vec<RepoRow>)
        requires
            self.wf(),
            before.wf(),
        ensures
            super::lists(
                super::repo_names(r@),
                Set::new(|n: Seq<char>| repo_changed(before@, self@, n)),
            ),
            forall|i: int|
                0 <= i < r@.len() ==> (#[trigger] r@[i])@ == self@.repos[r@[i].full_name@],
    {
        let ghost names = super::repo_names(self.repos@);
        let mut out: Vec<RepoRow> = Vec::new();
        let mut i: usize = 0;
        while i < self.repos.len()
            invariant
                self.wf(),
                before.wf(),
                names == super::repo_names(self.repos@),
                i <= self.repos.len(),
                super::ascending(super::repo_names(out@)),
                forall|k: int|
                    0 <= k < out@.len() ==> repo_changed(
                        before@,
                        self@,
                        (#[trigger] out@[k]).full_name@,
                    ) && out@[k]@ == self@.repos[out@[k].full_name@] && (forall|j: int|
                        i <= j < names.len() ==> crate::text::text_lt(
                            out@[k].full_name@,
                            #[trigger] names[j],
                        )),
                forall|j: int|
                    0 <= j < i && repo_changed(before@, self@, #[trigger] names[j])
                        ==> super::repo_names(out@).contains(names[j]),
            decreases self.repos.len() - i,
        {
            let row = &self.repos[i];
            assert(names[i as int] == row.full_name@);
            proof {
                super::lemma_repo_row(self.repos@, self.runs@, i as int);
            }
            let same: bool = match before.repo_index(row.full_name.as_str()) {
                Some(k) => same_repo(&before.repos[k], row),
                None => false,
            };
            assert(same == !repo_changed(before@, self@, names[i as int]));
            if !same {
                let ghost old_names = super::repo_names(out@);
                out.push(row.clone());
                proof {
                    let after = super::repo_names(out@);
                    assert(after =~= old_names.push(row.full_name@));
                    assert forall|a: int, b: int| 0 <= a < b < after.len() implies
                        crate::text::text_lt(#[trigger] after[a], #[trigger] after[b]) by {
                        if b == old_names.len() {
                            assert(after[a] == out@[a].full_name@);
                            assert(crate::text::text_lt(out@[a].full_name@, names[i as int]));
                        } else {
                            assert(after[a] == old_names[a] && after[b] == old_names[b]);
                        }
                    }
                    assert forall|j: int|
                        0 <= j < i + 1 && repo_changed(
                            before@,
                            self@,
                            #[trigger] names[j],
                        ) implies after.contains(names[j]) by {
                        if j < i {
                            let k = choose|k: int|
                                0 <= k < old_names.len() && old_names[k] == names[j];
                            assert(after[k] == names[j]);
                        } else {
                            assert(after[old_names.len() as int] == names[j]);
                        }
                    }
                }
            }
            i += 1;
        }
        proof {
            super::lemma_names(self.repos@);
            let listed = super::repo_names(out@);
            let set = Set::new(|n: Seq<char>| repo_changed(before@, self@, n));
            assert forall|n: Seq<char>| #[trigger] listed.contains(n) <==> set.contains(n) by {
                if listed.contains(n) {
                    let k = choose|k: int| 0 <= k < listed.len() && listed[k] == n;
                    assert(out@[k].full_name@ == n);
                }
                if set.contains(n) {
                    assert(names.contains(n));
                    let j = choose|j: int| 0 <= j < names.len() && names[j] == n;
                    assert(listed.contains(names[j]));
                }
            }
        }
        out
    }

    fn changed_runs(&self, before: &Store) -> (r: Vec<StoredRun>)
        requires
            self.wf(),
            before.wf(),
        ensures
            lists_ids(run_ids(r@), Set::new(|id: i64| run_changed(before@, self@, id))),
            forall|i: int| 0 <= i < r@.len() ==> (#[trigger] r@[i])@ == self@.runs[r@[i].id],
    {
        let ghost runs = self.runs@;
        let mut out: Vec<StoredRun> = Vec::new();
        let mut i: usize = 0;
        while i < self.runs.len()
            invariant
                self.wf(),
                before.wf(),
                runs == self.runs@,
                i <= runs.len(),
                forall|a: int, b: int|
                    0 <= a < b < out@.len() ==> (#[trigger] out@[a]).id < (
                    #[trigger] out@[b]).id,
                forall|k: int|
                    0 <= k < out@.len() ==> run_changed(before@, self@, (#[trigger] out@[k]).id)
                        && out@[k]@ == self@.runs[out@[k].id] && (forall|j: int|
                        i <= j < runs.len() ==> out@[k].id < (#[trigger] runs[j]).id),
                forall|j: int|
                    0 <= j < i && run_changed(before@, self@, (#[trigger] runs[j]).id) ==> run_ids(
                        out@,
                    ).contains(runs[j].id),
            decreases runs.len() - i,
        {
            let run = &self.runs[i];
            proof {
                super::lemma_run_row(self.repos@, self.runs@, i as int);
            }
            let same: bool = match before.run_index(run.id) {
                Some(k) => same_run(&before.runs[k], run),
                None => false,
            };
            assert(same == !run_changed(before@, self@, runs[i as int].id));
            if !same {
                let ghost old_ids = run_ids(out@);
                out.push(run.clone());
                proof {
                    let after = run_ids(out@);
                    assert(after =~= old_ids.push(run.id));
                    assert forall|j: int|
                        0 <= j < i + 1 && run_changed(
                            before@,
                            self@,
                            (#[trigger] runs[j]).id,
                        ) implies after.contains(runs[j].id) by {
                        if j < i {
                            let k = choose|k: int|
                                0 <= k < old_ids.len() && old_ids[k] == runs[j].id;
                            assert(after[k] == runs[j].id);
                        } else {
                            assert(after[old_ids.len() as int] == runs[j].id);
                        }
                    }
                }
            }
            i += 1;
        }
        proof {
            let listed = run_ids(out@);
            let set = Set::new(|id: i64| run_changed(before@, self@, id));
            assert forall|a: int, b: int| 0 <= a < b < listed.len() implies #[trigger] listed[a]
                < #[trigger] listed[b] by {
                assert(listed[a] == out@[a].id && listed[b] == out@[b].id);
            }
            assert forall|id: i64| #[trigger] listed.contains(id) <==> set.contains(id) by {
                if listed.contains(id) {
                    let k = choose|k: int| 0 <= k < listed.len() && listed[k] == id;
                    assert(out@[k].id == id);
                }
                if set.contains(id) {
                    let j = super::lemma_run_key(self.repos@, self.runs@, id);
                    assert(listed.contains(runs[j].id));
                }
            }
        }
        out
    }

    fn dropped_runs(&self, before: &Store) -> (r: Vec<i64>)
        requires
            self.wf(),
            before.wf(),
        ensures
            lists_ids(
                r@,
                Set::new(
                    |id: i64|
                        before@.runs.dom().contains(id) && !self@.runs.dom().contains(id),
                ),
            ),
    {
        let ghost runs = before.runs@;
        let mut out: Vec<i64> = Vec::new();
        let mut i: usize = 0;
        while i < before.runs.len()
            invariant
                self.wf(),
                before.wf(),
                runs == before.runs@,
                i <= runs.len(),
                forall|a: int, b: int|
                    0 <= a < b < out@.len() ==> #[trigger] out@[a] < #[trigger] out@[b],
                forall|k: int|
                    0 <= k < out@.len() ==> before@.runs.dom().contains(#[trigger] out@[k])
                        && !self@.runs.dom().contains(out@[k]) && (forall|j: int|
                        i <= j < runs.len() ==> out@[k] < (#[trigger] runs[j]).id),
                forall|j: int|
                    0 <= j < i && !self@.runs.dom().contains((#[trigger] runs[j]).id)
                        ==> out@.contains(runs[j].id),
            decreases runs.len() - i,
        {
            let id = before.runs[i].id;
            proof {
                super::lemma_run_row(before.repos@, before.runs@, i as int);
            }
            if self.run_index(id).is_none() {
                let ghost old_ids = out@;
                out.push(id);
                proof {
                    assert forall|j: int|
                        0 <= j < i + 1 && !self@.runs.dom().contains(
                            (#[trigger] runs[j]).id,
                        ) implies out@.contains(runs[j].id) by {
                        if j < i {
                            let k = choose|k: int|
                                0 <= k < old_ids.len() && old_ids[k] == runs[j].id;
                            assert(out@[k] == runs[j].id);
                        } else {
                            assert(out@[old_ids.len() as int] == runs[j].id);
                        }
                    }
                }
            }
            i += 1;
        }
        proof {
            let set = Set::new(
                |id: i64| before@.runs.dom().contains(id) && !self@.runs.dom().contains(id),
            );
            assert forall|id: i64| #[trigger] out@.contains(id) <==> set.contains(id) by {
                if out@.contains(id) {
                    let k = choose|k: int| 0 <= k < out@.len() && out@[k] == id;
                    assert(before@.runs.dom().contains(out@[k]));
                }
                if set.contains(id) {
                    let j = super::lemma_run_key(before.repos@, before.runs@, id);
                    assert(out@.contains(runs[j].id));
                }
            }
        }
        out
    }
}

proof fn lemma_repos_written(
    repos: Map<Seq<char>, super::RepoRowView>,
    rows: Seq<RepoRow>,
    k: int,
    n: Seq<char>,
)
    requires
        super::ascending(super::repo_names(rows)),
        0 <= k <= rows.len(),
    ensures
        ({
            let after = repos_written(repos, rows, k);
            &&& after.dom().contains(n) <==> repos.dom().contains(n) || super::repo_names(
                rows,
            ).take(k).contains(n)
            &&& forall|i: int|
                0 <= i < k && (#[trigger] rows[i]).full_name@ == n ==> after[n] == rows[i]@
            &&& !super::repo_names(rows).take(k).contains(n) ==> after[n] == repos[n]
        }),
    decreases k,
{
    let names = super::repo_names(rows);
    if k > 0 {
        lemma_repos_written(repos, rows, k - 1, n);
        assert(names[k - 1] == rows[k - 1].full_name@);
        assert(names.take(k) =~= names.take(k - 1).push(names[k - 1]));
        if names.take(k - 1).contains(n) {
            let earlier = names.take(k - 1);
            let i = choose|i: int| 0 <= i < earlier.len() && earlier[i] == n;
            assert(names.take(k)[i] == n);
            assert(names[i] == n);
            assert(crate::text::text_lt(names[i], names[k - 1]));
            crate::text::lemma_text_lt_irreflexive(n);
        }
        if names.take(k).contains(n) && n != names[k - 1] {
            let seen = names.take(k);
            let i = choose|i: int| 0 <= i < seen.len() && seen[i] == n;
            assert(names.take(k - 1)[i] == n);
        }
        assert(names.take(k)[k - 1] == names[k - 1]);
        assert forall|i: int| 0 <= i < k && (#[trigger] rows[i]).full_name@ == n implies
            repos_written(repos, rows, k)[n] == rows[i]@ by {
            assert(names[i] == n);
            if i < k - 1 && n == names[k - 1] {
                assert(crate::text::text_lt(names[i], names[k - 1]));
                crate::text::lemma_text_lt_irreflexive(n);
            }
        }
    }
}

proof fn lemma_runs_written(
    runs: Map<i64, super::RunView>,
    rows: Seq<StoredRun>,
    k: int,
    id: i64,
)
    requires
        forall|i: int, j: int|
            0 <= i < j < rows.len() ==> #[trigger] run_ids(rows)[i] < #[trigger] run_ids(rows)[j],
        0 <= k <= rows.len(),
    ensures
        ({
            let after = runs_written(runs, rows, k);
            &&& after.dom().contains(id) <==> runs.dom().contains(id) || run_ids(rows).take(
                k,
            ).contains(id)
            &&& forall|i: int| 0 <= i < k && (#[trigger] rows[i]).id == id ==> after[id] == rows[i]@
            &&& !run_ids(rows).take(k).contains(id) ==> after[id] == runs[id]
        }),
    decreases k,
{
    let ids = run_ids(rows);
    if k > 0 {
        lemma_runs_written(runs, rows, k - 1, id);
        assert(ids[k - 1] == rows[k - 1].id);
        assert(ids.take(k) =~= ids.take(k - 1).push(ids[k - 1]));
        if ids.take(k - 1).contains(id) {
            let earlier = ids.take(k - 1);
            let i = choose|i: int| 0 <= i < earlier.len() && earlier[i] == id;
            assert(ids.take(k)[i] == id);
            assert(ids[i] == id);
            assert(ids[i] < ids[k - 1]);
        }
        if ids.take(k).contains(id) && id != ids[k - 1] {
            let seen = ids.take(k);
            let i = choose|i: int| 0 <= i < seen.len() && seen[i] == id;
            assert(ids.take(k - 1)[i] == id);
        }
        assert(ids.take(k)[k - 1] == ids[k - 1]);
        assert forall|i: int| 0 <= i < k && (#[trigger] rows[i]).id == id implies runs_written(
            runs,
            rows,
            k,
        )[id] == rows[i]@ by {
            assert(ids[i] == id);
            if i < k - 1 && id == ids[k - 1] {
                assert(ids[i] < ids[k - 1]);
            }
        }
    }
}

/// What is written is what is read back: writing the changes over the tables that they were taken
/// from gives the tables that they were taken to. No repository is ever deleted, so there is
/// nothing to write for one that is gone.
pub proof fn writing_the_changes_gives_the_new_tables(
    before: super::Tables,
    after: super::Tables,
    c: Changes,
)
    requires
        are_changes(before, after, c),
        before.repos.dom().subset_of(after.repos.dom()),
    ensures
        written(before, c) == after,
{
    let w = written(before, c);
    let names = super::repo_names(c.repos@);
    let n_repos = c.repos@.len() as int;
    let n_runs = c.runs@.len() as int;
    assert(names.take(n_repos) =~= names);
    assert forall|n: Seq<char>|
        #![trigger w.repos.dom().contains(n)]
        (w.repos.dom().contains(n) <==> after.repos.dom().contains(n)) && (
        after.repos.dom().contains(n) ==> w.repos[n] == after.repos[n]) by {
        lemma_repos_written(before.repos, c.repos@, n_repos, n);
        if names.contains(n) {
            let i = choose|i: int| 0 <= i < names.len() && names[i] == n;
            assert(c.repos@[i].full_name@ == n);
        }
    }
    assert(w.repos =~= after.repos);
    let ids = run_ids(c.runs@);
    assert(ids.take(n_runs) =~= ids);
    assert forall|id: i64|
        #![trigger w.runs.dom().contains(id)]
        (w.runs.dom().contains(id) <==> after.runs.dom().contains(id)) && (
        after.runs.dom().contains(id) ==> w.runs[id] == after.runs[id]) by {
        lemma_runs_written(before.runs, c.runs@, n_runs, id);
        if ids.contains(id) {
            let i = choose|i: int| 0 <= i < ids.len() && ids[i] == id;
            assert(c.runs@[i].id == id);
        }
        assert(c.dropped@.to_set().contains(id) == c.dropped@.contains(id));
    }
    assert(w.runs =~= after.runs);
}

} // verus!
