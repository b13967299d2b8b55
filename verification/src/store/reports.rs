//! What the dashboard shows of the store: the recent runs of one repository, and one row for each
//! repository.
use vstd::prelude::*;
use vstd::string::*;

use super::{Health, RepoSummary, Store, StoreError, StoredRun, WorkflowHistory, WorkflowSummary};
use crate::text::{copied, text_before, text_eq};

verus! {

broadcast use vstd::string::group_string_axioms;

/// Run `a` is newer than run `b`: it started later, or at the same time with a larger ID.
pub open spec fn newer(a: super::RunView, b: super::RunView) -> bool {
    ||| crate::text::text_lt(b.started_at, a.started_at)
    ||| a.started_at == b.started_at && a.id > b.id
}

/// Run `a` is listed before run `b`: by the names of their workflows, then newest first.
pub open spec fn listed_before(a: super::RunView, b: super::RunView) -> bool {
    ||| crate::text::text_lt(a.workflow_name, b.workflow_name)
    ||| a.workflow_name == b.workflow_name && newer(a, b)
}

proof fn lemma_newer_asymmetric(a: super::RunView, b: super::RunView)
    requires
        newer(a, b),
    ensures
        !newer(b, a),
{
    crate::text::lemma_text_lt_irreflexive(a.started_at);
    crate::text::lemma_text_lt_irreflexive(b.started_at);
    if crate::text::text_lt(b.started_at, a.started_at) && crate::text::text_lt(
        a.started_at,
        b.started_at,
    ) {
        crate::text::lemma_text_lt_transitive(a.started_at, b.started_at, a.started_at);
    }
}

proof fn lemma_newer_transitive(a: super::RunView, b: super::RunView, c: super::RunView)
    requires
        newer(a, b),
        newer(b, c),
    ensures
        newer(a, c),
{
    if crate::text::text_lt(b.started_at, a.started_at) && crate::text::text_lt(
        c.started_at,
        b.started_at,
    ) {
        crate::text::lemma_text_lt_transitive(c.started_at, b.started_at, a.started_at);
    }
}

proof fn lemma_listed_transitive(a: super::RunView, b: super::RunView, c: super::RunView)
    requires
        listed_before(a, b),
        listed_before(b, c),
    ensures
        listed_before(a, c),
{
    if crate::text::text_lt(a.workflow_name, b.workflow_name) && crate::text::text_lt(
        b.workflow_name,
        c.workflow_name,
    ) {
        crate::text::lemma_text_lt_transitive(a.workflow_name, b.workflow_name, c.workflow_name);
    }
    if newer(a, b) && newer(b, c) {
        lemma_newer_transitive(a, b, c);
    }
}

proof fn lemma_listed_total(a: super::RunView, b: super::RunView)
    requires
        a.id != b.id,
    ensures
        listed_before(a, b) || listed_before(b, a),
{
    crate::text::lemma_text_lt_total(a.workflow_name, b.workflow_name);
    crate::text::lemma_text_lt_total(a.started_at, b.started_at);
}

fn is_listed_before(a: &StoredRun, b: &StoredRun) -> (r: bool)
    ensures
        r == listed_before(a@, b@),
{
    if text_before(a.workflow_name.as_str(), b.workflow_name.as_str()) {
        return true;
    }
    if !text_eq(a.workflow_name.as_str(), b.workflow_name.as_str()) {
        return false;
    }
    if text_before(b.started_at.as_str(), a.started_at.as_str()) {
        return true;
    }
    text_eq(a.started_at.as_str(), b.started_at.as_str()) && a.id > b.id
}

/// The runs at these places.
spec fn at_places(runs: Seq<StoredRun>, places: Seq<usize>) -> Seq<super::RunView> {
    places.map_values(|p: usize| runs[p as int]@)
}

/// The runs are in the order in which they are listed.
spec fn in_listed_order(runs: Seq<super::RunView>) -> bool {
    forall|i: int, j: int|
        0 <= i < j < runs.len() ==> listed_before(#[trigger] runs[i], #[trigger] runs[j])
}

impl Store {
    /// The places of the runs of a repository, in the order in which they are listed.
    fn listed_runs(&self, full_name: &str) -> (r: Vec<usize>)
        requires
            self.wf(),
        ensures
            forall|k: int|
                0 <= k < r@.len() ==> (#[trigger] r@[k]) < self.runs@.len()
                    && self.runs@[r@[k] as int].repo_full_name@ == full_name@,
            in_listed_order(at_places(self.runs@, r@)),
            forall|i: int|
                0 <= i < self.runs@.len() && (#[trigger] self.runs@[i]).repo_full_name@
                    == full_name@ ==> r@.contains(i as usize),
    {
        let ghost runs = self.runs@;
        let mut places: Vec<usize> = Vec::new();
        let mut i: usize = 0;
        while i < self.runs.len()
            invariant
                self.runs@ == runs,
                forall|a: int, b: int|
                    0 <= a < b < runs.len() ==> (#[trigger] runs[a]).id < (#[trigger] runs[b]).id,
                i <= runs.len(),
                forall|k: int|
                    0 <= k < places@.len() ==> (#[trigger] places@[k]) < i
                        && runs[places@[k] as int].repo_full_name@ == full_name@,
                in_listed_order(at_places(runs, places@)),
                forall|j: int|
                    0 <= j < i && (#[trigger] runs[j]).repo_full_name@ == full_name@
                        ==> places@.contains(j as usize),
            decreases runs.len() - i,
        {
            if text_eq(self.runs[i].repo_full_name.as_str(), full_name) {
                let ghost old_places = places@;
                let ghost views = at_places(runs, places@);
                let ghost x = runs[i as int]@;
                let mut p: usize = 0;
                while p < places.len() && is_listed_before(&self.runs[places[p]], &self.runs[i])
                    invariant
                        self.runs@ == runs,
                        i < runs.len(),
                        p <= places.len(),
                        places@ == old_places,
                        views == at_places(runs, places@),
                        x == runs[i as int]@,
                        forall|k: int| 0 <= k < places@.len() ==> (#[trigger] places@[k]) < i,
                        forall|k: int| 0 <= k < p ==> listed_before(#[trigger] views[k], x),
                    decreases places.len() - p,
                {
                    assert(views[p as int] == runs[places@[p as int] as int]@);
                    p += 1;
                }
                places.insert(p, i);
                proof {
                    let after = at_places(runs, places@);
                    assert(after =~= views.insert(p as int, x));
                    if p < views.len() {
                        assert(views[p as int] == runs[old_places[p as int] as int]@);
                        assert(runs[old_places[p as int] as int].id < runs[i as int].id);
                        lemma_listed_total(views[p as int], x);
                    }
                    assert forall|k: int| p <= k < views.len() implies listed_before(
                        x,
                        #[trigger] views[k],
                    ) by {
                        if k > p {
                            assert(listed_before(views[p as int], views[k]));
                            lemma_listed_transitive(x, views[p as int], views[k]);
                        }
                    }
                    assert forall|a: int, b: int| 0 <= a < b < after.len() implies listed_before(
                        #[trigger] after[a],
                        #[trigger] after[b],
                    ) by {
                        let a0 = if a < p {
                            a
                        } else {
                            a - 1
                        };
                        let b0 = if b < p {
                            b
                        } else {
                            b - 1
                        };
                        if a != p {
                            assert(after[a] == views[a0]);
                        }
                        if b != p {
                            assert(after[b] == views[b0]);
                        }
                    }
                    assert forall|k: int| 0 <= k < places@.len() implies (#[trigger] places@[k]) < i
                        + 1 && runs[places@[k] as int].repo_full_name@ == full_name@ by {
                        let k0 = if k < p {
                            k
                        } else {
                            k - 1
                        };
                        if k != p {
                            assert(places@[k] == old_places[k0]);
                        }
                    }
                    assert forall|j: int|
                        0 <= j < i + 1 && (#[trigger] runs[j]).repo_full_name@
                            == full_name@ implies places@.contains(j as usize) by {
                        if j < i {
                            let k = choose|k: int|
                                0 <= k < old_places.len() && old_places[k] == j as usize;
                            let k1 = if k < p {
                                k
                            } else {
                                k + 1
                            };
                            assert(places@[k1] == j as usize);
                        } else {
                            assert(places@[p as int] == j as usize);
                        }
                    }
                }
            }
            i += 1;
        }
        places
    }
}

/// The names of the workflows.
pub open spec fn history_names(h: Seq<super::WorkflowHistoryView>) -> Seq<Seq<char>> {
    h.map_values(|g: super::WorkflowHistoryView| g.workflow_name)
}

/// A strip of at least one and at most `n` runs of one workflow, newest first.
pub open spec fn is_strip(g: super::WorkflowHistoryView, n: int) -> bool {
    &&& 1 <= g.runs.len() <= n
    &&& forall|i: int|
        0 <= i < g.runs.len() ==> (#[trigger] g.runs[i]).workflow_name == g.workflow_name
    &&& forall|i: int, j: int|
        0 <= i < j < g.runs.len() ==> newer(#[trigger] g.runs[i], #[trigger] g.runs[j])
}

/// A run is on the strip of its workflow, or `n` newer runs are.
pub open spec fn accounts_for(g: super::WorkflowHistoryView, n: int, run: super::RunView) -> bool {
    &&& g.workflow_name == run.workflow_name
    &&& g.runs.contains(run) || (g.runs.len() == n && forall|i: int|
        0 <= i < g.runs.len() ==> newer(#[trigger] g.runs[i], run))
}

/// Some strip accounts for a run.
pub open spec fn accounted(
    h: Seq<super::WorkflowHistoryView>,
    n: int,
    run: super::RunView,
) -> bool {
    exists|g: int| 0 <= g < h.len() && accounts_for(#[trigger] h[g], n, run)
}

/// A run of the repository as stored.
pub open spec fn is_run_of(
    tables: super::Tables,
    full_name: Seq<char>,
    run: super::RunView,
) -> bool {
    &&& tables.runs.dom().contains(run.id)
    &&& tables.runs[run.id] == run
    &&& run.repo_full_name == full_name
}

/// The history of a repository: the strips of its workflows in the order of their names, with the
/// `n` newest runs of each. That of a repository that is ignored or unknown is empty.
pub open spec fn is_history(
    tables: super::Tables,
    full_name: Seq<char>,
    n: int,
    h: Seq<super::WorkflowHistoryView>,
) -> bool {
    if !tables.visible(full_name) || n <= 0 {
        h.len() == 0
    } else {
        &&& super::ascending(history_names(h))
        &&& forall|g: int| 0 <= g < h.len() ==> is_strip(#[trigger] h[g], n)
        &&& forall|g: int, i: int|
            0 <= g < h.len() && 0 <= i < h[g].runs.len() ==> is_run_of(
                tables,
                full_name,
                #[trigger] h[g].runs[i],
            )
        &&& forall|run: super::RunView| #[trigger]
            is_run_of(tables, full_name, run) ==> accounted(h, n, run)
    }
}

/// The strips of the first `k` of these runs.
spec fn strips(
    runs: Seq<super::RunView>,
    k: int,
    n: int,
    h: Seq<super::WorkflowHistoryView>,
) -> bool {
    &&& 0 <= k <= runs.len()
    &&& super::ascending(history_names(h))
    &&& forall|g: int| 0 <= g < h.len() ==> is_strip(#[trigger] h[g], n)
    &&& forall|g: int, i: int|
        0 <= g < h.len() && 0 <= i < h[g].runs.len() ==> runs.take(k).contains(
            #[trigger] h[g].runs[i],
        )
    &&& forall|j: int| 0 <= j < k ==> accounted(h, n, #[trigger] runs[j])
    &&& k > 0 ==> h.len() > 0 && h.last().workflow_name == runs[k - 1].workflow_name
    &&& k == 0 ==> h.len() == 0
}

proof fn lemma_contained_before(
    runs: Seq<super::RunView>,
    k: int,
    x: super::RunView,
)
    requires
        in_listed_order(runs),
        0 <= k < runs.len(),
        runs.take(k).contains(x),
    ensures
        listed_before(x, runs[k]),
        runs.take(k + 1).contains(x),
{
    let j = choose|j: int| 0 <= j < k && runs.take(k)[j] == x;
    assert(runs[j] == x);
    assert(runs.take(k + 1)[j] == x);
}

/// The next run goes to the end of the last strip.
proof fn lemma_strip_extended(
    runs: Seq<super::RunView>,
    k: int,
    n: int,
    h: Seq<super::WorkflowHistoryView>,
)
    requires
        in_listed_order(runs),
        0 <= k < runs.len(),
        strips(runs, k, n, h),
        h.len() > 0,
        h.last().workflow_name == runs[k].workflow_name,
        h.last().runs.len() < n,
    ensures
        strips(
            runs,
            k + 1,
            n,
            h.update(
                h.len() - 1,
                super::WorkflowHistoryView {
                    workflow_name: h.last().workflow_name,
                    runs: h.last().runs.push(runs[k]),
                },
            ),
        ),
{
    let x = runs[k];
    let last = h.len() - 1;
    let old_strip = h[last];
    let strip = super::WorkflowHistoryView {
        workflow_name: old_strip.workflow_name,
        runs: old_strip.runs.push(x),
    };
    let new = h.update(last, strip);
    assert(history_names(new) =~= history_names(h));
    assert(is_strip(old_strip, n));
    assert forall|i: int| 0 <= i < old_strip.runs.len() implies newer(
        #[trigger] old_strip.runs[i],
        x,
    ) by {
        assert(runs.take(k).contains(h[last].runs[i]));
        lemma_contained_before(runs, k, old_strip.runs[i]);
        crate::text::lemma_text_lt_irreflexive(x.workflow_name);
    }
    assert(is_strip(strip, n)) by {
        assert forall|i: int, j: int| 0 <= i < j < strip.runs.len() implies newer(
            #[trigger] strip.runs[i],
            #[trigger] strip.runs[j],
        ) by {
            if j < old_strip.runs.len() {
                assert(strip.runs[i] == old_strip.runs[i] && strip.runs[j] == old_strip.runs[j]);
            } else {
                assert(strip.runs[i] == old_strip.runs[i]);
            }
        }
        assert forall|i: int| 0 <= i < strip.runs.len() implies (
        #[trigger] strip.runs[i]).workflow_name == strip.workflow_name by {
            if i < old_strip.runs.len() {
                assert(strip.runs[i] == old_strip.runs[i]);
            }
        }
    }
    assert forall|g: int| 0 <= g < new.len() implies is_strip(#[trigger] new[g], n) by {
        if g < last {
            assert(new[g] == h[g]);
        }
    }
    assert(runs.take(k + 1)[k] == x);
    assert forall|g: int, i: int|
        0 <= g < new.len() && 0 <= i < new[g].runs.len() implies runs.take(k + 1).contains(
        #[trigger] new[g].runs[i],
    ) by {
        if g < last {
            assert(new[g] == h[g]);
            assert(runs.take(k).contains(h[g].runs[i]));
            lemma_contained_before(runs, k, h[g].runs[i]);
        } else if i < old_strip.runs.len() {
            assert(new[g].runs[i] == h[last].runs[i]);
            assert(runs.take(k).contains(h[last].runs[i]));
            lemma_contained_before(runs, k, h[last].runs[i]);
        }
    }
    assert forall|j: int| 0 <= j < k + 1 implies accounted(new, n, #[trigger] runs[j]) by {
        if j < k {
            assert(accounted(h, n, runs[j]));
            let g = choose|g: int| 0 <= g < h.len() && accounts_for(#[trigger] h[g], n, runs[j]);
            if g < last {
                assert(new[g] == h[g]);
            } else {
                let i = choose|i: int|
                    0 <= i < old_strip.runs.len() && old_strip.runs[i] == runs[j];
                assert(strip.runs[i] == runs[j]);
                assert(accounts_for(new[last], n, runs[j]));
            }
        } else {
            assert(strip.runs[old_strip.runs.len() as int] == x);
            assert(accounts_for(new[last], n, x));
        }
    }
}

/// The last strip is full: the next run is left out.
proof fn lemma_strip_full(
    runs: Seq<super::RunView>,
    k: int,
    n: int,
    h: Seq<super::WorkflowHistoryView>,
)
    requires
        in_listed_order(runs),
        0 <= k < runs.len(),
        strips(runs, k, n, h),
        h.len() > 0,
        h.last().workflow_name == runs[k].workflow_name,
        h.last().runs.len() == n,
    ensures
        strips(runs, k + 1, n, h),
{
    let x = runs[k];
    let last = h.len() - 1;
    assert forall|i: int| 0 <= i < h[last].runs.len() implies newer(
        #[trigger] h[last].runs[i],
        x,
    ) by {
        assert(runs.take(k).contains(h[last].runs[i]));
        lemma_contained_before(runs, k, h[last].runs[i]);
        assert(is_strip(h[last], n));
        crate::text::lemma_text_lt_irreflexive(x.workflow_name);
    }
    assert(accounts_for(h[last], n, x));
    assert forall|g: int, i: int|
        0 <= g < h.len() && 0 <= i < h[g].runs.len() implies runs.take(k + 1).contains(
        #[trigger] h[g].runs[i],
    ) by {
        assert(runs.take(k).contains(h[g].runs[i]));
        lemma_contained_before(runs, k, h[g].runs[i]);
    }
}

/// The next run starts a strip of its own.
proof fn lemma_strip_added(
    runs: Seq<super::RunView>,
    k: int,
    n: int,
    h: Seq<super::WorkflowHistoryView>,
)
    requires
        in_listed_order(runs),
        0 <= k < runs.len(),
        n > 0,
        strips(runs, k, n, h),
        k > 0 ==> h.last().workflow_name != runs[k].workflow_name,
    ensures
        strips(
            runs,
            k + 1,
            n,
            h.push(
                super::WorkflowHistoryView {
                    workflow_name: runs[k].workflow_name,
                    runs: seq![runs[k]],
                },
            ),
        ),
{
    let x = runs[k];
    let strip = super::WorkflowHistoryView { workflow_name: x.workflow_name, runs: seq![x] };
    let new = h.push(strip);
    let names = history_names(new);
    assert(is_strip(strip, n));
    assert forall|a: int, b: int| 0 <= a < b < names.len() implies crate::text::text_lt(
        #[trigger] names[a],
        #[trigger] names[b],
    ) by {
        assert(names[a] == history_names(h)[a]);
        if b < h.len() {
            assert(names[b] == history_names(h)[b]);
        } else {
            assert(listed_before(runs[k - 1], x));
            assert(crate::text::text_lt(h.last().workflow_name, x.workflow_name));
            if a < h.len() - 1 {
                assert(crate::text::text_lt(history_names(h)[a], history_names(h)[h.len() - 1]));
                crate::text::lemma_text_lt_transitive(
                    names[a],
                    h.last().workflow_name,
                    x.workflow_name,
                );
            }
        }
    }
    assert forall|g: int| 0 <= g < new.len() implies is_strip(#[trigger] new[g], n) by {
        if g < h.len() {
            assert(new[g] == h[g]);
        }
    }
    assert(runs.take(k + 1)[k] == x);
    assert forall|g: int, i: int|
        0 <= g < new.len() && 0 <= i < new[g].runs.len() implies runs.take(k + 1).contains(
        #[trigger] new[g].runs[i],
    ) by {
        if g < h.len() {
            assert(new[g] == h[g]);
            assert(runs.take(k).contains(h[g].runs[i]));
            lemma_contained_before(runs, k, h[g].runs[i]);
        }
    }
    assert forall|j: int| 0 <= j < k + 1 implies accounted(new, n, #[trigger] runs[j]) by {
        if j < k {
            assert(accounted(h, n, runs[j]));
            let g = choose|g: int| 0 <= g < h.len() && accounts_for(#[trigger] h[g], n, runs[j]);
            assert(new[g] == h[g]);
        } else {
            assert(strip.runs[0] == x);
            assert(accounts_for(new[h.len() as int], n, x));
        }
    }
}

/// The mathematical form of a history.
pub open spec fn history_views(h: Seq<WorkflowHistory>) -> Seq<super::WorkflowHistoryView> {
    h.map_values(|g: WorkflowHistory| g@)
}

impl Store {
    /// Recent runs for one repository, grouped by workflow, newest first within
    /// each group and capped at `per_workflow` each.
    pub fn repo_history(&self, full_name: &str, per_workflow: usize) -> (r: Result<
        Vec<WorkflowHistory>,
        StoreError,
    >)
        requires
            self.wf(),
        ensures
            r is Ok,
            is_history(self@, full_name@, per_workflow as int, history_views(r->Ok_0@)),
    {
        let mut out: Vec<WorkflowHistory> = Vec::new();
        match self.repo_index(full_name) {
            Some(i) => {
                if self.repos[i].ignored || per_workflow == 0 {
                    return Ok(out);
                }
            },
            None => {
                return Ok(out);
            },
        }
        let places = self.listed_runs(full_name);
        let ghost listed = at_places(self.runs@, places@);
        let ghost n = per_workflow as int;
        let mut k: usize = 0;
        while k < places.len()
            invariant
                k <= places.len(),
                per_workflow > 0,
                n == per_workflow,
                forall|j: int| 0 <= j < places@.len() ==> (#[trigger] places@[j]) < self.runs@.len(),
                listed == at_places(self.runs@, places@),
                in_listed_order(listed),
                strips(listed, k as int, n, history_views(out@)),
            decreases places.len() - k,
        {
            let ghost before = history_views(out@);
            let run = &self.runs[places[k]];
            assert(listed[k as int] == run@);
            let count = out.len();
            let fits: bool = count > 0 && text_eq(
                out[count - 1].workflow_name.as_str(),
                run.workflow_name.as_str(),
            );
            if count > 0 {
                assert(before.last() == out@[count - 1]@);
            }
            if fits {
                if out[count - 1].runs.len() < per_workflow {
                    let ghost strip = out@[count - 1];
                    out[count - 1].runs.push(run.clone());
                    proof {
                        lemma_strip_extended(listed, k as int, n, before);
                        assert(out@[count - 1]@.runs =~= strip@.runs.push(run@));
                        assert(history_views(out@) =~= before.update(
                            count - 1,
                            out@[count - 1]@,
                        ));
                    }
                } else {
                    proof {
                        assert(is_strip(before[count - 1], n));
                        lemma_strip_full(listed, k as int, n, before);
                    }
                }
            } else {
                let mut runs: Vec<StoredRun> = Vec::new();
                runs.push(run.clone());
                let strip = WorkflowHistory { workflow_name: run.workflow_name.clone(), runs };
                proof {
                    lemma_strip_added(listed, k as int, n, before);
                    assert(strip@.runs =~= seq![run@]);
                    assert(history_views(out@.push(strip)) =~= before.push(strip@));
                }
                out.push(strip);
            }
            k += 1;
        }
        proof {
            let h = history_views(out@);
            assert forall|g: int, i: int|
                0 <= g < h.len() && 0 <= i < h[g].runs.len() implies is_run_of(
                self@,
                full_name@,
                #[trigger] h[g].runs[i],
            ) by {
                assert(listed.take(k as int).contains(h[g].runs[i]));
                let j = choose|j: int| 0 <= j < k && listed.take(k as int)[j] == h[g].runs[i];
                assert(listed[j] == self.runs@[places@[j] as int]@);
                super::lemma_run_row(self.repos@, self.runs@, places@[j] as int);
            }
            assert forall|run: super::RunView| #[trigger]
                is_run_of(self@, full_name@, run) implies accounted(h, n, run) by {
                let i = super::lemma_run_key(self.repos@, self.runs@, run.id);
                assert(i < self.runs.len());
                assert(places@.contains(i as usize));
                let j = choose|j: int| 0 <= j < places@.len() && places@[j] == i as usize;
                assert(listed[j] == run);
                assert(accounted(h, n, listed[j]));
            }
        }
        Ok(out)
    }
}

/// The newest of the runs of its workflow.
pub open spec fn is_latest(
    tables: super::Tables,
    full_name: Seq<char>,
    run: super::RunView,
) -> bool {
    &&& is_run_of(tables, full_name, run)
    &&& forall|other: super::RunView| #[trigger]
        is_run_of(tables, full_name, other) && other.workflow_name == run.workflow_name ==> other
            == run || newer(run, other)
}

/// How bad the state of a run is.
pub open spec fn run_health(run: super::RunView) -> Health {
    Health::of_run(run.status, run.conclusion)
}

/// A workflow as its latest run shows it.
pub open spec fn summary_of(run: super::RunView) -> super::WorkflowSummaryView {
    super::WorkflowSummaryView {
        workflow_name: run.workflow_name,
        workflow_path: run.workflow_path,
        health: run_health(run),
        branch: run.branch,
        commit_subject: run.commit_subject,
        html_url: run.html_url,
        started_at: run.started_at,
    }
}

/// The names of the workflows.
pub open spec fn workflow_names(workflows: Seq<super::WorkflowSummaryView>) -> Seq<Seq<char>> {
    workflows.map_values(|w: super::WorkflowSummaryView| w.workflow_name)
}

/// The worst state of the workflows.
pub open spec fn is_worst(health: Health, workflows: Seq<super::WorkflowSummaryView>) -> bool {
    &&& exists|w: int| 0 <= w < workflows.len() && (#[trigger] workflows[w]).health == health
    &&& forall|w: int|
        0 <= w < workflows.len() ==> (#[trigger] workflows[w]).health.rank() <= health.rank()
}

/// The newest start among the workflows.
pub open spec fn is_newest(
    started_at: Seq<char>,
    workflows: Seq<super::WorkflowSummaryView>,
) -> bool {
    &&& exists|w: int|
        0 <= w < workflows.len() && (#[trigger] workflows[w]).started_at == started_at
    &&& forall|w: int|
        0 <= w < workflows.len() ==> crate::text::text_le(
            (#[trigger] workflows[w]).started_at,
            started_at,
        )
}

/// The row of a repository: the latest run of each of its workflows in the order of their names,
/// the worst state of these, and the newest start.
pub open spec fn is_repo_summary(tables: super::Tables, s: super::RepoSummaryView) -> bool {
    &&& tables.visible(s.full_name)
    &&& super::ascending(workflow_names(s.workflows))
    &&& forall|w: int|
        0 <= w < s.workflows.len() ==> (exists|run: super::RunView| #[trigger]
            is_latest(tables, s.full_name, run) && (#[trigger] s.workflows[w]) == summary_of(run))
    &&& forall|run: super::RunView| #[trigger]
        is_run_of(tables, s.full_name, run) ==> workflow_names(s.workflows).contains(
            run.workflow_name,
        )
    &&& is_worst(s.health, s.workflows)
    &&& is_newest(s.started_at, s.workflows)
}

/// Row `a` is shown above row `b`: newest activity first, the names as the tie-break.
pub open spec fn shown_above(a: super::RepoSummaryView, b: super::RepoSummaryView) -> bool {
    ||| crate::text::text_lt(b.started_at, a.started_at)
    ||| a.started_at == b.started_at && crate::text::text_lt(a.full_name, b.full_name)
}

/// A repository has a row: it is visible and has a run or, where only failures are asked for, a
/// workflow whose latest run failed.
pub open spec fn has_summary(
    tables: super::Tables,
    failures_only: bool,
    full_name: Seq<char>,
) -> bool {
    &&& tables.visible(full_name)
    &&& if failures_only {
        exists|run: super::RunView| #[trigger]
            is_latest(tables, full_name, run) && run_health(run) == Health::Failure
    } else {
        exists|run: super::RunView| #[trigger] is_run_of(tables, full_name, run)
    }
}

/// The names of the rows.
pub open spec fn summary_names(rows: Seq<super::RepoSummaryView>) -> Seq<Seq<char>> {
    rows.map_values(|s: super::RepoSummaryView| s.full_name)
}

/// The rows of the dashboard: one for each repository that has one, newest activity first.
pub open spec fn is_summaries(
    tables: super::Tables,
    failures_only: bool,
    rows: Seq<super::RepoSummaryView>,
) -> bool {
    &&& forall|i: int| 0 <= i < rows.len() ==> is_repo_summary(tables, #[trigger] rows[i])
    &&& forall|i: int, j: int|
        0 <= i < j < rows.len() ==> shown_above(#[trigger] rows[i], #[trigger] rows[j])
    &&& forall|n: Seq<char>|
        has_summary(tables, failures_only, n) <==> #[trigger] summary_names(rows).contains(n)
}

/// The mathematical form of the rows.
pub open spec fn summary_views(rows: Seq<RepoSummary>) -> Seq<super::RepoSummaryView> {
    rows.map_values(|s: RepoSummary| s@)
}

proof fn lemma_above_transitive(
    a: super::RepoSummaryView,
    b: super::RepoSummaryView,
    c: super::RepoSummaryView,
)
    requires
        shown_above(a, b),
        shown_above(b, c),
    ensures
        shown_above(a, c),
{
    if crate::text::text_lt(b.started_at, a.started_at) && crate::text::text_lt(
        c.started_at,
        b.started_at,
    ) {
        crate::text::lemma_text_lt_transitive(c.started_at, b.started_at, a.started_at);
    }
    if crate::text::text_lt(a.full_name, b.full_name) && crate::text::text_lt(
        b.full_name,
        c.full_name,
    ) {
        crate::text::lemma_text_lt_transitive(a.full_name, b.full_name, c.full_name);
    }
}

proof fn lemma_above_total(a: super::RepoSummaryView, b: super::RepoSummaryView)
    requires
        a.full_name != b.full_name,
    ensures
        shown_above(a, b) || shown_above(b, a),
{
    crate::text::lemma_text_lt_total(a.started_at, b.started_at);
    crate::text::lemma_text_lt_total(a.full_name, b.full_name);
}

fn is_shown_above(a: &RepoSummary, b: &RepoSummary) -> (r: bool)
    ensures
        r == shown_above(a@, b@),
{
    if text_before(b.started_at.as_str(), a.started_at.as_str()) {
        return true;
    }
    text_eq(a.started_at.as_str(), b.started_at.as_str()) && text_before(
        a.full_name.as_str(),
        b.full_name.as_str(),
    )
}

/// The only run on a strip of one is the latest of its workflow.
proof fn lemma_strip_of_one(
    tables: super::Tables,
    full_name: Seq<char>,
    h: Seq<super::WorkflowHistoryView>,
    g: int,
)
    requires
        tables.visible(full_name),
        is_history(tables, full_name, 1, h),
        0 <= g < h.len(),
    ensures
        is_latest(tables, full_name, h[g].runs[0]),
        h[g].runs[0].workflow_name == h[g].workflow_name,
{
    let run = h[g].runs[0];
    assert(is_strip(h[g], 1));
    assert(is_run_of(tables, full_name, h[g].runs[0]));
    assert forall|other: super::RunView| #[trigger]
        is_run_of(tables, full_name, other) && other.workflow_name
            == run.workflow_name implies other == run || newer(run, other) by {
        assert(accounted(h, 1, other));
        let k = choose|k: int| 0 <= k < h.len() && accounts_for(#[trigger] h[k], 1, other);
        assert(history_names(h)[k] == history_names(h)[g]);
        super::lemma_ascending_distinct(history_names(h), k, g);
    }
}

/// What the workflows of a summary show of a repository is complete.
proof fn lemma_summary_complete(
    tables: super::Tables,
    full_name: Seq<char>,
    h: Seq<super::WorkflowHistoryView>,
    s: super::RepoSummaryView,
)
    requires
        tables.visible(full_name),
        is_history(tables, full_name, 1, h),
        s.full_name == full_name,
        s.workflows.len() == h.len(),
        forall|g: int|
            0 <= g < h.len() ==> (#[trigger] s.workflows[g]) == summary_of(h[g].runs[0]),
        is_worst(s.health, s.workflows),
        is_newest(s.started_at, s.workflows),
    ensures
        is_repo_summary(tables, s),
{
    assert forall|g: int| 0 <= g < h.len() implies (#[trigger] workflow_names(s.workflows)[g])
        == history_names(h)[g] by {
        lemma_strip_of_one(tables, full_name, h, g);
        assert(s.workflows[g] == summary_of(h[g].runs[0]));
    }
    assert(workflow_names(s.workflows) =~= history_names(h));
    assert forall|w: int| 0 <= w < s.workflows.len() implies (exists|run: super::RunView|
        #[trigger]
        is_latest(tables, s.full_name, run) && (#[trigger] s.workflows[w]) == summary_of(run)) by {
        lemma_strip_of_one(tables, full_name, h, w);
        assert(is_latest(tables, s.full_name, h[w].runs[0]));
    }
    assert forall|run: super::RunView| #[trigger]
        is_run_of(tables, s.full_name, run) implies workflow_names(s.workflows).contains(
        run.workflow_name,
    ) by {
        assert(accounted(h, 1, run));
        let k = choose|k: int| 0 <= k < h.len() && accounts_for(#[trigger] h[k], 1, run);
        assert(history_names(h)[k] == run.workflow_name);
    }
}

/// A repository with a summary has a workflow whose latest run failed exactly when the state of
/// the repository is a failure.
proof fn lemma_failure(tables: super::Tables, s: super::RepoSummaryView)
    requires
        is_repo_summary(tables, s),
    ensures
        has_summary(tables, false, s.full_name),
        has_summary(tables, true, s.full_name) == (s.health == Health::Failure),
{
    let w = choose|w: int| 0 <= w < s.workflows.len() && (#[trigger] s.workflows[w]).health == s.health;
    let run = choose|run: super::RunView| #[trigger]
        is_latest(tables, s.full_name, run) && s.workflows[w] == summary_of(run);
    assert(is_latest(tables, s.full_name, run));
    assert(is_run_of(tables, s.full_name, run));
    if has_summary(tables, true, s.full_name) {
        let bad = choose|bad: super::RunView| #[trigger]
            is_latest(tables, s.full_name, bad) && run_health(bad) == Health::Failure;
        assert(is_run_of(tables, s.full_name, bad));
        let names = workflow_names(s.workflows);
        let k = choose|k: int| 0 <= k < names.len() && names[k] == bad.workflow_name;
        let other = choose|other: super::RunView| #[trigger]
            is_latest(tables, s.full_name, other) && s.workflows[k] == summary_of(other);
        assert(is_latest(tables, s.full_name, other) && s.workflows[k] == summary_of(other));
        assert(other.workflow_name == bad.workflow_name);
        if other != bad {
            assert(newer(other, bad) && newer(bad, other));
            lemma_newer_asymmetric(other, bad);
        }
        assert(s.workflows[k].health == Health::Failure);
    }
}

/// The rows of the first `i` of the named repositories.
spec fn rows_of(
    tables: super::Tables,
    failures_only: bool,
    names: Seq<Seq<char>>,
    i: int,
    rows: Seq<super::RepoSummaryView>,
) -> bool {
    &&& 0 <= i <= names.len()
    &&& super::ascending(names)
    &&& forall|k: int|
        0 <= k < rows.len() ==> is_repo_summary(tables, #[trigger] rows[k]) && has_summary(
            tables,
            failures_only,
            rows[k].full_name,
        ) && names.take(i).contains(rows[k].full_name)
    &&& forall|a: int, b: int|
        0 <= a < b < rows.len() ==> shown_above(#[trigger] rows[a], #[trigger] rows[b])
    &&& forall|j: int|
        0 <= j < i && has_summary(tables, failures_only, #[trigger] names[j]) ==> summary_names(
            rows,
        ).contains(names[j])
}

proof fn lemma_earlier_name(names: Seq<Seq<char>>, i: int, n: Seq<char>)
    requires
        super::ascending(names),
        0 <= i < names.len(),
        names.take(i).contains(n),
    ensures
        names.take(i + 1).contains(n),
        n != names[i],
{
    let j = choose|j: int| 0 <= j < i && names.take(i)[j] == n;
    assert(names.take(i + 1)[j] == n);
    assert(names[j] == n);
    if n == names[i] {
        super::lemma_ascending_distinct(names, j, i);
    }
}

proof fn lemma_names_differ(
    tables: super::Tables,
    failures_only: bool,
    names: Seq<Seq<char>>,
    i: int,
    rows: Seq<super::RepoSummaryView>,
)
    requires
        rows_of(tables, failures_only, names, i, rows),
        i < names.len(),
    ensures
        forall|k: int| 0 <= k < rows.len() ==> (#[trigger] rows[k]).full_name != names[i],
        forall|a: int, b: int|
            0 <= a < b < rows.len() ==> shown_above(#[trigger] rows[a], #[trigger] rows[b]),
{
    assert forall|k: int| 0 <= k < rows.len() implies (#[trigger] rows[k]).full_name != names[i] by {
        lemma_earlier_name(names, i, rows[k].full_name);
    }
}

proof fn lemma_row_placed(
    tables: super::Tables,
    failures_only: bool,
    names: Seq<Seq<char>>,
    i: int,
    rows: Seq<super::RepoSummaryView>,
    p: int,
    s: super::RepoSummaryView,
)
    requires
        rows_of(tables, failures_only, names, i, rows),
        i < names.len(),
        0 <= p <= rows.len(),
        is_repo_summary(tables, s),
        has_summary(tables, failures_only, s.full_name),
        s.full_name == names[i],
        forall|a: int, b: int|
            0 <= a < b < rows.insert(p, s).len() ==> shown_above(
                #[trigger] rows.insert(p, s)[a],
                #[trigger] rows.insert(p, s)[b],
            ),
    ensures
        rows_of(tables, failures_only, names, i + 1, rows.insert(p, s)),
{
    let new = rows.insert(p, s);
    assert(new[p] == s);
    assert(names.take(i + 1)[i] == names[i]);
    assert forall|k: int| 0 <= k < new.len() implies is_repo_summary(tables, #[trigger] new[k])
        && has_summary(tables, failures_only, new[k].full_name) && names.take(i + 1).contains(
        new[k].full_name,
    ) by {
        let k0 = if k < p {
            k
        } else {
            k - 1
        };
        if k != p {
            assert(new[k] == rows[k0]);
            lemma_earlier_name(names, i, rows[k0].full_name);
        }
    }
    assert forall|j: int|
        0 <= j < i + 1 && has_summary(
            tables,
            failures_only,
            #[trigger] names[j],
        ) implies summary_names(new).contains(names[j]) by {
        if j < i {
            assert(summary_names(rows).contains(names[j]));
            let k = choose|k: int| 0 <= k < rows.len() && summary_names(rows)[k] == names[j];
            let k1 = if k < p {
                k
            } else {
                k + 1
            };
            assert(new[k1] == rows[k]);
            assert(summary_names(new)[k1] == names[j]);
        } else {
            assert(summary_names(new)[p] == names[j]);
        }
    }
}

proof fn lemma_row_skipped(
    tables: super::Tables,
    failures_only: bool,
    names: Seq<Seq<char>>,
    i: int,
    rows: Seq<super::RepoSummaryView>,
)
    requires
        rows_of(tables, failures_only, names, i, rows),
        i < names.len(),
        !has_summary(tables, failures_only, names[i]),
    ensures
        rows_of(tables, failures_only, names, i + 1, rows),
{
    assert forall|k: int| 0 <= k < rows.len() implies is_repo_summary(tables, #[trigger] rows[k])
        && has_summary(tables, failures_only, rows[k].full_name) && names.take(i + 1).contains(
        rows[k].full_name,
    ) by {
        lemma_earlier_name(names, i, rows[k].full_name);
    }
}

proof fn lemma_rows_complete(
    tables: super::Tables,
    failures_only: bool,
    names: Seq<Seq<char>>,
    rows: Seq<super::RepoSummaryView>,
)
    requires
        rows_of(tables, failures_only, names, names.len() as int, rows),
        forall|n: Seq<char>| #[trigger] names.contains(n) <==> tables.repos.dom().contains(n),
    ensures
        is_summaries(tables, failures_only, rows),
{
    assert forall|n: Seq<char>|
        has_summary(tables, failures_only, n) <==> #[trigger] summary_names(rows).contains(n) by {
        if has_summary(tables, failures_only, n) {
            assert(names.contains(n));
            let j = choose|j: int| 0 <= j < names.len() && names[j] == n;
            assert(summary_names(rows).contains(names[j]));
        }
        if summary_names(rows).contains(n) {
            let k = choose|k: int| 0 <= k < rows.len() && summary_names(rows)[k] == n;
            assert(rows[k].full_name == n);
        }
    }
}

impl Store {
    /// The row of a visible repository: none where it has no runs.
    fn repo_summary(&self, full_name: &str) -> (r: Option<RepoSummary>)
        requires
            self.wf(),
            self@.visible(full_name@),
        ensures
            r is Some ==> is_repo_summary(self@, r->0@) && r->0.full_name@ == full_name@,
            r is None ==> forall|run: super::RunView| !is_run_of(self@, full_name@, run),
    {
        let h = match self.repo_history(full_name, 1) {
            Ok(h) => h,
            Err(_) => {
                return None;
            },
        };
        let ghost views = history_views(h@);
        if h.len() == 0 {
            assert forall|run: super::RunView| !is_run_of(self@, full_name@, run) by {
                if is_run_of(self@, full_name@, run) {
                    assert(accounted(views, 1, run));
                }
            }
            return None;
        }
        let mut health = Health::Success;
        let mut started_at: String = String::new();
        let mut workflows: Vec<WorkflowSummary> = Vec::new();
        let mut k: usize = 0;
        while k < h.len()
            invariant
                self.wf(),
                self@.visible(full_name@),
                k <= h.len(),
                views == history_views(h@),
                is_history(self@, full_name@, 1, views),
                workflows@.len() == k,
                forall|g: int|
                    0 <= g < k ==> (#[trigger] workflows@[g])@ == summary_of(views[g].runs[0]),
                k > 0 ==> is_worst(health, workflows@.map_values(|w: WorkflowSummary| w@)),
                k > 0 ==> is_newest(started_at@, workflows@.map_values(|w: WorkflowSummary| w@)),
            decreases h.len() - k,
        {
            let ghost before = workflows@.map_values(|w: WorkflowSummary| w@);
            let ghost old_started = started_at@;
            let ghost old_health = health;
            assert(views[k as int] == h@[k as int]@);
            assert(is_strip(views[k as int], 1));
            let run = &h[k].runs[0];
            assert(views[k as int].runs[0] == run@);
            let conclusion: Option<&str> = match &run.conclusion {
                Some(c) => Some(c.as_str()),
                None => None,
            };
            let w = WorkflowSummary {
                workflow_name: run.workflow_name.clone(),
                workflow_path: copied(&run.workflow_path),
                health: Health::of(run.status.as_str(), conclusion),
                branch: run.branch.clone(),
                commit_subject: run.commit_subject.clone(),
                html_url: run.html_url.clone(),
                started_at: run.started_at.clone(),
            };
            assert(w@ == summary_of(run@));
            if k == 0 {
                health = w.health;
                started_at = w.started_at.clone();
            } else {
                health = health.worse(w.health);
                if text_before(started_at.as_str(), w.started_at.as_str()) {
                    started_at = w.started_at.clone();
                }
            }
            workflows.push(w);
            proof {
                let after = workflows@.map_values(|w: WorkflowSummary| w@);
                assert(after =~= before.push(w@));
                assert(after[k as int] == w@);
                if k > 0 {
                    if health == old_health {
                        let a = choose|a: int|
                            0 <= a < before.len() && (#[trigger] before[a]).health == old_health;
                        assert(after[a] == before[a]);
                    }
                    if started_at@ == old_started {
                        let a = choose|a: int|
                            0 <= a < before.len() && (#[trigger] before[a]).started_at
                                == old_started;
                        assert(after[a] == before[a]);
                        crate::text::lemma_text_lt_total(w.started_at@, old_started);
                    }
                }
                assert forall|a: int| 0 <= a < after.len() implies (
                #[trigger] after[a]).health.rank() <= health.rank() && crate::text::text_le(
                    after[a].started_at,
                    started_at@,
                ) by {
                    if a < k {
                        assert(after[a] == before[a]);
                        if started_at@ != old_started && before[a].started_at != old_started {
                            crate::text::lemma_text_lt_transitive(
                                before[a].started_at,
                                old_started,
                                started_at@,
                            );
                        }
                    }
                }
            }
            k += 1;
        }
        let s = RepoSummary { full_name: full_name.to_owned(), health, started_at, workflows };
        proof {
            lemma_summary_complete(self@, full_name@, views, s@);
        }
        Some(s)
    }

    /// One row per non-ignored repository that has runs, carrying the latest
    /// run of each of its workflows. Sorted newest activity first.
    pub fn repo_summaries(&self, failures_only: bool) -> (r: Result<Vec<RepoSummary>, StoreError>)
        requires
            self.wf(),
        ensures
            r is Ok,
            is_summaries(self@, failures_only, summary_views(r->Ok_0@)),
    {
        let ghost names = super::repo_names(self.repos@);
        let mut out: Vec<RepoSummary> = Vec::new();
        let mut i: usize = 0;
        while i < self.repos.len()
            invariant
                self.wf(),
                names == super::repo_names(self.repos@),
                i <= self.repos.len(),
                rows_of(self@, failures_only, names, i as int, summary_views(out@)),
            decreases self.repos.len() - i,
        {
            let row = &self.repos[i];
            let ghost before = summary_views(out@);
            assert(names[i as int] == row.full_name@);
            proof {
                super::lemma_repo_row(self.repos@, self.runs@, i as int);
            }
            let mut shown: Option<RepoSummary> = None;
            if !row.ignored {
                if let Some(s) = self.repo_summary(row.full_name.as_str()) {
                    proof {
                        lemma_failure(self@, s@);
                    }
                    if !failures_only || s.health == Health::Failure {
                        shown = Some(s);
                    }
                } else {
                    assert(!has_summary(self@, failures_only, names[i as int]));
                }
            }
            match shown {
                Some(s) => {
                    proof {
                        lemma_names_differ(self@, failures_only, names, i as int, before);
                    }
                    let p = Store::place_summary(&mut out, s);
                    proof {
                        lemma_row_placed(
                            self@,
                            failures_only,
                            names,
                            i as int,
                            before,
                            p as int,
                            s@,
                        );
                    }
                },
                None => {
                    proof {
                        lemma_row_skipped(self@, failures_only, names, i as int, before);
                    }
                },
            }
            i += 1;
        }
        proof {
            super::lemma_names(self.repos@);
            lemma_rows_complete(self@, failures_only, names, summary_views(out@));
        }
        Ok(out)
    }

    /// Puts a row where it is shown, and says where.
    fn place_summary(rows: &mut Vec<RepoSummary>, s: RepoSummary) -> (p: usize)
        requires
            forall|a: int, b: int|
                0 <= a < b < old(rows)@.len() ==> shown_above(
                    #[trigger] summary_views(old(rows)@)[a],
                    #[trigger] summary_views(old(rows)@)[b],
                ),
            forall|k: int|
                0 <= k < old(rows)@.len() ==> (#[trigger] summary_views(old(rows)@)[k]).full_name
                    != s.full_name@,
        ensures
            p <= old(rows)@.len(),
            summary_views(final(rows)@) == summary_views(old(rows)@).insert(p as int, s@),
            forall|a: int, b: int|
                0 <= a < b < final(rows)@.len() ==> shown_above(
                    #[trigger] summary_views(final(rows)@)[a],
                    #[trigger] summary_views(final(rows)@)[b],
                ),
    {
        let ghost views = summary_views(rows@);
        let mut p: usize = 0;
        while p < rows.len() && is_shown_above(&rows[p], &s)
            invariant
                p <= rows.len(),
                rows@ == old(rows)@,
                views == summary_views(rows@),
                forall|k: int| 0 <= k < p ==> shown_above(#[trigger] views[k], s@),
            decreases rows.len() - p,
        {
            assert(views[p as int] == rows@[p as int]@);
            p += 1;
        }
        rows.insert(p, s);
        proof {
            let after = summary_views(rows@);
            assert(after =~= views.insert(p as int, s@));
            if p < views.len() {
                lemma_above_total(views[p as int], s@);
            }
            assert forall|k: int| p <= k < views.len() implies shown_above(s@, #[trigger] views[k]) by {
                if k > p {
                    assert(shown_above(views[p as int], views[k]));
                    lemma_above_transitive(s@, views[p as int], views[k]);
                }
            }
            assert forall|a: int, b: int| 0 <= a < b < after.len() implies shown_above(
                #[trigger] after[a],
                #[trigger] after[b],
            ) by {
                let a0 = if a < p {
                    a
                } else {
                    a - 1
                };
                let b0 = if b < p {
                    b
                } else {
                    b - 1
                };
                if a != p {
                    assert(after[a] == views[a0]);
                }
                if b != p {
                    assert(after[b] == views[b0]);
                }
            }
        }
        p
    }
}

proof fn lemma_text_asymmetric(a: Seq<char>, b: Seq<char>)
    requires
        crate::text::text_lt(a, b),
    ensures
        !crate::text::text_lt(b, a),
{
    if crate::text::text_lt(b, a) {
        crate::text::lemma_text_lt_transitive(a, b, a);
        crate::text::lemma_text_lt_irreflexive(a);
    }
}

/// Two lists of names in ascending order with the same names are the same.
proof fn lemma_same_names(a: Seq<Seq<char>>, b: Seq<Seq<char>>)
    requires
        super::ascending(a),
        super::ascending(b),
        forall|n: Seq<char>| #[trigger] a.contains(n) <==> b.contains(n),
    ensures
        a == b,
{
    let lt = |x: Seq<char>, y: Seq<char>| crate::text::text_lt(x, y);
    assert forall|x: Seq<char>, y: Seq<char>| #[trigger] lt(x, y) implies !lt(y, x) by {
        lemma_text_asymmetric(x, y);
    }
    crate::table::lemma_same_order(a, b, lt);
}

/// The workflows of a history are those of the runs of the repository.
proof fn lemma_history_names(
    tables: super::Tables,
    full_name: Seq<char>,
    n: int,
    h: Seq<super::WorkflowHistoryView>,
    w: Seq<char>,
)
    requires
        tables.visible(full_name),
        n > 0,
        is_history(tables, full_name, n, h),
    ensures
        history_names(h).contains(w) <==> (exists|run: super::RunView| #[trigger]
            is_run_of(tables, full_name, run) && run.workflow_name == w),
{
    if history_names(h).contains(w) {
        let g = choose|g: int| 0 <= g < h.len() && history_names(h)[g] == w;
        assert(is_strip(h[g], n));
        assert(is_run_of(tables, full_name, h[g].runs[0]));
        assert(h[g].runs[0].workflow_name == w);
    }
    if exists|run: super::RunView| #[trigger]
        is_run_of(tables, full_name, run) && run.workflow_name == w {
        let run = choose|run: super::RunView| #[trigger]
            is_run_of(tables, full_name, run) && run.workflow_name == w;
        assert(accounted(h, n, run));
        let g = choose|g: int| 0 <= g < h.len() && accounts_for(#[trigger] h[g], n, run);
        assert(history_names(h)[g] == w);
    }
}

proof fn lemma_accounted_at(
    h: Seq<super::WorkflowHistoryView>,
    n: int,
    g: int,
    run: super::RunView,
)
    requires
        super::ascending(history_names(h)),
        0 <= g < h.len(),
        h[g].workflow_name == run.workflow_name,
        accounted(h, n, run),
    ensures
        accounts_for(h[g], n, run),
{
    let k = choose|k: int| 0 <= k < h.len() && accounts_for(#[trigger] h[k], n, run);
    assert(history_names(h)[k] == history_names(h)[g]);
    super::lemma_ascending_distinct(history_names(h), k, g);
}

proof fn lemma_strip_unique(g: super::WorkflowHistoryView, n: int)
    requires
        is_strip(g, n),
    ensures
        g.runs.no_duplicates(),
{
    assert forall|i: int, j: int|
        0 <= i < g.runs.len() && 0 <= j < g.runs.len() && i != j implies g.runs[i] != g.runs[j] by {
        if i < j {
            assert(newer(g.runs[i], g.runs[j]));
            lemma_newer_asymmetric(g.runs[i], g.runs[j]);
        } else {
            assert(newer(g.runs[j], g.runs[i]));
            lemma_newer_asymmetric(g.runs[j], g.runs[i]);
        }
    }
}

/// What is on a strip of one history of a repository is on that strip of any other.
proof fn lemma_strip_included(
    tables: super::Tables,
    full_name: Seq<char>,
    n: int,
    a: Seq<super::WorkflowHistoryView>,
    b: Seq<super::WorkflowHistoryView>,
    g: int,
    x: super::RunView,
)
    requires
        tables.visible(full_name),
        n > 0,
        is_history(tables, full_name, n, a),
        is_history(tables, full_name, n, b),
        history_names(a) == history_names(b),
        0 <= g < a.len(),
        a[g].runs.contains(x),
    ensures
        b[g].runs.contains(x),
{
    assert(a.len() == history_names(a).len() && b.len() == history_names(b).len());
    assert(history_names(a)[g] == a[g].workflow_name);
    assert(history_names(b)[g] == b[g].workflow_name);
    let left = a[g].runs;
    let right = b[g].runs;
    assert(is_strip(a[g], n) && is_strip(b[g], n));
    let i = choose|i: int| 0 <= i < left.len() && left[i] == x;
    assert(is_run_of(tables, full_name, a[g].runs[i]));
    assert(a[g].runs[i].workflow_name == a[g].workflow_name);
    lemma_accounted_at(b, n, g, x);
    if !right.contains(x) {
        assert forall|y: super::RunView| right.contains(y) implies left.contains(y) by {
            let j = choose|j: int| 0 <= j < right.len() && right[j] == y;
            assert(is_run_of(tables, full_name, b[g].runs[j]));
            assert(b[g].runs[j].workflow_name == b[g].workflow_name);
            assert(newer(y, x));
            lemma_accounted_at(a, n, g, y);
            if !left.contains(y) {
                assert(newer(left[i], y));
                lemma_newer_asymmetric(x, y);
            }
        }
        lemma_strip_unique(a[g], n);
        lemma_strip_unique(b[g], n);
        left.unique_seq_to_set();
        right.unique_seq_to_set();
        let more = right.to_set().insert(x);
        assert(!right.to_set().contains(x));
        assert(more.subset_of(left.to_set())) by {
            assert forall|y: super::RunView| more.contains(y) implies left.to_set().contains(y) by {
                if y != x {
                    assert(right.contains(y));
                }
                assert(left.contains(y));
            }
        }
        vstd::set_lib::lemma_len_subset(more, left.to_set());
        assert(more.len() == n + 1);
    }
}

/// The contents of the store determine the history of a repository: no two sequences are its
/// history.
pub proof fn history_is_determined(
    tables: super::Tables,
    full_name: Seq<char>,
    n: int,
    a: Seq<super::WorkflowHistoryView>,
    b: Seq<super::WorkflowHistoryView>,
)
    requires
        is_history(tables, full_name, n, a),
        is_history(tables, full_name, n, b),
    ensures
        a == b,
{
    if !tables.visible(full_name) || n <= 0 {
        assert(a =~= b);
    } else {
        assert forall|w: Seq<char>| #[trigger]
            history_names(a).contains(w) <==> history_names(b).contains(w) by {
            lemma_history_names(tables, full_name, n, a, w);
            lemma_history_names(tables, full_name, n, b, w);
        }
        lemma_same_names(history_names(a), history_names(b));
        assert(a.len() == history_names(a).len() && b.len() == history_names(b).len());
        assert forall|g: int| 0 <= g < a.len() implies a[g] == b[g] by {
            assert(history_names(a)[g] == a[g].workflow_name);
            assert(history_names(b)[g] == b[g].workflow_name);
            assert(is_strip(a[g], n) && is_strip(b[g], n));
            let lt = |x: super::RunView, y: super::RunView| newer(x, y);
            assert forall|x: super::RunView, y: super::RunView| #[trigger] lt(x, y) implies !lt(
                y,
                x,
            ) by {
                lemma_newer_asymmetric(x, y);
            }
            assert forall|x: super::RunView|
                a[g].runs.contains(x) <==> b[g].runs.contains(x) by {
                if a[g].runs.contains(x) {
                    lemma_strip_included(tables, full_name, n, a, b, g, x);
                }
                if b[g].runs.contains(x) {
                    lemma_strip_included(tables, full_name, n, b, a, g, x);
                }
            }
            crate::table::lemma_same_order(a[g].runs, b[g].runs, lt);
        }
        assert(a =~= b);
    }
}

proof fn lemma_latest_unique(
    tables: super::Tables,
    full_name: Seq<char>,
    a: super::RunView,
    b: super::RunView,
)
    requires
        is_latest(tables, full_name, a),
        is_latest(tables, full_name, b),
        a.workflow_name == b.workflow_name,
    ensures
        a == b,
{
    if a != b {
        assert(is_run_of(tables, full_name, a) && is_run_of(tables, full_name, b));
        assert(newer(a, b) && newer(b, a));
        lemma_newer_asymmetric(a, b);
    }
}

proof fn lemma_summary_names_match(
    tables: super::Tables,
    s: super::RepoSummaryView,
    w: Seq<char>,
)
    requires
        is_repo_summary(tables, s),
    ensures
        workflow_names(s.workflows).contains(w) <==> (exists|run: super::RunView| #[trigger]
            is_run_of(tables, s.full_name, run) && run.workflow_name == w),
{
    if workflow_names(s.workflows).contains(w) {
        let k = choose|k: int| 0 <= k < s.workflows.len() && workflow_names(s.workflows)[k] == w;
        let run = choose|run: super::RunView| #[trigger]
            is_latest(tables, s.full_name, run) && s.workflows[k] == summary_of(run);
        assert(is_latest(tables, s.full_name, run) && s.workflows[k] == summary_of(run));
        assert(is_run_of(tables, s.full_name, run));
    }
}

/// The contents of the store determine the row of a repository.
pub proof fn repo_summary_is_determined(
    tables: super::Tables,
    a: super::RepoSummaryView,
    b: super::RepoSummaryView,
)
    requires
        is_repo_summary(tables, a),
        is_repo_summary(tables, b),
        a.full_name == b.full_name,
    ensures
        a == b,
{
    let left = workflow_names(a.workflows);
    let right = workflow_names(b.workflows);
    assert forall|w: Seq<char>| #[trigger] left.contains(w) <==> right.contains(w) by {
        lemma_summary_names_match(tables, a, w);
        lemma_summary_names_match(tables, b, w);
    }
    lemma_same_names(left, right);
    assert(a.workflows.len() == left.len() && b.workflows.len() == right.len());
    assert forall|k: int| 0 <= k < a.workflows.len() implies a.workflows[k] == b.workflows[k] by {
        let x = choose|run: super::RunView| #[trigger]
            is_latest(tables, a.full_name, run) && a.workflows[k] == summary_of(run);
        assert(is_latest(tables, a.full_name, x) && a.workflows[k] == summary_of(x));
        let y = choose|run: super::RunView| #[trigger]
            is_latest(tables, b.full_name, run) && b.workflows[k] == summary_of(run);
        assert(is_latest(tables, b.full_name, y) && b.workflows[k] == summary_of(y));
        assert(left[k] == x.workflow_name && right[k] == y.workflow_name);
        lemma_latest_unique(tables, a.full_name, x, y);
    }
    assert(a.workflows =~= b.workflows);
    if a.started_at != b.started_at {
        lemma_text_asymmetric_if(a.started_at, b.started_at);
    }
    assert(a.health.rank() == b.health.rank());
}

proof fn lemma_text_asymmetric_if(a: Seq<char>, b: Seq<char>)
    ensures
        crate::text::text_lt(a, b) ==> !crate::text::text_lt(b, a),
{
    if crate::text::text_lt(a, b) {
        lemma_text_asymmetric(a, b);
    }
}

/// The contents of the store determine the rows of the dashboard and their order.
pub proof fn summaries_are_determined(
    tables: super::Tables,
    failures_only: bool,
    a: Seq<super::RepoSummaryView>,
    b: Seq<super::RepoSummaryView>,
)
    requires
        is_summaries(tables, failures_only, a),
        is_summaries(tables, failures_only, b),
    ensures
        a == b,
{
    let lt = |x: super::RepoSummaryView, y: super::RepoSummaryView| shown_above(x, y);
    assert forall|x: super::RepoSummaryView, y: super::RepoSummaryView| #[trigger]
        lt(x, y) implies !lt(y, x) by {
        lemma_text_asymmetric_if(x.started_at, y.started_at);
        lemma_text_asymmetric_if(x.full_name, y.full_name);
        crate::text::lemma_text_lt_irreflexive(x.started_at);
    }
    assert forall|x: super::RepoSummaryView| a.contains(x) <==> b.contains(x) by {
        if a.contains(x) {
            lemma_row_included(tables, failures_only, a, b, x);
        }
        if b.contains(x) {
            lemma_row_included(tables, failures_only, b, a, x);
        }
    }
    crate::table::lemma_same_order(a, b, lt);
}

proof fn lemma_row_included(
    tables: super::Tables,
    failures_only: bool,
    a: Seq<super::RepoSummaryView>,
    b: Seq<super::RepoSummaryView>,
    x: super::RepoSummaryView,
)
    requires
        is_summaries(tables, failures_only, a),
        is_summaries(tables, failures_only, b),
        a.contains(x),
    ensures
        b.contains(x),
{
    let i = choose|i: int| 0 <= i < a.len() && a[i] == x;
    assert(summary_names(a)[i] == x.full_name);
    assert(summary_names(a).contains(x.full_name));
    assert(summary_names(b).contains(x.full_name));
    let j = choose|j: int| 0 <= j < b.len() && summary_names(b)[j] == x.full_name;
    assert(b[j].full_name == x.full_name);
    repo_summary_is_determined(tables, a[i], b[j]);
}

/// With only failures asked for, the rows are those of the full list whose state is a failure.
pub proof fn failures_only_is_a_filter(
    tables: super::Tables,
    all: Seq<super::RepoSummaryView>,
    failures: Seq<super::RepoSummaryView>,
    s: super::RepoSummaryView,
)
    requires
        is_summaries(tables, false, all),
        is_summaries(tables, true, failures),
    ensures
        failures.contains(s) <==> all.contains(s) && s.health == Health::Failure,
{
    if failures.contains(s) {
        let i = choose|i: int| 0 <= i < failures.len() && failures[i] == s;
        assert(is_repo_summary(tables, failures[i]));
        lemma_failure(tables, s);
        assert(summary_names(failures)[i] == s.full_name);
        assert(summary_names(failures).contains(s.full_name));
        assert(summary_names(all).contains(s.full_name));
        let j = choose|j: int| 0 <= j < all.len() && summary_names(all)[j] == s.full_name;
        assert(all[j].full_name == s.full_name);
        repo_summary_is_determined(tables, s, all[j]);
    }
    if all.contains(s) && s.health == Health::Failure {
        let i = choose|i: int| 0 <= i < all.len() && all[i] == s;
        assert(is_repo_summary(tables, all[i]));
        lemma_failure(tables, s);
        assert(summary_names(failures).contains(s.full_name));
        let j = choose|j: int|
            0 <= j < failures.len() && summary_names(failures)[j] == s.full_name;
        assert(failures[j].full_name == s.full_name);
        repo_summary_is_determined(tables, s, failures[j]);
    }
}

/// A repository that is ignored or unknown is on no dashboard and has no history; one without runs
/// is on no dashboard.
pub proof fn hidden_repositories_do_not_appear(
    tables: super::Tables,
    failures_only: bool,
    rows: Seq<super::RepoSummaryView>,
    full_name: Seq<char>,
    n: int,
    h: Seq<super::WorkflowHistoryView>,
)
    requires
        is_summaries(tables, failures_only, rows),
        is_history(tables, full_name, n, h),
    ensures
        !tables.visible(full_name) ==> !summary_names(rows).contains(full_name) && h.len() == 0,
        tables.runs_of(full_name).is_empty() ==> !summary_names(rows).contains(full_name),
{
    if tables.runs_of(full_name).is_empty() && summary_names(rows).contains(full_name) {
        assert(has_summary(tables, failures_only, full_name));
        let run = if failures_only {
            choose|run: super::RunView| #[trigger]
                is_latest(tables, full_name, run) && run_health(run) == Health::Failure
        } else {
            choose|run: super::RunView| #[trigger] is_run_of(tables, full_name, run)
        };
        assert(is_run_of(tables, full_name, run));
        assert(tables.runs_of(full_name).contains(run.id));
    }
}

} // verus!
