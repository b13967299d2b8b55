//! Rows with keys, as the mathematical map that they stand for.
use vstd::prelude::*;
use vstd::seq_lib::*;

verus! {

/// No key occurs twice.
pub open spec fn distinct_keys<K, V>(rows: Seq<(K, V)>) -> bool {
    forall|i: int, j: int|
        0 <= i < rows.len() && 0 <= j < rows.len() && #[trigger] rows[i].0 == #[trigger] rows[j].0
            ==> i == j
}

/// Row `i` has the key `k`.
pub open spec fn has_key<K, V>(rows: Seq<(K, V)>, i: int, k: K) -> bool {
    0 <= i < rows.len() && rows[i].0 == k
}

/// The map from the keys of the rows to their values.
pub open spec fn table<K, V>(rows: Seq<(K, V)>) -> Map<K, V> {
    Map::new(
        |k: K| exists|i: int| has_key(rows, i, k),
        |k: K| rows[choose|i: int| has_key(rows, i, k)].1,
    )
}

/// The table holds each row under its key.
pub proof fn lemma_row<K, V>(rows: Seq<(K, V)>, i: int)
    requires
        distinct_keys(rows),
        0 <= i < rows.len(),
    ensures
        table(rows).dom().contains(rows[i].0),
        table(rows)[rows[i].0] == rows[i].1,
{
    assert(has_key(rows, i, rows[i].0));
    let j = choose|j: int| has_key(rows, j, rows[i].0);
    assert(has_key(rows, j, rows[i].0));
    assert(rows[i].0 == rows[j].0);
}

/// Every key of the table is the key of some row.
pub proof fn lemma_key<K, V>(rows: Seq<(K, V)>, k: K) -> (i: int)
    requires
        table(rows).dom().contains(k),
    ensures
        0 <= i < rows.len(),
        rows[i].0 == k,
        table(rows)[k] == rows[i].1,
{
    let i = choose|i: int| has_key(rows, i, k);
    assert(has_key(rows, i, k));
    i
}

/// A key that no row has is not in the table.
pub proof fn lemma_no_key<K, V>(rows: Seq<(K, V)>, k: K)
    requires
        forall|i: int| 0 <= i < rows.len() ==> (#[trigger] rows[i]).0 != k,
    ensures
        !table(rows).dom().contains(k),
{
    if table(rows).dom().contains(k) {
        let i = lemma_key(rows, k);
    }
}

/// To replace the value of a row is to replace it in the table.
pub proof fn lemma_update<K, V>(rows: Seq<(K, V)>, i: int, v: V)
    requires
        distinct_keys(rows),
        0 <= i < rows.len(),
    ensures
        distinct_keys(rows.update(i, (rows[i].0, v))),
        table(rows.update(i, (rows[i].0, v))) == table(rows).insert(rows[i].0, v),
{
    let k = rows[i].0;
    let new = rows.update(i, (k, v));
    assert forall|a: int, b: int|
        0 <= a < new.len() && 0 <= b < new.len() && #[trigger] new[a].0 == #[trigger] new[b].0 implies a
        == b by {
        assert(new[a].0 == rows[a].0 && new[b].0 == rows[b].0);
    }
    assert forall|x: K| table(new).dom().contains(x) == table(rows).insert(k, v).dom().contains(x) by {
        if table(new).dom().contains(x) {
            let j = lemma_key(new, x);
            lemma_row(rows, j);
        }
        if table(rows).dom().contains(x) {
            let j = lemma_key(rows, x);
            lemma_row(new, j);
        }
        lemma_row(new, i);
    }
    assert forall|x: K| table(new).dom().contains(x) implies table(new)[x] == table(rows).insert(
        k,
        v,
    )[x] by {
        let j = lemma_key(new, x);
        lemma_row(new, j);
        lemma_row(rows, j);
    }
    assert(table(new) =~= table(rows).insert(k, v));
}

/// To add a row with a new key, wherever it is put, is to add it to the table.
pub proof fn lemma_insert<K, V>(rows: Seq<(K, V)>, i: int, k: K, v: V)
    requires
        distinct_keys(rows),
        0 <= i <= rows.len(),
        forall|j: int| 0 <= j < rows.len() ==> (#[trigger] rows[j]).0 != k,
    ensures
        distinct_keys(rows.insert(i, (k, v))),
        table(rows.insert(i, (k, v))) == table(rows).insert(k, v),
{
    let new = rows.insert(i, (k, v));
    assert forall|a: int, b: int|
        0 <= a < new.len() && 0 <= b < new.len() && #[trigger] new[a].0 == #[trigger] new[b].0 implies a
        == b by {
        let a0 = if a < i {
            a
        } else {
            a - 1
        };
        let b0 = if b < i {
            b
        } else {
            b - 1
        };
        if a != i {
            assert(new[a] == rows[a0]);
        }
        if b != i {
            assert(new[b] == rows[b0]);
        }
    }
    assert forall|x: K| table(new).dom().contains(x) == table(rows).insert(k, v).dom().contains(x) by {
        if table(new).dom().contains(x) && x != k {
            let j = lemma_key(new, x);
            let j0 = if j < i {
                j
            } else {
                j - 1
            };
            assert(new[j] == rows[j0]);
            lemma_row(rows, j0);
        }
        if table(rows).dom().contains(x) {
            let j = lemma_key(rows, x);
            let j1 = if j < i {
                j
            } else {
                j + 1
            };
            assert(new[j1] == rows[j]);
            lemma_row(new, j1);
        }
        lemma_row(new, i);
    }
    assert forall|x: K| table(new).dom().contains(x) implies table(new)[x] == table(rows).insert(
        k,
        v,
    )[x] by {
        let j = lemma_key(new, x);
        lemma_row(new, j);
        if j != i {
            let j0 = if j < i {
                j
            } else {
                j - 1
            };
            assert(new[j] == rows[j0]);
            lemma_row(rows, j0);
        }
    }
    assert(table(new) =~= table(rows).insert(k, v));
}

/// The number of rows up to `n` whose value meets `p`.
pub open spec fn count_rows<K, V>(rows: Seq<(K, V)>, n: int, p: spec_fn(V) -> bool) -> nat
    decreases n,
{
    if n <= 0 {
        0
    } else {
        count_rows(rows, n - 1, p) + if p(rows[n - 1].1) {
            1nat
        } else {
            0nat
        }
    }
}

/// The keys whose value meets `p`.
pub open spec fn keys_where<K, V>(m: Map<K, V>, p: spec_fn(V) -> bool) -> Set<K> {
    Set::new(|k: K| m.dom().contains(k) && p(m[k]))
}

/// The keys of the first `n` rows whose value meets `p`.
spec fn first_keys<K, V>(rows: Seq<(K, V)>, n: int, p: spec_fn(V) -> bool) -> Set<K> {
    Set::new(|k: K| exists|i: int| i < n && #[trigger] has_key(rows, i, k) && p(rows[i].1))
}

proof fn lemma_first_keys<K, V>(rows: Seq<(K, V)>, n: int, p: spec_fn(V) -> bool)
    requires
        distinct_keys(rows),
        0 <= n <= rows.len(),
    ensures
        first_keys(rows, n, p).finite(),
        first_keys(rows, n, p).len() == count_rows(rows, n, p),
    decreases n,
{
    if n == 0 {
        assert(first_keys(rows, n, p) =~= Set::<K>::empty());
    } else {
        lemma_first_keys(rows, n - 1, p);
        let k = rows[n - 1].0;
        let smaller = first_keys(rows, n - 1, p);
        assert(has_key(rows, n - 1, k));
        assert(!smaller.contains(k)) by {
            if smaller.contains(k) {
                let i = choose|i: int|
                    i < n - 1 && #[trigger] has_key(rows, i, k) && p(rows[i].1);
                assert(rows[i].0 == rows[n - 1].0);
            }
        }
        assert forall|x: K|
            first_keys(rows, n, p).contains(x) == (if p(rows[n - 1].1) {
                smaller.insert(k)
            } else {
                smaller
            }).contains(x) by {
            if first_keys(rows, n, p).contains(x) {
                let i = choose|i: int| i < n && #[trigger] has_key(rows, i, x) && p(rows[i].1);
                if i < n - 1 {
                    assert(smaller.contains(x));
                }
            }
            if smaller.contains(x) {
                let i = choose|i: int|
                    i < n - 1 && #[trigger] has_key(rows, i, x) && p(rows[i].1);
                assert(has_key(rows, i, x));
            }
        }
        if p(rows[n - 1].1) {
            assert(first_keys(rows, n, p) =~= smaller.insert(k));
        } else {
            assert(first_keys(rows, n, p) =~= smaller);
        }
    }
}

/// As many keys meet `p` as there are rows that do.
pub proof fn lemma_count<K, V>(rows: Seq<(K, V)>, p: spec_fn(V) -> bool)
    requires
        distinct_keys(rows),
    ensures
        keys_where(table(rows), p).finite(),
        keys_where(table(rows), p).len() == count_rows(rows, rows.len() as int, p),
{
    let n = rows.len() as int;
    lemma_first_keys(rows, n, p);
    assert forall|k: K|
        keys_where(table(rows), p).contains(k) == first_keys(rows, n, p).contains(k) by {
        if keys_where(table(rows), p).contains(k) {
            let i = lemma_key(rows, k);
            assert(has_key(rows, i, k));
        }
        if first_keys(rows, n, p).contains(k) {
            let i = choose|i: int| i < n && #[trigger] has_key(rows, i, k) && p(rows[i].1);
            lemma_row(rows, i);
        }
    }
    assert(keys_where(table(rows), p) =~= first_keys(rows, n, p));
}

/// Two sequences in the same strict order with the same elements are the same.
pub proof fn lemma_same_order<A>(a: Seq<A>, b: Seq<A>, lt: spec_fn(A, A) -> bool)
    requires
        forall|x: A, y: A| #[trigger] lt(x, y) ==> !lt(y, x),
        forall|i: int, j: int| 0 <= i < j < a.len() ==> lt(#[trigger] a[i], #[trigger] a[j]),
        forall|i: int, j: int| 0 <= i < j < b.len() ==> lt(#[trigger] b[i], #[trigger] b[j]),
        forall|x: A| a.contains(x) <==> b.contains(x),
    ensures
        a == b,
    decreases a.len(),
{
    if a.len() == 0 {
        if b.len() > 0 {
            assert(b.contains(b[0]));
            assert(a.contains(b[0]));
        }
        assert(a =~= b);
    } else {
        assert(a.contains(a[0]));
        assert(b.contains(a[0]));
        let j = choose|j: int| 0 <= j < b.len() && b[j] == a[0];
        assert(b.contains(b[0]));
        assert(a.contains(b[0]));
        let i = choose|i: int| 0 <= i < a.len() && a[i] == b[0];
        if j > 0 && i > 0 {
            assert(lt(b[0], b[j]));
            assert(lt(a[0], a[i]));
        }
        assert(a[0] == b[0]);
        let x = a.drop_first();
        let y = b.drop_first();
        assert forall|e: A| x.contains(e) <==> y.contains(e) by {
            if x.contains(e) {
                let m = choose|m: int| 0 <= m < x.len() && x[m] == e;
                assert(a[m + 1] == e);
                assert(a.contains(e));
                assert(lt(a[0], a[m + 1]));
                let q = choose|q: int| 0 <= q < b.len() && b[q] == e;
                assert(q != 0);
                assert(y[q - 1] == e);
            }
            if y.contains(e) {
                let m = choose|m: int| 0 <= m < y.len() && y[m] == e;
                assert(b[m + 1] == e);
                assert(b.contains(e));
                assert(lt(b[0], b[m + 1]));
                let q = choose|q: int| 0 <= q < a.len() && a[q] == e;
                assert(q != 0);
                assert(x[q - 1] == e);
            }
        }
        lemma_same_order(x, y, lt);
        assert(a =~= seq![a[0]] + x);
        assert(b =~= seq![b[0]] + y);
    }
}

} // verus!
