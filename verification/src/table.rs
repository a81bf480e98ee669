//! The lookup model shared by the repositories: rows kept in insertion
//! order and searched by a key projection, first match first. The store's
//! unique constraints appear here as the `unique_keys` invariant.

use vstd::prelude::*;

verus! {

/// Some row's key equals `k`.
pub open spec fn contains_key<T, K>(rows: Seq<T>, key: spec_fn(T) -> K, k: K) -> bool {
    exists|i: int| 0 <= i < rows.len() && key(rows[i]) == k
}

/// The index of the first row whose key equals `k`, or `rows.len()` when
/// there is none.
pub open spec fn idx_of_key<T, K>(rows: Seq<T>, key: spec_fn(T) -> K, k: K) -> int
    decreases rows.len(),
{
    if rows.len() == 0 {
        0
    } else if key(rows[0]) == k {
        0
    } else {
        1 + idx_of_key(rows.drop_first(), key, k)
    }
}

/// The first row whose key equals `k`.
pub open spec fn find_by_key<T, K>(rows: Seq<T>, key: spec_fn(T) -> K, k: K) -> Option<T>
    decreases rows.len(),
{
    if rows.len() == 0 {
        None
    } else if key(rows[0]) == k {
        Some(rows[0])
    } else {
        find_by_key(rows.drop_first(), key, k)
    }
}

/// No two rows share a key: the shape of a unique column constraint.
pub open spec fn unique_keys<T, K>(rows: Seq<T>, key: spec_fn(T) -> K) -> bool {
    forall|i: int, j: int| 0 <= i < j < rows.len() ==> key(rows[i]) != key(rows[j])
}

/// How `contains_key`, `idx_of_key` and `find_by_key` relate.
pub proof fn lemma_key_index_props<T, K>(rows: Seq<T>, key: spec_fn(T) -> K, k: K)
    ensures
        0 <= idx_of_key(rows, key, k) <= rows.len(),
        contains_key(rows, key, k) <==> idx_of_key(rows, key, k) < rows.len(),
        idx_of_key(rows, key, k) < rows.len() ==> key(rows[idx_of_key(rows, key, k)]) == k && (
        forall|j: int| 0 <= j < idx_of_key(rows, key, k) ==> key(rows[j]) != k) && find_by_key(
            rows,
            key,
            k,
        ) == Some(rows[idx_of_key(rows, key, k)]),
        !contains_key(rows, key, k) ==> idx_of_key(rows, key, k) == rows.len() && find_by_key(
            rows,
            key,
            k,
        ) is None,
    decreases rows.len(),
{
    if rows.len() == 0 {
    } else if key(rows[0]) == k {
        assert(contains_key(rows, key, k));
    } else {
        let rest = rows.drop_first();
        lemma_key_index_props(rest, key, k);
        if contains_key(rows, key, k) {
            let w = choose|i: int| 0 <= i < rows.len() && key(rows[i]) == k;
            assert(w != 0);
            assert(key(rest[w - 1]) == k);
            assert(contains_key(rest, key, k));
        }
        if contains_key(rest, key, k) {
            let w = choose|i: int| 0 <= i < rest.len() && key(rest[i]) == k;
            assert(key(rows[w + 1]) == k);
            assert(contains_key(rows, key, k));
        }
        let i = idx_of_key(rows, key, k);
        if i < rows.len() {
            assert(rows[i] == rest[i - 1]);
            assert forall|j: int| 0 <= j < i implies key(rows[j]) != k by {
                if j > 0 {
                    assert(rows[j] == rest[j - 1]);
                }
            }
        }
    }
}

/// Appending a row with a fresh key and then looking that key up finds
/// exactly the appended row.
pub proof fn lemma_push_then_find<T, K>(rows: Seq<T>, key: spec_fn(T) -> K, x: T)
    requires
        !contains_key(rows, key, key(x)),
    ensures
        contains_key(rows.push(x), key, key(x)),
        find_by_key(rows.push(x), key, key(x)) == Some(x),
    decreases rows.len(),
{
    let grown = rows.push(x);
    assert(key(grown[rows.len() as int]) == key(x));
    assert(contains_key(grown, key, key(x)));
    if rows.len() == 0 {
        assert(grown[0] == x);
    } else {
        assert(key(rows[0]) != key(x));
        assert(grown[0] == rows[0]);
        assert(grown.drop_first() =~= rows.drop_first().push(x));
        assert forall|i: int| 0 <= i < rows.drop_first().len() implies key(
            rows.drop_first()[i],
        ) != key(x) by {
            assert(rows.drop_first()[i] == rows[i + 1]);
        }
        lemma_push_then_find(rows.drop_first(), key, x);
    }
}

/// Appending a fresh-keyed row keeps the keys unique.
pub proof fn lemma_push_keeps_unique<T, K>(rows: Seq<T>, key: spec_fn(T) -> K, x: T)
    requires
        unique_keys(rows, key),
        !contains_key(rows, key, key(x)),
    ensures
        unique_keys(rows.push(x), key),
{
    let grown = rows.push(x);
    assert forall|i: int, j: int| 0 <= i < j < grown.len() implies key(grown[i]) != key(
        grown[j],
    ) by {
        if j < rows.len() {
            assert(grown[i] == rows[i] && grown[j] == rows[j]);
        } else {
            assert(grown[j] == x);
            assert(grown[i] == rows[i]);
            assert(!(key(rows[i]) == key(x)));
        }
    }
}

/// Removing any one row keeps the keys unique.
pub proof fn lemma_remove_keeps_unique<T, K>(rows: Seq<T>, key: spec_fn(T) -> K, i: int)
    requires
        unique_keys(rows, key),
        0 <= i < rows.len(),
    ensures
        unique_keys(rows.remove(i), key),
{
    rows.remove_ensures(i);
    let cut = rows.remove(i);
    assert forall|a: int, b: int| 0 <= a < b < cut.len() implies key(cut[a]) != key(cut[b]) by {
        let a0 = if a < i {
            a
        } else {
            a + 1
        };
        let b0 = if b < i {
            b
        } else {
            b + 1
        };
        assert(cut[a] == rows[a0] && cut[b] == rows[b0]);
    }
}

/// After removing the only row carrying a key, the key is gone.
pub proof fn lemma_remove_unique_key<T, K>(rows: Seq<T>, key: spec_fn(T) -> K, k: K)
    requires
        unique_keys(rows, key),
        contains_key(rows, key, k),
    ensures
        !contains_key(rows.remove(idx_of_key(rows, key, k)), key, k),
        unique_keys(rows.remove(idx_of_key(rows, key, k)), key),
{
    lemma_key_index_props(rows, key, k);
    let i = idx_of_key(rows, key, k);
    let cut = rows.remove(i);
    rows.remove_ensures(i);
    assert forall|j: int| 0 <= j < cut.len() implies key(cut[j]) != k by {
        if j < i {
            assert(cut[j] == rows[j]);
        } else {
            assert(cut[j] == rows[j + 1]);
        }
    }
    assert forall|a: int, b: int| 0 <= a < b < cut.len() implies key(cut[a]) != key(cut[b]) by {
        let a0 = if a < i {
            a
        } else {
            a + 1
        };
        let b0 = if b < i {
            b
        } else {
            b + 1
        };
        assert(cut[a] == rows[a0] && cut[b] == rows[b0]);
    }
}

} // verus!
