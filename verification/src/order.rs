//! Mathematical model of the deterministic ordering that the listing
//! operations promise: a stable insertion sort over an arbitrary strict
//! comparison. An element is inserted in front of the first element it
//! strictly precedes, so equal keys keep their insertion order.

use vstd::multiset::Multiset;
use vstd::prelude::*;

verus! {

/// `x` placed into `s` in front of the first element that `x` strictly
/// precedes under `lt`.
pub open spec fn insert_sorted<T>(lt: spec_fn(T, T) -> bool, x: T, s: Seq<T>) -> Seq<T>
    decreases s.len(),
{
    if s.len() == 0 {
        seq![x]
    } else if lt(x, s[0]) {
        seq![x] + s
    } else {
        seq![s[0]] + insert_sorted(lt, x, s.drop_first())
    }
}

/// The stable insertion sort of `s` under `lt`: each element, from first to
/// last, inserted into the sorted prefix before it.
pub open spec fn sort_by_lt<T>(lt: spec_fn(T, T) -> bool, s: Seq<T>) -> Seq<T>
    decreases s.len(),
{
    if s.len() == 0 {
        Seq::<T>::empty()
    } else {
        insert_sorted(lt, s.last(), sort_by_lt(lt, s.drop_last()))
    }
}

pub proof fn lemma_insert_sorted_len<T>(lt: spec_fn(T, T) -> bool, x: T, s: Seq<T>)
    ensures
        insert_sorted(lt, x, s).len() == s.len() + 1,
    decreases s.len(),
{
    if s.len() == 0 {
    } else if lt(x, s[0]) {
    } else {
        lemma_insert_sorted_len(lt, x, s.drop_first());
    }
}

pub proof fn lemma_sort_by_lt_len<T>(lt: spec_fn(T, T) -> bool, s: Seq<T>)
    ensures
        sort_by_lt(lt, s).len() == s.len(),
    decreases s.len(),
{
    if s.len() == 0 {
    } else {
        lemma_sort_by_lt_len(lt, s.drop_last());
        lemma_insert_sorted_len(lt, s.last(), sort_by_lt(lt, s.drop_last()));
    }
}

/// No later element strictly precedes an earlier one.
pub open spec fn sorted_by<T>(lt: spec_fn(T, T) -> bool, s: Seq<T>) -> bool {
    forall|i: int, j: int| 0 <= i < j < s.len() ==> !lt(s[j], s[i])
}

/// Every element of an insertion is the inserted one or one of the old
/// ones.
pub proof fn lemma_insert_sorted_membership<T>(lt: spec_fn(T, T) -> bool, x: T, s: Seq<T>, k: int)
    requires
        0 <= k < insert_sorted(lt, x, s).len(),
    ensures
        insert_sorted(lt, x, s)[k] == x || s.contains(insert_sorted(lt, x, s)[k]),
    decreases s.len(),
{
    let out = insert_sorted(lt, x, s);
    if s.len() == 0 {
    } else if lt(x, s[0]) {
        if k > 0 {
            assert(out[k] == s[k - 1]);
        }
    } else {
        if k > 0 {
            lemma_insert_sorted_membership(lt, x, s.drop_first(), k - 1);
            let rest = insert_sorted(lt, x, s.drop_first());
            assert(out[k] == rest[k - 1]);
            if rest[k - 1] != x {
                let m = choose|m: int| 0 <= m < s.drop_first().len() && s.drop_first()[m] == rest[
                    k - 1];
                assert(s[m + 1] == rest[k - 1]);
            }
        }
    }
}

/// Inserting with the first-strict-predecessor rule keeps the sequence
/// sorted, for a transitive, asymmetric comparison.
pub proof fn lemma_insert_sorted_sorted<T>(lt: spec_fn(T, T) -> bool, x: T, s: Seq<T>)
    requires
        forall|a: T, b: T, c: T| #[trigger] lt(a, b) && #[trigger] lt(b, c) ==> lt(a, c),
        forall|a: T, b: T| #[trigger] lt(a, b) ==> !lt(b, a),
        sorted_by(lt, s),
    ensures
        sorted_by(lt, insert_sorted(lt, x, s)),
    decreases s.len(),
{
    let out = insert_sorted(lt, x, s);
    if s.len() == 0 {
    } else if lt(x, s[0]) {
        assert forall|i: int, j: int| 0 <= i < j < out.len() implies !lt(out[j], out[i]) by {
            if i == 0 {
                if j == 1 {
                    assert(out[j] == s[0]);
                } else {
                    assert(out[j] == s[j - 1]);
                    assert(!lt(s[j - 1], s[0]));
                }
            } else {
                assert(out[i] == s[i - 1] && out[j] == s[j - 1]);
            }
        }
    } else {
        let rest = s.drop_first();
        assert forall|i: int, j: int| 0 <= i < j < rest.len() implies !lt(rest[j], rest[i]) by {
            assert(rest[i] == s[i + 1] && rest[j] == s[j + 1]);
        }
        lemma_insert_sorted_sorted(lt, x, rest);
        let inserted = insert_sorted(lt, x, rest);
        assert forall|i: int, j: int| 0 <= i < j < out.len() implies !lt(out[j], out[i]) by {
            if i == 0 {
                assert(out[j] == inserted[j - 1]);
                lemma_insert_sorted_membership(lt, x, rest, j - 1);
                if inserted[j - 1] == x {
                    assert(!lt(x, s[0]));
                } else {
                    let m = choose|m: int| 0 <= m < rest.len() && rest[m] == inserted[j - 1];
                    assert(rest[m] == s[m + 1]);
                    assert(!lt(s[m + 1], s[0]));
                }
            } else {
                assert(out[i] == inserted[i - 1] && out[j] == inserted[j - 1]);
            }
        }
    }
}

/// The insertion sort sorts, for a transitive, asymmetric comparison.
pub proof fn lemma_sort_by_lt_sorted<T>(lt: spec_fn(T, T) -> bool, s: Seq<T>)
    requires
        forall|a: T, b: T, c: T| #[trigger] lt(a, b) && #[trigger] lt(b, c) ==> lt(a, c),
        forall|a: T, b: T| #[trigger] lt(a, b) ==> !lt(b, a),
    ensures
        sorted_by(lt, sort_by_lt(lt, s)),
    decreases s.len(),
{
    if s.len() == 0 {
    } else {
        lemma_sort_by_lt_sorted(lt, s.drop_last());
        lemma_insert_sorted_sorted(lt, s.last(), sort_by_lt(lt, s.drop_last()));
    }
}

/// An insertion adds exactly the inserted element to the sequence's
/// contents.
pub proof fn lemma_insert_sorted_multiset<T>(lt: spec_fn(T, T) -> bool, x: T, s: Seq<T>)
    ensures
        insert_sorted(lt, x, s).to_multiset() == s.to_multiset().insert(x),
    decreases s.len(),
{
    broadcast use vstd::seq_lib::group_to_multiset_ensures;
    broadcast use vstd::multiset::group_multiset_axioms;

    if s.len() == 0 {
        assert(seq![x] =~= Seq::<T>::empty().push(x));
        assert(Seq::<T>::empty().to_multiset() =~= Multiset::<T>::empty());
        assert(insert_sorted(lt, x, s).to_multiset() =~= s.to_multiset().insert(x));
    } else if lt(x, s[0]) {
        vstd::seq_lib::lemma_multiset_commutative(seq![x], s);
        assert(seq![x] =~= Seq::<T>::empty().push(x));
        assert(Seq::<T>::empty().to_multiset() =~= Multiset::<T>::empty());
        assert(insert_sorted(lt, x, s).to_multiset() =~= s.to_multiset().insert(x));
    } else {
        let rest = s.drop_first();
        lemma_insert_sorted_multiset(lt, x, rest);
        vstd::seq_lib::lemma_multiset_commutative(seq![s[0]], insert_sorted(lt, x, rest));
        vstd::seq_lib::lemma_multiset_commutative(seq![s[0]], rest);
        assert(seq![s[0]] + rest =~= s);
        assert(seq![s[0]] =~= Seq::<T>::empty().push(s[0]));
        assert(Seq::<T>::empty().to_multiset() =~= Multiset::<T>::empty());
        assert(insert_sorted(lt, x, s).to_multiset() =~= s.to_multiset().insert(x));
    }
}

/// The sort rearranges and nothing more: its result holds exactly the
/// elements it was given.
pub proof fn lemma_sort_by_lt_multiset<T>(lt: spec_fn(T, T) -> bool, s: Seq<T>)
    ensures
        sort_by_lt(lt, s).to_multiset() == s.to_multiset(),
    decreases s.len(),
{
    broadcast use vstd::seq_lib::group_to_multiset_ensures;

    if s.len() == 0 {
    } else {
        lemma_sort_by_lt_multiset(lt, s.drop_last());
        lemma_insert_sorted_multiset(lt, s.last(), sort_by_lt(lt, s.drop_last()));
        assert(s =~= s.drop_last().push(s.last()));
        assert(s.drop_last().push(s.last()).to_multiset() =~= s.drop_last().to_multiset().insert(
            s.last(),
        ));
    }
}

/// Inserting at the first position whose element `x` strictly precedes is
/// the same as splicing `x` in at that position.
pub proof fn lemma_insert_sorted_position<T>(lt: spec_fn(T, T) -> bool, x: T, s: Seq<T>, p: int)
    requires
        0 <= p <= s.len(),
        forall|i: int| 0 <= i < p ==> !lt(x, #[trigger] s[i]),
        p < s.len() ==> lt(x, s[p]),
    ensures
        insert_sorted(lt, x, s) == s.insert(p, x),
    decreases p,
{
    if p == 0 {
        if s.len() == 0 {
            assert(insert_sorted(lt, x, s) =~= s.insert(0, x));
        } else {
            assert(lt(x, s[0]));
            assert(insert_sorted(lt, x, s) =~= s.insert(0, x));
        }
    } else {
        assert(!lt(x, s[0]));
        assert(forall|i: int|
            0 <= i < p - 1 ==> !lt(x, #[trigger] s.drop_first()[i]) == !lt(x, s[i + 1]));
        lemma_insert_sorted_position(lt, x, s.drop_first(), p - 1);
        assert(insert_sorted(lt, x, s) == seq![s[0]] + s.drop_first().insert(p - 1, x));
        assert(seq![s[0]] + s.drop_first().insert(p - 1, x) =~= s.insert(p, x));
    }
}

} // verus!
