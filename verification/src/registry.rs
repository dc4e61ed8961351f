//! A small theory of keyed entry sequences.
//!
//! Every store of the gateway — the pool registry, the transaction store,
//! the cursor store, the configuration map — keeps its entries in a vector
//! whose keys are unique.  The spec functions here say what such a sequence
//! holds under a key, and the lemmas relate that to pushing, removing and
//! filtering, so each store can state its contracts over one lookup
//! function.

use vstd::prelude::*;

verus! {

/// No two entries of `s` carry the same key.
pub open spec fn entries_unique<E, K>(s: Seq<E>, key: spec_fn(E) -> K) -> bool {
    forall|i: int, j: int|
        0 <= i < j < s.len() ==> key(#[trigger] s[i]) != key(#[trigger] s[j])
}

/// The entry of `s` carrying key `k`, where later entries shadow earlier
/// ones; with unique keys, the one entry carrying `k`.
pub open spec fn entry_at<E, K>(s: Seq<E>, key: spec_fn(E) -> K, k: K) -> Option<E>
    decreases s.len(),
{
    if s.len() == 0 {
        None
    } else if key(s.last()) == k {
        Some(s.last())
    } else {
        entry_at(s.drop_last(), key, k)
    }
}

/// A found entry is an entry of the sequence and carries the key it was
/// found under.
pub proof fn lemma_entry_at_some<E, K>(s: Seq<E>, key: spec_fn(E) -> K, k: K)
    requires
        entry_at(s, key, k).is_some(),
    ensures
        s.contains(entry_at(s, key, k).unwrap()),
        key(entry_at(s, key, k).unwrap()) == k,
    decreases s.len(),
{
    if s.len() > 0 && key(s.last()) != k {
        lemma_entry_at_some(s.drop_last(), key, k);
        let e = entry_at(s.drop_last(), key, k).unwrap();
        let i = choose|i: int| 0 <= i < s.drop_last().len() && s.drop_last()[i] == e;
        assert(s[i] == e);
    }
}

/// Nothing is found under `k` exactly when no entry carries `k`.
pub proof fn lemma_entry_at_none<E, K>(s: Seq<E>, key: spec_fn(E) -> K, k: K)
    ensures
        entry_at(s, key, k).is_none() <==> (forall|i: int|
            0 <= i < s.len() ==> key(#[trigger] s[i]) != k),
    decreases s.len(),
{
    if s.len() > 0 {
        lemma_entry_at_none(s.drop_last(), key, k);
        assert(forall|i: int|
            0 <= i < s.len() - 1 ==> s.drop_last()[i] == #[trigger] s[i]);
    }
}

/// What a push is found under: the new entry under its own key, the old
/// entries under every other.
pub proof fn lemma_entry_at_push<E, K>(s: Seq<E>, key: spec_fn(E) -> K, e: E, k: K)
    ensures
        entry_at(s.push(e), key, k) == (if key(e) == k {
            Some(e)
        } else {
            entry_at(s, key, k)
        }),
{
    assert(s.push(e).drop_last() =~= s);
}

/// Pushing an entry whose key is fresh keeps the keys unique.
pub proof fn lemma_push_unique<E, K>(s: Seq<E>, key: spec_fn(E) -> K, e: E)
    requires
        entries_unique(s, key),
        entry_at(s, key, key(e)).is_none(),
    ensures
        entries_unique(s.push(e), key),
{
    lemma_entry_at_none(s, key, key(e));
}

/// Every entry of a filtered sequence is an entry of the original.
pub proof fn lemma_filter_elements<E>(s: Seq<E>, p: spec_fn(E) -> bool)
    ensures
        forall|i: int|
            0 <= i < s.filter(p).len() ==> s.contains(#[trigger] s.filter(p)[i]),
    decreases s.len(),
{
    reveal(Seq::filter);
    if s.len() > 0 {
        let dl = s.drop_last();
        lemma_filter_elements(dl, p);
        assert forall|i: int| 0 <= i < s.filter(p).len() implies s.contains(
            #[trigger] s.filter(p)[i],
        ) by {
            if i < dl.filter(p).len() {
                assert(dl.filter(p)[i] == s.filter(p)[i]);
                let j = choose|j: int| 0 <= j < dl.len() && dl[j] == dl.filter(p)[i];
                assert(s[j] == s.filter(p)[i]);
            } else {
                assert(s.filter(p)[i] == s.last());
            }
        }
    }
}

/// Filtering keeps the keys unique.
pub proof fn lemma_filter_unique<E, K>(s: Seq<E>, key: spec_fn(E) -> K, p: spec_fn(E) -> bool)
    requires
        entries_unique(s, key),
    ensures
        entries_unique(s.filter(p), key),
    decreases s.len(),
{
    reveal(Seq::filter);
    if s.len() > 0 {
        let dl = s.drop_last();
        assert(entries_unique(dl, key));
        lemma_filter_unique(dl, key, p);
        if p(s.last()) {
            lemma_filter_elements(dl, p);
            assert forall|i: int, j: int|
                0 <= i < j < s.filter(p).len() implies key(#[trigger] s.filter(p)[i]) != key(
                #[trigger] s.filter(p)[j],
            ) by {
                if j == s.filter(p).len() - 1 {
                    assert(s.filter(p)[j] == s.last());
                    assert(dl.filter(p)[i] == s.filter(p)[i]);
                    let a = choose|a: int| 0 <= a < dl.len() && dl[a] == dl.filter(p)[i];
                    assert(key(s[a]) != key(s[s.len() - 1]));
                } else {
                    assert(dl.filter(p)[i] == s.filter(p)[i]);
                    assert(dl.filter(p)[j] == s.filter(p)[j]);
                }
            }
        }
    }
}

/// What a filtered sequence is found under: the original entry where it
/// passes the filter, nothing where it does not.
pub proof fn lemma_entry_at_filter<E, K>(
    s: Seq<E>,
    key: spec_fn(E) -> K,
    p: spec_fn(E) -> bool,
    k: K,
)
    requires
        entries_unique(s, key),
    ensures
        entry_at(s.filter(p), key, k) == (match entry_at(s, key, k) {
            Some(e) => if p(e) {
                Some(e)
            } else {
                None
            },
            None => None,
        }),
    decreases s.len(),
{
    reveal(Seq::filter);
    if s.len() > 0 {
        let dl = s.drop_last();
        assert(entries_unique(dl, key));
        lemma_entry_at_filter(dl, key, p, k);
        if key(s.last()) == k {
            lemma_entry_at_none(dl, key, k);
            if p(s.last()) {
                lemma_entry_at_push(dl.filter(p), key, s.last(), k);
            }
        } else {
            if p(s.last()) {
                lemma_entry_at_push(dl.filter(p), key, s.last(), k);
            }
        }
    }
}

/// What an update in place is found under: the new entry under the shared
/// key of old and new, the old entries under every other.
pub proof fn lemma_entry_at_update<E, K>(s: Seq<E>, key: spec_fn(E) -> K, i: int, e: E, k: K)
    requires
        entries_unique(s, key),
        0 <= i < s.len(),
        key(e) == key(s[i]),
    ensures
        entry_at(s.update(i, e), key, k) == (if key(s[i]) == k {
            Some(e)
        } else {
            entry_at(s, key, k)
        }),
        entries_unique(s.update(i, e), key),
    decreases s.len(),
{
    if i == s.len() - 1 {
        assert(s.update(i, e).drop_last() =~= s.drop_last());
        assert(s.update(i, e).last() == e);
    } else {
        let dl = s.drop_last();
        assert(entries_unique(dl, key));
        lemma_entry_at_update(dl, key, i, e, k);
        assert(s.update(i, e).drop_last() =~= dl.update(i, e));
        assert(s.update(i, e).last() == s.last());
    }
}

/// What remains after removing the entry at `i`: nothing under its key,
/// the old entries under every other.
pub proof fn lemma_entry_at_remove<E, K>(s: Seq<E>, key: spec_fn(E) -> K, i: int, k: K)
    requires
        entries_unique(s, key),
        0 <= i < s.len(),
    ensures
        entry_at(s.remove(i), key, k) == (if key(s[i]) == k {
            None
        } else {
            entry_at(s, key, k)
        }),
        entries_unique(s.remove(i), key),
    decreases s.len(),
{
    if i == s.len() - 1 {
        assert(s.remove(i) =~= s.drop_last());
        assert(entries_unique(s.drop_last(), key));
        if key(s[i]) == k {
            lemma_entry_at_none(s.drop_last(), key, k);
        }
    } else {
        let dl = s.drop_last();
        assert(entries_unique(dl, key));
        lemma_entry_at_remove(dl, key, i, k);
        assert(s.remove(i).drop_last() =~= dl.remove(i));
        assert(s.remove(i).last() == s.last());
        assert(s.remove(i).len() == s.len() - 1);
        if key(s[i]) == k {
            assert(key(s.last()) != k);
        }
        assert forall|a: int, b: int|
            0 <= a < b < s.remove(i).len() implies key(#[trigger] s.remove(i)[a]) != key(
            #[trigger] s.remove(i)[b],
        ) by {
            let a0 = if a < i {
                a
            } else {
                a + 1
            };
            let b0 = if b < i {
                b
            } else {
                b + 1
            };
            assert(s.remove(i)[a] == s[a0]);
            assert(s.remove(i)[b] == s[b0]);
        }
    }
}

} // verus!
