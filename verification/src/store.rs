//! Reasoning helpers for vectors of records keyed by a string identifier.
//!
//! Player states and quest records live in insertion-ordered vectors whose
//! entries carry pairwise distinct keys. These spec functions and lemmas
//! describe lookup by key and how it behaves under append and replacement.

use vstd::prelude::*;

verus! {

/// A record that carries its own string key.
pub trait Keyed {
    /// The characters of the record's key.
    spec fn key(self) -> Seq<char>;
}

/// Some record in the sequence carries this key.
pub open spec fn has_key<T: Keyed>(s: Seq<T>, k: Seq<char>) -> bool {
    exists|i: int| 0 <= i < s.len() && s[i].key() == k
}

/// The position of the record carrying `k`.
pub open spec fn index_of<T: Keyed>(s: Seq<T>, k: Seq<char>) -> int {
    choose|i: int| 0 <= i < s.len() && s[i].key() == k
}

/// The record carrying `k`.
pub open spec fn entry_of<T: Keyed>(s: Seq<T>, k: Seq<char>) -> T {
    s[index_of(s, k)]
}

/// Keys are pairwise distinct.
pub open spec fn keys_unique<T: Keyed>(s: Seq<T>) -> bool {
    forall|i: int, j: int| 0 <= i < j < s.len() ==> s[i].key() != s[j].key()
}

/// Under distinct keys, the record at any position is the one its key finds.
pub proof fn lemma_at_index<T: Keyed>(s: Seq<T>, i: int)
    requires
        keys_unique(s),
        0 <= i < s.len(),
    ensures
        has_key(s, s[i].key()),
        index_of(s, s[i].key()) == i,
        entry_of(s, s[i].key()) == s[i],
{
    assert(has_key(s, s[i].key()));
    let j = index_of(s, s[i].key());
    if j != i {
        assert(s[i].key() != s[j].key());
    }
}

/// Appending a record with a fresh key keeps every other lookup unchanged.
pub proof fn lemma_push_fresh<T: Keyed>(s: Seq<T>, x: T)
    requires
        keys_unique(s),
        !has_key(s, x.key()),
    ensures
        keys_unique(s.push(x)),
        has_key(s.push(x), x.key()),
        entry_of(s.push(x), x.key()) == x,
        forall|k: Seq<char>| k != x.key() ==> #[trigger] has_key(s.push(x), k) == has_key(s, k),
        forall|k: Seq<char>|
            k != x.key() && has_key(s, k) ==> #[trigger] entry_of(s.push(x), k) == entry_of(s, k),
{
    let t = s.push(x);
    assert forall|i: int, j: int| 0 <= i < j < t.len() implies t[i].key() != t[j].key() by {
        if j == s.len() {
            if t[i].key() == x.key() {
                assert(has_key(s, x.key()));
            }
        }
    }
    assert(t[s.len() as int].key() == x.key());
    lemma_at_index(t, s.len() as int);
    assert forall|k: Seq<char>| k != x.key() implies #[trigger] has_key(t, k) == has_key(s, k) by {
        if has_key(t, k) {
            let i = index_of(t, k);
            lemma_at_index(t, i);
            assert(i < s.len());
            assert(s[i].key() == k);
        }
        if has_key(s, k) {
            let i = index_of(s, k);
            lemma_at_index(s, i);
            assert(t[i].key() == k);
        }
    }
    assert forall|k: Seq<char>| k != x.key() && has_key(s, k)
            implies #[trigger] entry_of(t, k) == entry_of(s, k) by {
        let i = index_of(s, k);
        lemma_at_index(s, i);
        assert(t[i].key() == k);
        lemma_at_index(t, i);
    }
}

/// Replacing the record at `i` by one with the same key changes only that
/// key's lookup.
pub proof fn lemma_update_same_key<T: Keyed>(s: Seq<T>, i: int, x: T)
    requires
        keys_unique(s),
        0 <= i < s.len(),
        x.key() == s[i].key(),
    ensures
        keys_unique(s.update(i, x)),
        forall|k: Seq<char>| #[trigger] has_key(s.update(i, x), k) == has_key(s, k),
        has_key(s, x.key()),
        entry_of(s.update(i, x), x.key()) == x,
        forall|k: Seq<char>|
            k != x.key() && has_key(s, k) ==> #[trigger] entry_of(s.update(i, x), k) == entry_of(
                s,
                k,
            ),
{
    let t = s.update(i, x);
    assert forall|a: int, b: int| 0 <= a < b < t.len() implies t[a].key() != t[b].key() by {
        assert(s[a].key() != s[b].key());
    }
    lemma_at_index(s, i);
    lemma_at_index(t, i);
    assert forall|k: Seq<char>| #[trigger] has_key(t, k) == has_key(s, k) by {
        if has_key(t, k) {
            let a = index_of(t, k);
            lemma_at_index(t, a);
            if a == i {
                assert(s[i].key() == k);
            } else {
                assert(s[a].key() == k);
            }
        }
        if has_key(s, k) {
            let a = index_of(s, k);
            lemma_at_index(s, a);
            if a == i {
                assert(t[i].key() == k);
            } else {
                assert(t[a].key() == k);
            }
        }
    }
    assert forall|k: Seq<char>| k != x.key() && has_key(s, k)
            implies #[trigger] entry_of(t, k) == entry_of(s, k) by {
        let a = index_of(s, k);
        lemma_at_index(s, a);
        assert(a != i);
        assert(t[a].key() == k);
        lemma_at_index(t, a);
    }
}

} // verus!
