//! A verified, insertion-ordered association map with string keys.
//!
//! The engine keys mastery, relationship, reputation and parameter tables by
//! name. The map is a vector of bindings with pairwise distinct keys, and its
//! view is the mathematical `Map` from key characters to the value's view.

use vstd::prelude::*;
use crate::strutil::str_eq;

verus! {

/// One key-value binding.
pub struct Entry<V> {
    pub key: String,
    pub value: V,
}

/// An insertion-ordered map from string keys to values.
pub struct AssocMap<V> {
    pub entries: Vec<Entry<V>>,
}

impl<V: View> View for AssocMap<V> {
    type V = Map<Seq<char>, V::V>;

    open spec fn view(&self) -> Map<Seq<char>, V::V> {
        AssocMap::<V>::entries_map(self.entries@)
    }
}

impl<V: View> AssocMap<V> {
    /// The map described by a prefix of bindings; later bindings win,
    /// though under `wf` every key occurs at most once.
    pub open spec fn entries_map(s: Seq<Entry<V>>) -> Map<Seq<char>, V::V>
        decreases s.len(),
    {
        if s.len() == 0 {
            Map::empty()
        } else {
            AssocMap::<V>::entries_map(s.drop_last()).insert(s.last().key@, s.last().value@)
        }
    }

    /// Some binding in the sequence carries this key.
    pub open spec fn has_key_in(s: Seq<Entry<V>>, k: Seq<char>) -> bool {
        exists|i: int| 0 <= i < s.len() && s[i].key@ == k
    }

    /// Keys are pairwise distinct.
    pub open spec fn keys_unique(s: Seq<Entry<V>>) -> bool {
        forall|i: int, j: int| 0 <= i < j < s.len() ==> s[i].key@ != s[j].key@
    }

    /// Well-formedness: no key occurs twice.
    pub open spec fn wf(self) -> bool {
        AssocMap::<V>::keys_unique(self.entries@)
    }

    /// Number of bindings.
    pub open spec fn spec_len(self) -> nat {
        self.entries@.len()
    }

    /// The domain of the map is exactly the set of keys in the sequence.
    pub proof fn lemma_entries_map_dom(s: Seq<Entry<V>>)
        ensures
            forall|k: Seq<char>|
                #[trigger] AssocMap::<V>::entries_map(s).dom().contains(k)
                    <==> AssocMap::<V>::has_key_in(s, k),
        decreases s.len(),
    {
        if s.len() == 0 {
        } else {
            let prefix = s.drop_last();
            AssocMap::<V>::lemma_entries_map_dom(prefix);
            assert forall|k: Seq<char>|
                #[trigger] AssocMap::<V>::entries_map(s).dom().contains(k)
                    implies AssocMap::<V>::has_key_in(s, k) by {
                if k == s.last().key@ {
                    assert(s[s.len() - 1].key@ == k);
                } else {
                    assert(AssocMap::<V>::entries_map(prefix).dom().contains(k));
                    assert(AssocMap::<V>::has_key_in(prefix, k));
                    let i = choose|i: int| 0 <= i < prefix.len() && prefix[i].key@ == k;
                    assert(prefix[i] == s[i]);
                    assert(s[i].key@ == k);
                }
            }
            assert forall|k: Seq<char>| AssocMap::<V>::has_key_in(s, k)
                    implies #[trigger] AssocMap::<V>::entries_map(s).dom().contains(k) by {
                let i = choose|i: int| 0 <= i < s.len() && s[i].key@ == k;
                if i < s.len() - 1 {
                    assert(prefix[i] == s[i]);
                    assert(prefix[i].key@ == k);
                    assert(AssocMap::<V>::has_key_in(prefix, k));
                    assert(AssocMap::<V>::entries_map(prefix).dom().contains(k));
                } else {
                    assert(k == s.last().key@);
                }
            }
        }
    }

    /// Under distinct keys, the map sends each binding's key to its value.
    pub proof fn lemma_entries_map_get(s: Seq<Entry<V>>, i: int)
        requires
            AssocMap::<V>::keys_unique(s),
            0 <= i < s.len(),
        ensures
            AssocMap::<V>::entries_map(s).dom().contains(s[i].key@),
            AssocMap::<V>::entries_map(s)[s[i].key@] == s[i].value@,
        decreases s.len(),
    {
        if i == s.len() - 1 {
        } else {
            let prefix = s.drop_last();
            assert(AssocMap::<V>::keys_unique(prefix));
            AssocMap::<V>::lemma_entries_map_get(prefix, i);
            assert(s[i].key@ != s.last().key@);
        }
    }

    /// Appending a binding inserts its key.
    pub proof fn lemma_entries_map_push(s: Seq<Entry<V>>, e: Entry<V>)
        ensures
            AssocMap::<V>::entries_map(s.push(e))
                == AssocMap::<V>::entries_map(s).insert(e.key@, e.value@),
    {
        assert(s.push(e).drop_last() =~= s);
        assert(s.push(e).last() == e);
    }

    /// Replacing the binding at `i` by one with the same key updates that key.
    pub proof fn lemma_entries_map_update(s: Seq<Entry<V>>, i: int, e: Entry<V>)
        requires
            AssocMap::<V>::keys_unique(s),
            0 <= i < s.len(),
            s[i].key@ == e.key@,
        ensures
            AssocMap::<V>::entries_map(s.update(i, e))
                == AssocMap::<V>::entries_map(s).insert(e.key@, e.value@),
        decreases s.len(),
    {
        let t = s.update(i, e);
        if i == s.len() - 1 {
            assert(t.drop_last() =~= s.drop_last());
            assert(t.last() == e);
            assert(AssocMap::<V>::entries_map(s.drop_last()).insert(s.last().key@, s.last().value@)
                .insert(e.key@, e.value@)
                =~= AssocMap::<V>::entries_map(s.drop_last()).insert(e.key@, e.value@));
        } else {
            let prefix = s.drop_last();
            assert(AssocMap::<V>::keys_unique(prefix));
            AssocMap::<V>::lemma_entries_map_update(prefix, i, e);
            assert(t.drop_last() =~= prefix.update(i, e));
            assert(t.last() == s.last());
            assert(s[i].key@ != s.last().key@);
            assert(AssocMap::<V>::entries_map(prefix).insert(e.key@, e.value@)
                .insert(s.last().key@, s.last().value@)
                =~= AssocMap::<V>::entries_map(prefix).insert(s.last().key@, s.last().value@)
                    .insert(e.key@, e.value@));
        }
    }

    /// Two binding sequences with the same key and value views describe the
    /// same map.
    pub proof fn lemma_entries_map_congruent(s1: Seq<Entry<V>>, s2: Seq<Entry<V>>)
        requires
            s1.len() == s2.len(),
            forall|i: int|
                0 <= i < s1.len() ==> (#[trigger] s1[i]).key@ == s2[i].key@ && s1[i].value@
                    == s2[i].value@,
        ensures
            AssocMap::<V>::entries_map(s1) == AssocMap::<V>::entries_map(s2),
        decreases s1.len(),
    {
        if s1.len() == 0 {
            assert(AssocMap::<V>::entries_map(s1) =~= AssocMap::<V>::entries_map(s2));
        } else {
            let p1 = s1.drop_last();
            let p2 = s2.drop_last();
            assert forall|i: int|
                0 <= i < p1.len() implies (#[trigger] p1[i]).key@ == p2[i].key@ && p1[i].value@
                    == p2[i].value@ by {
                assert(p1[i] == s1[i]);
                assert(p2[i] == s2[i]);
            }
            AssocMap::<V>::lemma_entries_map_congruent(p1, p2);
            assert(s1.last().key@ == s2.last().key@);
            assert(s1.last().value@ == s2.last().value@);
        }
    }

    /// An empty map.
    pub fn new() -> (r: AssocMap<V>)
        ensures
            r.wf(),
            r@ == Map::<Seq<char>, V::V>::empty(),
            r.spec_len() == 0,
    {
        AssocMap { entries: Vec::new() }
    }

    /// Looks the value for `key` up.
    pub fn get(&self, key: &str) -> (r: Option<&V>)
        requires
            self.wf(),
        ensures
            match r {
                Some(v) => self@.dom().contains(key@) && v@ == self@[key@],
                None => !self@.dom().contains(key@),
            },
    {
        proof {
            AssocMap::<V>::lemma_entries_map_dom(self.entries@);
        }
        let ghost orig = self.entries@;
        let n = self.entries.len();
        let mut i: usize = 0;
        while i < n
            invariant
                n == orig.len(),
                i <= n,
                self.entries@ == orig,
                AssocMap::<V>::keys_unique(orig),
                forall|j: int| 0 <= j < i ==> orig[j].key@ != key@,
            decreases n - i,
        {
            if str_eq(self.entries[i].key.as_str(), key) {
                proof {
                    AssocMap::<V>::lemma_entries_map_get(orig, i as int);
                }
                return Some(&self.entries[i].value);
            }
            i += 1;
        }
        None
    }

    /// True when the map holds a binding for `key`.
    pub fn contains_key(&self, key: &str) -> (r: bool)
        requires
            self.wf(),
        ensures
            r == self@.dom().contains(key@),
    {
        self.get(key).is_some()
    }

    /// Decides well-formedness: no key may occur twice.
    pub fn check_wf(&self) -> (r: bool)
        ensures
            r == self.wf(),
    {
        let n = self.entries.len();
        let mut i: usize = 0;
        while i < n
            invariant
                n == self.entries@.len(),
                i <= n,
                forall|a: int, b: int|
                    0 <= a < b < i ==> self.entries@[a].key@ != self.entries@[b].key@,
            decreases n - i,
        {
            let mut j: usize = 0;
            while j < i
                invariant
                    i < n,
                    n == self.entries@.len(),
                    j <= i,
                    forall|a: int, b: int|
                        0 <= a < b < i ==> self.entries@[a].key@ != self.entries@[b].key@,
                    forall|a: int| 0 <= a < j ==> self.entries@[a].key@ != self.entries@[i as int].key@,
                decreases i - j,
            {
                if str_eq(self.entries[j].key.as_str(), self.entries[i].key.as_str()) {
                    return false;
                }
                j += 1;
            }
            i += 1;
        }
        true
    }

    /// Binds `key` to `value`, replacing any earlier binding.
    #[verifier::loop_isolation(false)]
    pub fn insert(&mut self, key: &str, value: V)
        requires
            old(self).wf(),
        ensures
            final(self).wf(),
            final(self)@ == old(self)@.insert(key@, value@),
            final(self).spec_len() <= old(self).spec_len() + 1,
    {
        let ghost orig = self.entries@;
        let n = self.entries.len();
        let mut i: usize = 0;
        while i < n
            invariant
                n == orig.len(),
                i <= n,
                self.entries@ == orig,
                AssocMap::<V>::keys_unique(orig),
                forall|j: int| 0 <= j < i ==> orig[j].key@ != key@,
            decreases n - i,
        {
            if str_eq(self.entries[i].key.as_str(), key) {
                let old_entry = self.entries.remove(i);
                let e = Entry { key: old_entry.key, value };
                self.entries.insert(i, e);
                proof {
                    assert(self.entries@ =~= orig.update(i as int, e));
                    AssocMap::<V>::lemma_entries_map_update(orig, i as int, e);
                    assert forall|a: int, b: int|
                        0 <= a < b < self.entries@.len()
                            implies self.entries@[a].key@ != self.entries@[b].key@ by {
                        assert(orig[a].key@ != orig[b].key@);
                    }
                }
                return ;
            }
            i += 1;
        }
        let e = Entry { key: key.to_owned(), value };
        self.entries.push(e);
        proof {
            AssocMap::<V>::lemma_entries_map_push(orig, e);
            assert forall|a: int, b: int|
                0 <= a < b < self.entries@.len()
                    implies self.entries@[a].key@ != self.entries@[b].key@ by {
                if b < orig.len() {
                    assert(orig[a].key@ != orig[b].key@);
                } else {
                    assert(orig[a].key@ != key@);
                }
            }
        }
    }
}

impl AssocMap<String> {
    /// Copies a table of strings; the copy binds the same keys to values
    /// with the same characters.
    pub fn duplicate(&self) -> (r: AssocMap<String>)
        ensures
            r@ == self@,
            self.wf() ==> r.wf(),
            r.entries@.len() == self.entries@.len(),
    {
        let mut out: AssocMap<String> = AssocMap::new();
        let mut i: usize = 0;
        while i < self.entries.len()
            invariant
                i <= self.entries@.len(),
                out.entries@.len() == i,
                forall|j: int|
                    0 <= j < i ==> (#[trigger] out.entries@[j]).key@ == self.entries@[j].key@
                        && out.entries@[j].value@ == self.entries@[j].value@,
            decreases self.entries@.len() - i,
        {
            let e = Entry {
                key: crate::strutil::clone_string(&self.entries[i].key),
                value: crate::strutil::clone_string(&self.entries[i].value),
            };
            out.entries.push(e);
            i += 1;
        }
        proof {
            AssocMap::<String>::lemma_entries_map_congruent(out.entries@, self.entries@);
            if self.wf() {
                assert forall|a: int, b: int| 0 <= a < b < out.entries@.len()
                        implies out.entries@[a].key@ != out.entries@[b].key@ by {
                    assert(self.entries@[a].key@ != self.entries@[b].key@);
                }
            }
        }
        out
    }
}

} // verus!
