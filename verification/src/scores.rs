//! Fixed-point score tables and clamped arithmetic.
//!
//! Scores are integers counted in thousandths. A score table is an
//! [`AssocMap`] from names to `i64` thousandths; missing names count as zero.

use vstd::prelude::*;
use crate::assoc::{AssocMap, Entry};

verus! {

/// A table of named fixed-point scores.
pub type ScoreMap = AssocMap<i64>;

/// The score bound to `k`, or zero when `k` is unbound.
pub open spec fn get_or_zero(m: Map<Seq<char>, i64>, k: Seq<char>) -> int {
    if m.dom().contains(k) {
        m[k] as int
    } else {
        0
    }
}

/// An unsigned counter credit, saturating at the counter's maximum.
pub open spec fn sat_add_u64(a: int, b: int) -> int {
    if a + b > u64::MAX {
        u64::MAX as int
    } else {
        a + b
    }
}

/// An unsigned counter product, saturating at the counter's maximum.
pub open spec fn sat_mul_u64(a: int, b: int) -> int {
    if a * b > u64::MAX {
        u64::MAX as int
    } else {
        a * b
    }
}

/// Clamps `x` into `[lo, hi]`.
pub open spec fn clamp_int(x: int, lo: int, hi: int) -> int {
    if x < lo {
        lo
    } else if x > hi {
        hi
    } else {
        x
    }
}

/// The table after adding every delta to its target and clamping the sum
/// into `[lo, hi]`; names without a delta keep their score.
pub open spec fn merge_clamped(
    base: Map<Seq<char>, i64>,
    deltas: Map<Seq<char>, i64>,
    lo: int,
    hi: int,
) -> Map<Seq<char>, i64> {
    Map::new(
        |k: Seq<char>| base.dom().contains(k) || deltas.dom().contains(k),
        |k: Seq<char>|
            if deltas.dom().contains(k) {
                clamp_int(get_or_zero(base, k) + deltas[k], lo, hi) as i64
            } else {
                base[k]
            },
    )
}

/// Every bound score lies in `[lo, hi]`.
pub open spec fn map_in_range(m: Map<Seq<char>, i64>, lo: int, hi: int) -> bool {
    forall|k: Seq<char>| #[trigger] m.dom().contains(k) ==> lo <= m[k] <= hi
}

/// Every bound score lies in the unit range `[0, 1000]` thousandths.
pub open spec fn unit_scores(m: Map<Seq<char>, i64>) -> bool {
    map_in_range(m, 0, 1000)
}

/// Every bound score lies in the signed unit range `[-1000, 1000]` thousandths.
pub open spec fn signed_unit_scores(m: Map<Seq<char>, i64>) -> bool {
    map_in_range(m, -1000, 1000)
}

/// A merge clamped into `[lo, hi]` keeps every bound score in `[lo, hi]`
/// when the base table already was there.
pub proof fn lemma_merge_keeps_range(
    base: Map<Seq<char>, i64>,
    deltas: Map<Seq<char>, i64>,
    lo: int,
    hi: int,
)
    requires
        i64::MIN <= lo <= hi <= i64::MAX,
        forall|k: Seq<char>| #[trigger] base.dom().contains(k) ==> lo <= base[k] <= hi,
    ensures
        forall|k: Seq<char>|
            #[trigger] merge_clamped(base, deltas, lo, hi).dom().contains(k)
                ==> lo <= merge_clamped(base, deltas, lo, hi)[k] <= hi,
{
    let m = merge_clamped(base, deltas, lo, hi);
    assert forall|k: Seq<char>| #[trigger] m.dom().contains(k) implies lo <= m[k] <= hi by {
        if deltas.dom().contains(k) {
            assert(m[k] == clamp_int(get_or_zero(base, k) + deltas[k], lo, hi) as i64);
        } else {
            assert(m[k] == base[k]);
        }
    }
}

/// Adds two scores and clamps the exact sum into `[lo, hi]`.
pub fn clamped_add(a: i64, b: i64, lo: i64, hi: i64) -> (r: i64)
    requires
        lo <= hi,
    ensures
        r == clamp_int(a + b, lo as int, hi as int),
{
    let s: i128 = a as i128 + b as i128;
    if s < lo as i128 {
        lo
    } else if s > hi as i128 {
        hi
    } else {
        s as i64
    }
}

impl AssocMap<i64> {
    /// The score bound to `key`, or zero.
    pub fn get_milli(&self, key: &str) -> (r: i64)
        requires
            self.wf(),
        ensures
            r == get_or_zero(self@, key@),
    {
        match self.get(key) {
            Some(v) => *v,
            None => 0,
        }
    }

    /// Decides whether every bound score lies in `[lo, hi]`.
    pub fn check_in_range(&self, lo: i64, hi: i64) -> (r: bool)
        requires
            self.wf(),
        ensures
            r == map_in_range(self@, lo as int, hi as int),
    {
        let n = self.entries.len();
        let mut i: usize = 0;
        while i < n
            invariant
                self.wf(),
                n == self.entries@.len(),
                i <= n,
                forall|j: int| 0 <= j < i ==> lo <= (#[trigger] self.entries@[j]).value <= hi,
            decreases n - i,
        {
            if self.entries[i].value < lo || self.entries[i].value > hi {
                proof {
                    AssocMap::<i64>::lemma_entries_map_get(self.entries@, i as int);
                }
                return false;
            }
            i += 1;
        }
        proof {
            AssocMap::<i64>::lemma_entries_map_dom(self.entries@);
            assert forall|k: Seq<char>| #[trigger] self@.dom().contains(k)
                    implies lo <= self@[k] <= hi by {
                let j = choose|j: int|
                    0 <= j < self.entries@.len() && self.entries@[j].key@ == k;
                AssocMap::<i64>::lemma_entries_map_get(self.entries@, j);
            }
        }
        true
    }

    /// Copies the table; the copy binds the same names to the same scores.
    pub fn duplicate(&self) -> (r: ScoreMap)
        ensures
            r@ == self@,
            self.wf() ==> r.wf(),
            r.entries@.len() == self.entries@.len(),
    {
        let mut out: ScoreMap = AssocMap::new();
        let mut i: usize = 0;
        while i < self.entries.len()
            invariant
                i <= self.entries@.len(),
                out.entries@.len() == i,
                forall|j: int|
                    0 <= j < i ==> (#[trigger] out.entries@[j]).key@ == self.entries@[j].key@
                        && out.entries@[j].value == self.entries@[j].value,
            decreases self.entries@.len() - i,
        {
            let e = Entry {
                key: crate::strutil::clone_string(&self.entries[i].key),
                value: self.entries[i].value,
            };
            out.entries.push(e);
            i += 1;
        }
        proof {
            AssocMap::<i64>::lemma_entries_map_congruent(out.entries@, self.entries@);
            if self.wf() {
                assert forall|a: int, b: int| 0 <= a < b < out.entries@.len()
                        implies out.entries@[a].key@ != out.entries@[b].key@ by {
                    assert(self.entries@[a].key@ != self.entries@[b].key@);
                }
            }
        }
        out
    }

    /// Adds every delta of `deltas` to this table, clamping each sum into
    /// `[lo, hi]`.
    #[verifier::loop_isolation(false)]
    pub fn apply_deltas(&mut self, deltas: &AssocMap<i64>, lo: i64, hi: i64)
        requires
            old(self).wf(),
            deltas.wf(),
            lo <= hi,
        ensures
            final(self).wf(),
            final(self)@ == merge_clamped(old(self)@, deltas@, lo as int, hi as int),
    {
        let ghost base = old(self)@;
        let ghost dentries = deltas.entries@;
        let n = deltas.entries.len();
        let mut i: usize = 0;
        proof {
            assert(dentries.subrange(0, 0) =~= Seq::<Entry<i64>>::empty());
            assert(self@ =~= merge_clamped(
                base,
                AssocMap::<i64>::entries_map(dentries.subrange(0, 0)),
                lo as int,
                hi as int,
            ));
        }
        while i < n
            invariant
                i <= n,
                self.wf(),
                self@ == merge_clamped(
                    base,
                    AssocMap::<i64>::entries_map(dentries.subrange(0, i as int)),
                    lo as int,
                    hi as int,
                ),
            decreases n - i,
        {
            let key: &String = &deltas.entries[i].key;
            let dv: i64 = deltas.entries[i].value;
            let cur: i64 = self.get_milli(key.as_str());
            let ghost prefix = dentries.subrange(0, i as int);
            let ghost dm = AssocMap::<i64>::entries_map(prefix);
            proof {
                AssocMap::<i64>::lemma_entries_map_dom(prefix);
                assert forall|j: int| 0 <= j < prefix.len()
                        implies prefix[j].key@ != key@ by {
                    assert(prefix[j] == dentries[j]);
                    assert(dentries[j].key@ != dentries[i as int].key@);
                }
                assert(!dm.dom().contains(key@));
                assert(get_or_zero(merge_clamped(base, dm, lo as int, hi as int), key@)
                    == get_or_zero(base, key@));
            }
            let newv: i64 = clamped_add(cur, dv, lo, hi);
            self.insert(key.as_str(), newv);
            proof {
                let next = dentries.subrange(0, i + 1);
                assert(next.drop_last() =~= prefix);
                assert(next.last() == dentries[i as int]);
                assert(AssocMap::<i64>::entries_map(next) == dm.insert(key@, dv));
                lemma_merge_insert(base, dm, key@, dv, lo as int, hi as int);
            }
            i += 1;
        }
        proof {
            assert(dentries.subrange(0, n as int) =~= dentries);
        }
    }
}

/// Folding one more fresh delta into a merge inserts its clamped sum.
proof fn lemma_merge_insert(
    base: Map<Seq<char>, i64>,
    deltas: Map<Seq<char>, i64>,
    k: Seq<char>,
    v: i64,
    lo: int,
    hi: int,
)
    requires
        !deltas.dom().contains(k),
    ensures
        merge_clamped(base, deltas.insert(k, v), lo, hi) == merge_clamped(base, deltas, lo, hi)
            .insert(k, clamp_int(get_or_zero(base, k) + v, lo, hi) as i64),
{
    assert(merge_clamped(base, deltas.insert(k, v), lo, hi) =~= merge_clamped(
        base,
        deltas,
        lo,
        hi,
    ).insert(k, clamp_int(get_or_zero(base, k) + v, lo, hi) as i64));
}

} // verus!
