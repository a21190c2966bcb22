//! Verified helpers over strings and vectors of strings.

use vstd::prelude::*;

verus! {

/// Compares two string slices character by character.
pub fn str_eq(a: &str, b: &str) -> (r: bool)
    ensures
        r == (a@ == b@),
{
    let alen = a.unicode_len();
    let blen = b.unicode_len();
    if alen != blen {
        return false;
    }
    let mut i: usize = 0;
    while i < alen
        invariant
            i <= alen,
            alen == a@.len(),
            alen == b@.len(),
            forall|j: int| 0 <= j < i ==> a@[j] == b@[j],
        decreases alen - i,
    {
        if a.get_char(i) != b.get_char(i) {
            return false;
        }
        i += 1;
    }
    proof {
        assert(a@ =~= b@);
    }
    true
}

/// True when the vector holds a string whose characters equal `key`'s.
pub fn contains_string(v: &Vec<String>, key: &str) -> (r: bool)
    ensures
        r == v.deep_view().contains(key@),
{
    let mut i: usize = 0;
    while i < v.len()
        invariant
            i <= v@.len(),
            forall|j: int| 0 <= j < i ==> v.deep_view()[j] != key@,
        decreases v@.len() - i,
    {
        if str_eq(v[i].as_str(), key) {
            proof {
                assert(v.deep_view()[i as int] == key@);
            }
            return true;
        }
        i += 1;
    }
    proof {
        assert forall|j: int| 0 <= j < v.deep_view().len() implies v.deep_view()[j] != key@ by {}
    }
    false
}

/// Appends `item` only when no string with the same characters is present,
/// so that repeating the same grant leaves the vector unchanged.
pub fn push_unique_string(v: &mut Vec<String>, item: &String)
    ensures
        final(v).deep_view() == push_unique_model(old(v).deep_view(), item@),
        final(v)@.len() <= old(v)@.len() + 1,
{
    if !contains_string(v, item.as_str()) {
        let copied: String = clone_string(item);
        v.push(copied);
        proof {
            assert(v.deep_view() =~= old(v).deep_view().push(item@));
        }
    }
}

/// What a deduplicating append does to the sequence of character strings.
pub open spec fn push_unique_model(s: Seq<Seq<char>>, item: Seq<char>) -> Seq<Seq<char>> {
    if s.contains(item) {
        s
    } else {
        s.push(item)
    }
}

/// True when the vector holds the number `x`.
pub fn contains_u32(v: &Vec<u32>, x: u32) -> (r: bool)
    ensures
        r == v@.contains(x),
{
    let mut i: usize = 0;
    while i < v.len()
        invariant
            i <= v@.len(),
            forall|j: int| 0 <= j < i ==> v@[j] != x,
        decreases v@.len() - i,
    {
        if v[i] == x {
            return true;
        }
        i += 1;
    }
    false
}

/// Appends `x` only when it is not already present.
pub fn push_unique_u32(v: &mut Vec<u32>, x: u32)
    ensures
        final(v)@ == push_unique_u32_model(old(v)@, x),
{
    if !contains_u32(v, x) {
        v.push(x);
    }
}

/// What a deduplicating append does to a sequence of numbers.
pub open spec fn push_unique_u32_model(s: Seq<u32>, x: u32) -> Seq<u32> {
    if s.contains(x) {
        s
    } else {
        s.push(x)
    }
}

/// No two entries of the sequence are equal.
pub open spec fn no_dups(s: Seq<Seq<char>>) -> bool {
    forall|i: int, j: int| 0 <= i < j < s.len() ==> s[i] != s[j]
}

/// No entry of `a` occurs in `b`.
pub open spec fn seqs_disjoint(a: Seq<Seq<char>>, b: Seq<Seq<char>>) -> bool {
    forall|i: int, j: int| 0 <= i < a.len() && 0 <= j < b.len() ==> a[i] != b[j]
}

/// No two entries of the number sequence are equal.
pub open spec fn no_dups_u32(s: Seq<u32>) -> bool {
    forall|i: int, j: int| 0 <= i < j < s.len() ==> s[i] != s[j]
}

/// A deduplicating append keeps entries pairwise distinct.
pub proof fn lemma_push_unique_no_dups(s: Seq<Seq<char>>, item: Seq<char>)
    requires
        no_dups(s),
    ensures
        no_dups(push_unique_model(s, item)),
{
    if !s.contains(item) {
        let t = s.push(item);
        assert forall|i: int, j: int| 0 <= i < j < t.len() implies t[i] != t[j] by {
            if j == s.len() {
                assert(!s.contains(item));
                assert(s[i] != item);
            }
        }
    }
}

/// A deduplicating append keeps number entries pairwise distinct.
pub proof fn lemma_push_unique_u32_no_dups(s: Seq<u32>, x: u32)
    requires
        no_dups_u32(s),
    ensures
        no_dups_u32(push_unique_u32_model(s, x)),
{
    if !s.contains(x) {
        let t = s.push(x);
        assert forall|i: int, j: int| 0 <= i < j < t.len() implies t[i] != t[j] by {
            if j == s.len() {
                assert(s[i] != x);
            }
        }
    }
}

/// Removes the first string whose characters equal `key`'s, if any.
#[verifier::loop_isolation(false)]
pub fn remove_first_string(v: &mut Vec<String>, key: &str) -> (found: bool)
    ensures
        found == old(v).deep_view().contains(key@),
        final(v).deep_view() == old(v).deep_view().remove_value(key@),
        !found ==> final(v)@ == old(v)@,
{
    let ghost dv0 = old(v).deep_view();
    let mut j: usize = 0;
    while j < v.len()
        invariant
            v@ == old(v)@,
            j <= v@.len(),
            forall|m: int| 0 <= m < j ==> dv0[m] != key@,
        decreases v@.len() - j,
    {
        if str_eq(v[j].as_str(), key) {
            proof {
                assert(dv0[j as int] == key@);
                dv0.index_of_first_ensures(key@);
                let fi = dv0.index_of_first(key@).unwrap();
                if fi < j {
                    assert(dv0[fi] != key@);
                }
                assert(fi == j);
            }
            let ghost oldview = v@;
            v.remove(j);
            proof {
                oldview.remove_ensures(j as int);
                assert(v.deep_view() =~= dv0.remove(j as int));
            }
            return true;
        }
        j += 1;
    }
    proof {
        assert forall|m: int| 0 <= m < dv0.len() implies dv0[m] != key@ by {}
        dv0.index_of_first_ensures(key@);
    }
    false
}

/// Removing the entry at `j` from a duplicate-free sequence keeps it
/// duplicate-free, drops that entry, and invents no new entries.
pub proof fn lemma_remove_index_props<A>(s: Seq<A>, j: int)
    requires
        0 <= j < s.len(),
        forall|a: int, b: int| 0 <= a < b < s.len() ==> s[a] != s[b],
    ensures
        forall|a: int, b: int|
            0 <= a < b < s.remove(j).len() ==> #[trigger] s.remove(j)[a] != #[trigger] s.remove(
                j,
            )[b],
        !s.remove(j).contains(s[j]),
        forall|x: A| #[trigger] s.remove(j).contains(x) ==> s.contains(x),
{
    s.remove_ensures(j);
    let t = s.remove(j);
    assert forall|a: int, b: int| 0 <= a < b < t.len() implies t[a] != t[b] by {
        let a2: int = if a < j { a } else { a + 1 };
        let b2: int = if b < j { b } else { b + 1 };
        assert(t[a] == s[a2]);
        assert(t[b] == s[b2]);
    }
    if t.contains(s[j]) {
        let a = choose|a: int| 0 <= a < t.len() && t[a] == s[j];
        let a2: int = if a < j { a } else { a + 1 };
        assert(t[a] == s[a2]);
        if a2 < j {
            assert(s[a2] != s[j]);
        } else {
            assert(s[j] != s[a2]);
        }
    }
    assert forall|x: A| #[trigger] t.contains(x) implies s.contains(x) by {
        let a = choose|a: int| 0 <= a < t.len() && t[a] == x;
        let a2: int = if a < j { a } else { a + 1 };
        assert(t[a] == s[a2]);
        assert(s[a2] == x);
    }
}

/// The items of a sequence after granting each entry of `items` in order,
/// skipping entries already present.
pub open spec fn grant_all(s: Seq<Seq<char>>, items: Seq<Seq<char>>) -> Seq<Seq<char>>
    decreases items.len(),
{
    if items.len() == 0 {
        s
    } else {
        grant_all(push_unique_model(s, items[0]), items.drop_first())
    }
}

/// Grants each string of `items` in order, skipping ones already present.
#[verifier::loop_isolation(false)]
pub fn grant_strings(v: &mut Vec<String>, items: &Vec<String>)
    ensures
        final(v).deep_view() == grant_all(old(v).deep_view(), items.deep_view()),
        no_dups(old(v).deep_view()) ==> no_dups(final(v).deep_view()),
{
    let ghost dv0 = old(v).deep_view();
    let ghost idv = items.deep_view();
    proof {
        assert(idv.skip(0) =~= idv);
    }
    let mut i: usize = 0;
    while i < items.len()
        invariant
            i <= idv.len(),
            grant_all(dv0, idv) == grant_all(v.deep_view(), idv.skip(i as int)),
            no_dups(dv0) ==> no_dups(v.deep_view()),
        decreases idv.len() - i,
    {
        let ghost cur = v.deep_view();
        proof {
            assert(idv.skip(i as int).len() > 0);
            assert(idv.skip(i as int)[0] == idv[i as int]);
            assert(idv.skip(i as int).drop_first() =~= idv.skip(i + 1));
            if no_dups(dv0) {
                lemma_push_unique_no_dups(cur, idv[i as int]);
            }
        }
        push_unique_string(v, &items[i]);
        proof {
            assert(items@[i as int]@ == idv[i as int]);
            assert(v.deep_view() == push_unique_model(cur, idv[i as int]));
        }
        i += 1;
    }
    proof {
        assert(idv.skip(idv.len() as int) =~= Seq::<Seq<char>>::empty());
        assert(grant_all(v.deep_view(), idv.skip(idv.len() as int)) == v.deep_view());
    }
}

/// The numbers of a sequence after granting each entry of `items` in order,
/// skipping entries already present.
pub open spec fn grant_all_u32(s: Seq<u32>, items: Seq<u32>) -> Seq<u32>
    decreases items.len(),
{
    if items.len() == 0 {
        s
    } else {
        grant_all_u32(push_unique_u32_model(s, items[0]), items.drop_first())
    }
}

/// Grants each number of `items` in order, skipping ones already present.
#[verifier::loop_isolation(false)]
pub fn grant_u32s(v: &mut Vec<u32>, items: &Vec<u32>)
    ensures
        final(v)@ == grant_all_u32(old(v)@, items@),
        no_dups_u32(old(v)@) ==> no_dups_u32(final(v)@),
{
    let ghost s0 = old(v)@;
    let ghost is0 = items@;
    proof {
        assert(is0.skip(0) =~= is0);
    }
    let mut i: usize = 0;
    while i < items.len()
        invariant
            i <= is0.len(),
            grant_all_u32(s0, is0) == grant_all_u32(v@, is0.skip(i as int)),
            no_dups_u32(s0) ==> no_dups_u32(v@),
        decreases is0.len() - i,
    {
        let ghost cur = v@;
        proof {
            assert(is0.skip(i as int).len() > 0);
            assert(is0.skip(i as int)[0] == is0[i as int]);
            assert(is0.skip(i as int).drop_first() =~= is0.skip(i + 1));
            if no_dups_u32(s0) {
                lemma_push_unique_u32_no_dups(cur, is0[i as int]);
            }
        }
        push_unique_u32(v, items[i]);
        i += 1;
    }
    proof {
        assert(is0.skip(is0.len() as int) =~= Seq::<u32>::empty());
    }
}

/// Decides whether a vector of strings is duplicate-free.
pub fn no_dups_strings_exec(v: &Vec<String>) -> (r: bool)
    ensures
        r == no_dups(v.deep_view()),
{
    let n = v.len();
    let mut i: usize = 0;
    while i < n
        invariant
            n == v@.len(),
            i <= n,
            forall|a: int, b: int| 0 <= a < b < i ==> v.deep_view()[a] != v.deep_view()[b],
        decreases n - i,
    {
        let mut j: usize = 0;
        while j < i
            invariant
                i < n,
                n == v@.len(),
                j <= i,
                forall|a: int, b: int| 0 <= a < b < i ==> v.deep_view()[a] != v.deep_view()[b],
                forall|a: int| 0 <= a < j ==> v.deep_view()[a] != v.deep_view()[i as int],
            decreases i - j,
        {
            if str_eq(v[j].as_str(), v[i].as_str()) {
                proof {
                    assert(v.deep_view()[j as int] == v@[j as int]@);
                    assert(v.deep_view()[i as int] == v@[i as int]@);
                }
                return false;
            }
            j += 1;
        }
        i += 1;
    }
    true
}

/// Decides whether two vectors of strings share no entry.
pub fn disjoint_strings_exec(a: &Vec<String>, b: &Vec<String>) -> (r: bool)
    ensures
        r == seqs_disjoint(a.deep_view(), b.deep_view()),
{
    let n = a.len();
    let mut i: usize = 0;
    while i < n
        invariant
            n == a@.len(),
            i <= n,
            forall|x: int, y: int|
                0 <= x < i && 0 <= y < b.deep_view().len() ==> a.deep_view()[x]
                    != b.deep_view()[y],
        decreases n - i,
    {
        if contains_string(b, a[i].as_str()) {
            proof {
                let y = choose|y: int|
                    0 <= y < b.deep_view().len() && b.deep_view()[y] == a.deep_view()[i as int];
                assert(a.deep_view()[i as int] == b.deep_view()[y]);
            }
            return false;
        }
        i += 1;
    }
    true
}

/// Decides whether a vector of numbers is duplicate-free.
pub fn no_dups_u32_exec(v: &Vec<u32>) -> (r: bool)
    ensures
        r == no_dups_u32(v@),
{
    let n = v.len();
    let mut i: usize = 0;
    while i < n
        invariant
            n == v@.len(),
            i <= n,
            forall|a: int, b: int| 0 <= a < b < i ==> v@[a] != v@[b],
        decreases n - i,
    {
        let mut j: usize = 0;
        while j < i
            invariant
                i < n,
                n == v@.len(),
                j <= i,
                forall|a: int, b: int| 0 <= a < b < i ==> v@[a] != v@[b],
                forall|a: int| 0 <= a < j ==> v@[a] != v@[i as int],
            decreases i - j,
        {
            if v[j] == v[i] {
                return false;
            }
            j += 1;
        }
        i += 1;
    }
    true
}

/// A grant keeps every present entry and makes the granted one present.
proof fn lemma_push_unique_members(s: Seq<Seq<char>>, x: Seq<char>)
    ensures
        push_unique_model(s, x).contains(x),
        forall|y: Seq<char>| s.contains(y) ==> #[trigger] push_unique_model(s, x).contains(y),
{
    if !s.contains(x) {
        assert(s.push(x)[s.len() as int] == x);
    }
    assert forall|y: Seq<char>| s.contains(y)
            implies #[trigger] push_unique_model(s, x).contains(y) by {
        if !s.contains(x) {
            let i = choose|i: int| 0 <= i < s.len() && s[i] == y;
            assert(s.push(x)[i] == y);
        }
    }
}

/// Granting a list keeps every present entry and makes every granted one
/// present.
proof fn lemma_grant_all_members(s: Seq<Seq<char>>, items: Seq<Seq<char>>)
    ensures
        forall|y: Seq<char>| s.contains(y) ==> #[trigger] grant_all(s, items).contains(y),
        forall|j: int| 0 <= j < items.len() ==> grant_all(s, items).contains(#[trigger] items[j]),
    decreases items.len(),
{
    if items.len() > 0 {
        let s2 = push_unique_model(s, items[0]);
        let rest = items.drop_first();
        lemma_push_unique_members(s, items[0]);
        lemma_grant_all_members(s2, rest);
        assert(grant_all(s, items) == grant_all(s2, rest));
        assert forall|y: Seq<char>| s.contains(y)
                implies #[trigger] grant_all(s, items).contains(y) by {
            assert(push_unique_model(s, items[0]).contains(y));
            assert(grant_all(s2, rest).contains(y));
        }
        assert forall|j: int| 0 <= j < items.len()
                implies grant_all(s, items).contains(#[trigger] items[j]) by {
            if j > 0 {
                assert(rest[j - 1] == items[j]);
                assert(grant_all(s2, rest).contains(items[j]));
            } else {
                assert(s2.contains(items[0]));
                assert(grant_all(s2, rest).contains(items[0]));
            }
        }
    }
}

/// Granting entries that are all present changes nothing.
proof fn lemma_grant_all_noop(s: Seq<Seq<char>>, items: Seq<Seq<char>>)
    requires
        forall|j: int| 0 <= j < items.len() ==> s.contains(#[trigger] items[j]),
    ensures
        grant_all(s, items) == s,
    decreases items.len(),
{
    if items.len() > 0 {
        assert(s.contains(items[0]));
        let rest = items.drop_first();
        assert forall|j: int| 0 <= j < rest.len() implies s.contains(#[trigger] rest[j]) by {
            assert(rest[j] == items[j + 1]);
        }
        lemma_grant_all_noop(s, rest);
    }
}

/// Granting the same list of items twice leaves the same items as
/// granting it once: grants are idempotent unions.
pub proof fn lemma_grant_all_idempotent(s: Seq<Seq<char>>, items: Seq<Seq<char>>)
    ensures
        grant_all(grant_all(s, items), items) == grant_all(s, items),
{
    lemma_grant_all_members(s, items);
    lemma_grant_all_noop(grant_all(s, items), items);
}

/// A grant keeps every present number and makes the granted one present.
proof fn lemma_push_unique_u32_members(s: Seq<u32>, x: u32)
    ensures
        push_unique_u32_model(s, x).contains(x),
        forall|y: u32| s.contains(y) ==> #[trigger] push_unique_u32_model(s, x).contains(y),
{
    if !s.contains(x) {
        assert(s.push(x)[s.len() as int] == x);
    }
    assert forall|y: u32| s.contains(y)
            implies #[trigger] push_unique_u32_model(s, x).contains(y) by {
        if !s.contains(x) {
            let i = choose|i: int| 0 <= i < s.len() && s[i] == y;
            assert(s.push(x)[i] == y);
        }
    }
}

/// Granting a list keeps every present number and makes every granted one
/// present.
proof fn lemma_grant_all_u32_members(s: Seq<u32>, items: Seq<u32>)
    ensures
        forall|y: u32| s.contains(y) ==> #[trigger] grant_all_u32(s, items).contains(y),
        forall|j: int|
            0 <= j < items.len() ==> grant_all_u32(s, items).contains(#[trigger] items[j]),
    decreases items.len(),
{
    if items.len() > 0 {
        let s2 = push_unique_u32_model(s, items[0]);
        let rest = items.drop_first();
        lemma_push_unique_u32_members(s, items[0]);
        lemma_grant_all_u32_members(s2, rest);
        assert(grant_all_u32(s, items) == grant_all_u32(s2, rest));
        assert forall|y: u32| s.contains(y)
                implies #[trigger] grant_all_u32(s, items).contains(y) by {
            assert(push_unique_u32_model(s, items[0]).contains(y));
            assert(grant_all_u32(s2, rest).contains(y));
        }
        assert forall|j: int| 0 <= j < items.len()
                implies grant_all_u32(s, items).contains(#[trigger] items[j]) by {
            if j > 0 {
                assert(rest[j - 1] == items[j]);
                assert(grant_all_u32(s2, rest).contains(items[j]));
            } else {
                assert(s2.contains(items[0]));
                assert(grant_all_u32(s2, rest).contains(items[0]));
            }
        }
    }
}

/// Granting numbers that are all present changes nothing.
proof fn lemma_grant_all_u32_noop(s: Seq<u32>, items: Seq<u32>)
    requires
        forall|j: int| 0 <= j < items.len() ==> s.contains(#[trigger] items[j]),
    ensures
        grant_all_u32(s, items) == s,
    decreases items.len(),
{
    if items.len() > 0 {
        assert(s.contains(items[0]));
        let rest = items.drop_first();
        assert forall|j: int| 0 <= j < rest.len() implies s.contains(#[trigger] rest[j]) by {
            assert(rest[j] == items[j + 1]);
        }
        lemma_grant_all_u32_noop(s, rest);
    }
}

/// Granting the same list of tiers twice leaves the same tiers as
/// granting it once: grants are idempotent unions.
pub proof fn lemma_grant_all_u32_idempotent(s: Seq<u32>, items: Seq<u32>)
    ensures
        grant_all_u32(grant_all_u32(s, items), items) == grant_all_u32(s, items),
{
    lemma_grant_all_u32_members(s, items);
    lemma_grant_all_u32_noop(grant_all_u32(s, items), items);
}

/// Granting the same string twice leaves the same items as granting it once.
pub proof fn lemma_push_unique_idempotent(s: Seq<Seq<char>>, item: Seq<char>)
    ensures
        push_unique_model(push_unique_model(s, item), item) == push_unique_model(s, item),
{
    if !s.contains(item) {
        assert(s.push(item)[s.len() as int] == item);
        assert(s.push(item).contains(item));
    }
}

/// Granting the same number twice leaves the same items as granting it once.
pub proof fn lemma_push_unique_u32_idempotent(s: Seq<u32>, x: u32)
    ensures
        push_unique_u32_model(push_unique_u32_model(s, x), x) == push_unique_u32_model(s, x),
{
    if !s.contains(x) {
        assert(s.push(x)[s.len() as int] == x);
        assert(s.push(x).contains(x));
    }
}

/// The character is a decimal digit.
pub open spec fn is_digit(c: char) -> bool {
    ('0' as int) <= c as int <= ('9' as int)
}

/// The numeric value of a digit character.
pub open spec fn digit_val(c: char) -> int {
    c as int - ('0' as int)
}

/// Reads the rest of a decimal number after an accumulated prefix value;
/// a non-digit or a value beyond `u32::MAX` reads as nothing.
pub open spec fn spec_parse_u32_rec(s: Seq<char>, acc: int) -> Option<int>
    decreases s.len(),
{
    if s.len() == 0 {
        Some(acc)
    } else if !is_digit(s[0]) {
        None
    } else if acc * 10 + digit_val(s[0]) > u32::MAX {
        None
    } else {
        spec_parse_u32_rec(s.drop_first(), acc * 10 + digit_val(s[0]))
    }
}

/// The value of a non-empty all-digit decimal string up to `u32::MAX`.
pub open spec fn spec_parse_u32(s: Seq<char>) -> Option<int> {
    if s.len() == 0 {
        None
    } else {
        spec_parse_u32_rec(s, 0)
    }
}

/// Parses a non-negative decimal number of at most `u32::MAX`.
#[verifier::loop_isolation(false)]
pub fn parse_u32(s: &str) -> (r: Option<u32>)
    ensures
        match r {
            Some(v) => spec_parse_u32(s@) == Some(v as int),
            None => spec_parse_u32(s@) is None,
        },
{
    let n = s.unicode_len();
    if n == 0 {
        return None;
    }
    let mut acc: u32 = 0;
    let mut i: usize = 0;
    proof {
        assert(s@.skip(0) =~= s@);
    }
    while i < n
        invariant
            i <= n,
            n == s@.len(),
            spec_parse_u32(s@) == spec_parse_u32_rec(s@.skip(i as int), acc as int),
        decreases n - i,
    {
        let c = s.get_char(i);
        let cv = c as u32;
        proof {
            assert(s@.skip(i as int)[0] == s@[i as int]);
            assert(s@.skip(i as int).drop_first() =~= s@.skip(i + 1));
        }
        if cv < 48 || cv > 57 {
            return None;
        }
        let d = cv - 48;
        let wide: u64 = acc as u64 * 10 + d as u64;
        if wide > u32::MAX as u64 {
            return None;
        }
        acc = wide as u32;
        i += 1;
    }
    proof {
        assert(s@.skip(n as int) =~= Seq::<char>::empty());
    }
    Some(acc)
}

/// `needle` occurs in `haystack` starting at position `i`.
pub open spec fn matches_at(haystack: Seq<char>, needle: Seq<char>, i: int) -> bool {
    &&& 0 <= i
    &&& i + needle.len() <= haystack.len()
    &&& haystack.subrange(i, i + needle.len() as int) == needle
}

/// `needle` occurs somewhere in `haystack`.
pub open spec fn spec_contains_substr(haystack: Seq<char>, needle: Seq<char>) -> bool {
    exists|i: int| matches_at(haystack, needle, i)
}

/// Compares `needle` against `haystack` at position `start`.
#[verifier::loop_isolation(false)]
fn matches_here(haystack: &str, hlen: usize, needle: &str, nlen: usize, start: usize) -> (r: bool)
    requires
        hlen == haystack@.len(),
        nlen == needle@.len(),
        start + nlen <= hlen,
    ensures
        r == matches_at(haystack@, needle@, start as int),
{
    let mut k: usize = 0;
    while k < nlen
        invariant
            k <= nlen,
            forall|m: int| 0 <= m < k ==> haystack@[start + m] == needle@[m],
        decreases nlen - k,
    {
        if haystack.get_char(start + k) != needle.get_char(k) {
            proof {
                assert(haystack@[start + k] != needle@[k as int]);
                assert(haystack@.subrange(start as int, start + needle@.len() as int)[k as int]
                    == haystack@[start + k]);
            }
            return false;
        }
        k += 1;
    }
    proof {
        assert(haystack@.subrange(start as int, start + needle@.len() as int) =~= needle@);
    }
    true
}

/// Naive substring search, character by character.
#[verifier::loop_isolation(false)]
pub fn contains_substr(haystack: &str, needle: &str) -> (r: bool)
    ensures
        r == spec_contains_substr(haystack@, needle@),
{
    let hlen = haystack.unicode_len();
    let nlen = needle.unicode_len();
    if nlen == 0 {
        proof {
            assert(haystack@.subrange(0, 0) =~= needle@);
            assert(matches_at(haystack@, needle@, 0));
        }
        return true;
    }
    if nlen > hlen {
        proof {
            if spec_contains_substr(haystack@, needle@) {
                let i = choose|i: int| matches_at(haystack@, needle@, i);
            }
        }
        return false;
    }
    let mut start: usize = 0;
    while start <= hlen - nlen
        invariant
            0 < nlen <= hlen,
            start <= hlen - nlen + 1,
            forall|i: int| 0 <= i < start ==> !matches_at(haystack@, needle@, i),
        decreases hlen - nlen - start + 1,
    {
        if matches_here(haystack, hlen, needle, nlen, start) {
            return true;
        }
        start += 1;
    }
    proof {
        if spec_contains_substr(haystack@, needle@) {
            let i = choose|i: int| matches_at(haystack@, needle@, i);
            assert(i < start);
        }
    }
    false
}

/// Copies a string; the copy has the same characters.
pub fn clone_string(s: &String) -> (r: String)
    ensures
        r@ == s@,
{
    s.clone()
}

/// Copies a vector of strings element by element.
pub fn clone_string_vec(v: &Vec<String>) -> (r: Vec<String>)
    ensures
        r@ == v@,
{
    let mut r: Vec<String> = Vec::new();
    let mut i: usize = 0;
    while i < v.len()
        invariant
            i <= v@.len(),
            r@ =~= v@.subrange(0, i as int),
        decreases v@.len() - i,
    {
        r.push(v[i].clone());
        i += 1;
    }
    proof {
        assert(r@ =~= v@);
    }
    r
}

/// Copies a vector of numbers element by element.
pub fn clone_u32_vec(v: &Vec<u32>) -> (r: Vec<u32>)
    ensures
        r@ == v@,
{
    let mut r: Vec<u32> = Vec::new();
    let mut i: usize = 0;
    while i < v.len()
        invariant
            i <= v@.len(),
            r@ =~= v@.subrange(0, i as int),
        decreases v@.len() - i,
    {
        r.push(v[i]);
        i += 1;
    }
    proof {
        assert(r@ =~= v@);
    }
    r
}

} // verus!
