//! Fresh names for new items: a base name, or the base with the first free
//! numeric suffix.
use vstd::prelude::*;
use crate::text::{decimal, str_eq, to_string, push_str, push_decimal_wide};

verus! {

/// `base` followed by `_` and the decimal `k`.
pub open spec fn suffixed(base: Seq<char>, k: nat) -> Seq<char> {
    base + seq!['_'] + decimal(k)
}

/// Names seen as character sequences.
pub open spec fn names_view(names: Seq<String>) -> Seq<Seq<char>> {
    names.map_values(|s: String| s@)
}

/// Whether `s` is one of `names`.
pub open spec fn name_taken(names: Seq<Seq<char>>, s: Seq<char>) -> bool {
    exists|i: int| 0 <= i < names.len() && #[trigger] names[i] == s
}

/// The first suffix from `k` up to 999 that makes `base` a free name.
pub open spec fn first_free_suffix(base: Seq<char>, names: Seq<Seq<char>>, k: nat) -> Option<nat>
    decreases 1000 - k,
{
    if k >= 1000 {
        None
    } else if !name_taken(names, suffixed(base, k)) {
        Some(k)
    } else {
        first_free_suffix(base, names, k + 1)
    }
}

/// A name for a new item: `base` when free, else `base_k` for the first
/// free `k` from 2 to 999, else `base_fallback`.
pub open spec fn unique_name(base: Seq<char>, names: Seq<Seq<char>>, fallback: nat) -> Seq<char> {
    if !name_taken(names, base) {
        base
    } else {
        match first_free_suffix(base, names, 2) {
            Some(k) => suffixed(base, k),
            None => suffixed(base, fallback),
        }
    }
}

/// The number of different names in `names`.
pub open spec fn distinct_count(names: Seq<Seq<char>>) -> nat
    decreases names.len(),
{
    if names.len() == 0 {
        0
    } else {
        distinct_count(names.drop_last()) + if name_taken(names.drop_last(), names.last()) { 0nat } else { 1nat }
    }
}

/// A suffix found by the search gives a free name.
pub proof fn lemma_first_free_suffix(base: Seq<char>, names: Seq<Seq<char>>, k: nat)
    ensures
        first_free_suffix(base, names, k) matches Some(j) ==> k <= j < 1000 && !name_taken(names, suffixed(base, j)),
    decreases 1000 - k,
{
    if k < 1000 && name_taken(names, suffixed(base, k)) {
        lemma_first_free_suffix(base, names, k + 1);
    }
}

/// A fresh name is not taken whenever the base or one of its suffixes up
/// to 999 is free.
pub proof fn lemma_unique_name_fresh(base: Seq<char>, names: Seq<Seq<char>>, fallback: nat)
    requires
        !name_taken(names, base) || first_free_suffix(base, names, 2) is Some,
    ensures
        !name_taken(names, unique_name(base, names, fallback)),
{
    lemma_first_free_suffix(base, names, 2);
}

/// Whether `s` is one of `names`.
fn taken(names: &Vec<String>, s: &str) -> (r: bool)
    ensures
        r == name_taken(names_view(names@), s@),
{
    let ghost nv = names_view(names@);
    let mut i: usize = 0;
    while i < names.len()
        invariant
            i <= names.len(),
            nv == names_view(names@),
            forall|j: int| 0 <= j < i ==> #[trigger] nv[j] != s@,
        decreases names.len() - i,
    {
        if str_eq(names[i].as_str(), s) {
            assert(nv[i as int] == s@);
            return true;
        }
        i = i + 1;
    }
    false
}

/// `base` followed by `_` and `k`.
fn suffixed_name(base: &str, k: u128) -> (r: String)
    ensures
        r@ == suffixed(base@, k as nat),
{
    let mut s = to_string(base);
    push_str(&mut s, "_");
    push_decimal_wide(&mut s, k);
    proof {
        reveal_strlit("_");
    }
    assert(s@ =~= suffixed(base@, k as nat));
    s
}

/// A name for a new item among `names`, falling back to
/// `base_fallback`.
pub fn unique_name_among(base: &str, names: &Vec<String>, fallback: u128) -> (r: String)
    ensures
        r@ == unique_name(base@, names_view(names@), fallback as nat),
{
    if !taken(names, base) {
        return to_string(base);
    }
    let mut k: u64 = 2;
    while k < 1000
        invariant
            2 <= k <= 1000,
            name_taken(names_view(names@), base@),
            first_free_suffix(base@, names_view(names@), 2) == first_free_suffix(base@, names_view(names@), k as nat),
        decreases 1000 - k,
    {
        let candidate = suffixed_name(base, k as u128);
        if !taken(names, candidate.as_str()) {
            assert(first_free_suffix(base@, names_view(names@), k as nat) == Some(k as nat));
            assert(candidate@ == suffixed(base@, k as nat));
            return candidate;
        }
        k = k + 1;
    }
    suffixed_name(base, fallback)
}

/// The number of different names in `names`.
fn count_distinct(names: &Vec<String>) -> (r: usize)
    ensures
        r == distinct_count(names_view(names@)),
{
    let ghost nv = names_view(names@);
    let mut count: usize = 0;
    let mut i: usize = 0;
    while i < names.len()
        invariant
            i <= names.len(),
            nv == names_view(names@),
            count == distinct_count(nv.subrange(0, i as int)),
            count <= i,
        decreases names.len() - i,
    {
        let ghost pre = nv.subrange(0, i as int);
        assert(nv.subrange(0, i + 1).drop_last() =~= pre);
        let mut seen_before = false;
        let mut j: usize = 0;
        while j < i
            invariant
                j <= i < names.len(),
                nv == names_view(names@),
                pre == nv.subrange(0, i as int),
                seen_before == name_taken(pre.subrange(0, j as int), nv[i as int]),
            decreases i - j,
        {
            if str_eq(names[j].as_str(), names[i].as_str()) {
                seen_before = true;
            }
            proof {
                if seen_before {
                    if !name_taken(pre.subrange(0, j as int), nv[i as int]) {
                        assert(pre.subrange(0, j + 1)[j as int] == nv[i as int]);
                    } else {
                        let t = choose|t: int| 0 <= t < j && #[trigger] pre.subrange(0, j as int)[t] == nv[i as int];
                        assert(pre.subrange(0, j + 1)[t] == nv[i as int]);
                    }
                } else {
                    assert forall|t: int| 0 <= t < j + 1 implies #[trigger] pre.subrange(0, j + 1)[t] != nv[i as int] by {
                        if t < j {
                            assert(pre.subrange(0, j as int)[t] == pre.subrange(0, j + 1)[t]);
                        }
                    }
                }
            }
            j = j + 1;
        }
        assert(pre.subrange(0, i as int) =~= pre);
        assert(nv.subrange(0, i + 1).last() == nv[i as int]);
        if !seen_before {
            count = count + 1;
        }
        i = i + 1;
    }
    assert(nv.subrange(0, i as int) =~= nv);
    count
}

/// A fresh id for a new item among `existing`: `base` when free, else
/// `base_k` for the first free `k` from 2 to 999, else `base_n` where `n`
/// is one more than the number of different existing ids.
pub fn unique_id(base: &str, existing: &Vec<String>) -> (r: String)
    ensures
        r@ == unique_name(base@, names_view(existing@), distinct_count(names_view(existing@)) + 1),
{
    let n = count_distinct(existing);
    unique_name_among(base, existing, n as u128 + 1)
}

} // verus!
