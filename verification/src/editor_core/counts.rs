//! Totals over lists of counts.
use vstd::prelude::*;

verus! {

/// The sum of a list of counts.
pub open spec fn seq_sum(s: Seq<usize>) -> nat
    decreases s.len(),
{
    if s.len() == 0 {
        0
    } else {
        seq_sum(s.drop_last()) + s.last() as nat
    }
}

/// The number of `true` entries in a list of flags.
pub open spec fn count_true(s: Seq<bool>) -> nat
    decreases s.len(),
{
    if s.len() == 0 {
        0
    } else {
        count_true(s.drop_last()) + if s.last() { 1nat } else { 0nat }
    }
}

/// The sum of a list of counts.
pub fn sum_counts(v: &Vec<usize>) -> (r: usize)
    requires
        seq_sum(v@) <= usize::MAX,
    ensures
        r == seq_sum(v@),
{
    let mut total: usize = 0;
    let mut i: usize = 0;
    while i < v.len()
        invariant
            i <= v.len(),
            seq_sum(v@) <= usize::MAX,
            total == seq_sum(v@.subrange(0, i as int)),
        decreases v.len() - i,
    {
        assert(v@.subrange(0, i + 1).drop_last() =~= v@.subrange(0, i as int));
        proof {
            lemma_prefix_sum_le(v@, i + 1);
        }
        total = total + v[i];
        i = i + 1;
    }
    assert(v@.subrange(0, i as int) =~= v@);
    total
}

/// The number of `true` entries in a list of flags.
pub fn count_flags(v: &Vec<bool>) -> (r: usize)
    ensures
        r == count_true(v@),
{
    let mut total: usize = 0;
    let mut i: usize = 0;
    while i < v.len()
        invariant
            i <= v.len(),
            total == count_true(v@.subrange(0, i as int)),
            total <= i,
        decreases v.len() - i,
    {
        assert(v@.subrange(0, i + 1).drop_last() =~= v@.subrange(0, i as int));
        if v[i] {
            total = total + 1;
        }
        i = i + 1;
    }
    assert(v@.subrange(0, i as int) =~= v@);
    total
}

/// A prefix of a list of counts sums to no more than the whole list.
pub proof fn lemma_prefix_sum_le(s: Seq<usize>, n: int)
    requires
        0 <= n <= s.len(),
    ensures
        seq_sum(s.subrange(0, n)) <= seq_sum(s),
    decreases s.len() - n,
{
    if n < s.len() {
        lemma_prefix_sum_le(s, n + 1);
        assert(s.subrange(0, n + 1).drop_last() =~= s.subrange(0, n));
    } else {
        assert(s.subrange(0, n) =~= s);
    }
}

/// A list holds no more `true` flags than entries.
pub proof fn lemma_count_true_le(s: Seq<bool>)
    ensures
        count_true(s) <= s.len(),
    decreases s.len(),
{
    if s.len() > 0 {
        lemma_count_true_le(s.drop_last());
    }
}

/// The total of `f` over a list.
pub open spec fn total<C>(s: Seq<C>, f: spec_fn(C) -> nat) -> nat
    decreases s.len(),
{
    if s.len() == 0 {
        0
    } else {
        total(s.drop_last(), f) + f(s.last())
    }
}

/// A prefix of a list totals no more than the whole list.
pub proof fn lemma_prefix_total_le<C>(s: Seq<C>, f: spec_fn(C) -> nat, n: int)
    requires
        0 <= n <= s.len(),
    ensures
        total(s.subrange(0, n), f) <= total(s, f),
    decreases s.len() - n,
{
    if n < s.len() {
        lemma_prefix_total_le(s, f, n + 1);
        assert(s.subrange(0, n + 1).drop_last() =~= s.subrange(0, n));
    } else {
        assert(s.subrange(0, n) =~= s);
    }
}

/// Extending a prefix by one entry adds that entry's value to the total.
pub proof fn lemma_total_step<C>(s: Seq<C>, f: spec_fn(C) -> nat, i: int)
    requires
        0 <= i < s.len(),
    ensures
        total(s.subrange(0, i + 1), f) == total(s.subrange(0, i), f) + f(s[i]),
        total(s.subrange(0, i + 1), f) <= total(s, f),
{
    assert(s.subrange(0, i + 1).drop_last() =~= s.subrange(0, i));
    lemma_prefix_total_le(s, f, i + 1);
}

/// The length of a list of counts.
pub open spec fn list_len() -> spec_fn(Vec<usize>) -> nat {
    |v: Vec<usize>| v@.len()
}

/// The sum of a list of counts.
pub open spec fn list_sum() -> spec_fn(Vec<usize>) -> nat {
    |v: Vec<usize>| seq_sum(v@)
}

/// The number of inner lists, their total length and their total sum.
pub fn nested_totals(lists: &Vec<Vec<usize>>) -> (r: (usize, usize))
    requires
        total(lists@, list_len()) <= usize::MAX,
        total(lists@, list_sum()) <= usize::MAX,
    ensures
        r.0 == total(lists@, list_len()),
        r.1 == total(lists@, list_sum()),
{
    let mut lens: usize = 0;
    let mut sums: usize = 0;
    let mut i: usize = 0;
    while i < lists.len()
        invariant
            i <= lists.len(),
            total(lists@, list_len()) <= usize::MAX,
            total(lists@, list_sum()) <= usize::MAX,
            lens == total(lists@.subrange(0, i as int), list_len()),
            sums == total(lists@.subrange(0, i as int), list_sum()),
        decreases lists.len() - i,
    {
        proof {
            lemma_total_step(lists@, list_len(), i as int);
            lemma_total_step(lists@, list_sum(), i as int);
        }
        let inner = sum_counts(&lists[i]);
        lens = lens + lists[i].len();
        sums = sums + inner;
        i = i + 1;
    }
    assert(lists@.subrange(0, i as int) =~= lists@);
    (lens, sums)
}

} // verus!
