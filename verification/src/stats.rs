use vstd::prelude::*;

use vstd::arithmetic::div_mod::{lemma_div_is_ordered, lemma_div_multiples_vanish};
use vstd::arithmetic::mul::lemma_mul_inequality;
use vstd::relations::{sorted_by, total_ordering};
use vstd::seq_lib::{lemma_sorted_unique, to_multiset_build, to_multiset_insert};

use crate::error::Error;

verus! {

/// A duration bucket in ascending order.
pub open spec fn sorted_ascending(s: Seq<u64>) -> bool {
    forall|i: int, j: int| 0 <= i <= j < s.len() ==> s[i] <= s[j]
}

/// The ascending rearrangement of a duration bucket. Percentile
/// statistics are read from this sequence.
pub open spec fn sorted_version(s: Seq<u64>) -> Seq<u64> {
    s.sort_by(|x: u64, y: u64| x <= y)
}

/// Any ascending sequence with the same elements as `s` is the
/// ascending rearrangement of `s`: sorting is deterministic.
pub proof fn lemma_sorted_version_unique(s: Seq<u64>, t: Seq<u64>)
    requires
        sorted_ascending(t),
        t.to_multiset() == s.to_multiset(),
    ensures
        t == sorted_version(s),
{
    let leq = |x: u64, y: u64| x <= y;
    s.lemma_sort_by_ensures(leq);
    assert(total_ordering(leq));
    assert(sorted_by(t, leq));
    lemma_sorted_unique(t, sorted_version(s), leq);
    assert(t =~= sorted_version(s));
}

/// Sorts one endpoint's duration bucket ascending; the result is a
/// rearrangement of the input and nothing else.
pub fn sort_durations(durations: &Vec<u64>) -> (r: Vec<u64>)
    ensures
        sorted_ascending(r@),
        r@.to_multiset() == durations@.to_multiset(),
        r@ == sorted_version(durations@),
        r@.len() == durations@.len(),
{
    let mut r: Vec<u64> = Vec::new();
    let n = durations.len();
    proof {
        assert(durations@.take(0) =~= Seq::<u64>::empty());
    }
    for k in 0..n
        invariant
            n == durations@.len(),
            r@.len() == k,
            sorted_ascending(r@),
            r@.to_multiset() == durations@.take(k as int).to_multiset(),
    {
        let x = durations[k];
        let mut p: usize = 0;
        while p < r.len() && r[p] <= x
            invariant
                p <= r@.len(),
                forall|q: int| 0 <= q < p ==> r@[q] <= x,
            decreases r@.len() - p,
        {
            p = p + 1;
        }
        let ghost old_r = r@;
        r.insert(p, x);
        proof {
            to_multiset_insert(old_r, p as int, x);
            to_multiset_build(durations@.take(k as int), x);
            assert(durations@.take(k + 1) =~= durations@.take(k as int).push(durations@[k as int]));
            assert(r@.to_multiset() =~= durations@.take(k + 1).to_multiset());
            old_r.insert_ensures(p as int, x);
            assert forall|i: int, j: int| 0 <= i <= j < r@.len() implies r@[i] <= r@[j] by {
                if j < p {
                    assert(r@[i] == old_r[i] && r@[j] == old_r[j]);
                } else if i > p {
                    assert(r@[i] == old_r[i - 1] && r@[j] == old_r[j - 1]);
                } else if i == p && j == p {
                } else if i < p && j == p {
                    assert(r@[i] == old_r[i] && r@[j] == x);
                } else if i == p && j > p {
                    assert(r@[i] == x && r@[j] == old_r[j - 1]);
                    assert(p < old_r.len() ==> x <= old_r[p as int]);
                } else {
                    assert(i < p && j > p);
                    assert(r@[i] == old_r[i] && r@[j] == old_r[j - 1]);
                }
            }
        }
    }
    proof {
        assert(durations@.take(n as int) =~= durations@);
        lemma_sorted_version_unique(durations@, r@);
    }
    r
}

/// Nearest-rank percentile position: `len * p / 100 - 1`, clamped to
/// the first element when `len * p / 100` is zero (the small-bucket
/// boundary case is resolved by clamping rather than left undefined).
pub open spec fn percentile_index(len: int, p: int) -> int {
    if len * p / 100 == 0 {
        0
    } else {
        len * p / 100 - 1
    }
}

/// The clamped nearest-rank position always lands inside a non-empty
/// bucket.
pub proof fn lemma_percentile_index_bounds(len: int, p: int)
    requires
        1 <= len,
        0 <= p <= 100,
    ensures
        0 <= percentile_index(len, p) < len,
        len * p / 100 <= len,
{
    lemma_mul_inequality(p, 100, len);
    lemma_div_is_ordered(len * p, len * 100, 100);
    lemma_div_multiples_vanish(len, 100);
    lemma_mul_inequality(0, p, len);
    lemma_div_is_ordered(0, len * p, 100);
}

/// Nearest-rank percentile of an ascending duration bucket, `p` in
/// percent. An empty bucket has no percentiles and is refused.
pub fn percentile(sorted_durations: &Vec<u64>, p: u8) -> (r: Result<u64, Error>)
    requires
        p <= 100,
    ensures
        sorted_durations@.len() == 0 ==> r == Err::<u64, Error>(Error::InsufficientSamples),
        sorted_durations@.len() > 0 ==> r == Ok::<u64, Error>(
            sorted_durations@[percentile_index(sorted_durations@.len() as int, p as int)],
        ),
{
    let len = sorted_durations.len();
    if len == 0 {
        return Err(Error::InsufficientSamples);
    }
    proof {
        lemma_percentile_index_bounds(len as int, p as int);
        lemma_mul_inequality(p as int, 100, len as int);
    }
    let scaled: u128 = (len as u128) * (p as u128) / 100;
    let idx: usize = if scaled == 0 {
        0
    } else {
        (scaled - 1) as usize
    };
    proof {
        assert(idx == percentile_index(len as int, p as int));
    }
    Ok(sorted_durations[idx])
}

/// Percentile values read from one ascending bucket never decrease as
/// the requested percentile increases.
pub proof fn lemma_percentile_monotonic(s: Seq<u64>, p1: int, p2: int)
    requires
        sorted_ascending(s),
        s.len() > 0,
        0 <= p1 <= p2 <= 100,
    ensures
        s[percentile_index(s.len() as int, p1)] <= s[percentile_index(s.len() as int, p2)],
{
    let len = s.len() as int;
    lemma_percentile_index_bounds(len, p1);
    lemma_percentile_index_bounds(len, p2);
    assert(len * p1 <= len * p2) by (nonlinear_arith)
        requires
            0 <= len,
            p1 <= p2,
    ;
    lemma_div_is_ordered(len * p1, len * p2, 100);
}

} // verus!
