//! Specifications and scans for sequences of stored fixed-point values:
//! least and greatest element, and saturating sums.

use crate::fx::fadd_s;
use vstd::prelude::*;

verus! {

/// View of a vector of stored values as a sequence of integers.
pub open spec fn as_ints(s: Seq<i64>) -> Seq<int> {
    Seq::new(s.len(), |i: int| s[i] as int)
}

/// Least value among the first `k` entries of `s`.
pub open spec fn smin_k(s: Seq<int>, k: int) -> int
    recommends
        1 <= k <= s.len(),
    decreases k,
{
    if k <= 1 {
        s[0]
    } else {
        let m = smin_k(s, k - 1);
        if s[k - 1] <= m {
            s[k - 1]
        } else {
            m
        }
    }
}

/// Least value of a non-empty sequence.
pub open spec fn smin(s: Seq<int>) -> int
    recommends
        s.len() >= 1,
{
    smin_k(s, s.len() as int)
}

/// Greatest value among the first `k` entries of `s`.
pub open spec fn smax_k(s: Seq<int>, k: int) -> int
    recommends
        1 <= k <= s.len(),
    decreases k,
{
    if k <= 1 {
        s[0]
    } else {
        let m = smax_k(s, k - 1);
        if s[k - 1] >= m {
            s[k - 1]
        } else {
            m
        }
    }
}

/// Greatest value of a non-empty sequence.
pub open spec fn smax(s: Seq<int>) -> int
    recommends
        s.len() >= 1,
{
    smax_k(s, s.len() as int)
}

/// Saturating sum of the first `k` entries of `s`.
pub open spec fn csum_k(s: Seq<int>, k: int) -> int
    recommends
        k <= s.len(),
    decreases k,
{
    if k <= 0 {
        0
    } else {
        fadd_s(csum_k(s, k - 1), s[k - 1])
    }
}

/// The least value of a prefix is a lower bound of it and occurs in it.
pub proof fn lemma_smin_k_props(s: Seq<int>, k: int)
    requires
        1 <= k <= s.len(),
    ensures
        forall|i: int| 0 <= i < k ==> smin_k(s, k) <= #[trigger] s[i],
        exists|i: int| 0 <= i < k && smin_k(s, k) == s[i],
    decreases k,
{
    if k == 1 {
        assert(smin_k(s, 1) == s[0]);
    } else {
        lemma_smin_k_props(s, k - 1);
        if s[k - 1] <= smin_k(s, k - 1) {
            assert(smin_k(s, k) == s[k - 1]);
        } else {
            let w = choose|i: int| 0 <= i < k - 1 && smin_k(s, k - 1) == s[i];
            assert(smin_k(s, k) == s[w]);
        }
    }
}

/// The greatest value of a prefix is an upper bound of it and occurs in it.
pub proof fn lemma_smax_k_props(s: Seq<int>, k: int)
    requires
        1 <= k <= s.len(),
    ensures
        forall|i: int| 0 <= i < k ==> smax_k(s, k) >= #[trigger] s[i],
        exists|i: int| 0 <= i < k && smax_k(s, k) == s[i],
    decreases k,
{
    if k == 1 {
        assert(smax_k(s, 1) == s[0]);
    } else {
        lemma_smax_k_props(s, k - 1);
        if s[k - 1] >= smax_k(s, k - 1) {
            assert(smax_k(s, k) == s[k - 1]);
        } else {
            let w = choose|i: int| 0 <= i < k - 1 && smax_k(s, k - 1) == s[i];
            assert(smax_k(s, k) == s[w]);
        }
    }
}

/// The least value of a non-empty sequence bounds every entry and occurs
/// in the sequence; so does the greatest, and the two are ordered.
pub proof fn lemma_min_max_props(s: Seq<int>)
    requires
        s.len() >= 1,
    ensures
        forall|i: int| 0 <= i < s.len() ==> smin(s) <= #[trigger] s[i],
        forall|i: int| 0 <= i < s.len() ==> smax(s) >= #[trigger] s[i],
        exists|i: int| 0 <= i < s.len() && smin(s) == s[i],
        exists|i: int| 0 <= i < s.len() && smax(s) == s[i],
        smin(s) <= smax(s),
{
    lemma_smin_k_props(s, s.len() as int);
    lemma_smax_k_props(s, s.len() as int);
    let w = choose|i: int| 0 <= i < s.len() && smin(s) == s[i];
    assert(smax(s) >= s[w]);
}

/// One scan that yields the least and the greatest stored value.
pub fn min_max(v: &Vec<i64>) -> (r: (i64, i64))
    requires
        v@.len() >= 1,
    ensures
        r.0 as int == smin(as_ints(v@)),
        r.1 as int == smax(as_ints(v@)),
        r.0 <= r.1,
{
    let mut lo: i64 = v[0];
    let mut hi: i64 = v[0];
    let mut j: usize = 1;
    while j < v.len()
        invariant
            1 <= j <= v@.len(),
            lo as int == smin_k(as_ints(v@), j as int),
            hi as int == smax_k(as_ints(v@), j as int),
            lo <= hi,
        decreases v@.len() - j,
    {
        let w = v[j];
        if w < lo {
            lo = w;
        }
        if w > hi {
            hi = w;
        }
        j += 1;
    }
    (lo, hi)
}

/// Saturating sum of all stored values, accumulated left to right.
pub fn csum_vec(v: &Vec<i64>) -> (s: i64)
    ensures
        s as int == csum_k(as_ints(v@), v@.len() as int),
{
    let mut acc: i64 = 0;
    let mut j: usize = 0;
    while j < v.len()
        invariant
            j <= v@.len(),
            acc as int == csum_k(as_ints(v@), j as int),
        decreases v@.len() - j,
    {
        acc = crate::fx::fadd(acc, v[j]);
        j += 1;
    }
    acc
}

} // verus!
