//! Min-max normalization of a sequence of stored fixed-point values.

use crate::error::Error;
use crate::fx;
use crate::fx::{tdiv, SCALE};
use crate::seqs::{as_ints, lemma_min_max_props, min_max, smax, smin};
use vstd::arithmetic::div_mod::{
    lemma_div_basics_1, lemma_div_is_ordered, lemma_div_multiples_vanish, lemma_div_pos_is_pos,
};
use vstd::arithmetic::mul::lemma_mul_inequality;
use vstd::prelude::*;

verus! {

/// A value mapped into the unit range: `(v - lo) * SCALE / (hi - lo)`,
/// truncating toward zero.
pub open spec fn norm_val(v: int, lo: int, hi: int) -> int
    recommends
        lo < hi,
{
    tdiv((v - lo) * (SCALE as int), hi - lo)
}

/// The whole sequence mapped into the unit range by its own bounds.
pub open spec fn norm_seq(s: Seq<int>) -> Seq<int>
    recommends
        s.len() >= 1,
        smin(s) < smax(s),
{
    Seq::new(s.len(), |i: int| norm_val(s[i], smin(s), smax(s)))
}

/// A value between the bounds maps into `[0, SCALE]`.
pub proof fn lemma_norm_val_bounds(v: int, lo: int, hi: int)
    requires
        lo <= v <= hi,
        lo < hi,
    ensures
        0 <= norm_val(v, lo, hi) <= SCALE as int,
{
    let num = (v - lo) * (SCALE as int);
    lemma_mul_inequality(0, v - lo, SCALE as int);
    lemma_mul_inequality(v - lo, hi - lo, SCALE as int);
    lemma_div_pos_is_pos(num, hi - lo);
    lemma_div_is_ordered(num, (hi - lo) * (SCALE as int), hi - lo);
    lemma_div_multiples_vanish(SCALE as int, hi - lo);
}

/// Normalizing any sequence with two distinct values yields a sequence of
/// the same length whose least value is exactly 0 and whose greatest is
/// exactly SCALE (the fixed-point rendering of 1).
pub proof fn lemma_normalize_unit_range(s: Seq<int>)
    requires
        s.len() >= 1,
        smin(s) < smax(s),
    ensures
        norm_seq(s).len() == s.len(),
        smin(norm_seq(s)) == 0,
        smax(norm_seq(s)) == SCALE as int,
{
    let lo = smin(s);
    let hi = smax(s);
    let t = norm_seq(s);
    lemma_min_max_props(s);
    assert forall|i: int| 0 <= i < t.len() implies 0 <= #[trigger] t[i] <= SCALE as int by {
        lemma_norm_val_bounds(s[i], lo, hi);
    }
    let wl = choose|i: int| 0 <= i < s.len() && smin(s) == s[i];
    lemma_div_basics_1(hi - lo);
    assert(t[wl] == 0);
    let wh = choose|i: int| 0 <= i < s.len() && smax(s) == s[i];
    lemma_mul_inequality(0, hi - lo, SCALE as int);
    lemma_div_multiples_vanish(SCALE as int, hi - lo);
    assert(t[wh] == SCALE as int);
    lemma_min_max_props(t);
    let ml = choose|i: int| 0 <= i < t.len() && smin(t) == t[i];
    assert(smin(t) <= t[wl]);
    let mh = choose|i: int| 0 <= i < t.len() && smax(t) == t[i];
    assert(smax(t) >= t[wh]);
}

/// Normalizing a sequence that is already normalized — least value 0,
/// greatest value SCALE — maps every element to itself.
pub proof fn lemma_normalize_idempotent(s: Seq<int>)
    requires
        s.len() >= 1,
        smin(s) == 0,
        smax(s) == SCALE as int,
    ensures
        norm_seq(s) == s,
{
    lemma_min_max_props(s);
    assert forall|i: int| 0 <= i < s.len() implies norm_seq(s)[i] == s[i] by {
        assert(s[i] >= 0);
        assert((s[i] - 0) * (SCALE as int) == (SCALE as int) * s[i]) by (nonlinear_arith);
        assert((SCALE as int) * s[i] >= 0) by (nonlinear_arith)
            requires
                s[i] >= 0,
        ;
        lemma_div_multiples_vanish(s[i], SCALE as int);
    }
    assert(norm_seq(s) =~= s);
}

/// Normalizing twice is the same as normalizing once: the image of any
/// sequence with two distinct values is a fixed point of normalization.
pub proof fn lemma_renormalize_no_op(s: Seq<int>)
    requires
        s.len() >= 1,
        smin(s) < smax(s),
    ensures
        norm_seq(norm_seq(s)) == norm_seq(s),
{
    lemma_normalize_unit_range(s);
    lemma_normalize_idempotent(norm_seq(s));
}

/// Holds the bounds of the most recently normalized sequence; a fresh
/// instance holds the empty range `[0, 0]`.
pub struct Normalizer {
    pub min: i64,
    pub max: i64,
}

impl Normalizer {
    /// The stored range is ordered.
    pub open spec fn wf(&self) -> bool {
        self.min <= self.max
    }

    /// A fresh normalizer with the degenerate range `[0, 0]`.
    pub fn new() -> (r: Normalizer)
        ensures
            r.min == 0,
            r.max == 0,
            r.wf(),
    {
        Normalizer { min: 0, max: 0 }
    }

    /// Map each value through `(v - min) / (max - min)` in fixed point,
    /// storing the sequence's bounds as the new range. Empty input and
    /// constant input are rejected, and the state is then unchanged;
    /// rejecting constant input (instead of producing an undefined
    /// quotient) is this implementation's documented choice.
    pub fn normalize(&mut self, values: &Vec<i64>) -> (r: Result<Vec<i64>, Error>)
        ensures
            values@.len() == 0 <==> r == Err::<Vec<i64>, Error>(Error::EmptyInput),
            (values@.len() >= 1 && smin(as_ints(values@)) == smax(as_ints(values@))) <==> r
                == Err::<Vec<i64>, Error>(Error::DegenerateRange),
            (values@.len() >= 1 && smin(as_ints(values@)) != smax(as_ints(values@))) <==> r is Ok,
            r is Err ==> *final(self) == *old(self),
            r is Ok ==> final(self).min as int == smin(as_ints(values@)) && final(self).max as int
                == smax(as_ints(values@)) && final(self).wf(),
            r matches Ok(out) ==> as_ints(out@) == norm_seq(as_ints(values@)) && out@.len()
                == values@.len(),
    {
        if values.len() == 0 {
            return Err(Error::EmptyInput);
        }
        let (lo, hi) = min_max(values);
        if lo == hi {
            return Err(Error::DegenerateRange);
        }
        self.min = lo;
        self.max = hi;
        let ghost vs = as_ints(values@);
        let mut out: Vec<i64> = Vec::new();
        let mut j: usize = 0;
        while j < values.len()
            invariant
                j <= values@.len(),
                values@.len() >= 1,
                vs == as_ints(values@),
                lo as int == smin(vs),
                hi as int == smax(vs),
                lo < hi,
                out@.len() == j,
                forall|i: int|
                    0 <= i < j ==> #[trigger] out@[i] as int == norm_val(
                        vs[i],
                        lo as int,
                        hi as int,
                    ),
            decreases values@.len() - j,
        {
            let v = values[j];
            proof {
                lemma_min_max_props(vs);
                assert(vs[j as int] == v as int);
                assert(lo as int <= vs[j as int]);
                assert(vs[j as int] <= hi as int);
                lemma_mul_inequality(0, v as int - lo as int, SCALE as int);
                lemma_mul_inequality(v as int - lo as int, hi as int - lo as int, SCALE as int);
                lemma_mul_inequality(
                    hi as int - lo as int,
                    0x1_0000_0000_0000_0000,
                    SCALE as int,
                );
                lemma_norm_val_bounds(v as int, lo as int, hi as int);
            }
            let num: i128 = (v as i128 - lo as i128) * (SCALE as i128);
            let den: i128 = hi as i128 - lo as i128;
            let q: i128 = fx::tdiv128(num, den);
            out.push(q as i64);
            j += 1;
        }
        proof {
            assert(as_ints(out@) =~= norm_seq(vs));
        }
        Ok(out)
    }
}

} // verus!
