//! Interpolation policies for table readers.  A phase in `[0, FX_ONE)` is
//! expanded to a table position; the sample is a linear blend of the entry at
//! that position and the next one.  Periodic reads wrap the next index to the
//! table start, non-periodic (envelope) reads hold the last entry instead.

use vstd::prelude::*;
use crate::fixed::{FX_ONE, FX_MUL_BOUND, fx_abs, fx_mul_spec, fx_mul};

verus! {

/// Largest table length the readers accept.
pub const TABLE_LEN_MAX: usize = 32768;

/// Linear blend of two samples by a fraction in `[0, FX_ONE]`.
pub open spec fn lerp_spec(s1: int, s2: int, frac: int) -> int {
    fx_mul_spec(s1, FX_ONE - frac) + fx_mul_spec(s2, frac)
}

/// Every entry of the table has magnitude at most `bound`.
pub open spec fn table_bounded(t: Seq<i64>, bound: int) -> bool {
    forall|i: int| 0 <= i < t.len() ==> fx_abs(t[i] as int) <= bound
}

/// A linear blend of two bounded samples is bounded by the same bound.
pub proof fn lemma_lerp_bound(s1: int, s2: int, frac: int, bound: int)
    by (nonlinear_arith)
    requires
        fx_abs(s1) <= bound,
        fx_abs(s2) <= bound,
        0 <= frac <= FX_ONE,
        0 <= bound,
    ensures
        fx_abs(lerp_spec(s1, s2, frac)) <= bound,
{
}

/// Periodic (oscillator) table read: wrap the next index to 0 at the end.
pub open spec fn interp_osc_spec(t: Seq<i64>, phase: int) -> int {
    let e = phase * t.len();
    let idx = e / (FX_ONE as int);
    let frac = e % (FX_ONE as int);
    let nxt = if idx + 1 >= t.len() {
        0int
    } else {
        idx + 1
    };
    lerp_spec(t[idx] as int, t[nxt] as int, frac)
}

/// Non-periodic (envelope) table read: hold the last entry at the end.
pub open spec fn interp_env_spec(t: Seq<i64>, phase: int) -> int {
    let e = phase * t.len();
    let idx = e / (FX_ONE as int);
    let frac = e % (FX_ONE as int);
    if idx + 1 >= t.len() {
        t[idx] as int
    } else {
        lerp_spec(t[idx] as int, t[idx + 1] as int, frac)
    }
}

/// A phase strictly below one always lands strictly inside the table.
pub proof fn lemma_expanded_phase_in_table(len: int, phase: int)
    requires
        1 <= len,
        0 <= phase < FX_ONE,
    ensures
        0 <= phase * len,
        phase * len <= (FX_ONE - 1) * len,
        0 <= (phase * len) / (FX_ONE as int) < len,
        0 <= (phase * len) % (FX_ONE as int) < FX_ONE,
{
    let e = phase * len;
    assert(0 <= e && e <= (FX_ONE - 1) * len) by (nonlinear_arith)
        requires
            1 <= len,
            0 <= phase < FX_ONE,
            e == phase * len,
    ;
    vstd::arithmetic::div_mod::lemma_div_pos_is_pos(e, FX_ONE as int);
    assert((FX_ONE * len - 1) / (FX_ONE as int) == len - 1) by {
        vstd::arithmetic::div_mod::lemma_fundamental_div_mod_converse(
            FX_ONE * len - 1,
            FX_ONE as int,
            len - 1,
            FX_ONE - 1,
        );
        assert(FX_ONE * len - 1 == (FX_ONE as int) * (len - 1) + (FX_ONE - 1)) by (nonlinear_arith);
    }
    assert(e <= FX_ONE * len - 1) by (nonlinear_arith)
        requires
            1 <= len,
            0 <= phase < FX_ONE,
            e == phase * len,
    ;
    vstd::arithmetic::div_mod::lemma_div_is_ordered(e, FX_ONE * len - 1, FX_ONE as int);
    vstd::arithmetic::div_mod::lemma_mod_bound(e, FX_ONE as int);
}

/// A periodic interpolated read of a bounded table is bounded.
pub proof fn lemma_interp_osc_bound(t: Seq<i64>, phase: int, bound: int)
    requires
        1 <= t.len(),
        0 <= phase < FX_ONE,
        table_bounded(t, bound),
        0 <= bound,
    ensures
        fx_abs(interp_osc_spec(t, phase)) <= bound,
{
    lemma_expanded_phase_in_table(t.len() as int, phase);
    let e = phase * t.len();
    let idx = e / (FX_ONE as int);
    let nxt = if idx + 1 >= t.len() {
        0int
    } else {
        idx + 1
    };
    lemma_lerp_bound(t[idx] as int, t[nxt] as int, e % (FX_ONE as int), bound);
}

/// A non-periodic interpolated read of a bounded table is bounded.
pub proof fn lemma_interp_env_bound(t: Seq<i64>, phase: int, bound: int)
    requires
        1 <= t.len(),
        0 <= phase < FX_ONE,
        table_bounded(t, bound),
        0 <= bound,
    ensures
        fx_abs(interp_env_spec(t, phase)) <= bound,
{
    lemma_expanded_phase_in_table(t.len() as int, phase);
    let e = phase * t.len();
    let idx = e / (FX_ONE as int);
    if idx + 1 < t.len() {
        lemma_lerp_bound(t[idx] as int, t[idx + 1] as int, e % (FX_ONE as int), bound);
    }
}

/// Blend two samples by the fractional part of a table position.
pub fn simple_linear(sample1: i64, sample2: i64, fraction: i64) -> (r: i64)
    requires
        fx_abs(sample1 as int) <= FX_MUL_BOUND,
        fx_abs(sample2 as int) <= FX_MUL_BOUND,
        0 <= fraction <= FX_ONE,
    ensures
        r == lerp_spec(sample1 as int, sample2 as int, fraction as int),
{
    proof {
        crate::fixed::lemma_fx_mul_le_one(sample1 as int, FX_ONE - fraction);
        crate::fixed::lemma_fx_mul_le_one(sample2 as int, fraction as int);
    }
    fx_mul(sample1, FX_ONE - fraction) + fx_mul(sample2, fraction)
}

/// Periodic linear read of a wavetable at a normalized phase.
pub fn interpolate_linear(table: &Vec<i64>, phase: i64) -> (r: i64)
    requires
        1 <= table@.len() <= TABLE_LEN_MAX,
        0 <= phase < FX_ONE,
        table_bounded(table@, FX_ONE as int),
    ensures
        r == interp_osc_spec(table@, phase as int),
        fx_abs(r as int) <= FX_ONE,
{
    proof {
        lemma_expanded_phase_in_table(table@.len() as int, phase as int);
    }
    let len: i64 = table.len() as i64;
    let ex_phase: i64 = phase * len;
    let index: usize = (ex_phase / FX_ONE) as usize;
    let fraction: i64 = ex_phase % FX_ONE;
    let mut next_index: usize = index + 1;
    if next_index >= table.len() {
        next_index = 0;
    }
    proof {
        lemma_lerp_bound(
            table@[index as int] as int,
            table@[next_index as int] as int,
            fraction as int,
            FX_ONE as int,
        );
    }
    simple_linear(table[index], table[next_index], fraction)
}

/// Non-periodic linear read of a shaping table at a normalized phase: holds
/// the final entry instead of wrapping.
pub fn envelope_linear(table: &Vec<i64>, phase: i64) -> (r: i64)
    requires
        1 <= table@.len() <= TABLE_LEN_MAX,
        0 <= phase < FX_ONE,
        table_bounded(table@, FX_ONE as int),
    ensures
        r == interp_env_spec(table@, phase as int),
        fx_abs(r as int) <= FX_ONE,
{
    proof {
        lemma_expanded_phase_in_table(table@.len() as int, phase as int);
    }
    let len: i64 = table.len() as i64;
    let ex_phase: i64 = phase * len;
    let index: usize = (ex_phase / FX_ONE) as usize;
    let fraction: i64 = ex_phase % FX_ONE;
    let next_index: usize = index + 1;
    if next_index >= table.len() {
        table[index]
    } else {
        proof {
            lemma_lerp_bound(
                table@[index as int] as int,
                table@[next_index as int] as int,
                fraction as int,
                FX_ONE as int,
            );
        }
        simple_linear(table[index], table[next_index], fraction)
    }
}

} // verus!
