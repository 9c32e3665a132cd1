//! Reader for an oscillator wavetable.  The reader does not own the table it
//! reads: it only tracks a normalized phase in `[0, FX_ONE)` and takes the
//! table by reference.  The phase is public so that callers remain free to
//! modulate it for FM or sync effects.

use vstd::prelude::*;
use crate::fixed::{FX_ONE, FREQ_MAX, SR_MAX, fx_abs};
use crate::interpolation::{TABLE_LEN_MAX, table_bounded, interp_osc_spec, interpolate_linear};

verus! {

/// Cached mapping `(frequency, sample_rate) -> phase_inc`, recomputed only
/// when one of the inputs changes.
#[derive(Clone, Copy)]
pub struct Memo {
    pub frequency: i64,
    pub sample_rate: u32,
    pub phase_inc: i64,
}

/// Per-voice phase accumulator over a shared wavetable.
#[derive(Clone, Copy)]
pub struct OscReader {
    pub phase: i64,
    pub memo: Memo,
}

/// Phase advance per sample for a frequency (Q16.16 hertz) at a sample rate:
/// `frequency / sample_rate` of a cycle, in Q16.16.
pub open spec fn osc_inc_spec(freq: int, sr: int) -> int {
    freq / sr
}

/// Well-formed reader: phase within one cycle, cached increment coherent
/// with the cached inputs.
pub open spec fn osc_wf(r: OscReader) -> bool {
    &&& 0 <= r.phase < FX_ONE
    &&& 0 <= r.memo.frequency <= FREQ_MAX
    &&& 1 <= r.memo.sample_rate <= SR_MAX
    &&& r.memo.phase_inc == osc_inc_spec(r.memo.frequency as int, r.memo.sample_rate as int)
}

/// One phase step: add the increment, wrap into `[0, FX_ONE)`.
pub open spec fn osc_phase_step(phase: int, inc: int) -> int {
    (phase + inc) % (FX_ONE as int)
}

/// Phase after `n` steps of size `p` starting from zero.
pub open spec fn iterated_phase(n: nat, p: int) -> int
    decreases n,
{
    if n == 0 {
        0
    } else {
        osc_phase_step(iterated_phase((n - 1) as nat, p), p)
    }
}

/// Oscillator phase law: `n` increments of `p` starting from phase zero land
/// exactly on `(n * p) mod 1`.
pub proof fn lemma_osc_phase_law(n: nat, p: int)
    requires
        0 <= p < FX_ONE,
    ensures
        iterated_phase(n, p) == (n * p) % (FX_ONE as int),
    decreases n,
{
    let m = FX_ONE as int;
    if n == 0 {
        vstd::arithmetic::div_mod::lemma_small_mod(0, m as nat);
    } else {
        lemma_osc_phase_law((n - 1) as nat, p);
        let prev = ((n - 1) as nat * p) % m;
        vstd::arithmetic::div_mod::lemma_add_mod_noop((n - 1) as nat * p, p, m);
        vstd::arithmetic::div_mod::lemma_small_mod(p as nat, m as nat);
        vstd::arithmetic::div_mod::lemma_mod_twice((n - 1) as nat * p + p, m);
        assert((n - 1) as nat * p + p == n * p) by (nonlinear_arith)
            requires
                n >= 1,
        ;
        assert((prev + p) % m == (n * p) % m) by {
            vstd::arithmetic::div_mod::lemma_mod_twice(prev + p, m);
            vstd::arithmetic::div_mod::lemma_add_mod_noop((n - 1) as nat * p, p, m);
        }
    }
}

impl OscReader {
    /// A reader at phase zero with an idle cached increment.
    pub fn new() -> (r: OscReader)
        ensures
            osc_wf(r),
            r.phase == 0,
            r.memo.frequency == 0,
            r.memo.sample_rate == 44100,
            r.memo.phase_inc == 0,
    {
        OscReader { phase: 0, memo: Memo { frequency: 0, sample_rate: 44100, phase_inc: 0 } }
    }

    /// Periodic interpolated read of the shared table at the current phase.
    pub fn read_linear(reader: &OscReader, table: &Vec<i64>) -> (r: i64)
        requires
            osc_wf(*reader),
            1 <= table@.len() <= TABLE_LEN_MAX,
            table_bounded(table@, FX_ONE as int),
        ensures
            r == interp_osc_spec(table@, reader.phase as int),
            fx_abs(r as int) <= FX_ONE,
    {
        interpolate_linear(table, reader.phase)
    }

    /// Periodic interpolated read of the shared table at the current phase.
    pub fn read(&self, table: &Vec<i64>) -> (r: i64)
        requires
            osc_wf(*self),
            1 <= table@.len() <= TABLE_LEN_MAX,
            table_bounded(table@, FX_ONE as int),
        ensures
            r == interp_osc_spec(table@, self.phase as int),
            fx_abs(r as int) <= FX_ONE,
    {
        interpolate_linear(table, self.phase)
    }

    /// Advance the phase by one sample of the given frequency, recomputing
    /// the cached increment only when the frequency or rate changed.  Because
    /// the cache is coherent, the new phase depends only on the inputs.
    pub fn increment(&mut self, freq: i64, sr: u32)
        requires
            osc_wf(*old(self)),
            0 <= freq <= FREQ_MAX,
            1 <= sr <= SR_MAX,
        ensures
            osc_wf(*final(self)),
            final(self).memo.frequency == freq,
            final(self).memo.sample_rate == sr,
            final(self).memo.phase_inc == osc_inc_spec(freq as int, sr as int),
            final(self).phase == osc_phase_step(
                old(self).phase as int,
                osc_inc_spec(freq as int, sr as int),
            ),
    {
        if freq != self.memo.frequency || sr != self.memo.sample_rate {
            self.memo.frequency = freq;
            self.memo.sample_rate = sr;
            proof {
                vstd::arithmetic::div_mod::lemma_div_pos_is_pos(freq as int, sr as int);
                vstd::arithmetic::div_mod::lemma_div_nonincreasing(freq as int, sr as int);
            }
            self.memo.phase_inc = freq / (sr as i64);
        }
        proof {
            vstd::arithmetic::div_mod::lemma_mod_bound(
                self.phase + self.memo.phase_inc,
                FX_ONE as int,
            );
        }
        self.phase = (self.phase + self.memo.phase_inc) % FX_ONE;
    }
}

/// Periodic linear-interpolation policy, as a free function over a reader.
pub fn linear_interpolate(reader: &OscReader, table: &Vec<i64>) -> (r: i64)
    requires
        osc_wf(*reader),
        1 <= table@.len() <= TABLE_LEN_MAX,
        table_bounded(table@, FX_ONE as int),
    ensures
        r == interp_osc_spec(table@, reader.phase as int),
        fx_abs(r as int) <= FX_ONE,
{
    interpolate_linear(table, reader.phase)
}

} // verus!
