//! An envelope reader that tracks its position directly in table entries
//! (Q16.16 entries rather than a normalized phase) and reads without
//! interpolation.  Stage lengths are set through explicit setters, which
//! also fix the per-sample increments; a later sample-rate change takes
//! effect on the increments only when a setter next runs.

use vstd::prelude::*;
use crate::fixed::{FX_ONE, SECONDS_MAX, SR_MAX, fx_abs};
use crate::interpolation::{TABLE_LEN_MAX, table_bounded};

verus! {

/// The two live stages of the envelope.
#[derive(Clone, Copy, PartialEq, Eq, Structural)]
pub enum Stage {
    Attack,
    Release,
}

/// Envelope state positioned in Q16.16 table entries.
#[derive(Clone, Copy)]
pub struct EnvReader {
    pub active: bool,
    pub attack_seconds: i64,
    pub release_seconds: i64,
    pub attack_wt_increment: i64,
    pub release_wt_increment: i64,
    pub sample_rate: u32,
    pub current_stage: Stage,
    pub table_size: usize,
    pub wt_position: i64,
}

/// Entries advanced per sample for a stage lasting `seconds`:
/// `table_size / (sample_rate * seconds)`, in Q16.16 entries, rounded up so
/// that a set stage always advances and therefore terminates.
pub open spec fn wt_inc_spec(seconds: int, table_size: int, sr: int) -> int {
    (table_size * FX_ONE * FX_ONE + sr * seconds - 1) / (sr * seconds)
}

/// Well-formed reader: the position indexes inside the table, and the
/// increments are nonnegative and small enough never to overflow a step.
pub open spec fn reader_wf(e: EnvReader) -> bool {
    &&& 1 <= e.table_size <= TABLE_LEN_MAX
    &&& 0 <= e.wt_position < e.table_size * FX_ONE
    &&& 0 <= e.attack_wt_increment <= 0x8000_0000_0000i64
    &&& 0 <= e.release_wt_increment <= 0x8000_0000_0000i64
    &&& 1 <= e.sample_rate <= SR_MAX
}

/// One step of the stage machine on the table-entry scale: the attack
/// advances and flips to Release instead of reaching the table's end; the
/// release falls and clamps at zero, clearing the active flag.
pub open spec fn reader_step(e: EnvReader) -> EnvReader {
    match e.current_stage {
        Stage::Attack => {
            let p = e.wt_position + e.attack_wt_increment;
            if p >= e.table_size * FX_ONE {
                EnvReader { current_stage: Stage::Release, ..e }
            } else {
                EnvReader { wt_position: p as i64, ..e }
            }
        },
        Stage::Release => {
            let p = e.wt_position - e.release_wt_increment;
            if p <= 0 {
                EnvReader { wt_position: 0, active: false, ..e }
            } else {
                EnvReader { wt_position: p as i64, ..e }
            }
        },
    }
}

/// Entries advanced per sample (the inverse of the stage's length in
/// samples).
fn seconds_to_wt_inc(seconds: i64, table_size: usize, sample_rate: u32) -> (r: i64)
    requires
        1 <= seconds <= SECONDS_MAX,
        1 <= table_size <= TABLE_LEN_MAX,
        1 <= sample_rate <= SR_MAX,
    ensures
        r == wt_inc_spec(seconds as int, table_size as int, sample_rate as int),
        1 <= r <= 0x8000_0000_0000i64,
{
    proof {
        assert((table_size as int) * FX_ONE * FX_ONE <= 0x8000_0000_0000i64 * 65536)
            by (nonlinear_arith)
            requires
                1 <= table_size <= TABLE_LEN_MAX,
        ;
        assert(1 <= (table_size as int) * FX_ONE * FX_ONE) by (nonlinear_arith)
            requires
                1 <= table_size,
        ;
        assert(1 <= (sample_rate as int) * (seconds as int) <= 0x8_0000_0000_0000i64)
            by (nonlinear_arith)
            requires
                1 <= sample_rate <= SR_MAX,
                1 <= seconds <= SECONDS_MAX,
        ;
    }
    let numerator: i64 = (table_size as i64) * FX_ONE * FX_ONE;
    let denominator: i64 = (sample_rate as i64) * seconds;
    proof {
        let num = numerator as int + denominator as int - 1;
        assert(1 <= num / (denominator as int)) by {
            vstd::arithmetic::div_mod::lemma_div_is_ordered(
                denominator as int,
                num,
                denominator as int,
            );
            vstd::arithmetic::div_mod::lemma_div_by_self(denominator as int);
        }
        assert(num / (denominator as int) <= 0x8000_0000_0000i64) by {
            assert(num <= (denominator as int) * 0x8000_0000_0000i64) by (nonlinear_arith)
                requires
                    1 <= denominator,
                    num == numerator as int + denominator as int - 1,
                    numerator <= 0x8000_0000_0000i64 * 65536 / 65536,
            ;
            vstd::arithmetic::div_mod::lemma_multiply_divide_le(
                num,
                denominator as int,
                0x8000_0000_0000i64 as int,
            );
        }
    }
    (numerator + denominator - 1) / denominator
}

impl EnvReader {
    /// An idle reader over a table of the given size, with zero increments
    /// until the setters run.
    pub fn new(table_size: usize, sample_rate: u32) -> (e: EnvReader)
        requires
            1 <= table_size <= TABLE_LEN_MAX,
            1 <= sample_rate <= SR_MAX,
        ensures
            reader_wf(e),
            !e.active,
            e.current_stage is Attack,
            e.wt_position == 0,
            e.attack_wt_increment == 0,
            e.release_wt_increment == 0,
            e.table_size == table_size,
            e.sample_rate == sample_rate,
    {
        proof {
            assert(1 * FX_ONE <= (table_size as int) * FX_ONE) by (nonlinear_arith)
                requires
                    1 <= table_size,
            ;
        }
        EnvReader {
            active: false,
            attack_seconds: 0,
            release_seconds: 0,
            sample_rate,
            table_size,
            current_stage: Stage::Attack,
            attack_wt_increment: 0,
            release_wt_increment: 0,
            wt_position: 0,
        }
    }

    /// Read the table entry under the current position, no interpolation.
    pub fn read(&self, table: &Vec<i64>) -> (r: i64)
        requires
            reader_wf(*self),
            table@.len() == self.table_size,
            table_bounded(table@, FX_ONE as int),
        ensures
            r == table@[self.wt_position as int / (FX_ONE as int)],
            fx_abs(r as int) <= FX_ONE,
    {
        proof {
            vstd::arithmetic::div_mod::lemma_div_pos_is_pos(self.wt_position as int, FX_ONE as int);
            vstd::arithmetic::div_mod::lemma_multiply_divide_lt(
                self.wt_position as int,
                FX_ONE as int,
                self.table_size as int,
            );
            assert((FX_ONE as int) * (self.table_size as int) > self.wt_position as int)
                by (nonlinear_arith)
                requires
                    self.wt_position < self.table_size * FX_ONE,
            ;
        }
        table[(self.wt_position / FX_ONE) as usize]
    }

    /// Begin (or re-trigger) the envelope: back to the attack stage, active,
    /// from the current position.
    pub fn start(&mut self)
        ensures
            *final(self) == (EnvReader {
                active: true,
                current_stage: Stage::Attack,
                ..*old(self)
            }),
    {
        self.active = true;
        self.current_stage = Stage::Attack;
    }

    /// Advance the envelope one sample.
    pub fn increment(&mut self)
        requires
            reader_wf(*old(self)),
        ensures
            reader_wf(*final(self)),
            *final(self) == reader_step(*old(self)),
    {
        match self.current_stage {
            Stage::Attack => {
                let top: i64 = (self.table_size as i64) * FX_ONE;
                let p: i64 = self.wt_position + self.attack_wt_increment;
                if p >= top {
                    self.current_stage = Stage::Release;
                } else {
                    self.wt_position = p;
                }
            },
            Stage::Release => {
                let p: i64 = self.wt_position - self.release_wt_increment;
                if p <= 0 {
                    self.wt_position = 0;
                    self.active = false;
                } else {
                    self.wt_position = p;
                }
            },
        }
    }

    /// Set the attack length and refresh its increment at the current rate.
    pub fn set_attack(&mut self, next_attack: i64)
        requires
            reader_wf(*old(self)),
            1 <= next_attack <= SECONDS_MAX,
        ensures
            reader_wf(*final(self)),
            *final(self) == (EnvReader {
                attack_seconds: next_attack,
                attack_wt_increment: wt_inc_spec(
                    next_attack as int,
                    old(self).table_size as int,
                    old(self).sample_rate as int,
                ) as i64,
                ..*old(self)
            }),
    {
        self.attack_seconds = next_attack;
        self.attack_wt_increment = seconds_to_wt_inc(
            self.attack_seconds,
            self.table_size,
            self.sample_rate,
        );
    }

    /// Set the release length and refresh its increment at the current rate.
    pub fn set_release(&mut self, next_release: i64)
        requires
            reader_wf(*old(self)),
            1 <= next_release <= SECONDS_MAX,
        ensures
            reader_wf(*final(self)),
            *final(self) == (EnvReader {
                release_seconds: next_release,
                release_wt_increment: wt_inc_spec(
                    next_release as int,
                    old(self).table_size as int,
                    old(self).sample_rate as int,
                ) as i64,
                ..*old(self)
            }),
    {
        self.release_seconds = next_release;
        self.release_wt_increment = seconds_to_wt_inc(
            self.release_seconds,
            self.table_size,
            self.sample_rate,
        );
    }

    /// Change the sample rate the setters will use.  The stored increments
    /// keep their old values until a setter next runs.
    pub fn update_sample_rate(&mut self, next_sample_rate: u32)
        requires
            reader_wf(*old(self)),
            1 <= next_sample_rate <= SR_MAX,
        ensures
            reader_wf(*final(self)),
            *final(self) == (EnvReader { sample_rate: next_sample_rate, ..*old(self) }),
    {
        self.sample_rate = next_sample_rate;
    }
}

} // verus!
