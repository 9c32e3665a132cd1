//! Two-stage (attack/release) envelope generator: a phase accumulator over a
//! shared shaping table with a small state machine,
//! `Idle --start--> Attack --phase at top--> Release --phase at zero--> Idle`.
//! Idle is represented as the Release stage at phase zero with the active
//! flag cleared.

use vstd::prelude::*;
use crate::fixed::{FX_ONE, SR_MAX, SECONDS_MAX, fx_abs};
use crate::interpolation::{TABLE_LEN_MAX, table_bounded, interp_env_spec, envelope_linear};

verus! {

/// The two live stages of the envelope.
#[derive(Clone, Copy, PartialEq, Eq, Structural)]
pub enum Stage {
    Attack,
    Release,
}

/// Cached mapping `(attack_seconds, release_seconds, sample_rate)` to the
/// two per-sample phase increments.
#[derive(Clone, Copy)]
pub struct Memo {
    pub sample_rate: u32,
    pub attack_seconds: i64,
    pub release_seconds: i64,
    pub attack_phase_inc: i64,
    pub release_phase_inc: i64,
}

/// Per-voice envelope state.
#[derive(Clone, Copy)]
pub struct EnvReader {
    pub is_active: bool,
    pub current_stage: Stage,
    pub memo: Memo,
    pub phase: i64,
}

/// Phase advance per sample for a stage lasting `seconds`:
/// `1 / (sample_rate * seconds)` in Q16.16, rounded up.  Rounding up keeps
/// the increment at least one for every admitted stage length, so a stage
/// always terminates: rounding down would freeze any stage whose length in
/// samples exceeds the Q16.16 grid (about 1.5 s at 44100 Hz).
pub open spec fn env_inc_spec(seconds: int, sr: int) -> int {
    ((FX_ONE * FX_ONE) as int + sr * seconds - 1) / (sr * seconds)
}

/// The memo a coherent cache holds for the given inputs.
pub open spec fn env_memo_spec(attack: i64, release: i64, sr: u32) -> Memo {
    Memo {
        sample_rate: sr,
        attack_seconds: attack,
        release_seconds: release,
        attack_phase_inc: env_inc_spec(attack as int, sr as int) as i64,
        release_phase_inc: env_inc_spec(release as int, sr as int) as i64,
    }
}

/// Well-formed memo: inputs in range, increments coherent with them and
/// positive, so that every stage makes progress.
pub open spec fn env_memo_wf(m: Memo) -> bool {
    &&& 1 <= m.attack_seconds <= SECONDS_MAX
    &&& 1 <= m.release_seconds <= SECONDS_MAX
    &&& 1 <= m.sample_rate <= SR_MAX
    &&& m == env_memo_spec(m.attack_seconds, m.release_seconds, m.sample_rate)
    &&& 1 <= m.attack_phase_inc <= FX_ONE * FX_ONE
    &&& 1 <= m.release_phase_inc <= FX_ONE * FX_ONE
}

/// Well-formed reader: phase within one cycle, coherent cache.
pub open spec fn env_wf(e: EnvReader) -> bool {
    &&& 0 <= e.phase < FX_ONE
    &&& env_memo_wf(e.memo)
}

/// One envelope step.  In Attack the phase advances and, were it to reach
/// the top, the step is undone and the stage flips to Release instead; in
/// Release the phase falls and clamps at zero, clearing the active flag.
pub open spec fn env_step(e: EnvReader) -> EnvReader {
    match e.current_stage {
        Stage::Attack => {
            let p = e.phase + e.memo.attack_phase_inc;
            if p >= FX_ONE {
                EnvReader { current_stage: Stage::Release, ..e }
            } else {
                EnvReader { phase: p as i64, ..e }
            }
        },
        Stage::Release => {
            let p = e.phase - e.memo.release_phase_inc;
            if p <= 0 {
                EnvReader { phase: 0, is_active: false, ..e }
            } else {
                EnvReader { phase: p as i64, ..e }
            }
        },
    }
}

/// The envelope after `n` steps.
pub open spec fn env_iter(e: EnvReader, n: nat) -> EnvReader
    decreases n,
{
    if n == 0 {
        e
    } else {
        env_step(env_iter(e, (n - 1) as nat))
    }
}

/// Iteration splits into two runs.
pub proof fn lemma_env_iter_add(e: EnvReader, m: nat, n: nat)
    ensures
        env_iter(e, m + n) == env_iter(env_iter(e, m), n),
    decreases n,
{
    if n > 0 {
        lemma_env_iter_add(e, m, (n - 1) as nat);
    }
}

/// While `j` attack steps stay strictly below the top, the phase is exactly
/// `j` increments high and nothing else moves.
proof fn lemma_attack_steps(e: EnvReader, j: nat)
    requires
        e.current_stage is Attack,
        e.phase == 0,
        1 <= e.memo.attack_phase_inc,
        j * e.memo.attack_phase_inc < FX_ONE,
    ensures
        env_iter(e, j) == (EnvReader { phase: (j * e.memo.attack_phase_inc) as i64, ..e }),
    decreases j,
{
    let a = e.memo.attack_phase_inc as int;
    if j == 0 {
        assert(j * a == 0) by (nonlinear_arith)
            requires
                j == 0,
        ;
        assert(env_iter(e, 0) == e);
        assert(e == (EnvReader { phase: 0i64, ..e }));
    } else {
        assert((j - 1) as nat * a == j * a - a) by (nonlinear_arith)
            requires
                j >= 1,
        ;
        lemma_attack_steps(e, (j - 1) as nat);
    }
}

/// After exactly `ceil(1 / a)` attack steps from a freshly started envelope
/// the stage flips to Release; the phase holds one increment short of the
/// top and the voice stays active.
pub proof fn lemma_envelope_attack_completes(e: EnvReader, n: nat)
    requires
        env_wf(e),
        e.current_stage is Attack,
        e.is_active,
        e.phase == 0,
        1 <= e.memo.attack_phase_inc,
        n == ((FX_ONE + e.memo.attack_phase_inc - 1) as int) / (e.memo.attack_phase_inc as int),
    ensures
        env_iter(e, n).current_stage is Release,
        env_iter(e, n).is_active,
        env_iter(e, n).memo == e.memo,
        env_iter(e, n).phase == (n - 1) * e.memo.attack_phase_inc,
        0 <= env_iter(e, n).phase < FX_ONE,
{
    let a = e.memo.attack_phase_inc as int;
    let d = FX_ONE + a - 1;
    vstd::arithmetic::div_mod::lemma_fundamental_div_mod(d, a);
    vstd::arithmetic::div_mod::lemma_mod_bound(d, a);
    let k = d / a;
    assert(k * a == d - d % a);
    assert(k * a >= FX_ONE);
    assert(k * a <= d);
    assert(k >= 1) by {
        vstd::arithmetic::div_mod::lemma_div_is_ordered(a, d, a);
        vstd::arithmetic::div_mod::lemma_div_by_self(a);
    }
    assert((k - 1) as nat * a == k * a - a) by (nonlinear_arith)
        requires
            k >= 1,
    ;
    lemma_attack_steps(e, (k - 1) as nat);
    let before = env_iter(e, (k - 1) as nat);
    assert(env_iter(e, k as nat) == env_step(before)) by {
        lemma_env_iter_add(e, (k - 1) as nat, 1);
        assert(env_iter(before, 1) == env_step(env_iter(before, 0)));
    }
    assert(before.phase + before.memo.attack_phase_inc >= FX_ONE);
}

/// While `j` release steps stay strictly above zero, the phase is exactly
/// `j` increments lower and nothing else moves.
proof fn lemma_release_steps(e: EnvReader, j: nat)
    requires
        e.current_stage is Release,
        0 <= e.phase,
        1 <= e.memo.release_phase_inc,
        e.phase - j * e.memo.release_phase_inc > 0,
    ensures
        env_iter(e, j) == (EnvReader {
            phase: (e.phase - j * e.memo.release_phase_inc) as i64,
            ..e
        }),
    decreases j,
{
    let r = e.memo.release_phase_inc as int;
    if j == 0 {
        assert(j * r == 0) by (nonlinear_arith)
            requires
                j == 0,
        ;
        assert(e == (EnvReader { phase: e.phase, ..e }));
    } else {
        assert((j - 1) as nat * r == j * r - r) by (nonlinear_arith)
            requires
                j >= 1,
        ;
        lemma_release_steps(e, (j - 1) as nat);
    }
}

/// An idle envelope (Release stage, phase zero, inactive) is a fixed point:
/// further steps change nothing.
pub proof fn lemma_envelope_stays_idle(e: EnvReader, n: nat)
    requires
        e.current_stage is Release,
        e.phase == 0,
        !e.is_active,
        0 <= e.memo.release_phase_inc,
    ensures
        env_iter(e, n) == e,
    decreases n,
{
    if n > 0 {
        lemma_envelope_stays_idle(e, (n - 1) as nat);
        assert(env_step(e) == e);
    }
}

/// Once enough release steps have passed to cover the starting phase, the
/// envelope is idle: inactive, at phase zero, and it stays that way.
pub proof fn lemma_envelope_release_completes(e: EnvReader, m: nat)
    requires
        e.current_stage is Release,
        0 <= e.phase < FX_ONE,
        1 <= e.memo.release_phase_inc,
        m >= 1,
        m * e.memo.release_phase_inc >= e.phase,
    ensures
        env_iter(e, m).current_stage is Release,
        !env_iter(e, m).is_active,
        env_iter(e, m).phase == 0,
        env_iter(e, m).memo == e.memo,
    decreases m,
{
    let r = e.memo.release_phase_inc as int;
    let p0 = e.phase as int;
    if p0 - r <= 0 {
        // The very first step clamps to zero and deactivates.
        let idle = env_step(e);
        assert(idle.phase == 0 && !idle.is_active && idle.current_stage is Release);
        assert(env_iter(e, m) == env_iter(idle, (m - 1) as nat)) by {
            assert(env_iter(e, 0) == e);
            assert(env_iter(e, 1) == env_step(e));
            lemma_env_iter_add(e, 1, (m - 1) as nat);
        }
        lemma_envelope_stays_idle(idle, (m - 1) as nat);
    } else {
        let stepped = env_step(e);
        assert(stepped == (EnvReader { phase: (p0 - r) as i64, ..e }));
        assert((m - 1) as nat * r == m * r - r) by (nonlinear_arith)
            requires
                m >= 1,
        ;
        assert(m >= 2) by (nonlinear_arith)
            requires
                m * r >= p0,
                p0 - r > 0,
                r >= 1,
                m >= 1,
        ;
        assert(env_iter(e, m) == env_iter(stepped, (m - 1) as nat)) by {
            assert(env_iter(e, 0) == e);
            assert(env_iter(e, 1) == env_step(e));
            lemma_env_iter_add(e, 1, (m - 1) as nat);
        }
        lemma_envelope_release_completes(stepped, (m - 1) as nat);
    }
}

/// A stage increment is positive and fits comfortably in an `i64`.
pub proof fn lemma_env_inc_bounds(seconds: int, sr: int)
    requires
        1 <= seconds <= SECONDS_MAX,
        1 <= sr <= SR_MAX,
    ensures
        1 <= env_inc_spec(seconds, sr) <= FX_ONE * FX_ONE,
{
    let d = sr * seconds;
    assert(1 <= d <= 0x8_0000_0000_0000i64) by (nonlinear_arith)
        requires
            1 <= sr <= SR_MAX,
            1 <= seconds <= SECONDS_MAX,
            d == sr * seconds,
    ;
    let numerator = (FX_ONE * FX_ONE) as int + d - 1;
    assert(1 <= env_inc_spec(seconds, sr)) by {
        vstd::arithmetic::div_mod::lemma_div_is_ordered(d, numerator, d);
        vstd::arithmetic::div_mod::lemma_div_by_self(d);
    }
    assert(env_inc_spec(seconds, sr) <= FX_ONE * FX_ONE) by {
        assert(numerator <= d * ((FX_ONE * FX_ONE) as int)) by (nonlinear_arith)
            requires
                1 <= d,
                numerator == (FX_ONE * FX_ONE) as int + d - 1,
        ;
        vstd::arithmetic::div_mod::lemma_multiply_divide_le(
            numerator,
            d,
            (FX_ONE * FX_ONE) as int,
        );
    }
}

/// Envelope lifecycle: from a freshly started envelope (Attack, phase zero,
/// active) with attack increment `a` and release increment `r`, after
/// `ceil(1 / a)` steps the stage is Release and the voice still sounds;
/// after a further `ceil(1 / r)` steps the voice is inactive at phase zero,
/// and it stays that way for any number of further steps.
pub proof fn lemma_envelope_lifecycle(e: EnvReader, extra: nat)
    requires
        env_wf(e),
        e.current_stage is Attack,
        e.is_active,
        e.phase == 0,
        1 <= e.memo.attack_phase_inc,
        1 <= e.memo.release_phase_inc,
    ensures
        ({
            let n_attack = (((FX_ONE + e.memo.attack_phase_inc - 1) as int) / (
            e.memo.attack_phase_inc as int)) as nat;
            let n_release = (((FX_ONE + e.memo.release_phase_inc - 1) as int) / (
            e.memo.release_phase_inc as int)) as nat;
            &&& env_iter(e, n_attack).current_stage is Release
            &&& env_iter(e, n_attack).is_active
            &&& !env_iter(e, n_attack + n_release + extra).is_active
            &&& env_iter(e, n_attack + n_release + extra).phase == 0
        }),
{
    let a = e.memo.attack_phase_inc as int;
    let r = e.memo.release_phase_inc as int;
    let n_attack = ((FX_ONE + a - 1) / a) as nat;
    let n_release = ((FX_ONE + r - 1) / r) as nat;
    lemma_envelope_attack_completes(e, n_attack);
    let mid = env_iter(e, n_attack);
    let m = n_release + extra;
    assert(n_release * r >= FX_ONE) by {
        let d = FX_ONE + r - 1;
        vstd::arithmetic::div_mod::lemma_fundamental_div_mod(d, r);
        vstd::arithmetic::div_mod::lemma_mod_bound(d, r);
    }
    assert(n_release >= 1) by {
        let d = FX_ONE + r - 1;
        vstd::arithmetic::div_mod::lemma_div_is_ordered(r, d, r);
        vstd::arithmetic::div_mod::lemma_div_by_self(r);
    }
    assert(m * r >= n_release * r) by (nonlinear_arith)
        requires
            m >= n_release,
            r >= 0,
    ;
    lemma_envelope_release_completes(mid, m);
    lemma_env_iter_add(e, n_attack, m);
}

/// Compute a stage increment `1 / (sample_rate * seconds)` in Q16.16.
fn env_inc(seconds: i64, sr: u32) -> (r: i64)
    requires
        1 <= seconds <= SECONDS_MAX,
        1 <= sr <= SR_MAX,
    ensures
        r == env_inc_spec(seconds as int, sr as int),
        1 <= r <= FX_ONE * FX_ONE,
{
    proof {
        assert(1 <= (sr as int) * (seconds as int) <= 0x8_0000_0000_0000i64) by (nonlinear_arith)
            requires
                1 <= sr <= SR_MAX,
                1 <= seconds <= SECONDS_MAX,
        ;
        lemma_env_inc_bounds(seconds as int, sr as int);
    }
    let denom: i64 = (sr as i64) * seconds;
    (FX_ONE * FX_ONE + denom - 1) / denom
}

impl EnvReader {
    /// A fresh, idle envelope with the default attack (0.01 s) and release
    /// (0.5 s) cached for a 44100 Hz rate.
    pub fn new() -> (r: EnvReader)
        ensures
            env_wf(r),
            !r.is_active,
            r.current_stage is Attack,
            r.phase == 0,
            r.memo.attack_seconds == 655,
            r.memo.release_seconds == 32768,
            r.memo.sample_rate == 44100,
    {
        let attack_inc: i64 = env_inc(655, 44100);
        let release_inc: i64 = env_inc(32768, 44100);
        EnvReader {
            is_active: false,
            current_stage: Stage::Attack,
            phase: 0,
            memo: Memo {
                attack_seconds: 655,
                release_seconds: 32768,
                attack_phase_inc: attack_inc,
                release_phase_inc: release_inc,
                sample_rate: 44100,
            },
        }
    }

    /// Non-periodic interpolated read of the shaping table at the current
    /// phase.
    pub fn read(&self, table: &Vec<i64>) -> (r: i64)
        requires
            env_wf(*self),
            1 <= table@.len() <= TABLE_LEN_MAX,
            table_bounded(table@, FX_ONE as int),
        ensures
            r == interp_env_spec(table@, self.phase as int),
            fx_abs(r as int) <= FX_ONE,
    {
        envelope_linear(table, self.phase)
    }

    /// Begin (or re-trigger) the envelope: unconditionally restart the
    /// attack from phase zero and mark the voice active.
    pub fn start(&mut self)
        ensures
            *final(self) == (EnvReader {
                is_active: true,
                current_stage: Stage::Attack,
                phase: 0,
                memo: old(self).memo,
            }),
    {
        self.is_active = true;
        self.current_stage = Stage::Attack;
        self.phase = 0;
    }

    /// Bring the cached increments in line with the given stage lengths and
    /// sample rate, recomputing only on change.
    fn update_memo(&mut self, attack: i64, release: i64, sample_rate: u32)
        requires
            env_memo_wf(old(self).memo),
            1 <= attack <= SECONDS_MAX,
            1 <= release <= SECONDS_MAX,
            1 <= sample_rate <= SR_MAX,
        ensures
            final(self).memo == env_memo_spec(attack, release, sample_rate),
            env_memo_wf(final(self).memo),
            final(self).phase == old(self).phase,
            final(self).is_active == old(self).is_active,
            final(self).current_stage == old(self).current_stage,
    {
        if sample_rate != self.memo.sample_rate {
            self.memo.sample_rate = sample_rate;
            self.memo.attack_phase_inc = env_inc(self.memo.attack_seconds, sample_rate);
            self.memo.release_phase_inc = env_inc(self.memo.release_seconds, sample_rate);
        }
        if attack != self.memo.attack_seconds || release != self.memo.release_seconds {
            self.memo.attack_seconds = attack;
            self.memo.release_seconds = release;
            self.memo.attack_phase_inc = env_inc(attack, self.memo.sample_rate);
            self.memo.release_phase_inc = env_inc(release, self.memo.sample_rate);
        }
    }

    /// Advance the envelope one sample: refresh the cached increments, then
    /// take one step of the stage machine.
    pub fn increment(&mut self, attack: i64, release: i64, sample_rate: u32)
        requires
            env_wf(*old(self)),
            1 <= attack <= SECONDS_MAX,
            1 <= release <= SECONDS_MAX,
            1 <= sample_rate <= SR_MAX,
        ensures
            env_wf(*final(self)),
            *final(self) == env_step(
                EnvReader { memo: env_memo_spec(attack, release, sample_rate), ..*old(self) },
            ),
    {
        self.update_memo(attack, release, sample_rate);
        proof {
            lemma_env_inc_bounds(attack as int, sample_rate as int);
            lemma_env_inc_bounds(release as int, sample_rate as int);
        }
        match self.current_stage {
            Stage::Attack => {
                let p: i64 = self.phase + self.memo.attack_phase_inc;
                if p >= FX_ONE {
                    self.current_stage = Stage::Release;
                } else {
                    self.phase = p;
                }
            },
            Stage::Release => {
                let p: i64 = self.phase - self.memo.release_phase_inc;
                if p <= 0 {
                    self.phase = 0;
                    self.is_active = false;
                } else {
                    self.phase = p;
                }
            },
        }
    }
}

/// Non-periodic linear-interpolation policy, as a free function over a
/// reader: envelopes hold the last table entry instead of wrapping.
pub fn linear_interpolate(reader: &EnvReader, table: &Vec<i64>) -> (r: i64)
    requires
        env_wf(*reader),
        1 <= table@.len() <= TABLE_LEN_MAX,
        table_bounded(table@, FX_ONE as int),
    ensures
        r == interp_env_spec(table@, reader.phase as int),
        fx_abs(r as int) <= FX_ONE,
{
    envelope_linear(table, reader.phase)
}

} // verus!
