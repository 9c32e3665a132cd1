//! The polyphonic engine: 128 voice slots (oscillator + envelope + note
//! info) sharing immutable wavetables, a resonant filter, a feedback delay
//! and a block of control parameters.  Control messages mutate parameters
//! and voice slots through `send`; `tick` produces exactly one output sample
//! from already-validated state and cannot fail.

use vstd::prelude::*;
use crate::fixed::{
    FX_ONE,
    SAMPLE_MAX,
    SECONDS_MAX,
    SR_MAX,
    FREQ_MAX,
    fx_abs,
    fx_mul_spec,
    fx_mul,
    sat_spec,
};
use crate::interpolation::{
    TABLE_LEN_MAX,
    table_bounded,
    interp_osc_spec,
    interp_env_spec,
    lerp_spec,
    lemma_lerp_bound,
};
use crate::wavetable::{
    make_sin_saw_table,
    make_exp_envelope,
    fx_pow_spec,
    raw_sample_spec,
    peak_spec,
    norm_spec,
    sine_partials_spec,
    triangle_partials_spec,
    square_partials_spec,
    sawtooth_partials_spec,
    has_unit_peak,
};
use crate::osc::{OscReader, osc_wf, osc_inc_spec, osc_phase_step};
use crate::envelope::{EnvReader, Stage, env_wf, env_step, env_memo_spec};
use crate::svf::{SVF, Q_MIN, svf_wf, svf_step_spec, svf_alpha0_spec, svf_g_spec, svf_rho_spec};
use crate::delay::{SimpleDelay, sd_wf, cb_interp_spec, delay_samples_spec};

verus! {

/// Number of voice slots, one per note number.
pub const VOICE_COUNT: usize = 128;

/// Entries in every engine wavetable.
pub const ENGINE_TABLE_SIZE: usize = 1024;

/// Harmonics per additive recipe.
pub const ENGINE_PARTIALS: usize = 24;

/// Exponent of the envelope shaping curve: integer arithmetic raises to
/// whole powers only, so the curve is a cubic, the nearest whole exponent
/// to Euler's number.
pub const ENGINE_CURVE: u32 = 3;

/// Capacity of the delay buffer (two seconds at 44100 Hz).
pub const ENGINE_DELAY_CAP: usize = 88200;

/// Top of the filter-cutoff mapping, in hertz (the Nyquist frequency of the
/// 44100 Hz reference rate).
pub const FILTER_FREQ_SCALE: i64 = 22050;

/// Top of the resonance mapping.
pub const FILTER_Q_SCALE: i64 = 20;

/// The wavetable shapes the engine can select.
#[derive(Clone, Copy, PartialEq, Eq, Structural, Debug)]
pub enum OscType {
    Sine,
    Triangle,
    Square,
    Sawtooth,
}

/// Slot of a shape in the engine's table bank.
pub open spec fn osc_type_index_spec(t: OscType) -> int {
    match t {
        OscType::Sine => 0,
        OscType::Triangle => 1,
        OscType::Square => 2,
        OscType::Sawtooth => 3,
    }
}

impl OscType {
    /// Slot of this shape in the engine's table bank.
    pub fn index(self) -> (i: usize)
        ensures
            i == osc_type_index_spec(self),
            i < 4,
    {
        match self {
            OscType::Sine => 0,
            OscType::Triangle => 1,
            OscType::Square => 2,
            OscType::Sawtooth => 3,
        }
    }
}

/// What one sounding note holds: its frequency in Q16.16 hertz and its
/// normalized velocity in `[0, FX_ONE]`.
#[derive(Clone, Copy)]
pub struct NoteInfo {
    pub frequency: i64,
    pub velocity: i64,
}

impl NoteInfo {
    /// Pack a frequency and a normalized velocity.
    pub fn new(freq: i64, vel: i64) -> (n: NoteInfo)
        ensures
            n.frequency == freq,
            n.velocity == vel,
    {
        NoteInfo { frequency: freq, velocity: vel }
    }
}

/// The control messages the engine accepts.  Slider-style payloads are
/// Q16.16 values; out-of-range payloads are clamped at this boundary.
pub enum Message {
    SetVolume(i64),
    SetOscillator(OscType),
    NoteOn(u8, u8),
    SetEnvAttack(i64),
    SetEnvRelease(i64),
    SetDelayWetdry(i64),
    SetDelayFeedback(i64),
    SetDelaySeconds(i64),
    SetFilterFreq(i64),
    SetFilterQ(i64),
}

/// The global knobs, mutated only through `send`, never inside `tick`.
pub struct UserControl {
    pub delay_feedback_amount: i64,
    pub delay_seconds: i64,
    pub delay_wetdry: i64,
    pub envelope_attack: i64,
    pub envelope_release: i64,
    pub filter_freq: i64,
    pub filter_q: i64,
    pub volume: i64,
    pub wavetable_index: usize,
}

/// The default knob settings as a value.
pub open spec fn default_control_spec() -> UserControl {
    UserControl {
        delay_feedback_amount: 45875,
        delay_seconds: 16384,
        delay_wetdry: 32768,
        envelope_attack: 655,
        envelope_release: 32768,
        filter_freq: (1000 * FX_ONE) as i64,
        filter_q: FX_ONE,
        volume: 32768,
        wavetable_index: 0,
    }
}

/// Control values the engine keeps itself inside.
pub open spec fn control_wf(c: UserControl) -> bool {
    &&& 0 <= c.delay_feedback_amount < FX_ONE
    &&& 1 <= c.delay_seconds <= SECONDS_MAX
    &&& 0 <= c.delay_wetdry <= FX_ONE
    &&& 1 <= c.envelope_attack <= SECONDS_MAX
    &&& 1 <= c.envelope_release <= SECONDS_MAX
    &&& 0 <= c.filter_freq <= FREQ_MAX
    &&& Q_MIN <= c.filter_q <= FREQ_MAX
    &&& 0 <= c.volume <= FX_ONE
    &&& c.wavetable_index < 4
}

impl UserControl {
    /// The default knob settings: feedback 0.7, delay 0.25 s, wet/dry 0.5,
    /// attack 0.01 s, release 0.5 s, cutoff 1000 Hz, Q 1, volume 0.5, sine.
    pub fn new() -> (c: UserControl)
        ensures
            control_wf(c),
            c == default_control_spec(),
    {
        UserControl {
            delay_feedback_amount: 45875,
            delay_seconds: 16384,
            delay_wetdry: 32768,
            envelope_attack: 655,
            envelope_release: 32768,
            filter_freq: 1000 * FX_ONE,
            filter_q: FX_ONE,
            volume: 32768,
            wavetable_index: 0,
        }
    }
}

/// The engine.
pub struct BasicSynth {
    pub control: UserControl,
    pub delay: SimpleDelay,
    pub envelope_reader: Vec<EnvReader>,
    pub envelope_table: Vec<i64>,
    pub filter: SVF,
    pub midi_table: Vec<i64>,
    pub table_reader: Vec<OscReader>,
    pub voice_info: Vec<NoteInfo>,
    pub voice_output: i64,
    pub wavetable: Vec<Vec<i64>>,
}

/// Engine invariant: every component well formed, every bank full.
pub open spec fn synth_wf(s: BasicSynth) -> bool {
    &&& control_wf(s.control)
    &&& sd_wf(s.delay)
    &&& s.envelope_reader@.len() == VOICE_COUNT
    &&& forall|i: int| 0 <= i < VOICE_COUNT ==> env_wf(#[trigger] s.envelope_reader@[i])
    &&& 1 <= s.envelope_table@.len() <= TABLE_LEN_MAX
    &&& table_bounded(s.envelope_table@, FX_ONE as int)
    &&& svf_wf(s.filter)
    &&& s.midi_table@.len() == VOICE_COUNT
    &&& forall|i: int|
        0 <= i < VOICE_COUNT ==> 0 <= #[trigger] s.midi_table@[i] <= FREQ_MAX
    &&& s.table_reader@.len() == VOICE_COUNT
    &&& forall|i: int| 0 <= i < VOICE_COUNT ==> osc_wf(#[trigger] s.table_reader@[i])
    &&& s.voice_info@.len() == VOICE_COUNT
    &&& forall|i: int|
        0 <= i < VOICE_COUNT ==> 0 <= (#[trigger] s.voice_info@[i]).frequency <= FREQ_MAX && 0
            <= s.voice_info@[i].velocity <= FX_ONE
    &&& s.wavetable@.len() == 4
    &&& forall|k: int|
        0 <= k < 4 ==> 1 <= (#[trigger] s.wavetable@[k])@.len() <= TABLE_LEN_MAX
    &&& forall|k: int| 0 <= k < 4 ==> table_bounded((#[trigger] s.wavetable@[k])@, FX_ONE as int)
}

/// The partial list of the engine's `k`-th bank slot: sine, triangle,
/// square, sawtooth, all but the sine built from `ENGINE_PARTIALS`
/// harmonics.
pub open spec fn engine_recipe_spec(k: int) -> Seq<crate::wavetable::Partial> {
    if k == 0 {
        sine_partials_spec()
    } else if k == 1 {
        triangle_partials_spec(ENGINE_PARTIALS as int)
    } else if k == 2 {
        square_partials_spec(ENGINE_PARTIALS as int)
    } else {
        sawtooth_partials_spec(ENGINE_PARTIALS as int)
    }
}

impl BasicSynth {
    /// Build an engine around a caller-supplied 128-entry note-to-frequency
    /// table (equal-tempered in the usual setup; supplying it is the host's
    /// responsibility).  Everything else is built here: the four normalized
    /// wavetables, the cubic shaping curve, a zeroed two-second delay, a
    /// quiet filter designed at 500 Hz / Q 20, the default knobs, and 128
    /// idle voice slots.
    pub fn new(midi_table: Vec<i64>) -> (s: BasicSynth)
        requires
            midi_table@.len() == VOICE_COUNT,
            forall|i: int| 0 <= i < VOICE_COUNT ==> 0 <= #[trigger] midi_table@[i] <= FREQ_MAX,
        ensures
            synth_wf(s),
            s.midi_table@ == midi_table@,
            s.control == default_control_spec(),
            forall|i: int| 0 <= i < VOICE_COUNT ==> !(#[trigger] s.envelope_reader@[i]).is_active,
            s.voice_output == 0,
            // The shaping curve: table[i] == (i / n) ^ ENGINE_CURVE.
            s.envelope_table@.len() == ENGINE_TABLE_SIZE,
            forall|i: int|
                0 <= i < ENGINE_TABLE_SIZE ==> #[trigger] s.envelope_table@[i] == fx_pow_spec(
                    (i * FX_ONE) / (ENGINE_TABLE_SIZE as int),
                    ENGINE_CURVE as nat,
                ),
            // The four wavetables hold the normalized recipes, in OscType
            // order, and each reaches unit peak whenever its raw peak is
            // nonzero -- which the sine recipe provably is.
            forall|k: int| 0 <= k < 4 ==> (#[trigger] s.wavetable@[k])@.len() == ENGINE_TABLE_SIZE,
            forall|k: int, i: int|
                0 <= k < 4 && 0 <= i < ENGINE_TABLE_SIZE ==> #[trigger] (s.wavetable@[k])@[i]
                    == norm_spec(
                    raw_sample_spec(engine_recipe_spec(k), i, ENGINE_TABLE_SIZE as int),
                    peak_spec(engine_recipe_spec(k), ENGINE_TABLE_SIZE as int),
                ),
            forall|k: int| 0 <= k < 4 ==> has_unit_peak((#[trigger] s.wavetable@[k])@),
            // The delay starts empty at its two-second capacity.
            s.delay.buffer.buffer@.len() == ENGINE_DELAY_CAP,
            s.delay.buffer.write_index == 0,
            forall|i: int| 0 <= i < ENGINE_DELAY_CAP ==> #[trigger] s.delay.buffer.buffer@[i] == 0,
            s.delay.memo.delay_seconds == FX_ONE / 2,
            s.delay.memo.sample_rate == 44100,
            // The filter starts quiet with the 500 Hz / Q 20 design cached.
            s.filter.integrator_z@[0] == 0,
            s.filter.integrator_z@[1] == 0,
            s.filter.memo.fc == 500 * FX_ONE,
            s.filter.memo.q == 20 * FX_ONE,
            s.filter.memo.sample_rate == 44100,
    {
        let mut envelope_reader: Vec<EnvReader> = Vec::new();
        let mut table_reader: Vec<OscReader> = Vec::new();
        let mut voice_info: Vec<NoteInfo> = Vec::new();
        for i in 0..VOICE_COUNT
            invariant
                envelope_reader@.len() == i,
                table_reader@.len() == i,
                voice_info@.len() == i,
                forall|j: int| 0 <= j < i ==> env_wf(#[trigger] envelope_reader@[j]),
                forall|j: int| 0 <= j < i ==> !(#[trigger] envelope_reader@[j]).is_active,
                forall|j: int| 0 <= j < i ==> osc_wf(#[trigger] table_reader@[j]),
                forall|j: int|
                    0 <= j < i ==> (#[trigger] voice_info@[j]).frequency == 0 && voice_info@[
                        j
                    ].velocity == 0,
        {
            envelope_reader.push(EnvReader::new());
            table_reader.push(OscReader::new());
            voice_info.push(NoteInfo::new(0, 0));
        }
        BasicSynth {
            control: UserControl::new(),
            delay: SimpleDelay::new(ENGINE_DELAY_CAP),
            envelope_reader,
            envelope_table: make_exp_envelope(ENGINE_TABLE_SIZE, ENGINE_CURVE),
            filter: SVF::new(44100),
            midi_table,
            table_reader,
            voice_info,
            voice_output: 0,
            wavetable: make_sin_saw_table(ENGINE_TABLE_SIZE, ENGINE_PARTIALS),
        }
    }
}

/// Clamp a slider payload into `[0, FX_ONE]`.
pub open spec fn clamp01_spec(v: int) -> int {
    if v < 0 {
        0
    } else if v > FX_ONE {
        FX_ONE as int
    } else {
        v
    }
}

/// Clamp a duration payload to a small positive epsilon at least, so that
/// no zero or negative length ever reaches a division.
pub open spec fn clamp_seconds_spec(v: int) -> int {
    if v < 1 {
        1
    } else if v > SECONDS_MAX {
        SECONDS_MAX as int
    } else {
        v
    }
}

/// Clamp a feedback payload into `[0, FX_ONE)`: feedback of one or more
/// would mean runaway gain.
pub open spec fn clamp_feedback_spec(v: int) -> int {
    if v < 0 {
        0
    } else if v >= FX_ONE {
        (FX_ONE - 1) as int
    } else {
        v
    }
}

/// The stored resonance for a Q slider: the mapped value, held at least at
/// the small positive epsilon `Q_MIN` so that no zero Q is ever stored.
pub open spec fn clamp_q_spec(v: int) -> int {
    let mapped = clamp01_spec(v) * FILTER_Q_SCALE;
    if mapped < Q_MIN {
        Q_MIN as int
    } else {
        mapped
    }
}

/// A note-on velocity normalized into `[0, FX_ONE]`.
pub open spec fn velocity_norm_spec(vel: u8) -> int {
    let c = if vel > 127 {
        127int
    } else {
        vel as int
    };
    (c * FX_ONE) / 127
}

/// An envelope after `start`: Attack from phase zero, active, cache kept.
pub open spec fn started_spec(e: EnvReader) -> EnvReader {
    EnvReader { is_active: true, current_stage: Stage::Attack, phase: 0, memo: e.memo }
}

/// A message the engine accepts: a note-on must name one of the 128 slots.
pub open spec fn message_wf(m: Message) -> bool {
    match m {
        Message::NoteOn(note, _) => note < 128,
        _ => true,
    }
}

/// Everything outside the control block and the voice banks is untouched.
pub open spec fn same_rig(s: BasicSynth, s2: BasicSynth) -> bool {
    &&& s2.delay == s.delay
    &&& s2.envelope_table == s.envelope_table
    &&& s2.filter == s.filter
    &&& s2.midi_table == s.midi_table
    &&& s2.voice_output == s.voice_output
    &&& s2.wavetable == s.wavetable
}

/// The voice banks are untouched.
pub open spec fn same_voices(s: BasicSynth, s2: BasicSynth) -> bool {
    &&& s2.envelope_reader@ == s.envelope_reader@
    &&& s2.table_reader@ == s.table_reader@
    &&& s2.voice_info@ == s.voice_info@
}

/// What each control message does: every message updates exactly one knob
/// (validated by clamping at this boundary), except a note-on, which writes
/// the slot's note info and restarts the slot's envelope.
pub open spec fn message_effect(s: BasicSynth, s2: BasicSynth, m: Message) -> bool {
    match m {
        Message::SetVolume(v) => {
            &&& s2.control == (UserControl {
                volume: fx_mul_spec(clamp01_spec(v as int), clamp01_spec(v as int)) as i64,
                ..s.control
            })
            &&& same_rig(s, s2)
            &&& same_voices(s, s2)
        },
        Message::SetOscillator(t) => {
            &&& s2.control == (UserControl {
                wavetable_index: osc_type_index_spec(t) as usize,
                ..s.control
            })
            &&& same_rig(s, s2)
            &&& same_voices(s, s2)
        },
        Message::NoteOn(note, vel) => {
            &&& s2.voice_info@ == s.voice_info@.update(
                note as int,
                NoteInfo {
                    frequency: s.midi_table@[note as int],
                    velocity: velocity_norm_spec(vel) as i64,
                },
            )
            &&& s2.envelope_reader@ == s.envelope_reader@.update(
                note as int,
                started_spec(s.envelope_reader@[note as int]),
            )
            &&& s2.table_reader@ == s.table_reader@
            &&& s2.control == s.control
            &&& same_rig(s, s2)
        },
        Message::SetEnvAttack(v) => {
            &&& s2.control == (UserControl {
                envelope_attack: clamp_seconds_spec(v as int) as i64,
                ..s.control
            })
            &&& same_rig(s, s2)
            &&& same_voices(s, s2)
        },
        Message::SetEnvRelease(v) => {
            &&& s2.control == (UserControl {
                envelope_release: clamp_seconds_spec(v as int) as i64,
                ..s.control
            })
            &&& same_rig(s, s2)
            &&& same_voices(s, s2)
        },
        Message::SetDelayWetdry(v) => {
            &&& s2.control == (UserControl {
                delay_wetdry: clamp01_spec(v as int) as i64,
                ..s.control
            })
            &&& same_rig(s, s2)
            &&& same_voices(s, s2)
        },
        Message::SetDelayFeedback(v) => {
            &&& s2.control == (UserControl {
                delay_feedback_amount: clamp_feedback_spec(v as int) as i64,
                ..s.control
            })
            &&& same_rig(s, s2)
            &&& same_voices(s, s2)
        },
        Message::SetDelaySeconds(v) => {
            &&& s2.control == (UserControl {
                delay_seconds: clamp_seconds_spec(v as int) as i64,
                ..s.control
            })
            &&& same_rig(s, s2)
            &&& same_voices(s, s2)
        },
        Message::SetFilterFreq(v) => {
            &&& s2.control == (UserControl {
                filter_freq: (fx_mul_spec(clamp01_spec(v as int), clamp01_spec(v as int))
                    * FILTER_FREQ_SCALE) as i64,
                ..s.control
            })
            &&& same_rig(s, s2)
            &&& same_voices(s, s2)
        },
        Message::SetFilterQ(v) => {
            &&& s2.control == (UserControl { filter_q: clamp_q_spec(v as int) as i64, ..s.control })
            &&& same_rig(s, s2)
            &&& same_voices(s, s2)
        },
    }
}

/// Clamp a slider payload into `[0, FX_ONE]`.
fn clamp01(v: i64) -> (r: i64)
    ensures
        r == clamp01_spec(v as int),
        0 <= r <= FX_ONE,
{
    if v < 0 {
        0
    } else if v > FX_ONE {
        FX_ONE
    } else {
        v
    }
}

/// Clamp a duration payload into `[1, SECONDS_MAX]`.
fn clamp_seconds(v: i64) -> (r: i64)
    ensures
        r == clamp_seconds_spec(v as int),
        1 <= r <= SECONDS_MAX,
{
    if v < 1 {
        1
    } else if v > SECONDS_MAX {
        SECONDS_MAX
    } else {
        v
    }
}

impl BasicSynth {
    /// Apply one control message.  Parameter validation happens here, at
    /// the message boundary, by clamping: `tick` then works only on
    /// already-validated state.
    pub fn send(&mut self, message: Message)
        requires
            synth_wf(*old(self)),
            message_wf(message),
        ensures
            synth_wf(*final(self)),
            message_effect(*old(self), *final(self), message),
    {
        match message {
            Message::NoteOn(note, velocity) => {
                let vel_clamped: u8 = if velocity > 127 {
                    127
                } else {
                    velocity
                };
                proof {
                    vstd::arithmetic::div_mod::lemma_div_pos_is_pos(
                        (vel_clamped as int) * FX_ONE,
                        127,
                    );
                    vstd::arithmetic::div_mod::lemma_div_is_ordered(
                        (vel_clamped as int) * FX_ONE,
                        127 * FX_ONE,
                        127,
                    );
                    vstd::arithmetic::div_mod::lemma_div_multiples_vanish(FX_ONE as int, 127);
                }
                let norm_velocity: i64 = (vel_clamped as i64) * FX_ONE / 127;
                let freq: i64 = self.midi_table[note as usize];
                self.voice_info.set(note as usize, NoteInfo::new(freq, norm_velocity));
                let mut e: EnvReader = self.envelope_reader[note as usize];
                e.start();
                self.envelope_reader.set(note as usize, e);
            },
            Message::SetOscillator(osctype) => {
                self.control.wavetable_index = osctype.index();
            },
            Message::SetVolume(value) => {
                let c: i64 = clamp01(value);
                proof {
                    crate::fixed::lemma_fx_mul_le_one(c as int, c as int);
                    assert(fx_mul_spec(c as int, c as int) >= 0) by (nonlinear_arith)
                        requires
                            0 <= c,
                    ;
                }
                self.control.volume = fx_mul(c, c);
            },
            Message::SetEnvAttack(value) => {
                self.control.envelope_attack = clamp_seconds(value);
            },
            Message::SetEnvRelease(value) => {
                self.control.envelope_release = clamp_seconds(value);
            },
            Message::SetDelayWetdry(value) => {
                self.control.delay_wetdry = clamp01(value);
            },
            Message::SetDelayFeedback(value) => {
                let c: i64 = clamp01(value);
                self.control.delay_feedback_amount = if c >= FX_ONE {
                    FX_ONE - 1
                } else {
                    c
                };
            },
            Message::SetDelaySeconds(value) => {
                self.control.delay_seconds = clamp_seconds(value);
            },
            Message::SetFilterFreq(value) => {
                let c: i64 = clamp01(value);
                proof {
                    crate::fixed::lemma_fx_mul_le_one(c as int, c as int);
                    assert(fx_mul_spec(c as int, c as int) >= 0) by (nonlinear_arith)
                        requires
                            0 <= c,
                    ;
                }
                self.control.filter_freq = fx_mul(c, c) * FILTER_FREQ_SCALE;
            },
            Message::SetFilterQ(value) => {
                let mapped: i64 = clamp01(value) * FILTER_Q_SCALE;
                self.control.filter_q = if mapped < Q_MIN {
                    Q_MIN
                } else {
                    mapped
                };
            },
        }
    }
}

/// Volume law.  A tick's output is the blended sample scaled by the stored
/// gain, and the stored gain for a volume slider `v` is `v * v` (so the
/// slider value is the square root of the applied gain).  This lemma pins
/// that scaling: at full volume the blend passes through unchanged, the
/// ideal (unrounded) outputs at volumes `v` and one stand exactly in the
/// ratio `v^2 : 1`, and the computed output differs from the ideal scaled
/// blend only by the two truncations' rounding.
pub proof fn lemma_volume_law(blend: int, v: int)
    requires
        0 <= v <= FX_ONE,
        fx_abs(blend) <= SAMPLE_MAX,
    ensures
        fx_mul_spec(blend, fx_mul_spec(FX_ONE as int, FX_ONE as int)) == blend,
        (blend * v * v) * (FX_ONE * FX_ONE) == (blend * FX_ONE * FX_ONE) * (v * v),
        fx_abs(
            fx_mul_spec(blend, fx_mul_spec(v, v)) * (FX_ONE * FX_ONE) - blend * v * v,
        ) <= FX_ONE * FX_ONE + fx_abs(blend) * FX_ONE,
{
    crate::fixed::lemma_fx_mul_unit(FX_ONE as int);
    crate::fixed::lemma_fx_mul_unit(blend);
    assert((blend * v * v) * (FX_ONE * FX_ONE) == (blend * FX_ONE * FX_ONE) * (v * v))
        by (nonlinear_arith);
    let fx = FX_ONE as int;
    let g = fx_mul_spec(v, v);
    assert(g == (v * v) / fx && 0 <= g <= fx) by {
        assert(0 <= v * v <= fx * fx) by (nonlinear_arith)
            requires
                0 <= v <= fx,
        ;
        vstd::arithmetic::div_mod::lemma_div_pos_is_pos(v * v, fx);
        vstd::arithmetic::div_mod::lemma_div_is_ordered(v * v, fx * fx, fx);
        vstd::arithmetic::div_mod::lemma_div_multiples_vanish(fx, fx);
    }
    let r1 = (v * v) % fx;
    vstd::arithmetic::div_mod::lemma_fundamental_div_mod(v * v, fx);
    vstd::arithmetic::div_mod::lemma_mod_bound(v * v, fx);
    let b = fx_abs(blend);
    let q = (b * g) / fx;
    let r2 = (b * g) % fx;
    vstd::arithmetic::div_mod::lemma_fundamental_div_mod(b * g, fx);
    vstd::arithmetic::div_mod::lemma_mod_bound(b * g, fx);
    assert(0 <= b * g) by (nonlinear_arith)
        requires
            0 <= b,
            0 <= g,
    ;
    let out = fx_mul_spec(blend, g);
    assert(fx_abs(out * (fx * fx) - blend * v * v) <= fx * fx + b * fx) by (nonlinear_arith)
        requires
            b == fx_abs(blend),
            0 <= g,
            b * g == fx * q + r2,
            0 <= r2 < fx,
            v * v == fx * g + r1,
            0 <= r1 < fx,
            0 <= b <= SAMPLE_MAX,
            out == if blend < 0 {
                -q
            } else {
                q
            },
            fx == FX_ONE,
    ;
}

/// Oscillator reader of slot `i` after the advance pass of one tick: active
/// slots advance by their note's increment, idle ones do not move.
pub open spec fn stepped_osc_spec(s: BasicSynth, i: int, sr: int) -> OscReader {
    let r = s.table_reader@[i];
    if s.envelope_reader@[i].is_active {
        OscReader {
            phase: osc_phase_step(
                r.phase as int,
                osc_inc_spec(s.voice_info@[i].frequency as int, sr),
            ) as i64,
            memo: crate::osc::Memo {
                frequency: s.voice_info@[i].frequency,
                sample_rate: sr as u32,
                phase_inc: osc_inc_spec(s.voice_info@[i].frequency as int, sr) as i64,
            },
        }
    } else {
        r
    }
}

/// Envelope of slot `i` after the advance pass of one tick.
pub open spec fn stepped_env_spec(s: BasicSynth, i: int, sr: int) -> EnvReader {
    let e = s.envelope_reader@[i];
    if e.is_active {
        env_step(
            EnvReader {
                memo: env_memo_spec(
                    s.control.envelope_attack,
                    s.control.envelope_release,
                    sr as u32,
                ),
                ..e
            },
        )
    } else {
        e
    }
}

/// Contribution of slot `i` to the tick's mix: oscillator sample times
/// envelope level times velocity, or nothing if the envelope is done.
pub open spec fn voice_term_spec(s: BasicSynth, i: int, sr: int) -> int {
    let osc2 = stepped_osc_spec(s, i, sr);
    let env2 = stepped_env_spec(s, i, sr);
    if env2.is_active {
        fx_mul_spec(
            fx_mul_spec(
                interp_osc_spec(
                    s.wavetable@[s.control.wavetable_index as int]@,
                    osc2.phase as int,
                ),
                interp_env_spec(s.envelope_table@, env2.phase as int),
            ),
            s.voice_info@[i].velocity as int,
        )
    } else {
        0
    }
}

/// Mix of the first `k` slots.
pub open spec fn mix_upto_spec(s: BasicSynth, k: int, sr: int) -> int
    decreases k,
{
    if k <= 0 {
        0
    } else {
        mix_upto_spec(s, k - 1, sr) + voice_term_spec(s, k - 1, sr)
    }
}

/// A stepped envelope is well formed and its phase stays within one cycle.
pub proof fn lemma_stepped_env_wf(s: BasicSynth, i: int, sr: int)
    requires
        synth_wf(s),
        0 <= i < VOICE_COUNT,
        1 <= sr <= SR_MAX,
    ensures
        env_wf(stepped_env_spec(s, i, sr)),
        stepped_env_spec(s, i, sr).memo == if s.envelope_reader@[i].is_active {
            env_memo_spec(s.control.envelope_attack, s.control.envelope_release, sr as u32)
        } else {
            s.envelope_reader@[i].memo
        },
{
    let e = s.envelope_reader@[i];
    if e.is_active {
        crate::envelope::lemma_env_inc_bounds(s.control.envelope_attack as int, sr);
        crate::envelope::lemma_env_inc_bounds(s.control.envelope_release as int, sr);
    }
}

/// Each slot contributes at most one unit to the mix.
pub proof fn lemma_voice_term_bound(s: BasicSynth, i: int, sr: int)
    requires
        synth_wf(s),
        0 <= i < VOICE_COUNT,
        1 <= sr <= SR_MAX,
    ensures
        fx_abs(voice_term_spec(s, i, sr)) <= FX_ONE,
{
    let osc2 = stepped_osc_spec(s, i, sr);
    let env2 = stepped_env_spec(s, i, sr);
    if env2.is_active {
        lemma_stepped_env_wf(s, i, sr);
        if s.envelope_reader@[i].is_active {
            vstd::arithmetic::div_mod::lemma_mod_bound(
                s.table_reader@[i].phase + osc_inc_spec(s.voice_info@[i].frequency as int, sr),
                FX_ONE as int,
            );
        }
        let table = s.wavetable@[s.control.wavetable_index as int]@;
        crate::interpolation::lemma_interp_osc_bound(table, osc2.phase as int, FX_ONE as int);
        crate::interpolation::lemma_interp_env_bound(
            s.envelope_table@,
            env2.phase as int,
            FX_ONE as int,
        );
        let o = interp_osc_spec(table, osc2.phase as int);
        let l = interp_env_spec(s.envelope_table@, env2.phase as int);
        crate::fixed::lemma_fx_mul_le_one(o, l);
        crate::fixed::lemma_fx_mul_le_one(fx_mul_spec(o, l), s.voice_info@[i].velocity as int);
    }
}

/// The mix of the first `k` slots is bounded by `k` units.
pub proof fn lemma_mix_bound(s: BasicSynth, k: int, sr: int)
    requires
        synth_wf(s),
        0 <= k <= VOICE_COUNT,
        1 <= sr <= SR_MAX,
    ensures
        fx_abs(mix_upto_spec(s, k, sr)) <= k * FX_ONE,
    decreases k,
{
    if k > 0 {
        lemma_mix_bound(s, k - 1, sr);
        lemma_voice_term_bound(s, k - 1, sr);
    }
}

/// With every envelope idle, no slot contributes to the mix.
proof fn lemma_idle_mix_zero(s: BasicSynth, k: int, sr: int)
    requires
        synth_wf(s),
        0 <= k <= VOICE_COUNT,
        1 <= sr <= SR_MAX,
        forall|i: int| 0 <= i < VOICE_COUNT ==> !(#[trigger] s.envelope_reader@[i]).is_active,
    ensures
        mix_upto_spec(s, k, sr) == 0,
    decreases k,
{
    if k > 0 {
        lemma_idle_mix_zero(s, k - 1, sr);
        assert(!stepped_env_spec(s, k - 1, sr).is_active);
    }
}

/// A quiet engine produces silence.  With every envelope idle, zeroed
/// filter registers and an all-zero delay buffer -- the state a fresh
/// engine starts in -- the value `tick`'s contract fixes for the output
/// sample is exactly zero, at any sample rate.
pub proof fn lemma_quiet_engine_ticks_zero(s: BasicSynth, sr: int)
    requires
        synth_wf(s),
        1 <= sr <= SR_MAX,
        forall|i: int| 0 <= i < VOICE_COUNT ==> !(#[trigger] s.envelope_reader@[i]).is_active,
        s.filter.integrator_z@[0] == 0,
        s.filter.integrator_z@[1] == 0,
        forall|i: int|
            0 <= i < s.delay.buffer.buffer@.len() ==> #[trigger] s.delay.buffer.buffer@[i] == 0,
    ensures
        mix_upto_spec(s, VOICE_COUNT as int, sr) == 0,
        ({
            let mix = mix_upto_spec(s, VOICE_COUNT as int, sr);
            let step = svf_step_spec(
                s.filter.integrator_z@[0] as int,
                s.filter.integrator_z@[1] as int,
                svf_alpha0_spec(s.control.filter_freq as int, s.control.filter_q as int, sr),
                svf_g_spec(s.control.filter_freq as int, sr),
                svf_rho_spec(s.control.filter_freq as int, s.control.filter_q as int, sr),
                mix,
            );
            let delayed = cb_interp_spec(
                s.delay.buffer,
                delay_samples_spec(
                    s.control.delay_seconds as int,
                    sr,
                    s.delay.buffer.buffer@.len() as int,
                ),
            );
            &&& step == (0int, 0int, 0int)
            &&& delayed == 0
            &&& fx_mul_spec(
                lerp_spec(step.2, delayed, s.control.delay_wetdry as int),
                s.control.volume as int,
            ) == 0
        }),
{
    lemma_idle_mix_zero(s, VOICE_COUNT as int, sr);
    let alpha0 = svf_alpha0_spec(s.control.filter_freq as int, s.control.filter_q as int, sr);
    let g = svf_g_spec(s.control.filter_freq as int, sr);
    let rho = svf_rho_spec(s.control.filter_freq as int, s.control.filter_q as int, sr);
    // The filter step on zero registers and zero input stays at zero.
    crate::fixed::lemma_fx_mul_zero(rho);
    crate::fixed::lemma_fx_mul_zero(alpha0);
    crate::fixed::lemma_fx_mul_zero(g);
    assert(svf_step_spec(0, 0, alpha0, g, rho, 0) == (0int, 0int, 0int));
    // The interpolated delay read blends two zero entries.
    let cap = s.delay.buffer.buffer@.len() as int;
    let lag = delay_samples_spec(s.control.delay_seconds as int, sr, cap);
    assert(0 <= lag <= cap * FX_ONE - 1) by {
        assert(1 <= sr * s.control.delay_seconds) by (nonlinear_arith)
            requires
                1 <= sr,
                1 <= s.control.delay_seconds,
        ;
        assert(cap * FX_ONE - 1 >= 0) by (nonlinear_arith)
            requires
                cap >= 1,
        ;
    }
    let idx = lag / (FX_ONE as int);
    let frac = lag % (FX_ONE as int);
    vstd::arithmetic::div_mod::lemma_div_pos_is_pos(lag, FX_ONE as int);
    vstd::arithmetic::div_mod::lemma_multiply_divide_lt(lag, FX_ONE as int, cap);
    assert((FX_ONE as int) * cap > lag) by (nonlinear_arith)
        requires
            cap * FX_ONE - 1 >= lag,
    ;
    vstd::arithmetic::div_mod::lemma_mod_bound(lag, FX_ONE as int);
    let w = s.delay.buffer.write_index as int;
    crate::delay::lemma_cb_read_index_is_mod(w, idx, cap);
    crate::delay::lemma_cb_read_index_is_mod(w, idx + 1, cap);
    crate::fixed::lemma_fx_mul_zero(FX_ONE - frac);
    crate::fixed::lemma_fx_mul_zero(frac);
    assert(cb_interp_spec(s.delay.buffer, lag) == 0);
    // Zero blended with zero, scaled by anything, is zero.
    crate::fixed::lemma_fx_mul_zero(s.control.delay_wetdry as int);
    crate::fixed::lemma_fx_mul_zero(FX_ONE - s.control.delay_wetdry as int);
    crate::fixed::lemma_fx_mul_zero(s.control.volume as int);
}

impl BasicSynth {
    /// Produce one output sample: advance every active voice, accumulate
    /// the mix, filter it, run the delay, blend dry and wet, and scale by
    /// the stored gain.  The scan always visits all 128 slots so the cost
    /// per sample is fixed; `tick` mutates no control parameter and cannot
    /// fail.
    #[verifier::rlimit(80)]
    pub fn tick(&mut self, sample_rate: u32) -> (output: i64)
        requires
            synth_wf(*old(self)),
            1 <= sample_rate <= SR_MAX,
        ensures
            synth_wf(*final(self)),
            final(self).control == old(self).control,
            final(self).voice_info@ == old(self).voice_info@,
            final(self).midi_table == old(self).midi_table,
            final(self).envelope_table == old(self).envelope_table,
            final(self).wavetable == old(self).wavetable,
            forall|i: int|
                0 <= i < VOICE_COUNT ==> final(self).table_reader@[i] == stepped_osc_spec(
                    *old(self),
                    i,
                    sample_rate as int,
                ),
            forall|i: int|
                0 <= i < VOICE_COUNT ==> final(self).envelope_reader@[i] == stepped_env_spec(
                    *old(self),
                    i,
                    sample_rate as int,
                ),
            ({
                let s0 = *old(self);
                let sr = sample_rate as int;
                let mix = mix_upto_spec(s0, VOICE_COUNT as int, sr);
                let step = svf_step_spec(
                    s0.filter.integrator_z@[0] as int,
                    s0.filter.integrator_z@[1] as int,
                    svf_alpha0_spec(s0.control.filter_freq as int, s0.control.filter_q as int, sr),
                    svf_g_spec(s0.control.filter_freq as int, sr),
                    svf_rho_spec(s0.control.filter_freq as int, s0.control.filter_q as int, sr),
                    mix,
                );
                let filtered = step.2;
                let delayed = cb_interp_spec(
                    s0.delay.buffer,
                    delay_samples_spec(
                        s0.control.delay_seconds as int,
                        sr,
                        s0.delay.buffer.buffer@.len() as int,
                    ),
                );
                let blend = lerp_spec(filtered, delayed, s0.control.delay_wetdry as int);
                &&& final(self).filter.integrator_z@[0] == step.0
                &&& final(self).filter.integrator_z@[1] == step.1
                &&& final(self).voice_output == filtered
                &&& final(self).delay.buffer.buffer@ == s0.delay.buffer.buffer@.update(
                    s0.delay.buffer.write_index as int,
                    sat_spec(
                        filtered + fx_mul_spec(delayed, s0.control.delay_feedback_amount as int),
                    ) as i64,
                )
                &&& output == fx_mul_spec(blend, s0.control.volume as int)
            }),
            fx_abs(output as int) <= SAMPLE_MAX,
    {
        let ghost s0 = *self;
        let ghost sr = sample_rate as int;
        self.voice_output = 0;
        // Advance the readers of every slot with a sounding envelope.  There
        // is still time to tweak a phase after this, before the reads.
        for i in 0..VOICE_COUNT
            invariant
                synth_wf(s0),
                1 <= sample_rate <= SR_MAX,
                sr == sample_rate as int,
                self.control == s0.control,
                self.delay == s0.delay,
                self.envelope_table == s0.envelope_table,
                self.filter == s0.filter,
                self.midi_table == s0.midi_table,
                self.voice_info@ == s0.voice_info@,
                self.wavetable == s0.wavetable,
                self.table_reader@.len() == VOICE_COUNT,
                self.envelope_reader@.len() == VOICE_COUNT,
                forall|j: int|
                    0 <= j < i ==> self.table_reader@[j] == stepped_osc_spec(s0, j, sr),
                forall|j: int|
                    0 <= j < i ==> self.envelope_reader@[j] == stepped_env_spec(s0, j, sr),
                forall|j: int|
                    i <= j < VOICE_COUNT ==> self.table_reader@[j] == s0.table_reader@[j],
                forall|j: int|
                    i <= j < VOICE_COUNT ==> self.envelope_reader@[j] == s0.envelope_reader@[j],
                forall|j: int| 0 <= j < VOICE_COUNT ==> osc_wf(#[trigger] self.table_reader@[j]),
                forall|j: int|
                    0 <= j < VOICE_COUNT ==> env_wf(#[trigger] self.envelope_reader@[j]),
        {
            if self.envelope_reader[i].is_active {
                proof {
                    assert(osc_wf(s0.table_reader@[i as int]));
                    assert(env_wf(s0.envelope_reader@[i as int]));
                    assert(0 <= s0.voice_info@[i as int].frequency <= FREQ_MAX);
                }
                let freq: i64 = self.voice_info[i].frequency;
                let mut reader: OscReader = self.table_reader[i];
                reader.increment(freq, sample_rate);
                self.table_reader.set(i, reader);
                let mut env: EnvReader = self.envelope_reader[i];
                env.increment(
                    self.control.envelope_attack,
                    self.control.envelope_release,
                    sample_rate,
                );
                self.envelope_reader.set(i, env);
                proof {
                    assert(reader == stepped_osc_spec(s0, i as int, sr));
                    assert(env == stepped_env_spec(s0, i as int, sr));
                }
            }
        }
        // Read every still-sounding slot and accumulate the mix.
        let mut mix: i64 = 0;
        for i in 0..VOICE_COUNT
            invariant
                synth_wf(s0),
                1 <= sample_rate <= SR_MAX,
                sr == sample_rate as int,
                self.control == s0.control,
                self.delay == s0.delay,
                self.envelope_table == s0.envelope_table,
                self.filter == s0.filter,
                self.midi_table == s0.midi_table,
                self.voice_info@ == s0.voice_info@,
                self.wavetable == s0.wavetable,
                self.table_reader@.len() == VOICE_COUNT,
                self.envelope_reader@.len() == VOICE_COUNT,
                forall|j: int|
                    0 <= j < VOICE_COUNT ==> self.table_reader@[j] == stepped_osc_spec(s0, j, sr),
                forall|j: int|
                    0 <= j < VOICE_COUNT ==> self.envelope_reader@[j] == stepped_env_spec(
                        s0,
                        j,
                        sr,
                    ),
                forall|j: int| 0 <= j < VOICE_COUNT ==> osc_wf(#[trigger] self.table_reader@[j]),
                forall|j: int|
                    0 <= j < VOICE_COUNT ==> env_wf(#[trigger] self.envelope_reader@[j]),
                mix == mix_upto_spec(s0, i as int, sr),
                fx_abs(mix as int) <= i * FX_ONE,
        {
            proof {
                lemma_voice_term_bound(s0, i as int, sr);
                lemma_stepped_env_wf(s0, i as int, sr);
            }
            if self.envelope_reader[i].is_active {
                proof {
                    if s0.envelope_reader@[i as int].is_active {
                        vstd::arithmetic::div_mod::lemma_mod_bound(
                            s0.table_reader@[i as int].phase + osc_inc_spec(
                                s0.voice_info@[i as int].frequency as int,
                                sr,
                            ),
                            FX_ONE as int,
                        );
                    }
                }
                let osc_val: i64 = self.table_reader[i].read(
                    &self.wavetable[self.control.wavetable_index],
                );
                let env_val: i64 = self.envelope_reader[i].read(&self.envelope_table);
                proof {
                    crate::fixed::lemma_fx_mul_le_one(osc_val as int, env_val as int);
                    crate::fixed::lemma_fx_mul_le_one(
                        fx_mul_spec(osc_val as int, env_val as int),
                        s0.voice_info@[i as int].velocity as int,
                    );
                }
                let term: i64 = fx_mul(fx_mul(osc_val, env_val), self.voice_info[i].velocity);
                mix = mix + term;
            }
        }
        proof {
            lemma_mix_bound(s0, VOICE_COUNT as int, sr);
        }
        // Pass the mix through the filter.
        let filtered: i64 = self.filter.process_sample(
            mix,
            self.control.filter_freq,
            self.control.filter_q,
            sample_rate,
        );
        self.voice_output = filtered;
        // Run the delay: read at the lag, write back input plus feedback.
        let delayed: i64 = self.delay.tick(
            filtered,
            self.control.delay_seconds,
            self.control.delay_feedback_amount,
            sample_rate,
        );
        // Blend dry against wet and scale by the stored (squared) gain.
        proof {
            crate::fixed::lemma_fx_mul_le_one(filtered as int, FX_ONE - s0.control.delay_wetdry);
            crate::fixed::lemma_fx_mul_le_one(delayed as int, s0.control.delay_wetdry as int);
        }
        let blend: i64 = fx_mul(filtered, FX_ONE - self.control.delay_wetdry) + fx_mul(
            delayed,
            self.control.delay_wetdry,
        );
        proof {
            lemma_lerp_bound(
                filtered as int,
                delayed as int,
                s0.control.delay_wetdry as int,
                SAMPLE_MAX as int,
            );
            crate::fixed::lemma_fx_mul_le_one(blend as int, s0.control.volume as int);
        }
        fx_mul(blend, self.control.volume)
    }
}

} // verus!
