//! A fixed-capacity circular buffer and the feedback delay built on it.  The
//! buffer only supports writing at a wrapping cursor; reads are expressed as
//! a lag from that cursor (the sample written that many writes ago).  The
//! delay reads at a fractional lag, then writes the input plus scaled
//! feedback — the read strictly precedes the write, which the contracts
//! make explicit.

use vstd::prelude::*;
use crate::fixed::{
    FX_ONE,
    SAMPLE_MAX,
    SECONDS_MAX,
    SR_MAX,
    fx_abs,
    fx_mul_spec,
    fx_mul,
    sat_spec,
    sat,
};
use crate::interpolation::{lerp_spec, table_bounded, simple_linear, lemma_lerp_bound};

verus! {

/// Largest circular-buffer capacity accepted.
pub const DELAY_CAP_MAX: usize = 16777216;

/// A configuration fault surfaced to the caller instead of a bad read.
#[derive(Clone, Copy, PartialEq, Eq, Structural, Debug)]
pub enum ConfigError {
    /// The requested lag exceeds the buffer capacity.
    InvalidDelayLength,
}

/// Fixed-capacity buffer with a single wrapping write cursor.
pub struct CircularBuffer {
    pub buffer: Vec<i64>,
    pub write_index: usize,
}

/// Well-formed buffer: cursor inside the buffer, samples in range.
pub open spec fn cb_wf(b: CircularBuffer) -> bool {
    &&& 1 <= b.buffer@.len() <= DELAY_CAP_MAX
    &&& (b.write_index as int) < b.buffer@.len()
    &&& table_bounded(b.buffer@, SAMPLE_MAX as int)
}

/// Index read for lag `lag` behind cursor `widx`: `(widx - lag) mod len`.
pub open spec fn cb_read_index(widx: int, lag: int, len: int) -> int {
    if lag > widx {
        widx + len - lag
    } else {
        widx - lag
    }
}

/// The branch formula above is exactly `(widx - lag) mod len`.
pub proof fn lemma_cb_read_index_is_mod(widx: int, lag: int, len: int)
    requires
        0 <= widx < len,
        0 <= lag <= len,
    ensures
        cb_read_index(widx, lag, len) == (widx - lag) % len,
        0 <= cb_read_index(widx, lag, len) < len,
{
    if lag > widx {
        vstd::arithmetic::div_mod::lemma_fundamental_div_mod_converse(
            widx - lag,
            len,
            -1,
            widx + len - lag,
        );
    } else {
        vstd::arithmetic::div_mod::lemma_fundamental_div_mod_converse(widx - lag, len, 0, widx - lag);
    }
}

/// Buffer contents after the samples of `s` are written, in order, into an
/// `n`-entry buffer that started all-zero.
pub open spec fn cb_contents_after(s: Seq<i64>, cap: int) -> Seq<i64>
    decreases s.len(),
{
    if s.len() == 0 {
        Seq::new(cap as nat, |i: int| 0i64)
    } else {
        cb_contents_after(s.drop_last(), cap).update((s.len() - 1) % cap, s.last())
    }
}

/// Two positions within one window of the capacity share a slot only if they
/// are equal.
proof fn lemma_mod_distinct_in_window(j: int, k: int, cap: int)
    requires
        1 <= cap,
        0 <= j < k,
        k - j < cap,
    ensures
        j % cap != k % cap,
{
    vstd::arithmetic::div_mod::lemma_mod_bound(j, cap);
    vstd::arithmetic::div_mod::lemma_mod_bound(k, cap);
    if j % cap == k % cap {
        vstd::arithmetic::div_mod::lemma_mod_equivalence(k, j, cap);
        vstd::arithmetic::div_mod::lemma_small_mod((k - j) as nat, cap as nat);
    }
}

/// After `n` writes, the last `cap` of them are in the buffer, each at its
/// own slot `j mod cap`.
proof fn lemma_cb_window(s: Seq<i64>, cap: int)
    requires
        1 <= cap,
    ensures
        cb_contents_after(s, cap).len() == cap,
        forall|j: int|
            0 <= j < s.len() && s.len() - cap <= j ==> cb_contents_after(s, cap)[j % cap] == s[j],
    decreases s.len(),
{
    let n = s.len() as int;
    if n > 0 {
        lemma_cb_window(s.drop_last(), cap);
        vstd::arithmetic::div_mod::lemma_mod_bound(n - 1, cap);
        assert forall|j: int|
            0 <= j < n && n - cap <= j implies cb_contents_after(s, cap)[j % cap] == s[j] by {
            vstd::arithmetic::div_mod::lemma_mod_bound(j, cap);
            if j == n - 1 {
            } else {
                lemma_mod_distinct_in_window(j, n - 1, cap);
                assert(s.drop_last()[j] == s[j]);
            }
        }
    }
}

/// Delay FIFO law: write the samples `s[0], ..., s[n-1]` into an empty
/// buffer of capacity `cap` (no feedback); a read at whole-sample lag `L`,
/// `1 <= L <= cap`, after the `n`-th write returns `s[n - L]`, the sample
/// written `L` writes ago.
pub proof fn lemma_delay_fifo(s: Seq<i64>, cap: int, lag: int)
    requires
        1 <= cap,
        1 <= lag <= cap,
        lag <= s.len(),
    ensures
        cb_contents_after(s, cap)[cb_read_index(s.len() as int % cap, lag, cap)] == s[s.len()
            - lag],
{
    let n = s.len() as int;
    lemma_cb_window(s, cap);
    vstd::arithmetic::div_mod::lemma_mod_bound(n, cap);
    lemma_cb_read_index_is_mod(n % cap, lag, cap);
    vstd::arithmetic::div_mod::lemma_sub_mod_noop(n, lag, cap);
    vstd::arithmetic::div_mod::lemma_mod_twice(n - lag, cap);
    vstd::arithmetic::div_mod::lemma_mod_bound(n - lag, cap);
    assert((n % cap - lag) % cap == (n - lag) % cap) by {
        vstd::arithmetic::div_mod::lemma_mod_twice(n, cap);
        vstd::arithmetic::div_mod::lemma_sub_mod_noop(n % cap, lag, cap);
        vstd::arithmetic::div_mod::lemma_sub_mod_noop(n, lag, cap);
    }
    // The slot read is (n - lag) mod cap, and n - lag lies in the window.
    vstd::arithmetic::div_mod::lemma_mod_bound((n % cap) - lag, cap);
    assert(cb_read_index(n % cap, lag, cap) == (n - lag) % cap);
    if (n - lag) < cap {
        vstd::arithmetic::div_mod::lemma_small_mod((n - lag) as nat, cap as nat);
    }
}

impl CircularBuffer {
    /// An all-zero buffer of the given capacity with the cursor at zero.
    pub fn new(buffer_size: usize) -> (b: CircularBuffer)
        requires
            1 <= buffer_size <= DELAY_CAP_MAX,
        ensures
            cb_wf(b),
            b.buffer@.len() == buffer_size,
            b.write_index == 0,
            forall|i: int| 0 <= i < buffer_size ==> b.buffer@[i] == 0,
            b.buffer@ == cb_contents_after(Seq::<i64>::empty(), buffer_size as int),
    {
        let mut buffer: Vec<i64> = Vec::new();
        for i in 0..buffer_size
            invariant
                buffer@.len() == i,
                forall|j: int| 0 <= j < i ==> buffer@[j] == 0,
        {
            buffer.push(0);
        }
        proof {
            assert(buffer@ =~= cb_contents_after(Seq::<i64>::empty(), buffer_size as int));
        }
        CircularBuffer { buffer, write_index: 0 }
    }

    /// Store one sample at the cursor, then advance it, wrapping at the end.
    pub fn write(&mut self, value: i64)
        requires
            cb_wf(*old(self)),
            fx_abs(value as int) <= SAMPLE_MAX,
        ensures
            cb_wf(*final(self)),
            final(self).buffer@ == old(self).buffer@.update(old(self).write_index as int, value),
            final(self).write_index as int == (old(self).write_index + 1) as int
                % old(self).buffer@.len() as int,
    {
        let len: usize = self.buffer.len();
        self.buffer.set(self.write_index, value);
        self.write_index = self.write_index + 1;
        if self.write_index == len {
            self.write_index = 0;
        }
        proof {
            if old(self).write_index + 1 == len {
                vstd::arithmetic::div_mod::lemma_mod_self_0(len as int);
            } else {
                vstd::arithmetic::div_mod::lemma_small_mod(
                    (old(self).write_index + 1) as nat,
                    len as nat,
                );
            }
        }
    }

    /// Read the sample written `length_samples` writes ago.  The lag must
    /// not exceed the capacity; `try_read` reports that case instead.
    pub fn read(&self, length_samples: usize) -> (r: i64)
        requires
            cb_wf(*self),
            length_samples <= self.buffer@.len(),
        ensures
            r == self.buffer@[cb_read_index(
                self.write_index as int,
                length_samples as int,
                self.buffer@.len() as int,
            )],
            fx_abs(r as int) <= SAMPLE_MAX,
    {
        if length_samples > self.write_index {
            self.buffer[self.write_index + self.buffer.len() - length_samples]
        } else {
            self.buffer[self.write_index - length_samples]
        }
    }

    /// Read at a lag, rejecting one beyond the capacity with
    /// `InvalidDelayLength` rather than reading out of bounds.
    pub fn try_read(&self, length_samples: usize) -> (r: Result<i64, ConfigError>)
        requires
            cb_wf(*self),
        ensures
            length_samples <= self.buffer@.len() ==> r == Ok::<i64, ConfigError>(
                self.buffer@[cb_read_index(
                    self.write_index as int,
                    length_samples as int,
                    self.buffer@.len() as int,
                )],
            ),
            length_samples > self.buffer@.len() ==> r == Err::<i64, ConfigError>(
                ConfigError::InvalidDelayLength,
            ),
    {
        if length_samples > self.buffer.len() {
            Err(ConfigError::InvalidDelayLength)
        } else {
            Ok(self.read(length_samples))
        }
    }
}

/// Interpolated read of a buffer at a fractional lag in Q16.16 samples.
pub open spec fn cb_interp_spec(b: CircularBuffer, lag: int) -> int {
    let idx = lag / (FX_ONE as int);
    let frac = lag % (FX_ONE as int);
    let len = b.buffer@.len() as int;
    lerp_spec(
        b.buffer@[cb_read_index(b.write_index as int, idx, len)] as int,
        b.buffer@[cb_read_index(b.write_index as int, idx + 1, len)] as int,
        frac,
    )
}

/// Whole-sample read at a truncated fractional lag, consuming the buffer.
pub fn discard(buf: CircularBuffer, length_samples: i64) -> (r: i64)
    requires
        cb_wf(buf),
        0 <= length_samples,
        (length_samples as int) / (FX_ONE as int) <= buf.buffer@.len(),
    ensures
        r == buf.buffer@[cb_read_index(
            buf.write_index as int,
            (length_samples as int) / (FX_ONE as int),
            buf.buffer@.len() as int,
        )],
{
    buf.read((length_samples / FX_ONE) as usize)
}

/// Linear-interpolated read at a fractional lag: blend the samples at the
/// two neighbouring whole lags by the fractional part.
pub fn linear_interpolate(buf: &CircularBuffer, length_samples: &i64) -> (r: i64)
    requires
        cb_wf(*buf),
        0 <= *length_samples < buf.buffer@.len() * FX_ONE,
    ensures
        r == cb_interp_spec(*buf, *length_samples as int),
        fx_abs(r as int) <= SAMPLE_MAX,
{
    let lag: i64 = *length_samples;
    proof {
        vstd::arithmetic::div_mod::lemma_div_pos_is_pos(lag as int, FX_ONE as int);
        vstd::arithmetic::div_mod::lemma_multiply_divide_lt(
            lag as int,
            FX_ONE as int,
            buf.buffer@.len() as int,
        );
        assert((FX_ONE as int) * (buf.buffer@.len() as int) > lag as int) by (nonlinear_arith)
            requires
                buf.buffer@.len() * FX_ONE > lag as int,
        ;
        vstd::arithmetic::div_mod::lemma_mod_bound(lag as int, FX_ONE as int);
    }
    let index: usize = (lag / FX_ONE) as usize;
    let sample1: i64 = buf.read(index);
    let sample2: i64 = buf.read(index + 1);
    let fraction: i64 = lag % FX_ONE;
    proof {
        lemma_lerp_bound(sample1 as int, sample2 as int, fraction as int, SAMPLE_MAX as int);
    }
    simple_linear(sample1, sample2, fraction)
}

/// Cached mapping `(delay_seconds, sample_rate) -> delay_samples`.
pub struct Memo {
    pub delay_samples: i64,
    pub delay_seconds: i64,
    pub sample_rate: u32,
}

/// The lag in Q16.16 samples for a delay in Q16.16 seconds: the product of
/// rate and seconds, clamped to just below the capacity so an interpolated
/// read stays inside the buffer.  Any requested lag the buffer can serve is
/// stored unchanged.
pub open spec fn delay_samples_spec(seconds: int, sr: int, cap: int) -> int {
    let raw = sr * seconds;
    if raw > cap * FX_ONE - 1 {
        cap * FX_ONE - 1
    } else {
        raw
    }
}

/// Well-formed memo for a buffer of capacity `cap`.
pub open spec fn delay_memo_wf(m: Memo, cap: int) -> bool {
    &&& 1 <= m.delay_seconds <= SECONDS_MAX
    &&& 1 <= m.sample_rate <= SR_MAX
    &&& m.delay_samples == delay_samples_spec(m.delay_seconds as int, m.sample_rate as int, cap)
}

impl Memo {
    /// Default cache: half a second at 44100 Hz.
    pub fn new() -> (m: Memo)
        ensures
            m.delay_seconds == FX_ONE / 2,
            m.sample_rate == 44100,
            m.delay_samples == 44100 * (FX_ONE / 2),
    {
        Memo { delay_samples: 44100 * (FX_ONE / 2), delay_seconds: FX_ONE / 2, sample_rate: 44100 }
    }
}

/// A delay line with feedback: reads its own output at a fractional lag and
/// writes back the input plus scaled feedback, every sample.
pub struct SimpleDelay {
    pub buffer: CircularBuffer,
    pub memo: Memo,
}

/// Well-formed delay: buffer sound, cache coherent for its capacity.
pub open spec fn sd_wf(d: SimpleDelay) -> bool {
    &&& cb_wf(d.buffer)
    &&& delay_memo_wf(d.memo, d.buffer.buffer@.len() as int)
}

impl SimpleDelay {
    /// An empty delay over a buffer of the given capacity.
    pub fn new(buffer_size: usize) -> (d: SimpleDelay)
        requires
            1 <= buffer_size <= DELAY_CAP_MAX,
        ensures
            sd_wf(d),
            d.buffer.buffer@.len() == buffer_size,
            d.buffer.write_index == 0,
            forall|i: int| 0 <= i < buffer_size ==> d.buffer.buffer@[i] == 0,
            d.memo.delay_seconds == FX_ONE / 2,
            d.memo.sample_rate == 44100,
    {
        let mut memo: Memo = Memo::new();
        let cap_lag: i64 = (buffer_size as i64) * FX_ONE - 1;
        if memo.delay_samples > cap_lag {
            memo.delay_samples = cap_lag;
        }
        SimpleDelay { buffer: CircularBuffer::new(buffer_size), memo }
    }

    /// Refresh the cached lag, recomputing only when an input changed.
    fn update_memo(&mut self, delay_seconds: i64, sample_rate: u32)
        requires
            sd_wf(*old(self)),
            1 <= delay_seconds <= SECONDS_MAX,
            1 <= sample_rate <= SR_MAX,
        ensures
            sd_wf(*final(self)),
            self_updated_memo(*old(self), *final(self), delay_seconds, sample_rate),
            final(self).buffer == old(self).buffer,
    {
        if sample_rate != self.memo.sample_rate || delay_seconds != self.memo.delay_seconds {
            self.memo.sample_rate = sample_rate;
            self.memo.delay_seconds = delay_seconds;
            proof {
                assert(1 <= (sample_rate as int) * (delay_seconds as int) <= 0x8_0000_0000_0000i64)
                    by (nonlinear_arith)
                    requires
                        1 <= sample_rate <= SR_MAX,
                        1 <= delay_seconds <= SECONDS_MAX,
                ;
            }
            let raw: i64 = (sample_rate as i64) * delay_seconds;
            let cap_lag: i64 = (self.buffer.buffer.len() as i64) * FX_ONE - 1;
            self.memo.delay_samples = if raw > cap_lag {
                cap_lag
            } else {
                raw
            };
        }
    }

    /// Read the delayed output at the cached lag, then write the input plus
    /// the just-read output scaled by the feedback amount.  The read comes
    /// strictly before the write: the output never sees the current input.
    pub fn tick(
        &mut self,
        input_sample: i64,
        delay_seconds: i64,
        feedback_amount: i64,
        sample_rate: u32,
    ) -> (output: i64)
        requires
            sd_wf(*old(self)),
            fx_abs(input_sample as int) <= SAMPLE_MAX,
            0 <= feedback_amount < FX_ONE,
            1 <= delay_seconds <= SECONDS_MAX,
            1 <= sample_rate <= SR_MAX,
        ensures
            sd_wf(*final(self)),
            self_updated_memo(*old(self), *final(self), delay_seconds, sample_rate),
            output == cb_interp_spec(
                old(self).buffer,
                delay_samples_spec(
                    delay_seconds as int,
                    sample_rate as int,
                    old(self).buffer.buffer@.len() as int,
                ),
            ),
            fx_abs(output as int) <= SAMPLE_MAX,
            final(self).buffer.buffer@ == old(self).buffer.buffer@.update(
                old(self).buffer.write_index as int,
                sat_spec(input_sample + fx_mul_spec(output as int, feedback_amount as int)) as i64,
            ),
            final(self).buffer.write_index as int == (old(self).buffer.write_index + 1) as int
                % old(self).buffer.buffer@.len() as int,
    {
        self.update_memo(delay_seconds, sample_rate);
        proof {
            assert(1 <= (sample_rate as int) * (delay_seconds as int)) by (nonlinear_arith)
                requires
                    1 <= sample_rate,
                    1 <= delay_seconds,
            ;
        }
        let output: i64 = linear_interpolate(&self.buffer, &self.memo.delay_samples);
        proof {
            crate::fixed::lemma_fx_mul_le_one(output as int, feedback_amount as int);
        }
        let feedback: i64 = fx_mul(output, feedback_amount);
        self.buffer.write(sat(input_sample + feedback));
        output
    }
}

/// The memo after an update: coherent with the new inputs, buffer untouched.
pub open spec fn self_updated_memo(
    old_d: SimpleDelay,
    new_d: SimpleDelay,
    seconds: i64,
    sr: u32,
) -> bool {
    &&& new_d.memo.delay_seconds == seconds
    &&& new_d.memo.sample_rate == sr
    &&& new_d.memo.delay_samples == delay_samples_spec(
        seconds as int,
        sr as int,
        old_d.buffer.buffer@.len() as int,
    )
}

} // verus!
