//! The wavetable factory: builds normalized periodic tables by additive
//! (Fourier) synthesis from a list of partials, and non-periodic shaping
//! curves for envelopes.  A finished table is immutable and shared read-only
//! by every voice.

use vstd::prelude::*;
use crate::fixed::{
    FX_ONE,
    FX_HALF,
    FX_QUARTER,
    SINE_PARABOLA_DIV,
    fx_abs,
    fx_mul_spec,
    fx_mul,
    sine_spec,
    sine_fx,
};
use crate::interpolation::{TABLE_LEN_MAX, table_bounded};

verus! {

/// Largest number of partials one table may combine.
pub const PARTIALS_MAX: usize = 4096;

/// Largest partial amplitude magnitude the factory accepts (1024.0 in Q16.16).
pub const AMP_MAX: i64 = 67108864;

/// Largest harmonic multiplier the factory accepts.
pub const HARMONIC_MAX: u32 = 65536;

/// One harmonic component consumed during table construction: a harmonic
/// multiplier, a Q16.16 amplitude (whose sign carries the partial's
/// polarity), and a Q16.16 phase offset in turns.
#[derive(Clone, Copy)]
pub struct Partial {
    pub freq: u32,
    pub amp: i64,
    pub phase: i64,
}

/// A partial the factory accepts.
pub open spec fn partial_valid(p: Partial) -> bool {
    &&& 1 <= p.freq <= HARMONIC_MAX
    &&& fx_abs(p.amp as int) <= AMP_MAX
    &&& 0 <= p.phase < FX_ONE
}

/// A partial list the factory accepts.
pub open spec fn partials_valid(ps: Seq<Partial>) -> bool {
    &&& ps.len() <= PARTIALS_MAX
    &&& forall|k: int| 0 <= k < ps.len() ==> partial_valid(ps[k])
}

/// Angle, in turns, of partial `p` at index `i` of an `n`-entry table:
/// `freq * i / n + phase`, wrapped into one turn.
pub open spec fn angle_spec(p: Partial, i: int, n: int) -> int {
    ((p.freq * i * FX_ONE) / n + p.phase) % (FX_ONE as int)
}

/// Contribution of one partial to one table entry.
pub open spec fn partial_term_spec(p: Partial, i: int, n: int) -> int {
    fx_mul_spec(p.amp as int, sine_spec(angle_spec(p, i, n)))
}

/// Sum of the first `k` partials at index `i`.
pub open spec fn raw_prefix_spec(ps: Seq<Partial>, k: int, i: int, n: int) -> int
    decreases k,
{
    if k <= 0 {
        0
    } else {
        raw_prefix_spec(ps, k - 1, i, n) + partial_term_spec(ps[k - 1], i, n)
    }
}

/// The un-normalized Fourier sum at table index `i`.
pub open spec fn raw_sample_spec(ps: Seq<Partial>, i: int, n: int) -> int {
    raw_prefix_spec(ps, ps.len() as int, i, n)
}

/// Peak magnitude of the raw samples at indices below `k`.
pub open spec fn peak_prefix_spec(ps: Seq<Partial>, k: int, n: int) -> int
    decreases k,
{
    if k <= 0 {
        0
    } else {
        let prev = peak_prefix_spec(ps, k - 1, n);
        let here = fx_abs(raw_sample_spec(ps, k - 1, n));
        if here > prev {
            here
        } else {
            prev
        }
    }
}

/// Peak magnitude over the whole `n`-entry table.
pub open spec fn peak_spec(ps: Seq<Partial>, n: int) -> int {
    peak_prefix_spec(ps, n, n)
}

/// One normalized entry: the raw sample rescaled so the peak maps to
/// `FX_ONE` (truncating toward zero), or zero for an all-zero table.
pub open spec fn norm_spec(s: int, peak: int) -> int {
    if peak <= 0 {
        0
    } else if s < 0 {
        -((-s * FX_ONE) / peak)
    } else {
        (s * FX_ONE) / peak
    }
}

/// Some entry of the table has magnitude exactly one.
pub open spec fn has_unit_peak(t: Seq<i64>) -> bool {
    exists|i: int| 0 <= i < t.len() && fx_abs(t[i] as int) == FX_ONE
}

/// The raw prefix sums grow by at most `AMP_MAX` per partial.
proof fn lemma_raw_prefix_bound(ps: Seq<Partial>, k: int, i: int, n: int)
    requires
        partials_valid(ps),
        0 <= k <= ps.len(),
        1 <= n,
    ensures
        fx_abs(raw_prefix_spec(ps, k, i, n)) <= k * AMP_MAX,
    decreases k,
{
    if k > 0 {
        lemma_raw_prefix_bound(ps, k - 1, i, n);
        let p = ps[k - 1];
        vstd::arithmetic::div_mod::lemma_mod_bound(
            (p.freq * i * FX_ONE) / n + p.phase,
            FX_ONE as int,
        );
        crate::fixed::lemma_sine_range(angle_spec(p, i, n));
        crate::fixed::lemma_fx_mul_le_one(p.amp as int, sine_spec(angle_spec(p, i, n)));
    }
}

/// Normalization maps magnitudes at most the peak into `[-FX_ONE, FX_ONE]`,
/// and the peak itself to exactly `FX_ONE`.
proof fn lemma_norm_bound(s: int, peak: int)
    requires
        1 <= peak,
        fx_abs(s) <= peak,
    ensures
        fx_abs(norm_spec(s, peak)) <= FX_ONE,
        fx_abs(s) == peak ==> fx_abs(norm_spec(s, peak)) == FX_ONE,
{
    let m = fx_abs(s);
    assert(m * FX_ONE <= peak * FX_ONE) by (nonlinear_arith)
        requires
            0 <= m <= peak,
    ;
    vstd::arithmetic::div_mod::lemma_div_is_ordered(m * FX_ONE, peak * FX_ONE, peak);
    vstd::arithmetic::div_mod::lemma_div_multiples_vanish(FX_ONE as int, peak);
    vstd::arithmetic::div_mod::lemma_div_pos_is_pos(m * FX_ONE, peak);
}

/// Build an `n`-entry table from a list of partials and normalize it so that
/// its peak magnitude is exactly one; an all-zero Fourier sum stays all-zero.
pub fn make_fourier_table_norm(table_size: usize, partials: &Vec<Partial>) -> (table: Vec<i64>)
    requires
        1 <= table_size <= TABLE_LEN_MAX,
        partials_valid(partials@),
    ensures
        table@.len() == table_size,
        forall|i: int|
            0 <= i < table_size ==> table@[i] == norm_spec(
                raw_sample_spec(partials@, i, table_size as int),
                peak_spec(partials@, table_size as int),
            ),
        table_bounded(table@, FX_ONE as int),
        peak_spec(partials@, table_size as int) > 0 ==> has_unit_peak(table@),
        peak_spec(partials@, table_size as int) == 0 ==> forall|i: int|
            0 <= i < table_size ==> table@[i] == 0,
{
    let ghost n = table_size as int;
    let mut wavetable: Vec<i64> = Vec::new();
    let mut maximum_amplitude: i64 = 0;
    let mut peak_index: usize = 0;
    for i in 0..table_size
        invariant
            1 <= table_size <= TABLE_LEN_MAX,
            partials_valid(partials@),
            n == table_size as int,
            wavetable@.len() == i,
            forall|j: int|
                0 <= j < i ==> wavetable@[j] == raw_sample_spec(partials@, j, n),
            maximum_amplitude == peak_prefix_spec(partials@, i as int, n),
            0 <= maximum_amplitude <= (PARTIALS_MAX as int) * AMP_MAX,
            maximum_amplitude > 0 ==> peak_index < i && fx_abs(
                raw_sample_spec(partials@, peak_index as int, n),
            ) == maximum_amplitude,
    {
        let mut sample: i64 = 0;
        let num_partials: usize = partials.len();
        for k in 0..num_partials
            invariant
                1 <= table_size <= TABLE_LEN_MAX,
                partials_valid(partials@),
                n == table_size as int,
                num_partials == partials@.len(),
                i < table_size,
                sample == raw_prefix_spec(partials@, k as int, i as int, n),
                fx_abs(sample as int) <= k * AMP_MAX,
        {
            let p: Partial = partials[k];
            proof {
                assert(0 <= (p.freq as int) * (i as int) * (FX_ONE as int) <= 0x8000_0000_0000i64)
                    by (nonlinear_arith)
                    requires
                        1 <= p.freq <= HARMONIC_MAX,
                        0 <= i < 32768,
                ;
            }
            let expanded: i64 = (p.freq as i64) * (i as i64) * FX_ONE;
            let shifted: i64 = expanded / (table_size as i64) + p.phase;
            proof {
                vstd::arithmetic::div_mod::lemma_div_pos_is_pos(expanded as int, n);
                vstd::arithmetic::div_mod::lemma_div_nonincreasing(expanded as int, n);
            }
            let angle: i64 = shifted % FX_ONE;
            proof {
                vstd::arithmetic::div_mod::lemma_mod_bound(shifted as int, FX_ONE as int);
            }
            let wave: i64 = sine_fx(angle);
            proof {
                crate::fixed::lemma_fx_mul_le_one(p.amp as int, wave as int);
                lemma_raw_prefix_bound(partials@, k as int + 1, i as int, n);
            }
            sample = sample + fx_mul(p.amp, wave);
        }
        let sample_abs: i64 = if sample < 0 {
            -sample
        } else {
            sample
        };
        if sample_abs > maximum_amplitude {
            maximum_amplitude = sample_abs;
            peak_index = i;
        }
        wavetable.push(sample);
    }
    if maximum_amplitude > 0 {
        let ghost peak = maximum_amplitude as int;
        let ghost raws = wavetable@;
        proof {
            assert forall|j: int| 0 <= j < table_size implies fx_abs(raws[j] as int) <= peak by {
                lemma_peak_prefix_covers(partials@, j, n, n);
            }
        }
        for i in 0..table_size
            invariant
                1 <= table_size <= TABLE_LEN_MAX,
                partials_valid(partials@),
                n == table_size as int,
                wavetable@.len() == table_size,
                raws.len() == table_size,
                1 <= peak <= (PARTIALS_MAX as int) * AMP_MAX,
                maximum_amplitude == peak,
                peak == peak_spec(partials@, n),
                forall|j: int| 0 <= j < table_size ==> raws[j] == raw_sample_spec(partials@, j, n),
                forall|j: int| 0 <= j < table_size ==> fx_abs(raws[j] as int) <= peak,
                forall|j: int| i <= j < table_size ==> wavetable@[j] == raws[j],
                forall|j: int|
                    0 <= j < i ==> wavetable@[j] == norm_spec(raws[j] as int, peak),
                forall|j: int| 0 <= j < i ==> fx_abs(wavetable@[j] as int) <= FX_ONE,
                peak_index < table_size,
                fx_abs(raws[peak_index as int] as int) == peak,
        {
            let s: i64 = wavetable[i];
            proof {
                assert(s == raws[i as int]);
                assert(fx_abs(s as int) <= peak);
                assert(fx_abs(s as int) * FX_ONE <= ((PARTIALS_MAX as int) * AMP_MAX) * FX_ONE)
                    by (nonlinear_arith)
                    requires
                        0 <= fx_abs(s as int) <= (PARTIALS_MAX as int) * AMP_MAX,
                ;
                lemma_norm_bound(s as int, peak);
            }
            let v: i64 = if s < 0 {
                -((-s * FX_ONE) / maximum_amplitude)
            } else {
                (s * FX_ONE) / maximum_amplitude
            };
            wavetable.set(i, v);
        }
        proof {
            assert(fx_abs(wavetable@[peak_index as int] as int) == FX_ONE) by {
                lemma_norm_bound(raws[peak_index as int] as int, peak);
            }
            assert(has_unit_peak(wavetable@));
        }
        wavetable
    } else {
        proof {
            lemma_peak_zero_all_zero(partials@, table_size as int);
        }
        wavetable
    }
}

/// If the peak over a whole table is zero, every raw sample is zero and so
/// is its normalized form.
proof fn lemma_peak_zero_all_zero(ps: Seq<Partial>, n: int)
    requires
        peak_spec(ps, n) == 0,
    ensures
        forall|i: int| 0 <= i < n ==> raw_sample_spec(ps, i, n) == 0,
{
    assert forall|i: int| 0 <= i < n implies raw_sample_spec(ps, i, n) == 0 by {
        lemma_peak_prefix_covers(ps, i, n, n);
    }
}

/// The peak of the first `k` entries bounds each raw sample below `k`.
proof fn lemma_peak_prefix_covers(ps: Seq<Partial>, i: int, k: int, n: int)
    requires
        0 <= i < k,
    ensures
        fx_abs(raw_sample_spec(ps, i, n)) <= peak_prefix_spec(ps, k, n),
    decreases k,
{
    if i < k - 1 {
        lemma_peak_prefix_covers(ps, i, k - 1, n);
    }
}

/// The single partial of a pure sine table.
pub open spec fn sine_partials_spec() -> Seq<Partial> {
    seq![Partial { freq: 1u32, amp: FX_ONE, phase: 0i64 }]
}

/// The `j`-th partial of a triangle recipe: odd harmonic `2j + 1`, amplitude
/// `1 / k^2`, signs alternating `+`, `-`, `+`, ...
pub open spec fn triangle_partial_spec(j: int) -> Partial {
    let k = 2 * j + 1;
    let mag = (FX_ONE as int) / (k * k);
    Partial {
        freq: k as u32,
        amp: (if j % 2 == 0 {
            mag
        } else {
            -mag
        }) as i64,
        phase: 0i64,
    }
}

/// Triangle recipe: the odd harmonics below `num`.
pub open spec fn triangle_partials_spec(num: int) -> Seq<Partial> {
    Seq::new((num / 2) as nat, |j: int| triangle_partial_spec(j))
}

/// The `j`-th partial of a square recipe: odd harmonic `2j + 1`, amplitude
/// `1 / k`, all positive.
pub open spec fn square_partial_spec(j: int) -> Partial {
    let k = 2 * j + 1;
    Partial { freq: k as u32, amp: ((FX_ONE as int) / k) as i64, phase: 0i64 }
}

/// Square recipe: the odd harmonics below `num`.
pub open spec fn square_partials_spec(num: int) -> Seq<Partial> {
    Seq::new((num / 2) as nat, |j: int| square_partial_spec(j))
}

/// The `j`-th partial of a sawtooth recipe: harmonic `j + 1`, amplitude
/// `1 / k`, signs alternating `+`, `-`, `+`, ...
pub open spec fn sawtooth_partial_spec(j: int) -> Partial {
    let k = j + 1;
    let mag = (FX_ONE as int) / k;
    Partial {
        freq: k as u32,
        amp: (if k % 2 == 1 {
            mag
        } else {
            -mag
        }) as i64,
        phase: 0i64,
    }
}

/// Sawtooth recipe: every harmonic below `num`.
pub open spec fn sawtooth_partials_spec(num: int) -> Seq<Partial> {
    Seq::new((if num <= 1 {
        0
    } else {
        num - 1
    }) as nat, |j: int| sawtooth_partial_spec(j))
}

/// A triangle wave contains only odd harmonics, rolling off as `1 / k^2`,
/// with alternating signs.
pub fn make_triangle_partials(num_partials: usize) -> (partials: Vec<Partial>)
    requires
        num_partials <= PARTIALS_MAX,
    ensures
        partials@ == triangle_partials_spec(num_partials as int),
        partials_valid(partials@),
{
    let mut partials: Vec<Partial> = Vec::new();
    let mut index: usize = 1;
    while index < num_partials
        invariant
            num_partials <= PARTIALS_MAX,
            index % 2 == 1,
            1 <= index <= num_partials + 1,
            partials@.len() == (index - 1) / 2,
            forall|j: int|
                0 <= j < partials@.len() ==> partials@[j] == triangle_partial_spec(j),
            forall|j: int| 0 <= j < partials@.len() ==> partial_valid(#[trigger] partials@[j]),
        decreases num_partials + 1 - index,
    {
        let j: usize = (index - 1) / 2;
        let k: i64 = index as i64;
        proof {
            assert(1 <= k * k <= 0x1000000) by (nonlinear_arith)
                requires
                    1 <= k <= 4096,
            ;
        }
        let mag: i64 = FX_ONE / (k * k);
        proof {
            vstd::arithmetic::div_mod::lemma_div_pos_is_pos(FX_ONE as int, (k * k) as int);
            vstd::arithmetic::div_mod::lemma_div_nonincreasing(FX_ONE as int, (k * k) as int);
        }
        let amp: i64 = if j % 2 == 0 {
            mag
        } else {
            -mag
        };
        partials.push(Partial { freq: index as u32, amp, phase: 0 });
        index = index + 2;
    }
    proof {
        assert(partials@.len() == num_partials as int / 2);
        assert(partials@ =~= triangle_partials_spec(num_partials as int));
    }
    partials
}

/// A square wave contains only odd harmonics, rolling off as `1 / k`, with
/// non-alternating signs.
pub fn make_square_partials(num_partials: usize) -> (partials: Vec<Partial>)
    requires
        num_partials <= PARTIALS_MAX,
    ensures
        partials@ == square_partials_spec(num_partials as int),
        partials_valid(partials@),
{
    let mut partials: Vec<Partial> = Vec::new();
    let mut index: usize = 1;
    while index < num_partials
        invariant
            num_partials <= PARTIALS_MAX,
            index % 2 == 1,
            1 <= index <= num_partials + 1,
            partials@.len() == (index - 1) / 2,
            forall|j: int| 0 <= j < partials@.len() ==> partials@[j] == square_partial_spec(j),
            forall|j: int| 0 <= j < partials@.len() ==> partial_valid(#[trigger] partials@[j]),
        decreases num_partials + 1 - index,
    {
        let k: i64 = index as i64;
        let amp: i64 = FX_ONE / k;
        proof {
            vstd::arithmetic::div_mod::lemma_div_pos_is_pos(FX_ONE as int, k as int);
            vstd::arithmetic::div_mod::lemma_div_nonincreasing(FX_ONE as int, k as int);
        }
        partials.push(Partial { freq: index as u32, amp, phase: 0 });
        index = index + 2;
    }
    proof {
        assert(partials@.len() == num_partials as int / 2);
        assert(partials@ =~= square_partials_spec(num_partials as int));
    }
    partials
}

/// A sawtooth wave has energy at all harmonics, rolling off as `1 / k`, with
/// alternating signs.
pub fn make_sawtooth_partials(num_partials: usize) -> (partials: Vec<Partial>)
    requires
        num_partials <= PARTIALS_MAX,
    ensures
        partials@ == sawtooth_partials_spec(num_partials as int),
        partials_valid(partials@),
{
    let mut partials: Vec<Partial> = Vec::new();
    let mut index: usize = 1;
    while index < num_partials
        invariant
            num_partials <= PARTIALS_MAX,
            1 <= index <= num_partials + 1,
            index <= num_partials || index == 1,
            partials@.len() == index - 1,
            forall|j: int| 0 <= j < partials@.len() ==> partials@[j] == sawtooth_partial_spec(j),
            forall|j: int| 0 <= j < partials@.len() ==> partial_valid(#[trigger] partials@[j]),
        decreases num_partials + 1 - index,
    {
        let k: i64 = index as i64;
        let mag: i64 = FX_ONE / k;
        proof {
            vstd::arithmetic::div_mod::lemma_div_pos_is_pos(FX_ONE as int, k as int);
            vstd::arithmetic::div_mod::lemma_div_nonincreasing(FX_ONE as int, k as int);
        }
        let amp: i64 = if index % 2 == 1 {
            mag
        } else {
            -mag
        };
        partials.push(Partial { freq: index as u32, amp, phase: 0 });
        index = index + 1;
    }
    proof {
        assert(partials@ =~= sawtooth_partials_spec(num_partials as int));
    }
    partials
}

/// `x` raised to the `k`-th power in Q16.16, by repeated truncating
/// multiplication.
pub open spec fn fx_pow_spec(x: int, k: nat) -> int
    decreases k,
{
    if k == 0 {
        FX_ONE as int
    } else {
        fx_mul_spec(x, fx_pow_spec(x, (k - 1) as nat))
    }
}

/// For a base in `[0, FX_ONE)` the power stays in `[0, base]` once the
/// exponent is positive.
pub proof fn lemma_fx_pow_range(x: int, k: nat)
    requires
        0 <= x < FX_ONE,
    ensures
        0 <= fx_pow_spec(x, k) <= FX_ONE,
        k >= 1 ==> fx_pow_spec(x, k) <= x,
    decreases k,
{
    if k == 0 {
    } else {
        lemma_fx_pow_range(x, (k - 1) as nat);
        let p = fx_pow_spec(x, (k - 1) as nat);
        assert(0 <= fx_mul_spec(x, p) && fx_mul_spec(x, p) <= x) by (nonlinear_arith)
            requires
                0 <= x < FX_ONE,
                0 <= p <= FX_ONE,
        ;
    }
}

/// Raising a larger base to the same power gives a larger result.
pub proof fn lemma_fx_pow_monotone(x1: int, x2: int, k: nat)
    requires
        0 <= x1 <= x2 < FX_ONE,
    ensures
        fx_pow_spec(x1, k) <= fx_pow_spec(x2, k),
    decreases k,
{
    if k > 0 {
        lemma_fx_pow_monotone(x1, x2, (k - 1) as nat);
        lemma_fx_pow_range(x1, (k - 1) as nat);
        lemma_fx_pow_range(x2, (k - 1) as nat);
        let p1 = fx_pow_spec(x1, (k - 1) as nat);
        let p2 = fx_pow_spec(x2, (k - 1) as nat);
        assert(fx_mul_spec(x1, p1) <= fx_mul_spec(x2, p2)) by (nonlinear_arith)
            requires
                0 <= x1 <= x2,
                0 <= p1 <= p2,
        ;
    }
}

/// Build a non-periodic shaping curve `table[i] = (i / n) ^ curve`:
/// monotone, nonnegative, starting at zero, not re-normalized.
pub fn make_exp_envelope(table_size: usize, curve: u32) -> (table: Vec<i64>)
    requires
        1 <= table_size <= TABLE_LEN_MAX,
        1 <= curve <= 64,
    ensures
        table@.len() == table_size,
        forall|i: int|
            0 <= i < table_size ==> table@[i] == fx_pow_spec(
                (i * FX_ONE) / (table_size as int),
                curve as nat,
            ),
        forall|i: int| 0 <= i < table_size ==> 0 <= #[trigger] table@[i] < FX_ONE,
        forall|i: int, j: int| 0 <= i <= j < table_size ==> table@[i] <= table@[j],
        table_bounded(table@, FX_ONE as int),
        table@[0] == 0,
{
    let ghost n = table_size as int;
    let mut table: Vec<i64> = Vec::new();
    for i in 0..table_size
        invariant
            1 <= table_size <= TABLE_LEN_MAX,
            1 <= curve <= 64,
            n == table_size as int,
            table@.len() == i,
            forall|j: int|
                0 <= j < i ==> table@[j] == fx_pow_spec((j * FX_ONE) / n, curve as nat),
            forall|j: int| 0 <= j < i ==> 0 <= #[trigger] table@[j] < FX_ONE,
    {
        proof {
            assert(0 <= (i as int) * FX_ONE <= (n - 1) * FX_ONE) by (nonlinear_arith)
                requires
                    0 <= i < n,
            ;
            assert(((n - 1) * FX_ONE) / n < FX_ONE) by {
                assert((n - 1) * FX_ONE < n * FX_ONE) by (nonlinear_arith)
                    requires
                        1 <= n,
                ;
                vstd::arithmetic::div_mod::lemma_multiply_divide_lt(
                    (n - 1) * FX_ONE,
                    n,
                    FX_ONE as int,
                );
            }
            vstd::arithmetic::div_mod::lemma_div_is_ordered(
                (i as int) * FX_ONE,
                (n - 1) * FX_ONE,
                n,
            );
            vstd::arithmetic::div_mod::lemma_div_pos_is_pos((i as int) * FX_ONE, n);
        }
        let x: i64 = ((i as i64) * FX_ONE) / (table_size as i64);
        let mut p: i64 = FX_ONE;
        let mut j: u32 = 0;
        while j < curve
            invariant
                0 <= x < FX_ONE,
                j <= curve <= 64,
                p == fx_pow_spec(x as int, j as nat),
                0 <= p <= FX_ONE,
            decreases curve - j,
        {
            proof {
                lemma_fx_pow_range(x as int, (j + 1) as nat);
            }
            p = fx_mul(x, p);
            j = j + 1;
        }
        proof {
            lemma_fx_pow_range(x as int, curve as nat);
        }
        table.push(p);
    }
    proof {
        assert forall|i: int, j: int| 0 <= i <= j < table_size implies table@[i] <= table@[j] by {
            vstd::arithmetic::div_mod::lemma_div_is_ordered(i * FX_ONE, j * FX_ONE, n);
            vstd::arithmetic::div_mod::lemma_div_pos_is_pos(i * FX_ONE, n);
            assert(i * FX_ONE <= j * FX_ONE) by (nonlinear_arith)
                requires
                    i <= j,
            ;
            assert(((table_size as int - 1) * FX_ONE) / n < FX_ONE) by {
                assert((n - 1) * FX_ONE < n * FX_ONE) by (nonlinear_arith)
                    requires
                        1 <= n,
                ;
                vstd::arithmetic::div_mod::lemma_multiply_divide_lt(
                    (n - 1) * FX_ONE,
                    n,
                    FX_ONE as int,
                );
            }
            assert(j * FX_ONE <= (n - 1) * FX_ONE) by (nonlinear_arith)
                requires
                    j <= n - 1,
            ;
            vstd::arithmetic::div_mod::lemma_div_is_ordered(j * FX_ONE, (n - 1) * FX_ONE, n);
            lemma_fx_pow_monotone((i * FX_ONE) / n, (j * FX_ONE) / n, curve as nat);
        }
        assert(table@[0] == fx_pow_spec(0, curve as nat));
        lemma_fx_pow_range(0, curve as nat);
        assert(fx_pow_spec(0, curve as nat) <= 0);
    }
    table
}

/// Build one normalized table per partial list.
pub fn make_wavetable(table_size: usize, partial_sets: &Vec<Vec<Partial>>) -> (tables: Vec<
    Vec<i64>,
>)
    requires
        1 <= table_size <= TABLE_LEN_MAX,
        forall|k: int|
            0 <= k < partial_sets@.len() ==> partials_valid(#[trigger] partial_sets@[k]@),
    ensures
        tables@.len() == partial_sets@.len(),
        forall|k: int| 0 <= k < tables@.len() ==> (#[trigger] tables@[k])@.len() == table_size,
        forall|k: int, i: int|
            0 <= k < tables@.len() && 0 <= i < table_size ==> #[trigger] (tables@[k])@[i]
                == norm_spec(
                raw_sample_spec(partial_sets@[k]@, i, table_size as int),
                peak_spec(partial_sets@[k]@, table_size as int),
            ),
        forall|k: int|
            0 <= k < tables@.len() ==> table_bounded((#[trigger] tables@[k])@, FX_ONE as int),
        forall|k: int|
            0 <= k < tables@.len() && peak_spec(partial_sets@[k]@, table_size as int) > 0
                ==> has_unit_peak((#[trigger] tables@[k])@),
{
    let mut tables: Vec<Vec<i64>> = Vec::new();
    let num_sets: usize = partial_sets.len();
    for s in 0..num_sets
        invariant
            1 <= table_size <= TABLE_LEN_MAX,
            num_sets == partial_sets@.len(),
            forall|k: int|
                0 <= k < partial_sets@.len() ==> partials_valid(#[trigger] partial_sets@[k]@),
            tables@.len() == s,
            forall|k: int| 0 <= k < s ==> (#[trigger] tables@[k])@.len() == table_size,
            forall|k: int, i: int|
                0 <= k < s && 0 <= i < table_size ==> #[trigger] (tables@[k])@[i] == norm_spec(
                    raw_sample_spec(partial_sets@[k]@, i, table_size as int),
                    peak_spec(partial_sets@[k]@, table_size as int),
                ),
            forall|k: int|
                0 <= k < s ==> table_bounded((#[trigger] tables@[k])@, FX_ONE as int),
            forall|k: int|
                0 <= k < s && peak_spec(partial_sets@[k]@, table_size as int) > 0
                    ==> has_unit_peak((#[trigger] tables@[k])@),
    {
        let table: Vec<i64> = make_fourier_table_norm(table_size, &partial_sets[s]);
        tables.push(table);
        proof {
            assert(tables@[s as int] == table);
        }
    }
    tables
}

/// At index `i` of a table of length `4 * i`, the angle of a partial with
/// zero phase offset is `freq mod 4` quarter turns, where the sine
/// approximation takes its exact values 0, 1, 0, -1.  The partial's
/// contribution there is therefore `+amp`, `-amp`, or nothing.
proof fn lemma_quarter_term(p: Partial, i: int, n: int)
    requires
        p.phase == 0,
        1 <= p.freq,
        1 <= i,
        n == 4 * i,
    ensures
        (p.freq as int) % 4 == 1 ==> partial_term_spec(p, i, n) == p.amp,
        (p.freq as int) % 4 == 3 ==> partial_term_spec(p, i, n) == -(p.amp as int),
        (p.freq as int) % 4 == 0 || (p.freq as int) % 4 == 2 ==> partial_term_spec(p, i, n) == 0,
{
    let f = p.freq as int;
    vstd::arithmetic::div_mod::lemma_fundamental_div_mod(f, 4);
    vstd::arithmetic::div_mod::lemma_mod_bound(f, 4);
    let t = f / 4;
    let r = f % 4;
    assert(angle_spec(p, i, n) == r * FX_QUARTER) by {
        assert(f * i * FX_ONE == n * (f * FX_QUARTER)) by (nonlinear_arith)
            requires
                n == 4 * i,
        ;
        vstd::arithmetic::div_mod::lemma_div_multiples_vanish(f * FX_QUARTER, n);
        assert(f * FX_QUARTER == (FX_ONE as int) * t + r * FX_QUARTER) by (nonlinear_arith)
            requires
                f == 4 * t + r,
        ;
        vstd::arithmetic::div_mod::lemma_fundamental_div_mod_converse(
            f * FX_QUARTER,
            FX_ONE as int,
            t,
            r * FX_QUARTER,
        );
    }
    crate::fixed::lemma_sine_quarter_values();
    if r == 1 {
        crate::fixed::lemma_fx_mul_unit(p.amp as int);
    } else if r == 3 {
        crate::fixed::lemma_fx_mul_neg_unit(p.amp as int);
    } else {
        crate::fixed::lemma_fx_mul_zero(p.amp as int);
    }
}

/// When the table length is divisible by four, the pure sine recipe's raw
/// peak reaches exactly one: a quarter of the cycle lands on a table index,
/// where the sine approximation is exact.
pub proof fn lemma_sine_recipe_peak_reaches_one(n: int)
    requires
        4 <= n <= TABLE_LEN_MAX,
        n % 4 == 0,
    ensures
        peak_spec(sine_partials_spec(), n) >= FX_ONE,
{
    let ps = sine_partials_spec();
    let i = n / 4;
    vstd::arithmetic::div_mod::lemma_fundamental_div_mod(n, 4);
    assert(1 <= i < n) by (nonlinear_arith)
        requires
            n == 4 * i,
            n >= 4,
    ;
    lemma_quarter_term(ps[0], i, n);
    assert(raw_sample_spec(ps, i, n) == FX_ONE) by {
        assert(raw_prefix_spec(ps, 0, i, n) == 0);
        assert(raw_prefix_spec(ps, 1, i, n) == partial_term_spec(ps[0], i, n));
    }
    lemma_peak_prefix_covers(ps, i, n, n);
}

/// Triangle prefix sums at the quarter index: every term there is the
/// nonnegative `1 / k^2` (the recipe's sign alternation cancels against the
/// sine's sign at each odd harmonic), so the sum stays at least one once
/// the fundamental is in.
proof fn lemma_triangle_prefix_at_quarter(num: int, i: int, n: int, j: int)
    requires
        2 <= num <= PARTIALS_MAX,
        1 <= i,
        n == 4 * i,
        0 <= j <= num / 2,
    ensures
        raw_prefix_spec(triangle_partials_spec(num), j, i, n) >= 0,
        j >= 1 ==> raw_prefix_spec(triangle_partials_spec(num), j, i, n) >= FX_ONE,
    decreases j,
{
    let ps = triangle_partials_spec(num);
    if j > 0 {
        lemma_triangle_prefix_at_quarter(num, i, n, j - 1);
        let jj = j - 1;
        let p = ps[jj];
        let k = 2 * jj + 1;
        vstd::arithmetic::div_mod::lemma_fundamental_div_mod(jj, 2);
        if jj % 2 == 0 {
            vstd::arithmetic::div_mod::lemma_fundamental_div_mod_converse(k, 4, jj / 2, 1);
        } else {
            vstd::arithmetic::div_mod::lemma_fundamental_div_mod_converse(k, 4, jj / 2, 3);
        }
        assert(1 <= k * k) by (nonlinear_arith)
            requires
                1 <= k,
        ;
        vstd::arithmetic::div_mod::lemma_div_pos_is_pos(FX_ONE as int, k * k);
        lemma_quarter_term(p, i, n);
        assert(partial_term_spec(p, i, n) == (FX_ONE as int) / (k * k));
        if jj == 0 {
            assert(k * k == 1) by (nonlinear_arith)
                requires
                    k == 1,
            ;
            vstd::arithmetic::div_mod::lemma_div_by_self(1);
            assert((FX_ONE as int) / 1 == FX_ONE) by {
                vstd::arithmetic::div_mod::lemma_div_basics(FX_ONE as int);
            }
        }
    }
}

/// Square prefix sums at the quarter index: the terms alternate
/// `+1/k, -1/k` over the odd harmonics (a Leibniz tail), so after the
/// first pair the sum never falls below `1 - 1/3`.
proof fn lemma_square_prefix_at_quarter(num: int, i: int, n: int, j: int)
    requires
        2 <= num <= PARTIALS_MAX,
        1 <= i,
        n == 4 * i,
        0 <= j <= num / 2,
    ensures
        j == 0 ==> raw_prefix_spec(square_partials_spec(num), j, i, n) == 0,
        j >= 1 && j % 2 == 1 ==> raw_prefix_spec(square_partials_spec(num), j, i, n) >= (
        if j == 1 {
            0int
        } else {
            43691int
        }) + (FX_ONE as int) / (2 * j - 1),
        j >= 2 && j % 2 == 0 ==> raw_prefix_spec(square_partials_spec(num), j, i, n) >= 43691,
    decreases j,
{
    let ps = square_partials_spec(num);
    if j > 0 {
        lemma_square_prefix_at_quarter(num, i, n, j - 1);
        let jj = j - 1;
        let p = ps[jj];
        let k = 2 * jj + 1;
        vstd::arithmetic::div_mod::lemma_fundamental_div_mod(jj, 2);
        vstd::arithmetic::div_mod::lemma_div_pos_is_pos(FX_ONE as int, k);
        lemma_quarter_term(p, i, n);
        if jj % 2 == 0 {
            vstd::arithmetic::div_mod::lemma_fundamental_div_mod_converse(k, 4, jj / 2, 1);
            vstd::arithmetic::div_mod::lemma_fundamental_div_mod_converse(j, 2, jj / 2, 1);
            assert(partial_term_spec(p, i, n) == (FX_ONE as int) / k);
            if jj == 0 {
                assert((FX_ONE as int) / 1 == FX_ONE) by {
                    vstd::arithmetic::div_mod::lemma_div_basics(FX_ONE as int);
                }
            }
        } else {
            vstd::arithmetic::div_mod::lemma_fundamental_div_mod_converse(k, 4, jj / 2, 3);
            vstd::arithmetic::div_mod::lemma_fundamental_div_mod_converse(j, 2, jj / 2 + 1, 0);
            assert(partial_term_spec(p, i, n) == -((FX_ONE as int) / k));
            // The positive term one step back dominates this negative one.
            vstd::arithmetic::div_mod::lemma_div_is_ordered_by_denominator(
                FX_ONE as int,
                2 * jj - 1,
                k,
            );
            if jj == 1 {
                assert((FX_ONE as int) / 1 == FX_ONE) by {
                    vstd::arithmetic::div_mod::lemma_div_basics(FX_ONE as int);
                }
                assert((FX_ONE as int) / 3 == 21845);
            }
        }
    }
}

/// Sawtooth prefix sums at the quarter index: even harmonics contribute
/// nothing there and the odd ones form the same Leibniz tail as the square,
/// so after the first pair the sum never falls below `1 - 1/3`.
proof fn lemma_sawtooth_prefix_at_quarter(num: int, i: int, n: int, j: int)
    requires
        2 <= num <= PARTIALS_MAX,
        1 <= i,
        n == 4 * i,
        0 <= j <= num - 1,
    ensures
        j == 0 ==> raw_prefix_spec(sawtooth_partials_spec(num), j, i, n) == 0,
        j % 4 == 1 ==> raw_prefix_spec(sawtooth_partials_spec(num), j, i, n) >= (
        if j == 1 {
            0int
        } else {
            43691int
        }) + (FX_ONE as int) / j,
        j >= 2 && j % 4 == 2 ==> raw_prefix_spec(sawtooth_partials_spec(num), j, i, n) >= (
        if j == 2 {
            0int
        } else {
            43691int
        }) + (FX_ONE as int) / (j - 1),
        j % 4 == 3 ==> raw_prefix_spec(sawtooth_partials_spec(num), j, i, n) >= 43691,
        j >= 4 && j % 4 == 0 ==> raw_prefix_spec(sawtooth_partials_spec(num), j, i, n) >= 43691,
    decreases j,
{
    let ps = sawtooth_partials_spec(num);
    if j > 0 {
        lemma_sawtooth_prefix_at_quarter(num, i, n, j - 1);
        let jj = j - 1;
        let p = ps[jj];
        let k = jj + 1;
        vstd::arithmetic::div_mod::lemma_fundamental_div_mod(k, 4);
        vstd::arithmetic::div_mod::lemma_fundamental_div_mod(k, 2);
        vstd::arithmetic::div_mod::lemma_fundamental_div_mod(j, 4);
        vstd::arithmetic::div_mod::lemma_mod_bound(j, 4);
        vstd::arithmetic::div_mod::lemma_mod_bound(k, 4);
        vstd::arithmetic::div_mod::lemma_div_pos_is_pos(FX_ONE as int, k);
        lemma_quarter_term(p, i, n);
        assert(k == j);
        // The residue of j - 1 follows from the residue of j.
        if j % 4 == 0 {
            vstd::arithmetic::div_mod::lemma_fundamental_div_mod_converse(j - 1, 4, j / 4 - 1, 3);
        } else {
            vstd::arithmetic::div_mod::lemma_fundamental_div_mod_converse(
                j - 1,
                4,
                j / 4,
                j % 4 - 1,
            );
        }
        if j == 1 || j == 3 {
            assert((FX_ONE as int) / 1 == FX_ONE) by {
                vstd::arithmetic::div_mod::lemma_div_basics(FX_ONE as int);
            }
        }
        if j == 3 {
            assert((FX_ONE as int) / 3 == 21845);
        }
        // Tie k's residues mod 4 and mod 2 together.
        assert((k % 4 == 1 || k % 4 == 3) ==> k % 2 == 1) by {
            if k % 4 == 1 {
                vstd::arithmetic::div_mod::lemma_fundamental_div_mod_converse(
                    k,
                    2,
                    2 * (k / 4),
                    1,
                );
            }
            if k % 4 == 3 {
                vstd::arithmetic::div_mod::lemma_fundamental_div_mod_converse(
                    k,
                    2,
                    2 * (k / 4) + 1,
                    1,
                );
            }
        }
        assert((k % 4 == 0 || k % 4 == 2) ==> k % 2 == 0) by {
            if k % 4 == 0 {
                vstd::arithmetic::div_mod::lemma_fundamental_div_mod_converse(
                    k,
                    2,
                    2 * (k / 4),
                    0,
                );
            }
            if k % 4 == 2 {
                vstd::arithmetic::div_mod::lemma_fundamental_div_mod_converse(
                    k,
                    2,
                    2 * (k / 4) + 1,
                    0,
                );
            }
        }
        if k % 4 == 3 {
            // The positive term two steps back dominates this negative one.
            vstd::arithmetic::div_mod::lemma_div_is_ordered_by_denominator(
                FX_ONE as int,
                j - 2,
                j,
            );
        }
    }
}

/// When the table length is divisible by four and the recipe holds at least
/// the fundamental, each of the three rich recipes has a positive raw peak.
pub proof fn lemma_rich_recipe_peak_positive(num: int, n: int)
    requires
        2 <= num <= PARTIALS_MAX,
        4 <= n <= TABLE_LEN_MAX,
        n % 4 == 0,
    ensures
        peak_spec(triangle_partials_spec(num), n) >= FX_ONE,
        peak_spec(square_partials_spec(num), n) >= 43691,
        peak_spec(sawtooth_partials_spec(num), n) >= 43691,
{
    let i = n / 4;
    vstd::arithmetic::div_mod::lemma_fundamental_div_mod(n, 4);
    assert(1 <= i < n) by (nonlinear_arith)
        requires
            n == 4 * i,
            n >= 4,
    ;
    let m = num / 2;
    vstd::arithmetic::div_mod::lemma_fundamental_div_mod(num, 2);
    assert(m >= 1);
    lemma_triangle_prefix_at_quarter(num, i, n, m);
    lemma_peak_prefix_covers(triangle_partials_spec(num), i, n, n);
    lemma_square_prefix_at_quarter(num, i, n, m);
    assert(raw_sample_spec(square_partials_spec(num), i, n) >= 43691) by {
        vstd::arithmetic::div_mod::lemma_div_pos_is_pos(FX_ONE as int, 2 * m - 1);
    }
    lemma_peak_prefix_covers(square_partials_spec(num), i, n, n);
    lemma_sawtooth_prefix_at_quarter(num, i, n, num - 1);
    assert(raw_sample_spec(sawtooth_partials_spec(num), i, n) >= 43691) by {
        vstd::arithmetic::div_mod::lemma_fundamental_div_mod(num - 1, 4);
        vstd::arithmetic::div_mod::lemma_mod_bound(num - 1, 4);
        if (num - 1) % 4 == 1 {
            vstd::arithmetic::div_mod::lemma_div_pos_is_pos(FX_ONE as int, num - 1);
            if num - 1 == 1 {
                assert((FX_ONE as int) / 1 == FX_ONE);
            }
        }
        if (num - 1) % 4 == 2 {
            vstd::arithmetic::div_mod::lemma_div_pos_is_pos(FX_ONE as int, num - 2);
            if num - 1 == 2 {
                assert((FX_ONE as int) / 1 == FX_ONE);
            }
        }
    }
    lemma_peak_prefix_covers(sawtooth_partials_spec(num), i, n, n);
}

/// Build the four standard oscillator tables: sine, triangle, square and
/// sawtooth, in that order, each normalized to unit peak.
pub fn make_sin_saw_table(table_size: usize, num_partials: usize) -> (tables: Vec<Vec<i64>>)
    requires
        1 <= table_size <= TABLE_LEN_MAX,
        num_partials <= PARTIALS_MAX,
    ensures
        tables@.len() == 4,
        forall|k: int| 0 <= k < 4 ==> (#[trigger] tables@[k])@.len() == table_size,
        forall|k: int|
            0 <= k < 4 ==> table_bounded((#[trigger] tables@[k])@, FX_ONE as int),
        forall|i: int|
            0 <= i < table_size ==> (tables@[0])@[i] == norm_spec(
                raw_sample_spec(sine_partials_spec(), i, table_size as int),
                peak_spec(sine_partials_spec(), table_size as int),
            ),
        forall|i: int|
            0 <= i < table_size ==> (tables@[1])@[i] == norm_spec(
                raw_sample_spec(triangle_partials_spec(num_partials as int), i, table_size as int),
                peak_spec(triangle_partials_spec(num_partials as int), table_size as int),
            ),
        forall|i: int|
            0 <= i < table_size ==> (tables@[2])@[i] == norm_spec(
                raw_sample_spec(square_partials_spec(num_partials as int), i, table_size as int),
                peak_spec(square_partials_spec(num_partials as int), table_size as int),
            ),
        forall|i: int|
            0 <= i < table_size ==> (tables@[3])@[i] == norm_spec(
                raw_sample_spec(sawtooth_partials_spec(num_partials as int), i, table_size as int),
                peak_spec(sawtooth_partials_spec(num_partials as int), table_size as int),
            ),
        forall|k: int|
            0 <= k < 4 && wavetable_recipe_peak(k, num_partials as int, table_size as int) > 0
                ==> has_unit_peak((#[trigger] tables@[k])@),
        table_size % 4 == 0 ==> has_unit_peak((tables@[0])@),
        table_size % 4 == 0 && num_partials >= 2 ==> has_unit_peak((tables@[1])@)
            && has_unit_peak((tables@[2])@) && has_unit_peak((tables@[3])@),
{
    let mut sine_set: Vec<Partial> = Vec::new();
    sine_set.push(Partial { freq: 1, amp: FX_ONE, phase: 0 });
    proof {
        assert(sine_set@ =~= sine_partials_spec());
    }
    let mut partial_sets: Vec<Vec<Partial>> = Vec::new();
    partial_sets.push(sine_set);
    partial_sets.push(make_triangle_partials(num_partials));
    partial_sets.push(make_square_partials(num_partials));
    partial_sets.push(make_sawtooth_partials(num_partials));
    let tables: Vec<Vec<i64>> = make_wavetable(table_size, &partial_sets);
    proof {
        let n = table_size as int;
        let m = num_partials as int;
        assert(partial_sets@[0]@ == sine_partials_spec());
        assert(partial_sets@[1]@ == triangle_partials_spec(m));
        assert(partial_sets@[2]@ == square_partials_spec(m));
        assert(partial_sets@[3]@ == sawtooth_partials_spec(m));
        assert forall|k: int|
            0 <= k < 4 && wavetable_recipe_peak(k, m, n) > 0 implies has_unit_peak(
            (#[trigger] tables@[k])@,
        ) by {
            assert(peak_spec(partial_sets@[k]@, n) == wavetable_recipe_peak(k, m, n));
        }
        if table_size % 4 == 0 {
            lemma_sine_recipe_peak_reaches_one(n);
            assert(wavetable_recipe_peak(0, m, n) > 0);
            assert(has_unit_peak((tables@[0])@));
            if num_partials >= 2 {
                lemma_rich_recipe_peak_positive(m, n);
                assert(wavetable_recipe_peak(1, m, n) > 0);
                assert(wavetable_recipe_peak(2, m, n) > 0);
                assert(wavetable_recipe_peak(3, m, n) > 0);
            }
        }
    }
    tables
}

/// The raw peak of the `k`-th recipe of the standard bank.
pub open spec fn wavetable_recipe_peak(k: int, num_partials: int, n: int) -> int {
    if k == 0 {
        peak_spec(sine_partials_spec(), n)
    } else if k == 1 {
        peak_spec(triangle_partials_spec(num_partials), n)
    } else if k == 2 {
        peak_spec(square_partials_spec(num_partials), n)
    } else {
        peak_spec(sawtooth_partials_spec(num_partials), n)
    }
}

} // verus!
