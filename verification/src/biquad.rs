//! Direct-form biquad resonant filter.  Coefficients are designed from
//! (cutoff, Q, sample rate) and recomputed only when one of those changes.
//! One observed formulation of this filter subtracts the `a2` coefficient
//! from the `y[z-2]` term where the design calls for `b2`; both readings are
//! kept selectable until one is validated against a reference response.

use vstd::prelude::*;
use crate::fixed::{
    FX_ONE,
    FX_QUARTER,
    FX_HALF,
    SAMPLE_MAX,
    SR_MAX,
    FREQ_MAX,
    fx_abs,
    fx_mul_spec,
    fx_mul,
    sat_spec,
    sat,
    div_trunc_spec,
    div_trunc,
    sine_spec,
    sine_fx,
    lemma_sine_range,
    lemma_fx_mul_le_one,
    lemma_fx_mul_bound,
};
use crate::svf::{Q_MIN, Q_CAP};

verus! {

/// Which coefficient multiplies the `y[z-2]` feedback term.
#[derive(Clone, Copy, PartialEq, Eq, Structural)]
pub enum BiquadVariant {
    /// Subtract `a2 * y[z-2]`, as in the observed formulation.
    SubtractA2,
    /// Subtract `b2 * y[z-2]`, as in the textbook design.
    SubtractB2,
}

/// Cached design inputs.
pub struct Memo {
    pub sample_rate: u32,
    pub freq: i64,
    pub q: i64,
}

/// Direct-form biquad with cached coefficients
/// `[a0, a1, a2, b1, b2]` and registers `[x[z-1], x[z-2], y[z-1], y[z-2]]`.
pub struct Biquad {
    pub coeffs: Vec<i64>,
    pub buffer: Vec<i64>,
    pub memo: Memo,
    pub variant: BiquadVariant,
}

/// The angle of the design frequency, in turns: `freq / rate`, clamped
/// below half a turn (the Nyquist frequency).
pub open spec fn bq_angle_spec(fc: int, sr: int) -> int {
    let x = fc / sr;
    if x > FX_HALF - 256 {
        (FX_HALF - 256) as int
    } else {
        x
    }
}

/// Damping `d = 1 / Q`, with Q clamped into `[Q_MIN, Q_CAP]`.
pub open spec fn bq_d_spec(q: int) -> int {
    let qc = if q < Q_MIN {
        Q_MIN as int
    } else if q > Q_CAP {
        Q_CAP as int
    } else {
        q
    };
    ((FX_ONE * FX_ONE) as int) / qc
}

/// `beta = (1 - (d/2) sin(theta)) / (2 (1 + (d/2) sin(theta)))`.
pub open spec fn bq_beta_spec(fc: int, q: int, sr: int) -> int {
    let s = sine_spec(bq_angle_spec(fc, sr));
    let half_d = bq_d_spec(q) / 2;
    let num = FX_ONE - fx_mul_spec(half_d, s);
    let den = FX_ONE + fx_mul_spec(half_d, s);
    div_trunc_spec(num * FX_ONE, 2 * den)
}

/// `gamma = (1/2 + beta) cos(theta)`.
pub open spec fn bq_gamma_spec(fc: int, q: int, sr: int) -> int {
    let c = sine_spec(bq_angle_spec(fc, sr) + FX_QUARTER);
    fx_mul_spec(FX_ONE / 2 + bq_beta_spec(fc, q, sr), c)
}

/// `alpha = (1/2 + beta - gamma) / 2`.
pub open spec fn bq_alpha_spec(fc: int, q: int, sr: int) -> int {
    div_trunc_spec(FX_ONE / 2 + bq_beta_spec(fc, q, sr) - bq_gamma_spec(fc, q, sr), 2)
}

/// The five coefficients `[a0, a1, a2, b1, b2]` for the given design.
pub open spec fn bq_coeffs_spec(fc: int, q: int, sr: int) -> Seq<int> {
    let alpha = bq_alpha_spec(fc, q, sr);
    let beta = bq_beta_spec(fc, q, sr);
    let gamma = bq_gamma_spec(fc, q, sr);
    seq![alpha, 2 * alpha, alpha, -2 * gamma, 2 * beta]
}

/// One filter step: the direct-form output over the four registers, with
/// the `y[z-2]` coefficient chosen by the variant, saturated.
pub open spec fn bq_output_spec(
    cs: Seq<int>,
    xz1: int,
    xz2: int,
    yz1: int,
    yz2: int,
    input: int,
    variant: BiquadVariant,
) -> int {
    let yz2_coeff = if variant is SubtractA2 {
        cs[2]
    } else {
        cs[4]
    };
    sat_spec(
        fx_mul_spec(cs[0], input) + fx_mul_spec(cs[1], xz1) + fx_mul_spec(cs[2], xz2) - fx_mul_spec(
            cs[3],
            yz1,
        ) - fx_mul_spec(yz2_coeff, yz2),
    )
}

/// Every designed coefficient is small.
pub proof fn lemma_bq_coeff_bounds(fc: int, q: int, sr: int)
    requires
        0 <= fc,
        1 <= sr,
    ensures
        0 <= bq_angle_spec(fc, sr) <= FX_HALF - 256,
        0 <= bq_d_spec(q) <= 1048576,
        fx_abs(bq_beta_spec(fc, q, sr)) <= 262144,
        fx_abs(bq_gamma_spec(fc, q, sr)) <= 294912,
        fx_abs(bq_alpha_spec(fc, q, sr)) <= 294912,
        forall|i: int| 0 <= i < 5 ==> fx_abs(#[trigger] bq_coeffs_spec(fc, q, sr)[i]) <= 589824,
{
    let x = bq_angle_spec(fc, sr);
    assert(0 <= x <= FX_HALF - 256) by {
        vstd::arithmetic::div_mod::lemma_div_pos_is_pos(fc, sr);
    }
    lemma_sine_range(x);
    lemma_sine_range(x + FX_QUARTER);
    let s = sine_spec(x);
    crate::fixed::lemma_sine_half_range(x);
    assert(0 <= s <= FX_ONE);
    let qc = if q < Q_MIN {
        Q_MIN as int
    } else if q > Q_CAP {
        Q_CAP as int
    } else {
        q
    };
    assert(0 <= bq_d_spec(q) <= 1048576) by {
        vstd::arithmetic::div_mod::lemma_div_pos_is_pos((FX_ONE * FX_ONE) as int, qc);
        vstd::arithmetic::div_mod::lemma_div_is_ordered_by_denominator(
            (FX_ONE * FX_ONE) as int,
            Q_MIN as int,
            qc,
        );
    }
    let half_d = bq_d_spec(q) / 2;
    let t = fx_mul_spec(half_d, s);
    assert(0 <= t <= half_d) by {
        lemma_fx_mul_le_one(half_d, s);
        assert(fx_mul_spec(half_d, s) >= 0) by (nonlinear_arith)
            requires
                0 <= half_d,
                0 <= s,
        ;
    }
    let num = FX_ONE - t;
    let den = FX_ONE + t;
    let beta = bq_beta_spec(fc, q, sr);
    assert(fx_abs(beta) <= 262144) by {
        let m = fx_abs(num) * (FX_ONE as int);
        assert(m == fx_abs(num * FX_ONE)) by (nonlinear_arith)
            requires
                m == fx_abs(num) * (FX_ONE as int),
        ;
        vstd::arithmetic::div_mod::lemma_div_pos_is_pos(m, 2 * den);
        assert(fx_abs(beta) == m / (2 * den)) by {
            if num >= 0 {
                vstd::arithmetic::div_mod::lemma_div_pos_is_pos(num * FX_ONE, 2 * den);
            } else {
                vstd::arithmetic::div_mod::lemma_div_pos_is_pos(-(num * FX_ONE), 2 * den);
                assert(-(num * FX_ONE) == m) by (nonlinear_arith)
                    requires
                        num < 0,
                        m == fx_abs(num) * (FX_ONE as int),
                ;
            }
        }
        vstd::arithmetic::div_mod::lemma_div_is_ordered_by_denominator(m, 2 * FX_ONE, 2 * den);
        assert(m / (2 * FX_ONE) == fx_abs(num) / 2) by {
            vstd::arithmetic::div_mod::lemma_div_denominator(m, FX_ONE as int, 2);
            assert((FX_ONE as int) * 2 == 2 * FX_ONE);
            assert(m / (FX_ONE as int) == fx_abs(num)) by {
                vstd::arithmetic::div_mod::lemma_div_multiples_vanish(
                    fx_abs(num),
                    FX_ONE as int,
                );
                assert((FX_ONE as int) * fx_abs(num) == m) by (nonlinear_arith)
                    requires
                        m == fx_abs(num) * (FX_ONE as int),
                ;
            }
        }
    }
    let c = sine_spec(x + FX_QUARTER);
    assert(fx_abs(bq_gamma_spec(fc, q, sr)) <= 294912) by {
        lemma_fx_mul_le_one(FX_ONE / 2 + beta, c);
    }
}

/// Well-formed filter: five coefficients coherent with the cached design,
/// four registers in range.
pub open spec fn bq_wf(f: Biquad) -> bool {
    &&& f.coeffs@.len() == 5
    &&& f.buffer@.len() == 4
    &&& forall|i: int| 0 <= i < 4 ==> fx_abs(#[trigger] f.buffer@[i] as int) <= SAMPLE_MAX
    &&& 0 <= f.memo.freq <= FREQ_MAX
    &&& 0 <= f.memo.q <= FREQ_MAX
    &&& 1 <= f.memo.sample_rate <= SR_MAX
    &&& forall|i: int|
        0 <= i < 5 ==> #[trigger] f.coeffs@[i] as int == bq_coeffs_spec(
            f.memo.freq as int,
            f.memo.q as int,
            f.memo.sample_rate as int,
        )[i]
}

impl Biquad {
    /// A quiet filter designed for a 500 Hz cutoff at resonance 100 (the
    /// design clamps resonance into its accepted range), using the observed
    /// `a2` feedback variant.
    pub fn new(sr: u32) -> (f: Biquad)
        requires
            1 <= sr <= SR_MAX,
        ensures
            bq_wf(f),
            forall|i: int| 0 <= i < 4 ==> f.buffer@[i] == 0,
            f.memo.freq == 500 * FX_ONE,
            f.memo.q == 100 * FX_ONE,
            f.memo.sample_rate == sr,
            f.variant is SubtractA2,
    {
        let mut buffer: Vec<i64> = Vec::new();
        buffer.push(0);
        buffer.push(0);
        buffer.push(0);
        buffer.push(0);
        let mut coeffs: Vec<i64> = Vec::new();
        coeffs.push(0);
        coeffs.push(0);
        coeffs.push(0);
        coeffs.push(0);
        coeffs.push(0);
        let mut f = Biquad {
            coeffs,
            buffer,
            memo: Memo { sample_rate: sr, freq: 500 * FX_ONE, q: 100 * FX_ONE },
            variant: BiquadVariant::SubtractA2,
        };
        f.calculate_coeffs(500 * FX_ONE, 100 * FX_ONE, sr);
        f
    }

    /// Choose which coefficient feeds back from `y[z-2]`.
    pub fn set_variant(&mut self, variant: BiquadVariant)
        requires
            bq_wf(*old(self)),
        ensures
            bq_wf(*final(self)),
            *final(self) == (Biquad { variant, ..*old(self) }),
    {
        self.variant = variant;
    }

    /// Design the coefficients for the given inputs and cache those inputs.
    pub fn calculate_coeffs(&mut self, freq: i64, q: i64, sample_rate: u32)
        requires
            old(self).coeffs@.len() == 5,
            0 <= freq <= FREQ_MAX,
            0 <= q <= FREQ_MAX,
            1 <= sample_rate <= SR_MAX,
        ensures
            final(self).buffer == old(self).buffer,
            final(self).variant == old(self).variant,
            final(self).memo.freq == freq,
            final(self).memo.q == q,
            final(self).memo.sample_rate == sample_rate,
            final(self).coeffs@.len() == 5,
            forall|i: int|
                0 <= i < 5 ==> #[trigger] final(self).coeffs@[i] as int == bq_coeffs_spec(
                    freq as int,
                    q as int,
                    sample_rate as int,
                )[i],
    {
        proof {
            lemma_bq_coeff_bounds(freq as int, q as int, sample_rate as int);
            vstd::arithmetic::div_mod::lemma_div_pos_is_pos(freq as int, sample_rate as int);
            vstd::arithmetic::div_mod::lemma_div_nonincreasing(freq as int, sample_rate as int);
        }
        let mut x: i64 = freq / (sample_rate as i64);
        if x > FX_HALF - 256 {
            x = FX_HALF - 256;
        }
        let s: i64 = sine_fx(x);
        let c: i64 = sine_fx(x + FX_QUARTER);
        let qc: i64 = if q < Q_MIN {
            Q_MIN
        } else if q > Q_CAP {
            Q_CAP
        } else {
            q
        };
        proof {
            vstd::arithmetic::div_mod::lemma_div_pos_is_pos((FX_ONE * FX_ONE) as int, qc as int);
            vstd::arithmetic::div_mod::lemma_div_is_ordered_by_denominator(
                (FX_ONE * FX_ONE) as int,
                Q_MIN as int,
                qc as int,
            );
        }
        let d: i64 = (FX_ONE * FX_ONE) / qc;
        let half_d: i64 = d / 2;
        proof {
            lemma_fx_mul_le_one(half_d as int, s as int);
            crate::fixed::lemma_sine_half_range(x as int);
            assert(fx_mul_spec(half_d as int, s as int) >= 0) by (nonlinear_arith)
                requires
                    0 <= half_d,
                    0 <= s,
            ;
        }
        let half_d_sin: i64 = fx_mul(half_d, s);
        let beta_numerator: i64 = FX_ONE - half_d_sin;
        let beta_denominator: i64 = FX_ONE + half_d_sin;
        let beta: i64 = div_trunc(beta_numerator * FX_ONE, 2 * beta_denominator);
        proof {
            assert(beta as int == bq_beta_spec(freq as int, q as int, sample_rate as int));
            crate::fixed::lemma_sine_range(x as int + FX_QUARTER);
        }
        let gamma: i64 = fx_mul(FX_ONE / 2 + beta, c);
        proof {
            assert(gamma as int == bq_gamma_spec(freq as int, q as int, sample_rate as int));
        }
        let alpha: i64 = div_trunc(FX_ONE / 2 + beta - gamma, 2);
        proof {
            assert(alpha as int == bq_alpha_spec(freq as int, q as int, sample_rate as int));
        }
        self.memo.freq = freq;
        self.memo.q = q;
        self.memo.sample_rate = sample_rate;
        self.coeffs.set(0, alpha);
        self.coeffs.set(1, 2 * alpha);
        self.coeffs.set(2, alpha);
        let b1: i64 = 0 - 2 * gamma;
        self.coeffs.set(3, b1);
        self.coeffs.set(4, 2 * beta);
    }

    /// Filter one sample, redesigning the coefficients first if any design
    /// input changed; the output is saturated and the registers shift.
    #[verifier::rlimit(40)]
    pub fn tick(&mut self, input: i64, freq: i64, q: i64, sample_rate: u32) -> (output: i64)
        requires
            bq_wf(*old(self)),
            fx_abs(input as int) <= SAMPLE_MAX,
            0 <= freq <= FREQ_MAX,
            0 <= q <= FREQ_MAX,
            1 <= sample_rate <= SR_MAX,
        ensures
            bq_wf(*final(self)),
            final(self).memo.freq == freq,
            final(self).memo.q == q,
            final(self).memo.sample_rate == sample_rate,
            final(self).variant == old(self).variant,
            output == bq_output_spec(
                bq_coeffs_spec(freq as int, q as int, sample_rate as int),
                old(self).buffer@[0] as int,
                old(self).buffer@[1] as int,
                old(self).buffer@[2] as int,
                old(self).buffer@[3] as int,
                input as int,
                old(self).variant,
            ),
            fx_abs(output as int) <= SAMPLE_MAX,
            final(self).buffer@ == seq![
                input,
                old(self).buffer@[0],
                output,
                old(self).buffer@[2],
            ],
    {
        if freq != self.memo.freq || q != self.memo.q || sample_rate != self.memo.sample_rate {
            self.calculate_coeffs(freq, q, sample_rate);
        }
        proof {
            lemma_bq_coeff_bounds(freq as int, q as int, sample_rate as int);
            lemma_fx_mul_bound(self.coeffs@[0] as int, input as int, 589824, SAMPLE_MAX as int);
            lemma_fx_mul_bound(
                self.coeffs@[1] as int,
                self.buffer@[0] as int,
                589824,
                SAMPLE_MAX as int,
            );
            lemma_fx_mul_bound(
                self.coeffs@[2] as int,
                self.buffer@[1] as int,
                589824,
                SAMPLE_MAX as int,
            );
            lemma_fx_mul_bound(
                self.coeffs@[3] as int,
                self.buffer@[2] as int,
                589824,
                SAMPLE_MAX as int,
            );
        }
        let xz1: i64 = self.buffer[0];
        let xz2: i64 = self.buffer[1];
        let yz1: i64 = self.buffer[2];
        let yz2: i64 = self.buffer[3];
        let yz2_coeff: i64 = match self.variant {
            BiquadVariant::SubtractA2 => self.coeffs[2],
            BiquadVariant::SubtractB2 => self.coeffs[4],
        };
        proof {
            lemma_fx_mul_bound(yz2_coeff as int, yz2 as int, 589824, SAMPLE_MAX as int);
        }
        let output: i64 = sat(
            fx_mul(self.coeffs[0], input) + fx_mul(self.coeffs[1], xz1) + fx_mul(
                self.coeffs[2],
                xz2,
            ) - fx_mul(self.coeffs[3], yz1) - fx_mul(yz2_coeff, yz2),
        );
        self.buffer.set(0, input);
        self.buffer.set(1, xz1);
        self.buffer.set(2, output);
        self.buffer.set(3, yz1);
        proof {
            assert(final(self).buffer@ =~= seq![input, xz1, output, yz1]);
        }
        output
    }
}

} // verus!
