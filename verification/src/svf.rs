//! State-variable filter: a second-order resonant filter built from two
//! trapezoidal integrators, producing the band-pass tap.  Coefficients are
//! designed from (cutoff, Q, sample rate) by bilinear-transform prewarping
//! (`g = tan(pi * cutoff / rate)`, computed as sine over cosine) and are
//! recomputed only when one of those inputs changes.  Taps and registers
//! saturate at `SAMPLE_MAX`, so the state is bounded for every input.

use vstd::prelude::*;
use crate::fixed::{
    FX_ONE,
    FX_QUARTER,
    FX_HALF,
    SAMPLE_MAX,
    SR_MAX,
    FREQ_MAX,
    fx_abs,
    fx_mul_spec,
    fx_mul,
    sat_spec,
    sat,
    sine_spec,
    sine_fx,
    lemma_sine_half_range,
    lemma_sine_half_pos,
    lemma_fx_mul_bound,
};

verus! {

/// Smallest resonance accepted: Q clamps here instead of reaching a division.
pub const Q_MIN: i64 = 4096;

/// Largest resonance accepted (20.0 in Q16.16).
pub const Q_CAP: i64 = 1310720;

/// Largest prewarped gain `g` (64.0 in Q16.16): the tangent is clamped here
/// as the cutoff nears the Nyquist frequency.
pub const G_MAX: i64 = 4194304;

/// Cached design inputs.
pub struct Memo {
    pub fc: i64,
    pub q: i64,
    pub sample_rate: u32,
}

/// Two-pole state-variable filter with cached coefficients.
pub struct SVF {
    pub integrator_z: Vec<i64>,
    pub alpha0: i64,
    pub alpha: i64,
    pub rho: i64,
    pub memo: Memo,
}

/// Prewarp angle in turns: `cutoff / (2 * rate)`, clamped safely below a
/// quarter turn (the Nyquist frequency).
pub open spec fn svf_angle_spec(fc: int, sr: int) -> int {
    let x = fc / (2 * sr);
    if x > FX_QUARTER - 256 {
        (FX_QUARTER - 256) as int
    } else {
        x
    }
}

/// Prewarped integrator gain `g = tan(pi * fc / sr)`, as sine over cosine,
/// clamped to `G_MAX`.
pub open spec fn svf_g_spec(fc: int, sr: int) -> int {
    let x = svf_angle_spec(fc, sr);
    let s = sine_spec(x);
    let c = sine_spec(x + FX_QUARTER);
    let g = (s * FX_ONE) / c;
    if g > G_MAX {
        G_MAX as int
    } else {
        g
    }
}

/// Damping `R = 1 / (2 Q)`, with Q clamped into `[Q_MIN, Q_CAP]`.
pub open spec fn svf_r_spec(q: int) -> int {
    let qc = if q < Q_MIN {
        Q_MIN as int
    } else if q > Q_CAP {
        Q_CAP as int
    } else {
        q
    };
    ((FX_ONE * FX_ONE) as int) / (2 * qc)
}

/// Input gain `alpha0 = 1 / (1 + 2 R g + g^2)`.
pub open spec fn svf_alpha0_spec(fc: int, q: int, sr: int) -> int {
    let g = svf_g_spec(fc, sr);
    let r = svf_r_spec(q);
    ((FX_ONE * FX_ONE) as int) / (FX_ONE + 2 * fx_mul_spec(r, g) + fx_mul_spec(g, g))
}

/// Feedback gain `rho = 2 R + g`.
pub open spec fn svf_rho_spec(fc: int, q: int, sr: int) -> int {
    2 * svf_r_spec(q) + svf_g_spec(fc, sr)
}

/// One filter step on registers `(z0, z1)`: the high-, band- and low-pass
/// taps of the two-integrator loop, each saturated, band-pass returned.
/// The result is `(new z0, new z1, output)`.
pub open spec fn svf_step_spec(
    z0: int,
    z1: int,
    alpha0: int,
    alpha: int,
    rho: int,
    input: int,
) -> (int, int, int) {
    let hpf = fx_mul_spec(alpha0, sat_spec(input - fx_mul_spec(rho, z0) - z1));
    let bpf = sat_spec(fx_mul_spec(alpha, hpf) + z0);
    let lpf = sat_spec(fx_mul_spec(alpha, bpf) + z1);
    let nz0 = sat_spec(fx_mul_spec(alpha, hpf) + bpf);
    let nz1 = sat_spec(fx_mul_spec(alpha, bpf) + lpf);
    (nz0, nz1, bpf)
}

/// The designed coefficients always lie in narrow ranges.
pub proof fn lemma_svf_coeff_bounds(fc: int, q: int, sr: int)
    requires
        0 <= fc,
        1 <= sr,
    ensures
        0 <= svf_g_spec(fc, sr) <= G_MAX,
        0 <= svf_r_spec(q) <= 524288,
        0 <= svf_alpha0_spec(fc, q, sr) <= FX_ONE,
        0 <= svf_rho_spec(fc, q, sr) <= 5242880,
{
    let x = svf_angle_spec(fc, sr);
    assert(0 <= x <= FX_QUARTER - 256) by {
        vstd::arithmetic::div_mod::lemma_div_pos_is_pos(fc, 2 * sr);
    }
    lemma_sine_half_range(x);
    lemma_sine_half_pos(x + FX_QUARTER);
    let s = sine_spec(x);
    let c = sine_spec(x + FX_QUARTER);
    assert(0 <= s <= FX_ONE && 1 <= c);
    assert(0 <= (s * FX_ONE) / c) by {
        assert(0 <= s * FX_ONE) by (nonlinear_arith)
            requires
                0 <= s,
        ;
        vstd::arithmetic::div_mod::lemma_div_pos_is_pos(s * FX_ONE, c);
    }
    let qc = if q < Q_MIN {
        Q_MIN as int
    } else if q > Q_CAP {
        Q_CAP as int
    } else {
        q
    };
    assert(0 <= svf_r_spec(q) <= 524288) by {
        vstd::arithmetic::div_mod::lemma_div_pos_is_pos((FX_ONE * FX_ONE) as int, 2 * qc);
        vstd::arithmetic::div_mod::lemma_div_is_ordered_by_denominator(
            (FX_ONE * FX_ONE) as int,
            2 * (Q_MIN as int),
            2 * qc,
        );
    }
    let g = svf_g_spec(fc, sr);
    let r = svf_r_spec(q);
    assert(0 <= fx_mul_spec(r, g) && 0 <= fx_mul_spec(g, g)) by (nonlinear_arith)
        requires
            0 <= r,
            0 <= g,
    ;
    let denom = FX_ONE + 2 * fx_mul_spec(r, g) + fx_mul_spec(g, g);
    assert(0 <= svf_alpha0_spec(fc, q, sr) <= FX_ONE) by {
        vstd::arithmetic::div_mod::lemma_div_pos_is_pos((FX_ONE * FX_ONE) as int, denom);
        vstd::arithmetic::div_mod::lemma_div_is_ordered_by_denominator(
            (FX_ONE * FX_ONE) as int,
            FX_ONE as int,
            denom,
        );
        vstd::arithmetic::div_mod::lemma_div_multiples_vanish(FX_ONE as int, FX_ONE as int);
    }
}

/// Well-formed filter: two registers in range, coefficients coherent with
/// the cached design inputs.
pub open spec fn svf_wf(f: SVF) -> bool {
    &&& f.integrator_z@.len() == 2
    &&& fx_abs(f.integrator_z@[0] as int) <= SAMPLE_MAX
    &&& fx_abs(f.integrator_z@[1] as int) <= SAMPLE_MAX
    &&& 0 <= f.memo.fc <= FREQ_MAX
    &&& 0 <= f.memo.q <= FREQ_MAX
    &&& 1 <= f.memo.sample_rate <= SR_MAX
    &&& f.alpha0 == svf_alpha0_spec(f.memo.fc as int, f.memo.q as int, f.memo.sample_rate as int)
    &&& f.alpha == svf_g_spec(f.memo.fc as int, f.memo.sample_rate as int)
    &&& f.rho == svf_rho_spec(f.memo.fc as int, f.memo.q as int, f.memo.sample_rate as int)
}

/// Compute the three coefficients for the given design inputs.
fn svf_coeffs(fc: i64, q: i64, sample_rate: u32) -> (c: (i64, i64, i64))
    requires
        0 <= fc <= FREQ_MAX,
        0 <= q <= FREQ_MAX,
        1 <= sample_rate <= SR_MAX,
    ensures
        c.0 == svf_alpha0_spec(fc as int, q as int, sample_rate as int),
        c.1 == svf_g_spec(fc as int, sample_rate as int),
        c.2 == svf_rho_spec(fc as int, q as int, sample_rate as int),
{
    proof {
        lemma_svf_coeff_bounds(fc as int, q as int, sample_rate as int);
        vstd::arithmetic::div_mod::lemma_div_pos_is_pos(fc as int, 2 * (sample_rate as int));
        vstd::arithmetic::div_mod::lemma_div_nonincreasing(fc as int, 2 * (sample_rate as int));
    }
    let mut x: i64 = fc / (2 * (sample_rate as i64));
    if x > FX_QUARTER - 256 {
        x = FX_QUARTER - 256;
    }
    proof {
        lemma_sine_half_range(x as int);
        lemma_sine_half_pos(x as int + FX_QUARTER);
        assert(sine_spec(x as int) == crate::fixed::sine_half_spec(x as int));
    }
    let s: i64 = sine_fx(x);
    let c: i64 = sine_fx(x + FX_QUARTER);
    proof {
        vstd::arithmetic::div_mod::lemma_div_pos_is_pos(s * FX_ONE, c as int);
    }
    let mut g: i64 = (s * FX_ONE) / c;
    if g > G_MAX {
        g = G_MAX;
    }
    let qc: i64 = if q < Q_MIN {
        Q_MIN
    } else if q > Q_CAP {
        Q_CAP
    } else {
        q
    };
    proof {
        vstd::arithmetic::div_mod::lemma_div_pos_is_pos((FX_ONE * FX_ONE) as int, 2 * (qc as int));
        vstd::arithmetic::div_mod::lemma_div_is_ordered_by_denominator(
            (FX_ONE * FX_ONE) as int,
            2 * (Q_MIN as int),
            2 * (qc as int),
        );
    }
    let r: i64 = (FX_ONE * FX_ONE) / (2 * qc);
    proof {
        lemma_fx_mul_bound(r as int, g as int, 524288, G_MAX as int);
        lemma_fx_mul_bound(g as int, g as int, G_MAX as int, G_MAX as int);
        assert(0 <= fx_mul_spec(r as int, g as int) && 0 <= fx_mul_spec(g as int, g as int))
            by (nonlinear_arith)
            requires
                0 <= r,
                0 <= g,
        ;
    }
    let denom: i64 = FX_ONE + 2 * fx_mul(r, g) + fx_mul(g, g);
    proof {
        vstd::arithmetic::div_mod::lemma_div_pos_is_pos((FX_ONE * FX_ONE) as int, denom as int);
        vstd::arithmetic::div_mod::lemma_div_is_ordered_by_denominator(
            (FX_ONE * FX_ONE) as int,
            FX_ONE as int,
            denom as int,
        );
        vstd::arithmetic::div_mod::lemma_div_multiples_vanish(FX_ONE as int, FX_ONE as int);
    }
    let alpha0: i64 = (FX_ONE * FX_ONE) / denom;
    let rho: i64 = 2 * r + g;
    (alpha0, g, rho)
}

impl SVF {
    /// A quiet filter designed for a 500 Hz cutoff at resonance 20.
    pub fn new(sr: u32) -> (f: SVF)
        requires
            1 <= sr <= SR_MAX,
        ensures
            svf_wf(f),
            f.integrator_z@[0] == 0,
            f.integrator_z@[1] == 0,
            f.memo.fc == 500 * FX_ONE,
            f.memo.q == 20 * FX_ONE,
            f.memo.sample_rate == sr,
    {
        let mut z: Vec<i64> = Vec::new();
        z.push(0);
        z.push(0);
        let coeffs: (i64, i64, i64) = svf_coeffs(500 * FX_ONE, 20 * FX_ONE, sr);
        SVF {
            integrator_z: z,
            alpha0: coeffs.0,
            alpha: coeffs.1,
            rho: coeffs.2,
            memo: Memo { fc: 500 * FX_ONE, q: 20 * FX_ONE, sample_rate: sr },
        }
    }

    /// Filter one sample, redesigning the coefficients first if any of the
    /// design inputs changed; returns the band-pass tap.
    pub fn process_sample(&mut self, input: i64, fc: i64, q: i64, sample_rate: u32) -> (output:
        i64)
        requires
            svf_wf(*old(self)),
            fx_abs(input as int) <= SAMPLE_MAX,
            0 <= fc <= FREQ_MAX,
            0 <= q <= FREQ_MAX,
            1 <= sample_rate <= SR_MAX,
        ensures
            svf_wf(*final(self)),
            final(self).memo.fc == fc,
            final(self).memo.q == q,
            final(self).memo.sample_rate == sample_rate,
            ({
                let step = svf_step_spec(
                    old(self).integrator_z@[0] as int,
                    old(self).integrator_z@[1] as int,
                    svf_alpha0_spec(fc as int, q as int, sample_rate as int),
                    svf_g_spec(fc as int, sample_rate as int),
                    svf_rho_spec(fc as int, q as int, sample_rate as int),
                    input as int,
                );
                &&& final(self).integrator_z@[0] == step.0
                &&& final(self).integrator_z@[1] == step.1
                &&& output == step.2
            }),
            fx_abs(output as int) <= SAMPLE_MAX,
    {
        if fc != self.memo.fc || q != self.memo.q || sample_rate != self.memo.sample_rate {
            self.memo.fc = fc;
            self.memo.q = q;
            self.memo.sample_rate = sample_rate;
            let coeffs: (i64, i64, i64) = svf_coeffs(fc, q, sample_rate);
            self.alpha0 = coeffs.0;
            self.alpha = coeffs.1;
            self.rho = coeffs.2;
        }
        proof {
            lemma_svf_coeff_bounds(fc as int, q as int, sample_rate as int);
        }
        let z0: i64 = self.integrator_z[0];
        let z1: i64 = self.integrator_z[1];
        proof {
            lemma_fx_mul_bound(self.rho as int, z0 as int, 5242880, SAMPLE_MAX as int);
        }
        let fed_back: i64 = fx_mul(self.rho, z0);
        let inner: i64 = sat(input - fed_back - z1);
        proof {
            crate::fixed::lemma_fx_mul_le_one(inner as int, self.alpha0 as int);
            lemma_fx_mul_bound(self.alpha as int, SAMPLE_MAX as int, G_MAX as int, SAMPLE_MAX as int);
        }
        let hpf: i64 = fx_mul(self.alpha0, inner);
        proof {
            lemma_fx_mul_bound(self.alpha as int, hpf as int, G_MAX as int, SAMPLE_MAX as int);
        }
        let bpf: i64 = sat(fx_mul(self.alpha, hpf) + z0);
        proof {
            lemma_fx_mul_bound(self.alpha as int, bpf as int, G_MAX as int, SAMPLE_MAX as int);
        }
        let lpf: i64 = sat(fx_mul(self.alpha, bpf) + z1);
        let nz0: i64 = sat(fx_mul(self.alpha, hpf) + bpf);
        let nz1: i64 = sat(fx_mul(self.alpha, bpf) + lpf);
        self.integrator_z.set(0, nz0);
        self.integrator_z.set(1, nz1);
        bpf
    }
}

} // verus!
