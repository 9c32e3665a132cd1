use wavetable_synth::biquad::{Biquad, BiquadVariant};
use wavetable_synth::fixed::{FX_ONE, SAMPLE_MAX};
use wavetable_synth::svf::SVF;

const SR: u32 = 44100;
const CUTOFF: i64 = 1000 * FX_ONE;
const Q: i64 = FX_ONE;

#[test]
fn svf_impulse_response_is_bounded_and_decays() {
    let mut filter = SVF::new(SR);
    let mut last: i64 = filter.process_sample(FX_ONE, CUTOFF, Q, SR);
    assert!(last.abs() <= SAMPLE_MAX);
    let mut tail_peak: i64 = 0;
    for n in 0..10000 {
        last = filter.process_sample(0, CUTOFF, Q, SR);
        assert!(last.abs() <= SAMPLE_MAX);
        if n >= 9000 {
            tail_peak = tail_peak.max(last.abs());
        }
    }
    // The ringing has died away: the final stretch is essentially silent.
    assert!(tail_peak <= FX_ONE / 100);
}

#[test]
fn svf_recomputes_coefficients_only_on_change() {
    let mut filter = SVF::new(SR);
    filter.process_sample(0, CUTOFF, Q, SR);
    let a0 = filter.alpha0;
    let alpha = filter.alpha;
    let rho = filter.rho;
    filter.process_sample(FX_ONE, CUTOFF, Q, SR);
    assert_eq!((filter.alpha0, filter.alpha, filter.rho), (a0, alpha, rho));
    // A different cutoff redesigns, and coming back redesigns to the same.
    filter.process_sample(0, 2000 * FX_ONE, Q, SR);
    assert_ne!(filter.alpha, alpha);
    filter.process_sample(0, CUTOFF, Q, SR);
    assert_eq!((filter.alpha0, filter.alpha, filter.rho), (a0, alpha, rho));
}

#[test]
fn svf_band_pass_passes_signal_near_cutoff() {
    let mut filter = SVF::new(SR);
    let mut energy: i64 = 0;
    // A square-ish drive near the cutoff frequency should come through.
    for n in 0..2000 {
        let x = if (n / 22) % 2 == 0 { FX_ONE } else { -FX_ONE };
        let y = filter.process_sample(x, CUTOFF, Q, SR);
        if n > 200 {
            energy = energy.max(y.abs());
        }
    }
    assert!(energy > FX_ONE / 10);
}

#[test]
fn biquad_impulse_response_is_bounded_in_both_variants() {
    for variant in [BiquadVariant::SubtractA2, BiquadVariant::SubtractB2] {
        let mut filter = Biquad::new(SR);
        filter.set_variant(variant);
        let mut out = filter.tick(FX_ONE, CUTOFF, Q, SR);
        assert!(out.abs() <= SAMPLE_MAX);
        for _ in 0..10000 {
            out = filter.tick(0, CUTOFF, Q, SR);
            assert!(out.abs() <= SAMPLE_MAX);
        }
    }
}

#[test]
fn biquad_coefficients_follow_the_direct_form_design() {
    let mut filter = Biquad::new(SR);
    filter.calculate_coeffs(CUTOFF, Q, SR);
    // a1 = 2 a0 and a2 = a0; b2 = 2 beta is stored last.
    assert_eq!(filter.coeffs[1], 2 * filter.coeffs[0]);
    assert_eq!(filter.coeffs[2], filter.coeffs[0]);
    assert_eq!(filter.coeffs.len(), 5);
}
