use wavetable_synth::fixed::FX_ONE;
use wavetable_synth::wavetable::{
    Partial, make_fourier_table_norm, make_exp_envelope, make_triangle_partials,
    make_square_partials, make_sawtooth_partials, make_sin_saw_table,
};

fn peak_magnitude(table: &[i64]) -> i64 {
    table.iter().map(|s| s.abs()).max().unwrap()
}

#[test]
fn normalization_peak_is_exactly_one() {
    let partials = vec![Partial { freq: 1, amp: 12345, phase: 0 }];
    let table = make_fourier_table_norm(1024, &partials);
    assert_eq!(table.len(), 1024);
    assert_eq!(peak_magnitude(&table), FX_ONE);
}

#[test]
fn normalization_peak_is_one_for_rich_recipes() {
    for partials in [
        make_triangle_partials(24),
        make_square_partials(24),
        make_sawtooth_partials(24),
    ] {
        let table = make_fourier_table_norm(1024, &partials);
        assert_eq!(peak_magnitude(&table), FX_ONE);
    }
}

#[test]
fn degenerate_partial_set_gives_all_zero_table() {
    let table = make_fourier_table_norm(64, &Vec::new());
    assert_eq!(table.len(), 64);
    assert!(table.iter().all(|&s| s == 0));
}

#[test]
fn sine_table_hits_quarter_cycle_values() {
    let tables = make_sin_saw_table(1024, 24);
    assert_eq!(tables.len(), 4);
    let sine = &tables[0];
    assert_eq!(sine[0], 0);
    assert_eq!(sine[256], FX_ONE);
    assert_eq!(sine[768], -FX_ONE);
}

#[test]
fn triangle_recipe_has_alternating_odd_harmonics() {
    let partials = make_triangle_partials(8);
    let expect: Vec<(u32, i64)> = vec![
        (1, FX_ONE),
        (3, -(FX_ONE / 9)),
        (5, FX_ONE / 25),
        (7, -(FX_ONE / 49)),
    ];
    assert_eq!(partials.len(), expect.len());
    for (p, (freq, amp)) in partials.iter().zip(expect) {
        assert_eq!(p.freq, freq);
        assert_eq!(p.amp, amp);
        assert_eq!(p.phase, 0);
    }
}

#[test]
fn square_recipe_has_positive_odd_harmonics() {
    let partials = make_square_partials(8);
    let expect: Vec<(u32, i64)> = vec![
        (1, FX_ONE),
        (3, FX_ONE / 3),
        (5, FX_ONE / 5),
        (7, FX_ONE / 7),
    ];
    assert_eq!(partials.len(), expect.len());
    for (p, (freq, amp)) in partials.iter().zip(expect) {
        assert_eq!(p.freq, freq);
        assert_eq!(p.amp, amp);
    }
}

#[test]
fn sawtooth_recipe_has_all_harmonics_alternating() {
    let partials = make_sawtooth_partials(5);
    let expect: Vec<(u32, i64)> = vec![
        (1, FX_ONE),
        (2, -(FX_ONE / 2)),
        (3, FX_ONE / 3),
        (4, -(FX_ONE / 4)),
    ];
    assert_eq!(partials.len(), expect.len());
    for (p, (freq, amp)) in partials.iter().zip(expect) {
        assert_eq!(p.freq, freq);
        assert_eq!(p.amp, amp);
    }
}

#[test]
fn exp_envelope_is_monotone_from_zero_and_below_one() {
    let table = make_exp_envelope(1024, 3);
    assert_eq!(table.len(), 1024);
    assert_eq!(table[0], 0);
    for w in table.windows(2) {
        assert!(w[0] <= w[1]);
    }
    assert!(table.iter().all(|&s| 0 <= s && s < FX_ONE));
    // The midpoint of a cubic curve: (1/2)^3 = 1/8, exactly in Q16.16.
    assert_eq!(table[512], FX_ONE / 8);
}
