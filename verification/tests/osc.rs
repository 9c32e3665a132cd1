use wavetable_synth::fixed::FX_ONE;
use wavetable_synth::osc::{OscReader, linear_interpolate};

#[test]
fn phase_accumulates_modulo_one() {
    // 441 Hz at 44100 Hz: increment 441 * 65536 / 44100 = 655.
    let freq: i64 = 441 * FX_ONE;
    let mut reader = OscReader::new();
    for _ in 0..100 {
        reader.increment(freq, 44100);
    }
    assert_eq!(reader.phase, (100 * 655) % FX_ONE);
    for _ in 0..900 {
        reader.increment(freq, 44100);
    }
    assert_eq!(reader.phase, (1000 * 655) % FX_ONE);
}

#[test]
fn increment_is_memoized_and_idempotent() {
    let mut a = OscReader::new();
    let mut b = OscReader::new();
    // Same inputs along different change histories give the same increment.
    a.increment(440 * FX_ONE, 44100);
    b.increment(880 * FX_ONE, 48000);
    b.increment(440 * FX_ONE, 44100);
    assert_eq!(a.memo.phase_inc, b.memo.phase_inc);
    assert_eq!(a.memo.phase_inc, 440 * FX_ONE / 44100);
}

#[test]
fn read_interpolates_between_table_entries() {
    let table: Vec<i64> = vec![0, FX_ONE, 0, -FX_ONE];
    let mut reader = OscReader::new();
    // Phase 0.125 lands halfway between entries 0 and 1.
    reader.phase = FX_ONE / 8;
    assert_eq!(reader.read(&table), FX_ONE / 2);
    assert_eq!(OscReader::read_linear(&reader, &table), FX_ONE / 2);
    assert_eq!(linear_interpolate(&reader, &table), FX_ONE / 2);
}

#[test]
fn read_wraps_past_the_last_entry() {
    let table: Vec<i64> = vec![0, FX_ONE, 0, -FX_ONE];
    let mut reader = OscReader::new();
    // Phase 0.875 blends the last entry with the first (periodic read).
    reader.phase = 7 * FX_ONE / 8;
    assert_eq!(reader.read(&table), -FX_ONE / 2);
}
