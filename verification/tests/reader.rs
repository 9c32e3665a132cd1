use wavetable_synth::fixed::FX_ONE;
use wavetable_synth::reader::{EnvReader, Stage};

#[test]
fn setters_fix_the_increment_from_the_current_rate() {
    let mut e = EnvReader::new(1024, 44100);
    assert!(!e.active);
    assert_eq!(e.attack_wt_increment, 0);
    // 0.1 s attack: ceil(1024 * 2^32 / (44100 * 6554)) entries per sample.
    e.set_attack(6554);
    assert_eq!(e.attack_wt_increment, 15217);
    e.set_release(32768);
    assert_eq!(e.release_wt_increment, 3044);
}

#[test]
fn update_sample_rate_takes_effect_at_the_next_setter() {
    let mut e = EnvReader::new(1024, 44100);
    e.set_attack(6554);
    let stale = e.attack_wt_increment;
    e.update_sample_rate(22050);
    // The stored increment is untouched until a setter recomputes it.
    assert_eq!(e.attack_wt_increment, stale);
    e.set_attack(6554);
    assert_eq!(e.attack_wt_increment, 30434);
}

#[test]
fn position_walks_up_the_table_then_back_to_idle() {
    let mut e = EnvReader::new(1024, 44100);
    e.set_attack(6554);
    e.set_release(6554);
    e.start();
    assert!(matches!(e.current_stage, Stage::Attack));
    let mut attack_steps: i64 = 0;
    while matches!(e.current_stage, Stage::Attack) {
        e.increment();
        attack_steps += 1;
        assert!(attack_steps < 100000);
    }
    let top: i64 = 1024 * FX_ONE;
    assert_eq!(attack_steps, (top + 15217 - 1) / 15217);
    assert!(e.active);
    let mut release_steps: i64 = 0;
    while e.active {
        e.increment();
        release_steps += 1;
        assert!(release_steps < 100000);
    }
    assert_eq!(e.wt_position, 0);
}

#[test]
fn read_indexes_the_table_by_whole_entries() {
    let table: Vec<i64> = (0..8).map(|i| i * 100).collect();
    let mut e = EnvReader::new(8, 44100);
    e.wt_position = 3 * FX_ONE + FX_ONE / 2;
    assert_eq!(e.read(&table), 300);
    e.wt_position = 0;
    assert_eq!(e.read(&table), 0);
}
