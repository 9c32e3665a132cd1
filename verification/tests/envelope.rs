use wavetable_synth::envelope::{EnvReader, Stage};
use wavetable_synth::fixed::FX_ONE;

// 0.01 s attack, 0.5 s release, both in Q16.16 seconds.
const ATTACK: i64 = 655;
const RELEASE: i64 = 32768;
const SR: u32 = 44100;

// The corresponding per-sample increments, rounded up:
// ceil(2^32 / (44100 * seconds)).
const ATTACK_INC: i64 = 149;
const RELEASE_INC: i64 = 3;

#[test]
fn new_envelope_is_inactive() {
    let e = EnvReader::new();
    assert!(!e.is_active);
    assert_eq!(e.phase, 0);
}

#[test]
fn start_enters_attack_active_from_phase_zero() {
    let mut e = EnvReader::new();
    e.start();
    assert!(e.is_active);
    assert!(matches!(e.current_stage, Stage::Attack));
    assert_eq!(e.phase, 0);
}

#[test]
fn lifecycle_attack_release_idle() {
    let mut e = EnvReader::new();
    e.start();
    // Attack lasts exactly ceil(1 / attack_inc) increments.
    let mut attack_steps: u32 = 0;
    while matches!(e.current_stage, Stage::Attack) {
        e.increment(ATTACK, RELEASE, SR);
        attack_steps += 1;
        assert!(attack_steps < 100000);
    }
    let expected_attack = (FX_ONE + ATTACK_INC - 1) / ATTACK_INC;
    assert_eq!(attack_steps as i64, expected_attack);
    assert!(e.is_active);
    // The peak-to-release handoff holds the phase one step short of the top.
    assert_eq!(e.phase, (expected_attack - 1) * ATTACK_INC);

    // Release reaches idle after ceil(phase / release_inc) increments.
    let release_start_phase = e.phase;
    let mut release_steps: u32 = 0;
    while e.is_active {
        e.increment(ATTACK, RELEASE, SR);
        release_steps += 1;
        assert!(release_steps < 100000);
    }
    let expected_release = (release_start_phase + RELEASE_INC - 1) / RELEASE_INC;
    assert_eq!(release_steps as i64, expected_release);
    assert_eq!(e.phase, 0);

    // Idle is stable: further increments change nothing without start().
    for _ in 0..100 {
        e.increment(ATTACK, RELEASE, SR);
        assert!(!e.is_active);
        assert_eq!(e.phase, 0);
    }
}

#[test]
fn retrigger_restarts_attack_from_zero() {
    let mut e = EnvReader::new();
    e.start();
    for _ in 0..500 {
        e.increment(ATTACK, RELEASE, SR);
    }
    assert!(matches!(e.current_stage, Stage::Release));
    e.start();
    assert!(e.is_active);
    assert!(matches!(e.current_stage, Stage::Attack));
    assert_eq!(e.phase, 0);
}

#[test]
fn read_follows_the_shaping_table_without_wrap() {
    let table: Vec<i64> = vec![0, FX_ONE / 4, FX_ONE / 2, FX_ONE - 1];
    let mut e = EnvReader::new();
    e.start();
    // Phase 0.25 lands exactly on entry 1.
    e.phase = FX_ONE / 4;
    assert_eq!(e.read(&table), FX_ONE / 4);
    // A phase inside the last cell holds the final entry (no wrap).
    e.phase = FX_ONE - 100;
    assert_eq!(e.read(&table), FX_ONE - 1);
}

#[test]
fn long_release_still_reaches_idle() {
    // A 2 s release at 44100 Hz is finer than the Q16.16 increment grid:
    // the increment rounds up to 1 rather than truncating to 0, so the
    // release still terminates instead of sustaining forever.
    let release: i64 = 2 * FX_ONE;
    let mut e = EnvReader::new();
    e.start();
    let mut steps: u32 = 0;
    while e.is_active {
        e.increment(ATTACK, release, SR);
        steps += 1;
        assert!(steps < 200000);
    }
    assert_eq!(e.phase, 0);
    // One whole cycle at increment 1 bounds the release tail.
    assert!(steps <= 441 + FX_ONE as u32);
}
