use wavetable_synth::fixed::FX_ONE;
use wavetable_synth::synth::{BasicSynth, Message, OscType};

const SR: u32 = 44100;

// A note-to-frequency table for testing: slot 69 holds 440 Hz, every other
// slot a plain 220 Hz.
fn test_freq_table() -> Vec<i64> {
    let mut table: Vec<i64> = vec![220 * FX_ONE; 128];
    table[69] = 440 * FX_ONE;
    table
}

#[test]
fn note_on_fills_the_slot_and_starts_its_envelope() {
    let mut synth = BasicSynth::new(test_freq_table());
    synth.send(Message::NoteOn(69, 127));
    assert_eq!(synth.voice_info[69].frequency, 440 * FX_ONE);
    assert_eq!(synth.voice_info[69].velocity, FX_ONE);
    assert!(synth.envelope_reader[69].is_active);
    assert!(!synth.envelope_reader[68].is_active);
    // Velocity scales linearly out of 127.
    synth.send(Message::NoteOn(60, 64));
    assert_eq!(synth.voice_info[60].velocity, 64 * FX_ONE / 127);
}

#[test]
fn control_messages_update_one_knob_with_clamping() {
    let mut synth = BasicSynth::new(test_freq_table());
    synth.send(Message::SetVolume(FX_ONE / 2));
    // The stored gain is the square of the slider value.
    assert_eq!(synth.control.volume, FX_ONE / 4);
    synth.send(Message::SetVolume(-5));
    assert_eq!(synth.control.volume, 0);
    synth.send(Message::SetOscillator(OscType::Sawtooth));
    assert_eq!(synth.control.wavetable_index, 3);
    synth.send(Message::SetEnvAttack(0));
    assert_eq!(synth.control.envelope_attack, 1);
    synth.send(Message::SetFilterQ(2 * FX_ONE));
    assert_eq!(synth.control.filter_q, 20 * FX_ONE);
    // A zero Q is clamped to a small positive epsilon at this boundary.
    synth.send(Message::SetFilterQ(0));
    assert_eq!(synth.control.filter_q, 4096);
    synth.send(Message::SetFilterFreq(FX_ONE / 2));
    assert_eq!(synth.control.filter_freq, FX_ONE / 4 * 22050);
    synth.send(Message::SetDelayFeedback(3 * FX_ONE));
    assert_eq!(synth.control.delay_feedback_amount, FX_ONE - 1);
    synth.send(Message::SetDelayWetdry(FX_ONE / 4));
    assert_eq!(synth.control.delay_wetdry, FX_ONE / 4);
    synth.send(Message::SetDelaySeconds(-1));
    assert_eq!(synth.control.delay_seconds, 1);
    synth.send(Message::SetEnvRelease(FX_ONE));
    assert_eq!(synth.control.envelope_release, FX_ONE);
}

#[test]
fn silent_engine_outputs_zero() {
    let mut synth = BasicSynth::new(test_freq_table());
    for _ in 0..1000 {
        assert_eq!(synth.tick(SR), 0);
    }
}

#[test]
fn end_to_end_note_sounds_then_dies_away() {
    let mut synth = BasicSynth::new(test_freq_table());
    // Listen to the dry path so that what is measured is the voice itself,
    // not the echoes the feedback delay keeps producing afterwards.
    synth.send(Message::SetDelayWetdry(0));
    synth.send(Message::NoteOn(69, 127));
    let mut heard_early = false;
    let mut late_peak: i64 = 0;
    for n in 0..SR {
        let out = synth.tick(SR);
        if n < 441 && out != 0 {
            heard_early = true;
        }
        // The attack (0.01 s) ends after 440 samples and the release
        // (0.5 s) about 21800 samples later: the voice is gone shortly
        // past sample 22300.
        if n >= 23000 {
            late_peak = late_peak.max(out.abs());
        }
    }
    assert!(heard_early);
    assert!(!synth.envelope_reader[69].is_active);
    // Output magnitude has fallen below one thousandth of full scale.
    assert!(late_peak < FX_ONE / 1000);
}

#[test]
fn volume_law_rms_scales_by_the_squared_slider() {
    let run = |volume: i64| -> f64 {
        let mut synth = BasicSynth::new(test_freq_table());
        synth.send(Message::SetDelayWetdry(0));
        synth.send(Message::SetVolume(volume));
        synth.send(Message::NoteOn(69, 127));
        let mut sum_squares: f64 = 0.0;
        // Measure over the sustained middle of the note.
        for n in 0..4000u32 {
            let out = synth.tick(SR) as f64 / FX_ONE as f64;
            if n >= 500 {
                sum_squares += out * out;
            }
        }
        (sum_squares / 3500.0).sqrt()
    };
    let rms_full = run(FX_ONE);
    let rms_half = run(FX_ONE / 2);
    assert!(rms_full > 0.0);
    let ratio = rms_half / rms_full;
    // SetVolume(v) stores v^2, so the RMS ratio is (1/2)^2.
    assert!((ratio - 0.25).abs() < 0.01, "ratio was {ratio}");
}

#[test]
fn oscillator_choice_changes_the_sound() {
    let render = |shape: OscType| -> Vec<i64> {
        let mut synth = BasicSynth::new(test_freq_table());
        synth.send(Message::SetDelayWetdry(0));
        synth.send(Message::SetOscillator(shape));
        synth.send(Message::NoteOn(69, 127));
        (0..500).map(|_| synth.tick(SR)).collect()
    };
    assert_ne!(render(OscType::Sine), render(OscType::Sawtooth));
}
