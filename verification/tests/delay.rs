use wavetable_synth::delay::{CircularBuffer, SimpleDelay, ConfigError, linear_interpolate};
use wavetable_synth::fixed::FX_ONE;

#[test]
fn fifo_law_without_wraparound() {
    let mut buf = CircularBuffer::new(8);
    for s in 1..=5i64 {
        buf.write(s);
    }
    // Lag L returns the sample written L writes ago.
    assert_eq!(buf.read(1), 5);
    assert_eq!(buf.read(2), 4);
    assert_eq!(buf.read(5), 1);
    // Lag beyond what was written sees the zero fill.
    assert_eq!(buf.read(6), 0);
}

#[test]
fn fifo_law_with_wraparound() {
    let mut buf = CircularBuffer::new(8);
    for s in 1..=10i64 {
        buf.write(s);
    }
    assert_eq!(buf.read(1), 10);
    assert_eq!(buf.read(8), 3);
}

#[test]
fn read_at_full_capacity_lag() {
    let mut buf = CircularBuffer::new(4);
    for s in [7, 8, 9, 10i64] {
        buf.write(s);
    }
    assert_eq!(buf.read(4), 7);
}

#[test]
fn try_read_rejects_lag_beyond_capacity() {
    let mut buf = CircularBuffer::new(4);
    buf.write(42);
    assert_eq!(buf.try_read(5), Err(ConfigError::InvalidDelayLength));
    assert_eq!(buf.try_read(1), Ok(42));
}

#[test]
fn fractional_lag_blends_two_whole_lags() {
    let mut buf = CircularBuffer::new(8);
    buf.write(0);
    buf.write(FX_ONE);
    // Lag 1.5: halfway between the last write (lag 1) and the one before.
    let lag: i64 = FX_ONE + FX_ONE / 2;
    assert_eq!(linear_interpolate(&buf, &lag), FX_ONE / 2);
}

#[test]
fn delay_reads_before_it_writes_feedback() {
    // Sample rate 65536 and 3 (Q16.16) seconds make the lag exactly three
    // whole samples, so the echo surfaces on the fourth tick.
    let sr: u32 = 65536;
    let seconds: i64 = 3;
    let feedback: i64 = FX_ONE / 2;
    let mut delay = SimpleDelay::new(1024);
    let mut outputs: Vec<i64> = Vec::new();
    outputs.push(delay.tick(FX_ONE, seconds, feedback, sr));
    for _ in 0..7 {
        outputs.push(delay.tick(0, seconds, feedback, sr));
    }
    // The impulse comes back after the lag, then again scaled by feedback.
    assert_eq!(outputs[0], 0);
    assert_eq!(outputs[1], 0);
    assert_eq!(outputs[2], 0);
    assert_eq!(outputs[3], FX_ONE);
    assert_eq!(outputs[4], 0);
    assert_eq!(outputs[5], 0);
    assert_eq!(outputs[6], FX_ONE / 2);
    assert_eq!(outputs[7], 0);
}
