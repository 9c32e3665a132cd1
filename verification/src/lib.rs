//! A real-time polyphonic wavetable synthesis engine in Q16.16 fixed point.
//!
//! Every signal value (sample, phase, coefficient, control parameter) is an
//! `i64` holding a Q16.16 fixed-point number: the integer `FX_ONE` (65536)
//! stands for 1.0.  All arithmetic is integer arithmetic, so every function
//! here carries an exact contract.

pub mod biquad;
pub mod delay;
pub mod envelope;
pub mod fixed;
pub mod interpolation;
pub mod osc;
pub mod reader;
pub mod svf;
pub mod synth;
pub mod wavetable;
