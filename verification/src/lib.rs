//! Core engine of a looper-and-metronome application.
//!
//! Audio samples are held as fixed-point integers: a sample value `v`
//! stands for the amplitude `v / 32768`, so the normalized range
//! [-1.0, 1.0] maps to [-32768, 32768]. All transforms (resampling,
//! preview downsampling) are pure and return new buffers. Device and
//! file I/O live outside this crate and exchange plain values with it:
//! the real-time callbacks hand their interleaved sample slices to the
//! capture, monitor and playback state machines defined here.

pub mod capture;
pub mod clip;
pub mod monitor;
pub mod playback;
pub mod resample;
pub mod ring;
pub mod session;
