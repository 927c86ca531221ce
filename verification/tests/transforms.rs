//! Resampling, preview downsampling and capture conversion checks.

use looper_core::capture::{sample_from_i16, sample_from_u16, CaptureBuffer};
use looper_core::clip::AudioClip;

fn clip_of(samples: Vec<i32>, rate: u32) -> AudioClip {
    AudioClip::new(samples, rate, 0)
}

#[test]
fn resample_same_rate_is_identity() {
    let clip = clip_of(vec![3, -7, 12000, -32768, 32768], 44100);
    let out = clip.resample(44100);
    assert_eq!(out.samples, clip.samples);
    assert_eq!(out.sample_rate, 44100);
    assert_eq!(out.date, clip.date);
}

#[test]
fn resample_doubles_length_when_rate_doubles() {
    let clip = clip_of(vec![0, 32768], 100);
    let out = clip.resample(200);
    // floor(2 * 200 / 100) = 4 samples, halfway points interpolated;
    // the missing neighbour past the end counts as silence.
    assert_eq!(out.samples, vec![0, 16384, 32768, 16384]);
    assert_eq!(out.sample_rate, 200);
}

#[test]
fn resample_halves_length_when_rate_halves() {
    let clip = clip_of(vec![0, 16384, 32768, 16384], 200);
    let out = clip.resample(100);
    assert_eq!(out.samples, vec![0, 32768]);
}

#[test]
fn resample_interpolates_negative_samples() {
    let clip = clip_of(vec![-32768, 0], 100);
    let out = clip.resample(200);
    assert_eq!(out.samples, vec![-32768, -16384, 0, 0]);
}

#[test]
fn resample_single_sample_clip_is_defined() {
    // fewer than two samples: interpolation falls back to silence
    // for the missing neighbour and must not crash.
    let clip = clip_of(vec![20000], 100);
    let out = clip.resample(400);
    assert_eq!(out.samples.len(), 4);
    assert_eq!(out.samples[0], 20000);
}

#[test]
fn resample_empty_clip_is_empty() {
    let clip = clip_of(vec![], 100);
    let out = clip.resample(300);
    assert_eq!(out.samples.len(), 0);
}

#[test]
fn downsample_shorter_input_unchanged() {
    let clip = clip_of(vec![5, -5, 9], 44100);
    assert_eq!(clip.downsample(3), vec![5, -5, 9]);
    assert_eq!(clip.downsample(10), vec![5, -5, 9]);
}

#[test]
fn downsample_averages_chunks() {
    let clip = clip_of(vec![0, 1, 2, 3, 4, 5], 44100);
    // chunk size 6 / 2 = 3: means of [0,1,2] and [3,4,5].
    assert_eq!(clip.downsample(2), vec![1, 4]);
}

#[test]
fn downsample_drops_trailing_remainder() {
    let clip = clip_of(vec![0, 1, 2, 3, 4, 5, 30000], 44100);
    // chunk size 7 / 2 = 3: the seventh sample falls outside both
    // chunks and is discarded.
    assert_eq!(clip.downsample(2), vec![1, 4]);
}

#[test]
fn downsample_mean_rounds_down() {
    let clip = clip_of(vec![-3, -4], 44100);
    // (-3 + -4) / 2 rounds down to -4.
    assert_eq!(clip.downsample(1), vec![-4]);
}

#[test]
fn sample_conversions_cover_the_range() {
    assert_eq!(sample_from_i16(0), 0);
    assert_eq!(sample_from_i16(i16::MAX), 32767);
    assert_eq!(sample_from_i16(i16::MIN), -32768);
    assert_eq!(sample_from_u16(32768), 0);
    assert_eq!(sample_from_u16(0), -32768);
    assert_eq!(sample_from_u16(u16::MAX), 32767);
}

#[test]
fn capture_keeps_first_channel_only() {
    let mut buf = CaptureBuffer::new(48000);
    buf.append_frames(&vec![10, 11, 20, 21, 30, 31], 2);
    assert_eq!(buf.samples, vec![10, 20, 30]);
    // a ragged trailing frame still contributes its first channel.
    buf.append_frames(&vec![40, 41, 50], 2);
    assert_eq!(buf.samples, vec![10, 20, 30, 40, 50]);
}

#[test]
fn capture_finish_yields_clip_with_device_rate() {
    let mut buf = CaptureBuffer::new(22050);
    buf.append_frames(&vec![1, 2, 3], 1);
    let clip = buf.finish();
    assert_eq!(clip.samples, vec![1, 2, 3]);
    assert_eq!(clip.sample_rate, 22050);
    assert_eq!(clip.id, None);
}
