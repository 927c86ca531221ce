//! Live monitor ring buffer checks: warm-up pre-fill, FIFO order,
//! overflow and underrun reporting.

use looper_core::monitor::{latency_sample_count, Monitor};

#[test]
fn warmup_pops_return_silence() {
    let mut m = Monitor::new(4);
    for _ in 0..4 {
        let (s, dry) = m.pop_sample();
        assert_eq!(s, 0);
        assert!(!dry);
    }
    // the pre-fill is exhausted: the next pop reports the underrun.
    let (s, dry) = m.pop_sample();
    assert_eq!(s, 0);
    assert!(dry);
}

#[test]
fn ring_is_fifo_through_the_prefill() {
    let mut m = Monitor::new(1);
    assert!(!m.push_sample(7));
    let (first, _) = m.pop_sample();
    let (second, _) = m.pop_sample();
    assert_eq!(first, 0); // the latency window of silence
    assert_eq!(second, 7); // then the pushed sample
}

#[test]
fn overflow_drops_excess_and_reports() {
    let mut m = Monitor::new(2); // capacity 4, pre-filled with 2 zeros
    assert!(!m.push_sample(10));
    assert!(!m.push_sample(11)); // ring now full
    assert!(m.push_sample(12)); // dropped, consumer fell behind
    // state is intact: exactly the first four samples, in order.
    let expect = [0, 0, 10, 11];
    for v in expect {
        let (s, dry) = m.pop_sample();
        assert_eq!(s, v);
        assert!(!dry);
    }
    let (_, dry) = m.pop_sample();
    assert!(dry);
}

#[test]
fn feed_input_reports_fell_behind_only_on_overflow() {
    let mut m = Monitor::new(2); // room for 2 more samples
    assert!(!m.feed_input(&vec![5, 6]));
    assert!(m.feed_input(&vec![7]));
}

#[test]
fn drain_output_fills_with_silence_when_dry() {
    let mut m = Monitor::new(1); // one zero pre-filled
    m.push_sample(9);
    let (out, fell) = m.drain_output(4);
    assert_eq!(out, vec![0, 9, 0, 0]);
    assert!(fell);
    let (out2, fell2) = m.drain_output(0);
    assert_eq!(out2, vec![]);
    assert!(!fell2);
}

#[test]
fn latency_window_in_samples() {
    // 30 ms at 1000 Hz on 2 channels: 30 frames, 60 samples.
    assert_eq!(latency_sample_count(30, 1000, 2), 60);
    // the frame count is rounded down before the channel factor.
    assert_eq!(latency_sample_count(30, 44100, 2), 2646);
}
