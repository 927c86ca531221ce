//! Session orchestrator, playback engine and metronome checks.

use looper_core::clip::AudioClip;
use looper_core::playback::{PlaybackBatch, PlaybackSession};
use looper_core::session::App;

fn clip_of(samples: Vec<i32>, rate: u32) -> AudioClip {
    AudioClip::new(samples, rate, 0)
}

#[test]
fn remove_out_of_range_is_a_noop() {
    let mut app = App::new(120);
    app.add_clip(clip_of(vec![1], 100));
    app.add_clip(clip_of(vec![2], 100));
    assert!(app.remove_clip(2).is_none());
    assert!(app.remove_clip(usize::MAX).is_none());
    assert_eq!(app.audio_clips.len(), 2);
    assert_eq!(app.audio_clips[0].samples, vec![1]);
    assert_eq!(app.audio_clips[1].samples, vec![2]);
}

#[test]
fn remove_in_range_returns_the_clip() {
    let mut app = App::new(120);
    app.add_clip(clip_of(vec![1], 100));
    app.add_clip(clip_of(vec![2], 100));
    app.add_clip(clip_of(vec![3], 100));
    let removed = app.remove_clip(1).expect("index 1 is held");
    assert_eq!(removed.samples, vec![2]);
    assert_eq!(app.audio_clips.len(), 2);
    assert_eq!(app.audio_clips[0].samples, vec![1]);
    assert_eq!(app.audio_clips[1].samples, vec![3]);
}

#[test]
fn play_clips_opens_one_session_per_clip() {
    let mut app = App::new(120);
    app.add_clip(clip_of(vec![1, 2, 3], 100)); // L1 = 3
    app.add_clip(clip_of(vec![4, 5, 6, 7, 8], 100)); // L2 = 5
    app.add_clip(clip_of(vec![9, 10], 100)); // L3 = 2
    let sessions = app.play_clips(100);
    assert_eq!(sessions.len(), 3);
    let lens: Vec<usize> = sessions.iter().map(|s| s.samples.len()).collect();
    assert_eq!(lens, vec![3, 5, 2]);
    assert!(sessions.iter().all(|s| s.cursor == 0));
}

#[test]
fn batch_returns_only_after_every_playback() {
    let app = {
        let mut a = App::new(120);
        a.add_clip(clip_of(vec![1, 2, 3], 100));
        a.add_clip(clip_of(vec![4, 5, 6, 7, 8], 100));
        a.add_clip(clip_of(vec![9, 10], 100));
        a
    };
    let mut sessions = app.play_clips(100);
    let mut batch = PlaybackBatch::new(sessions.len());
    for session in sessions.iter_mut() {
        assert!(!batch.is_done());
        // drive this playback to completion, one callback at a time.
        loop {
            let (_, done) = session.fill(2, 1);
            if done {
                break;
            }
        }
        batch.complete_one();
    }
    assert!(batch.is_done());
}

#[test]
fn fill_broadcasts_and_pads_with_silence() {
    let mut session = PlaybackSession::new(&clip_of(vec![5, 6], 100), 100);
    let (out, done) = session.fill(3, 2);
    assert_eq!(out, vec![5, 5, 6, 6, 0, 0]);
    assert!(done);
    assert_eq!(session.cursor, 2);
    // past the end: silence only, completion still reported as due.
    let (out2, done2) = session.fill(2, 2);
    assert_eq!(out2, vec![0, 0, 0, 0]);
    assert!(done2);
}

#[test]
fn fill_reports_done_only_at_the_end() {
    let mut session = PlaybackSession::new(&clip_of(vec![1, 2, 3], 100), 100);
    let (out, done) = session.fill(2, 1);
    assert_eq!(out, vec![1, 2]);
    assert!(!done);
    let (out2, done2) = session.fill(2, 1);
    assert_eq!(out2, vec![3, 0]);
    assert!(done2);
}

#[test]
fn playback_resamples_to_the_device_rate() {
    let mut session = PlaybackSession::new(&clip_of(vec![0, 32768], 100), 200);
    assert_eq!(session.samples, vec![0, 16384, 32768, 16384]);
    let (out, done) = session.fill(4, 1);
    assert_eq!(out, vec![0, 16384, 32768, 16384]);
    assert!(done);
}

#[test]
fn metronome_interval_at_120_bpm_is_half_a_second() {
    let app = App::new(120);
    assert_eq!(app.tick_interval_ms(), 500);
    assert_eq!(App::new(60).tick_interval_ms(), 1000);
}

#[test]
fn disabled_metronome_emits_no_beats() {
    let mut app = App::new(120);
    app.set_metronome_clip(clip_of(vec![1], 100));
    for _ in 0..10 {
        assert!(!app.clock_tick());
        assert!(!app.on_beat());
    }
    app.start_metronome();
    assert!(app.clock_tick());
    assert!(app.on_beat());
    app.stop_metronome();
    assert!(!app.clock_tick());
}

#[test]
fn beat_needs_a_configured_clip() {
    let mut app = App::new(120);
    app.start_metronome();
    assert!(app.clock_tick()); // a beat is emitted...
    assert!(!app.on_beat()); // ...but nothing plays without a clip.
    app.set_metronome_clip(clip_of(vec![1], 100));
    assert!(app.on_beat());
}

#[test]
fn play_and_stop_toggle_the_flag() {
    let mut app = App::new(120);
    assert!(!app.is_playing);
    app.play();
    assert!(app.is_playing);
    app.stop();
    assert!(!app.is_playing);
}
