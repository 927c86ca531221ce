//! Session orchestrator: the ordered collection of captured clips,
//! the playing flag, and the metronome's state. The threads, locks
//! and atomics that share this state across the control, timer and
//! beat-consumer threads live with the glue outside this crate; here
//! stand the state transitions and the decisions each thread takes,
//! so that every check-and-act is a verified function from state to
//! action.

use crate::clip::AudioClip;
use crate::clip::MAX_CLIP_LEN;
use crate::playback::PlaybackSession;
use crate::resample::resampled_len;
use crate::resample::resampled_seq;
use vstd::prelude::*;

verus! {

/// Every clip of the collection is well-formed.
pub open spec fn clips_wf(clips: Seq<AudioClip>) -> bool {
    forall|i: int| 0 <= i < clips.len() ==> #[trigger] clips[i].wf()
}

/// The looper application's shared state.
#[derive(Clone)]
pub struct App {
    /// Metronome tempo, in beats per minute; always positive.
    pub bpm: i32,
    /// Gates the metronome's timer: beats are emitted only while set.
    pub is_metronome_on: bool,
    /// Gates the playback loop of the clip collection.
    pub is_playing: bool,
    /// The ordered collection of captured clips.
    pub audio_clips: Vec<AudioClip>,
    /// The clip the metronome plays on every beat, once configured.
    pub metronome_clip: Option<AudioClip>,
}

impl App {
    /// Well-formedness: a positive tempo and well-formed clips.
    pub open spec fn wf(self) -> bool {
        &&& self.bpm >= 1
        &&& clips_wf(self.audio_clips@)
        &&& self.metronome_clip matches Some(c) ==> c.wf()
    }

    /// A fresh session: no clips, no metronome clip, everything off.
    pub fn new(bpm: i32) -> (r: App)
        requires
            bpm >= 1,
        ensures
            r.wf(),
            r.bpm == bpm,
            !r.is_metronome_on,
            !r.is_playing,
            r.audio_clips@ == Seq::<AudioClip>::empty(),
            r.metronome_clip is None,
    {
        App {
            bpm,
            is_metronome_on: false,
            is_playing: false,
            audio_clips: Vec::new(),
            metronome_clip: None,
        }
    }

    /// Raise the playing flag; nothing else changes.
    pub fn play(&mut self)
        ensures
            final(self).is_playing,
            final(self).bpm == old(self).bpm,
            final(self).is_metronome_on == old(self).is_metronome_on,
            final(self).audio_clips == old(self).audio_clips,
            final(self).metronome_clip == old(self).metronome_clip,
    {
        self.is_playing = true;
    }

    /// Lower the playing flag; nothing else changes.
    pub fn stop(&mut self)
        ensures
            !final(self).is_playing,
            final(self).bpm == old(self).bpm,
            final(self).is_metronome_on == old(self).is_metronome_on,
            final(self).audio_clips == old(self).audio_clips,
            final(self).metronome_clip == old(self).metronome_clip,
    {
        self.is_playing = false;
    }

    /// Enable the metronome; nothing else changes.
    pub fn start_metronome(&mut self)
        ensures
            final(self).is_metronome_on,
            final(self).bpm == old(self).bpm,
            final(self).is_playing == old(self).is_playing,
            final(self).audio_clips == old(self).audio_clips,
            final(self).metronome_clip == old(self).metronome_clip,
    {
        self.is_metronome_on = true;
    }

    /// Disable the metronome; nothing else changes. While the flag is
    /// down the timer emits no beats, however long it runs.
    pub fn stop_metronome(&mut self)
        ensures
            !final(self).is_metronome_on,
            final(self).bpm == old(self).bpm,
            final(self).is_playing == old(self).is_playing,
            final(self).audio_clips == old(self).audio_clips,
            final(self).metronome_clip == old(self).metronome_clip,
    {
        self.is_metronome_on = false;
    }

    /// Designate the clip the metronome plays on every beat.
    pub fn set_metronome_clip(&mut self, clip: AudioClip)
        requires
            old(self).wf(),
            clip.wf(),
        ensures
            final(self).wf(),
            final(self).metronome_clip == Some(clip),
            final(self).bpm == old(self).bpm,
            final(self).is_metronome_on == old(self).is_metronome_on,
            final(self).is_playing == old(self).is_playing,
            final(self).audio_clips == old(self).audio_clips,
    {
        self.metronome_clip = Some(clip);
    }

    /// Append a captured clip to the collection.
    pub fn add_clip(&mut self, clip: AudioClip)
        requires
            old(self).wf(),
            clip.wf(),
            old(self).audio_clips@.len() < usize::MAX,
        ensures
            final(self).wf(),
            final(self).audio_clips@ == old(self).audio_clips@.push(clip),
            final(self).bpm == old(self).bpm,
            final(self).is_metronome_on == old(self).is_metronome_on,
            final(self).is_playing == old(self).is_playing,
            final(self).metronome_clip == old(self).metronome_clip,
    {
        self.audio_clips.push(clip);
    }

    /// Remove and return the clip at `index`. An out-of-range index
    /// is a no-op: nothing is returned and the collection is left
    /// exactly as it was.
    pub fn remove_clip(&mut self, index: usize) -> (r: Option<AudioClip>)
        requires
            old(self).wf(),
        ensures
            final(self).wf(),
            index < old(self).audio_clips@.len() ==> {
                &&& r == Some(old(self).audio_clips@[index as int])
                &&& final(self).audio_clips@ == old(self).audio_clips@.remove(index as int)
            },
            index >= old(self).audio_clips@.len() ==> {
                &&& r is None
                &&& final(self).audio_clips@ == old(self).audio_clips@
            },
            final(self).bpm == old(self).bpm,
            final(self).is_metronome_on == old(self).is_metronome_on,
            final(self).is_playing == old(self).is_playing,
            final(self).metronome_clip == old(self).metronome_clip,
    {
        if index < self.audio_clips.len() {
            let clip = self.audio_clips.remove(index);
            Some(clip)
        } else {
            None
        }
    }

    /// Open one playback session per clip of the collection, in
    /// order, each resampled to the output device's rate. The glue
    /// outside this crate runs one thread per session and joins them
    /// all, so the fan-out returns only after every clip's playback
    /// has completed.
    pub fn play_clips(&self, device_rate: u32) -> (r: Vec<PlaybackSession>)
        requires
            self.wf(),
            device_rate >= 1,
            forall|i: int|
                0 <= i < self.audio_clips@.len() ==> resampled_len(
                    (#[trigger] self.audio_clips@[i]).samples@.len() as int,
                    self.audio_clips@[i].sample_rate as int,
                    device_rate as int,
                ) <= MAX_CLIP_LEN,
        ensures
            r@.len() == self.audio_clips@.len(),
            forall|i: int|
                0 <= i < r@.len() ==> {
                    &&& (#[trigger] r@[i]).wf()
                    &&& r@[i].cursor == 0
                    &&& r@[i].samples@ == resampled_seq(
                        self.audio_clips@[i].samples@,
                        self.audio_clips@[i].sample_rate as int,
                        device_rate as int,
                    )
                },
    {
        let mut sessions: Vec<PlaybackSession> = Vec::new();
        let mut i: usize = 0;
        let n = self.audio_clips.len();
        while i < n
            invariant
                i <= n,
                n == self.audio_clips@.len(),
                self.wf(),
                device_rate >= 1,
                forall|j: int|
                    0 <= j < n ==> resampled_len(
                        (#[trigger] self.audio_clips@[j]).samples@.len() as int,
                        self.audio_clips@[j].sample_rate as int,
                        device_rate as int,
                    ) <= MAX_CLIP_LEN,
                sessions@.len() == i,
                forall|j: int|
                    0 <= j < i ==> {
                        &&& (#[trigger] sessions@[j]).wf()
                        &&& sessions@[j].cursor == 0
                        &&& sessions@[j].samples@ == resampled_seq(
                            self.audio_clips@[j].samples@,
                            self.audio_clips@[j].sample_rate as int,
                            device_rate as int,
                        )
                    },
            decreases n - i,
        {
            let session = PlaybackSession::new(&self.audio_clips[i], device_rate);
            sessions.push(session);
            i = i + 1;
        }
        sessions
    }

    /// The metronome's tick interval: `60 / bpm` seconds, in
    /// milliseconds.
    pub fn tick_interval_ms(&self) -> (r: u64)
        requires
            self.wf(),
        ensures
            r == 60000int / self.bpm as int,
    {
        60000u64 / (self.bpm as u64)
    }

    /// The timer thread's decision on a tick: emit a beat exactly
    /// when the metronome is enabled. While it is off no beat is
    /// emitted, regardless of elapsed time.
    pub fn clock_tick(&self) -> (beat: bool)
        ensures
            beat == self.is_metronome_on,
    {
        self.is_metronome_on
    }

    /// The beat consumer's decision on a received beat: spawn a
    /// playback exactly when the metronome is still enabled and a
    /// metronome clip is configured. The flag is read afresh here —
    /// a toggle between tick and beat may skip or add one beat at
    /// the boundary, by design.
    pub fn on_beat(&self) -> (play: bool)
        ensures
            play == (self.is_metronome_on && self.metronome_clip is Some),
    {
        self.is_metronome_on && self.metronome_clip.is_some()
    }
}

} // verus!
