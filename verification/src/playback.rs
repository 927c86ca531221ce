//! Playback engine state: a cursor walking a fixed sample buffer.
//!
//! The device's output callback asks for a batch of frames; each
//! frame broadcasts the sample under the cursor to every channel and
//! advances the cursor by one. Past the end of the buffer the output
//! is silence, and the caller is told that completion is due so it
//! can signal the waiting control thread. A batch completion tracker
//! models the join over several concurrent playbacks.

use crate::clip::samples_normalized;
use crate::clip::AudioClip;
use crate::clip::MAX_CLIP_LEN;
use crate::resample::resampled_len;
use crate::resample::resampled_seq;
use vstd::arithmetic::div_mod::lemma_div_pos_is_pos;
use vstd::arithmetic::div_mod::lemma_multiply_divide_lt;
use vstd::math::min;
use vstd::prelude::*;

verus! {

/// Value of output slot `k` in a batch that starts at `cursor`:
/// frame `k / channels` broadcast to every channel, silence past the
/// end of the buffer.
pub open spec fn slot_value(s: Seq<i32>, cursor: int, channels: int, k: int) -> i32 {
    if cursor + k / channels < s.len() {
        s[cursor + k / channels]
    } else {
        0i32
    }
}

/// One playback of one clip: the clip's samples brought to the output
/// device's rate, and the cursor of the next frame to emit.
pub struct PlaybackSession {
    /// Sample buffer at the device's rate; immutable during playback.
    pub samples: Vec<i32>,
    /// Index of the next frame to emit; stops at the buffer's end.
    pub cursor: usize,
}

impl PlaybackSession {
    /// Well-formedness: the cursor never passes the end of the
    /// normalized, bounded buffer.
    pub open spec fn wf(self) -> bool {
        &&& self.cursor <= self.samples@.len()
        &&& self.samples@.len() <= MAX_CLIP_LEN
        &&& samples_normalized(self.samples@)
    }

    /// The whole buffer has been emitted.
    pub open spec fn finished(self) -> bool {
        self.cursor == self.samples@.len()
    }

    /// Start a playback of `clip` on a device running at
    /// `device_rate`: the clip is resampled to that rate and the
    /// cursor set to the first frame.
    pub fn new(clip: &AudioClip, device_rate: u32) -> (r: PlaybackSession)
        requires
            clip.wf(),
            device_rate >= 1,
            resampled_len(
                clip.samples@.len() as int,
                clip.sample_rate as int,
                device_rate as int,
            ) <= MAX_CLIP_LEN,
        ensures
            r.wf(),
            r.cursor == 0,
            r.samples@ == resampled_seq(
                clip.samples@,
                clip.sample_rate as int,
                device_rate as int,
            ),
    {
        let resampled = clip.resample(device_rate);
        PlaybackSession { samples: resampled.samples, cursor: 0 }
    }

    /// Fill one output callback batch of `frames` frames of
    /// `channels` interleaved channels: every channel of a frame
    /// carries the same sample, frames past the end of the buffer
    /// carry silence, and the cursor advances by the emitted frames
    /// (stopping at the end). The second component tells the caller
    /// that the buffer's end has been reached, so the completion
    /// signal is due.
    pub fn fill(&mut self, frames: usize, channels: usize) -> (r: (Vec<i32>, bool))
        requires
            old(self).wf(),
            channels >= 1,
            frames * channels <= usize::MAX,
        ensures
            final(self).wf(),
            final(self).samples == old(self).samples,
            final(self).cursor == min(
                old(self).cursor + frames,
                old(self).samples@.len() as int,
            ),
            r.0@.len() == frames * channels,
            forall|k: int|
                0 <= k < frames * channels ==> #[trigger] r.0@[k] == slot_value(
                    old(self).samples@,
                    old(self).cursor as int,
                    channels as int,
                    k,
                ),
            r.1 == (old(self).cursor + frames >= old(self).samples@.len()),
            r.1 == final(self).finished(),
    {
        let len = self.samples.len();
        let cursor = self.cursor;
        let slots = frames * channels;
        let mut out: Vec<i32> = Vec::new();
        let mut k: usize = 0;
        while k < slots
            invariant
                k <= slots,
                slots == frames * channels,
                channels >= 1,
                len == self.samples@.len(),
                len <= MAX_CLIP_LEN,
                cursor <= len,
                samples_normalized(self.samples@),
                out@.len() == k,
                forall|j: int|
                    0 <= j < k ==> #[trigger] out@[j] == slot_value(
                        self.samples@,
                        cursor as int,
                        channels as int,
                        j,
                    ),
            decreases slots - k,
        {
            proof {
                lemma_div_pos_is_pos(k as int, channels as int);
                lemma_multiply_divide_lt(k as int, channels as int, frames as int);
            }
            let f: usize = k / channels;
            let v: i32 = if (f as u64) < (len as u64) && (cursor as u64) + (f as u64) < (len
                as u64) {
                self.samples[cursor + f]
            } else {
                0
            };
            out.push(v);
            k = k + 1;
        }
        let remaining = len - cursor;
        let done = frames >= remaining;
        if done {
            self.cursor = len;
        } else {
            self.cursor = cursor + frames;
        }
        (out, done)
    }
}

/// Completion tracking for one `play_clips` fan-out: one playback per
/// clip, and the control thread returns only once every one of them
/// has signalled completion.
pub struct PlaybackBatch {
    /// How many playbacks were spawned.
    pub total: usize,
    /// How many have signalled completion so far.
    pub completed: usize,
}

impl PlaybackBatch {
    /// Well-formedness: no more completions than playbacks.
    pub open spec fn wf(self) -> bool {
        self.completed <= self.total
    }

    /// Every spawned playback has signalled completion.
    pub open spec fn all_done(self) -> bool {
        self.completed == self.total
    }

    /// Open a batch over `total` spawned playbacks.
    pub fn new(total: usize) -> (r: PlaybackBatch)
        ensures
            r.wf(),
            r.total == total,
            r.completed == 0,
    {
        PlaybackBatch { total, completed: 0 }
    }

    /// Record one playback's completion signal.
    pub fn complete_one(&mut self)
        requires
            old(self).wf(),
            old(self).completed < old(self).total,
        ensures
            final(self).wf(),
            final(self).total == old(self).total,
            final(self).completed == old(self).completed + 1,
    {
        self.completed = self.completed + 1;
    }

    /// Whether the batch may return to the caller.
    pub fn is_done(&self) -> (r: bool)
        ensures
            r == self.all_done(),
    {
        self.completed == self.total
    }
}

/// Join law: a batch over several playbacks is not done while any of
/// them is still outstanding — the fan-out returns only after every
/// playback individually completed.
pub proof fn lemma_batch_waits_for_all(b: PlaybackBatch)
    requires
        b.wf(),
        b.completed < b.total,
    ensures
        !b.all_done(),
{
}

} // verus!
