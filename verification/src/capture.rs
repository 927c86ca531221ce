//! Capture pipeline state: a growing buffer that the device's input
//! callback appends to. Each interleaved frame contributes only its
//! first channel's sample, converted to the fixed-point encoding, in
//! strict arrival order. The non-blocking lock attempt that guards
//! the shared buffer on the audio thread lives with the device glue
//! outside this crate; here stands the appending itself.

use crate::clip::samples_normalized;
use crate::clip::AudioClip;
use crate::clip::MAX_CLIP_LEN;
use crate::clip::SAMPLE_UNIT;
use vstd::arithmetic::div_mod::lemma_fundamental_div_mod_converse;
use vstd::arithmetic::mul::lemma_mul_is_distributive_add_other_way;
use vstd::prelude::*;

verus! {

/// Convert a signed 16-bit device sample to the fixed-point encoding.
/// `i16` already measures amplitude in units of 1/32768, so the value
/// widens unchanged.
pub fn sample_from_i16(s: i16) -> (r: i32)
    ensures
        r == s as int,
        -SAMPLE_UNIT <= r <= SAMPLE_UNIT,
{
    s as i32
}

/// Convert an unsigned 16-bit device sample (midpoint 32768 stands
/// for silence) to the fixed-point encoding.
pub fn sample_from_u16(s: u16) -> (r: i32)
    ensures
        r == s as int - 32768,
        -SAMPLE_UNIT <= r <= SAMPLE_UNIT,
{
    s as i32 - 32768
}

/// Number of frames in an interleaved batch of `len` samples with
/// `channels` channels: full frames plus a trailing partial frame.
pub open spec fn frame_count(len: int, channels: int) -> int {
    (len + channels - 1) / channels
}

/// The first channel's sample of every frame of an interleaved
/// batch, in arrival order.
pub open spec fn first_channel(data: Seq<i32>, channels: int) -> Seq<i32> {
    Seq::new(frame_count(data.len() as int, channels) as nat, |i: int| data[i * channels])
}

/// The shared buffer a capture session grows: samples in arrival
/// order, the device's rate, and the session's start timestamp.
pub struct CaptureBuffer {
    /// Samples captured so far, first channel only.
    pub samples: Vec<i32>,
    /// The input device's native sample rate.
    pub sample_rate: u32,
    /// When the capture started, in milliseconds since the Unix
    /// epoch.
    pub date: i64,
}

/// Relies on `chrono::Utc::now`: the wall-clock time at which a
/// capture starts. Nothing is promised of the clock's value. Like
/// chrono itself, this assumes the system clock is not set before
/// the Unix epoch; chrono aborts on such a clock, and no `requires`
/// over the arguments can exclude it.
#[verifier::external_body]
fn now_timestamp_ms() -> i64 {
    chrono::Utc::now().timestamp_millis()
}

impl CaptureBuffer {
    /// Well-formedness: a positive rate and a bounded, normalized
    /// buffer.
    pub open spec fn wf(self) -> bool {
        &&& self.sample_rate >= 1
        &&& self.samples@.len() <= MAX_CLIP_LEN
        &&& samples_normalized(self.samples@)
    }

    /// Open an empty capture buffer at the device's native rate,
    /// stamped with the current time.
    pub fn new(sample_rate: u32) -> (r: CaptureBuffer)
        requires
            sample_rate >= 1,
        ensures
            r.wf(),
            r.samples@ == Seq::<i32>::empty(),
            r.sample_rate == sample_rate,
    {
        CaptureBuffer { samples: Vec::new(), sample_rate, date: now_timestamp_ms() }
    }

    /// Append one input callback batch: of every interleaved frame
    /// only the first channel's sample is kept, in arrival order.
    pub fn append_frames(&mut self, data: &Vec<i32>, channels: u16)
        requires
            old(self).wf(),
            channels >= 1,
            samples_normalized(data@),
            data@.len() <= MAX_CLIP_LEN,
            old(self).samples@.len() + frame_count(data@.len() as int, channels as int)
                <= MAX_CLIP_LEN,
        ensures
            final(self).wf(),
            final(self).sample_rate == old(self).sample_rate,
            final(self).date == old(self).date,
            final(self).samples@ == old(self).samples@ + first_channel(data@, channels as int),
    {
        let ghost orig = old(self).samples@;
        let ghost fc = first_channel(data@, channels as int);
        let len = data.len();
        let ch = channels as usize;
        let mut i: usize = 0;
        let mut count: usize = 0;
        proof {
            assert(orig + fc.take(0) =~= orig);
            if len > 0 {
                lemma_frame_count_bounds(len as int, ch as int, 0);
            }
        }
        while i < len
            invariant
                self.sample_rate == old(self).sample_rate,
                self.date == old(self).date,
                ch == channels as int,
                1 <= ch <= 65535,
                len == data@.len(),
                len <= MAX_CLIP_LEN,
                samples_normalized(data@),
                orig.len() + frame_count(len as int, ch as int) <= MAX_CLIP_LEN,
                orig.len() <= MAX_CLIP_LEN,
                samples_normalized(orig),
                fc == first_channel(data@, ch as int),
                i == count * ch,
                count > 0 ==> (count - 1) * ch < len,
                count <= fc.len(),
                i < len ==> count < fc.len(),
                self.samples@ == orig + fc.take(count as int),
                samples_normalized(self.samples@),
            decreases len + ch - i,
        {
            proof {
                lemma_frame_count_bounds(len as int, ch as int, count as int);
                assert(fc[count as int] == data@[count as int * ch]);
            }
            let s = data[i];
            self.samples.push(s);
            proof {
                assert((orig + fc.take(count as int)).push(data@[count as int * ch]) =~= orig
                    + fc.take(count + 1));
                lemma_mul_is_distributive_add_other_way(ch as int, count as int, 1);
                assert((count + 1) * ch == count * ch + ch);
            }
            i = i + ch;
            count = count + 1;
            proof {
                if i < len {
                    lemma_frame_count_bounds(len as int, ch as int, count as int);
                }
            }
        }
        proof {
            lemma_frame_count_done(len as int, ch as int, count as int);
            assert(orig + fc.take(count as int) =~= orig + fc);
        }
    }

    /// Close the capture session: the grown buffer becomes an
    /// immutable clip at the device's rate, stamped with the
    /// session's start time.
    pub fn finish(self) -> (r: AudioClip)
        requires
            self.wf(),
        ensures
            r.wf(),
            r.id == None::<usize>,
            r.date == self.date,
            r.samples@ == self.samples@,
            r.sample_rate == self.sample_rate,
    {
        AudioClip {
            id: None,
            date: self.date,
            samples: self.samples,
            sample_rate: self.sample_rate,
        }
    }
}

/// While `count * ch` has not passed `len`, frame `count` exists:
/// `count < frame_count(len, ch)`.
proof fn lemma_frame_count_bounds(len: int, ch: int, count: int)
    requires
        1 <= ch,
        0 <= count,
        count * ch < len,
    ensures
        count < frame_count(len, ch),
{
    lemma_mul_is_distributive_add_other_way(ch, count, 1);
    assert((count + 1) * ch == count * ch + ch);
    vstd::arithmetic::div_mod::lemma_div_is_ordered((count + 1) * ch, len + ch - 1, ch);
    vstd::arithmetic::div_mod::lemma_div_by_multiple(count + 1, ch);
}

/// When the cursor has reached or passed `len` after whole frames,
/// exactly `frame_count(len, ch)` frames were read.
proof fn lemma_frame_count_done(len: int, ch: int, count: int)
    requires
        1 <= ch,
        0 <= count,
        0 <= len,
        count * ch >= len,
        count == 0 || (count - 1) * ch < len,
    ensures
        count == frame_count(len, ch),
{
    if count == 0 {
        assert(len == 0);
        vstd::arithmetic::div_mod::lemma_div_multiples_vanish_fancy(0, ch - 1, ch);
    } else {
        let r = len + ch - 1 - count * ch;
        vstd::arithmetic::mul::lemma_mul_is_distributive_sub_other_way(ch, count, 1);
        assert((count - 1) * ch == count * ch - ch);
        assert(0 <= r < ch);
        vstd::arithmetic::div_mod::lemma_fundamental_div_mod_converse(len + ch - 1, ch, count, r);
    }
}

} // verus!
