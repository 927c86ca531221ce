//! Live loopback monitor: a bounded ring couples the input callback
//! (producer) to the output callback (consumer). The ring holds twice
//! one latency window and starts pre-filled with one window of
//! silence, so the consumer never starts empty. A full ring drops
//! incoming samples ("output fell behind"); an empty ring hands out
//! silence ("input fell behind"). Both conditions are non-fatal and
//! reported to the caller, never blocking.

use crate::ring::ring_capacity;
use crate::ring::ring_contents;
use crate::ring::SampleRing;
use vstd::math::min;
use vstd::prelude::*;

verus! {

/// `n` samples of silence.
pub open spec fn silence(n: nat) -> Seq<i32> {
    Seq::new(n, |i: int| 0i32)
}

/// What one producer push leaves in a ring of capacity `cap` that
/// holds `s`: the sample is appended when there is room and dropped
/// otherwise.
pub open spec fn ring_push_model(s: Seq<i32>, cap: nat, x: i32) -> Seq<i32> {
    if s.len() < cap {
        s.push(x)
    } else {
        s
    }
}

/// What pushing the whole batch `xs`, oldest first, leaves in the
/// ring.
pub open spec fn ring_feed_model(s: Seq<i32>, cap: nat, xs: Seq<i32>) -> Seq<i32>
    decreases xs.len(),
{
    if xs.len() == 0 {
        s
    } else {
        ring_push_model(ring_feed_model(s, cap, xs.drop_last()), cap, xs.last())
    }
}

/// A batch push fills the ring up to capacity and no further.
pub proof fn lemma_feed_len(s: Seq<i32>, cap: nat, xs: Seq<i32>)
    requires
        s.len() <= cap,
    ensures
        ring_feed_model(s, cap, xs).len() == min(s.len() + xs.len() as int, cap as int),
    decreases xs.len(),
{
    if xs.len() > 0 {
        lemma_feed_len(s, cap, xs.drop_last());
    }
}

/// Overflow law: pushing a batch into a ring that is within capacity
/// keeps the oldest samples — the ring's contents followed by the
/// batch, cut off at capacity — and drops only the excess. Nothing
/// blocks and nothing already queued is disturbed.
pub proof fn lemma_ring_overflow(s: Seq<i32>, cap: nat, xs: Seq<i32>)
    requires
        s.len() <= cap,
    ensures
        ring_feed_model(s, cap, xs) == (s + xs).take(min(s.len() + xs.len() as int, cap as int)),
    decreases xs.len(),
{
    if xs.len() == 0 {
        assert(ring_feed_model(s, cap, xs) =~= (s + xs).take(
            min(s.len() + xs.len() as int, cap as int),
        ));
    } else {
        let ys = xs.drop_last();
        lemma_ring_overflow(s, cap, ys);
        lemma_feed_len(s, cap, ys);
        let prev = ring_feed_model(s, cap, ys);
        if prev.len() < cap {
            assert(prev.push(xs.last()) =~= (s + xs).take(min(s.len() + xs.len() as int, cap as int)));
        } else {
            assert(prev =~= (s + xs).take(min(s.len() + xs.len() as int, cap as int)));
        }
    }
}

/// The live monitor: one latency window of configured delay over a
/// ring of twice that size.
pub struct Monitor {
    ring: SampleRing,
    latency_samples: usize,
}

/// Number of samples in one latency window: `latency_ms` milliseconds
/// of frames at `sample_rate`, times the channel count.
pub open spec fn latency_samples_spec(latency_ms: int, sample_rate: int, channels: int) -> int {
    latency_ms * sample_rate / 1000 * channels
}

/// Compute the latency window in samples from a latency in
/// milliseconds, a sample rate and a channel count.
pub fn latency_sample_count(latency_ms: u32, sample_rate: u32, channels: u16) -> (r: usize)
    requires
        2 * latency_samples_spec(latency_ms as int, sample_rate as int, channels as int)
            <= usize::MAX,
    ensures
        r == latency_samples_spec(latency_ms as int, sample_rate as int, channels as int),
{
    proof {
        vstd::arithmetic::mul::lemma_mul_upper_bound(
            latency_ms as int,
            u32::MAX as int,
            sample_rate as int,
            u32::MAX as int,
        );
        vstd::arithmetic::mul::lemma_mul_nonnegative(latency_ms as int, sample_rate as int);
        vstd::arithmetic::div_mod::lemma_div_pos_is_pos(
            latency_ms as int * sample_rate as int,
            1000,
        );
        vstd::arithmetic::mul::lemma_mul_nonnegative(
            latency_ms as int * sample_rate as int / 1000,
            channels as int,
        );
    }
    let frames: u64 = (latency_ms as u64) * (sample_rate as u64) / 1000;
    let samples: u64 = frames * (channels as u64);
    samples as usize
}

impl Monitor {
    /// The samples queued between producer and consumer, oldest
    /// first.
    pub closed spec fn contents(self) -> Seq<i32> {
        ring_contents(self.ring)
    }

    /// The ring's fixed capacity: twice the latency window.
    pub closed spec fn capacity(self) -> nat {
        ring_capacity(self.ring)
    }

    /// The configured latency window, in samples.
    pub closed spec fn latency(self) -> nat {
        self.latency_samples as nat
    }

    /// Well-formedness: the ring was sized to twice the latency
    /// window and never holds more than its capacity.
    pub closed spec fn wf(self) -> bool {
        &&& self.capacity() == 2 * self.latency()
        &&& self.contents().len() <= self.capacity()
    }

    /// Open a monitor for a latency window of `latency_samples`
    /// samples: the ring gets twice that capacity and is pre-filled
    /// with one window of silence.
    pub fn new(latency_samples: usize) -> (m: Monitor)
        requires
            2 * latency_samples < usize::MAX,
        ensures
            m.wf(),
            m.latency() == latency_samples,
            m.capacity() == 2 * latency_samples,
            m.contents() == silence(latency_samples as nat),
    {
        let mut ring = SampleRing::new(2 * latency_samples);
        let mut k: usize = 0;
        proof {
            assert(ring_contents(ring) =~= silence(0));
        }
        while k < latency_samples
            invariant
                k <= latency_samples,
                ring_capacity(ring) == 2 * latency_samples,
                ring_contents(ring) == silence(k as nat),
            decreases latency_samples - k,
        {
            let accepted = ring.push(0);
            proof {
                assert(ring_contents(ring) =~= silence((k + 1) as nat));
            }
            k = k + 1;
        }
        Monitor { ring, latency_samples }
    }

    /// Producer side: push one captured sample; a full ring drops it.
    /// Returns true when the sample was dropped (the consumer fell
    /// behind).
    pub fn push_sample(&mut self, s: i32) -> (dropped: bool)
        requires
            old(self).wf(),
        ensures
            final(self).wf(),
            final(self).latency() == old(self).latency(),
            final(self).capacity() == old(self).capacity(),
            dropped == (old(self).contents().len() >= old(self).capacity()),
            final(self).contents() == ring_push_model(
                old(self).contents(),
                old(self).capacity(),
                s,
            ),
    {
        let accepted = self.ring.push(s);
        !accepted
    }

    /// Producer side: push a whole callback batch, oldest first.
    /// Samples that find the ring full are dropped. Returns true when
    /// any sample was dropped — the "output fell behind" condition.
    pub fn feed_input(&mut self, data: &Vec<i32>) -> (fell_behind: bool)
        requires
            old(self).wf(),
        ensures
            final(self).wf(),
            final(self).latency() == old(self).latency(),
            final(self).capacity() == old(self).capacity(),
            final(self).contents() == ring_feed_model(
                old(self).contents(),
                old(self).capacity(),
                data@,
            ),
            fell_behind == (old(self).contents().len() + data@.len() > old(self).capacity()),
    {
        let ghost orig = old(self).contents();
        let ghost cap = old(self).capacity();
        let mut fell = false;
        let mut j: usize = 0;
        proof {
            assert(data@.take(0) =~= Seq::<i32>::empty());
        }
        while j < data.len()
            invariant
                j <= data@.len(),
                self.wf(),
                self.latency() == old(self).latency(),
                cap == self.capacity(),
                orig.len() <= cap,
                self.contents() == ring_feed_model(orig, cap, data@.take(j as int)),
                fell == (orig.len() + j > cap),
            decreases data@.len() - j,
        {
            proof {
                lemma_feed_len(orig, cap, data@.take(j as int));
            }
            let accepted = self.ring.push(data[j]);
            if !accepted {
                fell = true;
            }
            proof {
                assert(data@.take(j + 1).drop_last() =~= data@.take(j as int));
                assert(data@.take(j + 1).last() == data@[j as int]);
            }
            j = j + 1;
        }
        proof {
            assert(data@.take(data@.len() as int) =~= data@);
        }
        fell
    }

    /// Consumer side: pop the oldest sample for one output slot; an
    /// empty ring yields silence instead. The second component is
    /// true when the ring was empty — the "input fell behind"
    /// condition.
    pub fn pop_sample(&mut self) -> (r: (i32, bool))
        requires
            old(self).wf(),
        ensures
            final(self).wf(),
            final(self).latency() == old(self).latency(),
            final(self).capacity() == old(self).capacity(),
            old(self).contents().len() > 0 ==> {
                &&& r.0 == old(self).contents()[0]
                &&& !r.1
                &&& final(self).contents() == old(self).contents().drop_first()
            },
            old(self).contents().len() == 0 ==> {
                &&& r.0 == 0
                &&& r.1
                &&& final(self).contents() == old(self).contents()
            },
    {
        match self.ring.pop() {
            Some(s) => (s, false),
            None => (0, true),
        }
    }

    /// Consumer side: fill `slots` output slots, oldest sample first,
    /// with silence once the ring runs dry. Returns the slot values
    /// and whether the ring ran dry (the "input fell behind"
    /// condition).
    pub fn drain_output(&mut self, slots: usize) -> (r: (Vec<i32>, bool))
        requires
            old(self).wf(),
        ensures
            final(self).wf(),
            final(self).latency() == old(self).latency(),
            final(self).capacity() == old(self).capacity(),
            r.0@.len() == slots,
            forall|k: int|
                0 <= k < slots ==> #[trigger] r.0@[k] == (if k < old(self).contents().len() {
                    old(self).contents()[k]
                } else {
                    0i32
                }),
            final(self).contents() == old(self).contents().skip(
                min(slots as int, old(self).contents().len() as int),
            ),
            r.1 == (slots > old(self).contents().len()),
    {
        let ghost orig = old(self).contents();
        let mut out: Vec<i32> = Vec::new();
        let mut fell = false;
        let mut k: usize = 0;
        proof {
            assert(orig.skip(0) =~= orig);
        }
        while k < slots
            invariant
                k <= slots,
                self.wf(),
                self.latency() == old(self).latency(),
                out@.len() == k,
                forall|j: int|
                    0 <= j < k ==> #[trigger] out@[j] == (if j < orig.len() {
                        orig[j]
                    } else {
                        0i32
                    }),
                self.contents() == orig.skip(min(k as int, orig.len() as int)),
                fell == (k > orig.len()),
            decreases slots - k,
        {
            let (s, dry) = self.pop_sample();
            if dry {
                fell = true;
            }
            proof {
                if k < orig.len() {
                    assert(orig.skip(k as int).drop_first() =~= orig.skip(k + 1));
                }
            }
            out.push(s);
            k = k + 1;
        }
        (out, fell)
    }
}

/// Popping `k` samples leaves a window of silence still silent: the
/// warm-up survives partial consumption.
pub proof fn lemma_silence_skip(n: nat, k: int)
    requires
        0 <= k <= n,
    ensures
        silence(n).skip(k) == silence((n - k) as nat),
{
    assert(silence(n).skip(k) =~= silence((n - k) as nat));
}

/// Warm-up law: a freshly opened monitor holds exactly one latency
/// window of silence, so each of the first `latency` samples the
/// consumer pops is zero.
pub proof fn lemma_monitor_warmup(m: Monitor)
    requires
        m.contents() == silence(m.latency()),
    ensures
        m.contents().len() == m.latency(),
        forall|k: int| 0 <= k < m.latency() ==> m.contents()[k] == 0,
{
}

} // verus!
