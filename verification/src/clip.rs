//! The sample buffer: an immutable-after-capture sequence of
//! fixed-point samples tagged with a sample rate and a capture time.

use vstd::arithmetic::div_mod::lemma_div_is_ordered;
use vstd::arithmetic::div_mod::lemma_div_multiples_vanish;
use vstd::arithmetic::div_mod::lemma_div_non_zero;
use vstd::arithmetic::div_mod::lemma_fundamental_div_mod;
use vstd::arithmetic::div_mod::lemma_hoist_over_denominator;
use vstd::arithmetic::div_mod::lemma_mod_bound;
use vstd::arithmetic::mul::lemma_mul_inequality;
use vstd::arithmetic::mul::lemma_mul_is_commutative;
use vstd::arithmetic::mul::lemma_mul_is_distributive_add_other_way;
use vstd::arithmetic::mul::lemma_mul_is_distributive_sub;
use vstd::prelude::*;

verus! {

/// One amplitude unit in the fixed-point sample encoding: a stored
/// value `v` stands for the amplitude `v / 32768`.
pub const SAMPLE_UNIT: i32 = 32768;

/// Largest sample count a clip may hold (about twelve hours at
/// 48 kHz). Keeps every sum and index computation inside `i64`/`u64`.
pub const MAX_CLIP_LEN: usize = 0x8000_0000;

/// A captured, immutable sequence of audio samples with an associated
/// sample rate. Transformations return new buffers; nothing mutates a
/// clip's samples after capture.
#[derive(Clone)]
pub struct AudioClip {
    /// Identifier, absent until assigned by an external collaborator.
    pub id: Option<usize>,
    /// Capture timestamp, in milliseconds since the Unix epoch.
    pub date: i64,
    /// Normalized amplitudes in fixed-point encoding.
    pub samples: Vec<i32>,
    /// Samples per second; always positive.
    pub sample_rate: u32,
}

/// A sample sequence is normalized when every value lies within one
/// amplitude unit of zero.
pub open spec fn samples_normalized(s: Seq<i32>) -> bool {
    forall|i: int| 0 <= i < s.len() ==> -32768 <= #[trigger] s[i] <= 32768
}

/// Sum of the `n` samples of `s` starting at `lo`.
pub open spec fn sample_sum(s: Seq<i32>, lo: int, n: int) -> int
    decreases n,
{
    if n <= 0 {
        0
    } else {
        sample_sum(s, lo, n - 1) + s[lo + n - 1]
    }
}

/// Arithmetic mean (rounded down) of the `n` samples of `s` starting
/// at `lo`.
pub open spec fn chunk_mean(s: Seq<i32>, lo: int, n: int) -> int {
    sample_sum(s, lo, n) / n
}

impl AudioClip {
    /// Well-formedness: a positive rate, a bounded length, and
    /// normalized samples.
    pub open spec fn wf(self) -> bool {
        &&& self.sample_rate >= 1
        &&& self.samples@.len() <= MAX_CLIP_LEN
        &&& samples_normalized(self.samples@)
    }

    /// Build a clip from already-normalized samples.
    pub fn new(samples: Vec<i32>, sample_rate: u32, date: i64) -> (r: AudioClip)
        requires
            sample_rate >= 1,
            samples@.len() <= MAX_CLIP_LEN,
            samples_normalized(samples@),
        ensures
            r.wf(),
            r.id == None::<usize>,
            r.date == date,
            r.samples@ == samples@,
            r.sample_rate == sample_rate,
    {
        AudioClip { id: None, date, samples, sample_rate }
    }

    /// Reduce the clip to at most `target_len` values for lightweight
    /// preview: the source is split into `target_len` contiguous
    /// chunks of `len / target_len` samples each and every chunk is
    /// replaced by its arithmetic mean (rounded down; any trailing
    /// remainder shorter than a chunk is discarded). A source already
    /// no longer than `target_len` is returned unchanged.
    pub fn downsample(&self, target_len: usize) -> (r: Vec<i32>)
        requires
            self.wf(),
            target_len >= 1 || self.samples@.len() == 0,
        ensures
            self.samples@.len() <= target_len ==> r@ == self.samples@,
            self.samples@.len() > target_len ==> {
                let c = self.samples@.len() as int / target_len as int;
                &&& r@.len() == target_len
                &&& forall|i: int|
                    0 <= i < target_len ==> #[trigger] r@[i] == chunk_mean(
                        self.samples@,
                        i * c,
                        c,
                    )
            },
            samples_normalized(r@),
    {
        let sample_count = self.samples.len();
        if sample_count <= target_len {
            let mut out: Vec<i32> = Vec::new();
            let mut j: usize = 0;
            while j < sample_count
                invariant
                    j <= sample_count,
                    sample_count == self.samples@.len(),
                    samples_normalized(self.samples@),
                    out@ == self.samples@.take(j as int),
                decreases sample_count - j,
            {
                let s = self.samples[j];
                out.push(s);
                proof {
                    assert(out@ =~= self.samples@.take(j + 1));
                }
                j = j + 1;
            }
            proof {
                assert(out@ =~= self.samples@);
            }
            return out;
        }

        let chunk_size = sample_count / target_len;
        proof {
            lemma_div_non_zero(sample_count as int, target_len as int);
            lemma_fundamental_div_mod(sample_count as int, target_len as int);
            lemma_mod_bound(sample_count as int, target_len as int);
            lemma_mul_is_commutative(target_len as int, chunk_size as int);
            assert(chunk_size as int * target_len as int <= sample_count as int);
        }
        let mut out: Vec<i32> = Vec::new();
        let mut i: usize = 0;
        while i < target_len
            invariant
                i <= target_len,
                target_len >= 1,
                sample_count == self.samples@.len(),
                sample_count <= MAX_CLIP_LEN,
                samples_normalized(self.samples@),
                chunk_size == sample_count as int / target_len as int,
                chunk_size >= 1,
                chunk_size as int * target_len as int <= sample_count as int,
                out@.len() == i,
                forall|k: int|
                    0 <= k < i ==> #[trigger] out@[k] == chunk_mean(
                        self.samples@,
                        k * chunk_size,
                        chunk_size as int,
                    ),
                samples_normalized(out@),
            decreases target_len - i,
        {
            proof {
                lemma_mul_inequality(i + 1, target_len as int, chunk_size as int);
                lemma_mul_is_distributive_add_other_way(chunk_size as int, i as int, 1);
                assert((i + 1) * chunk_size as int == i * chunk_size as int + chunk_size as int);
            }
            let lo: usize = i * chunk_size;
            let mean = chunk_mean_exec(&self.samples, lo, chunk_size);
            out.push(mean);
            i = i + 1;
        }
        out
    }
}

/// Mean (rounded down) of `n` samples of `v` starting at `lo`,
/// computed without overflow by shifting each sample into the
/// non-negative range before summing.
fn chunk_mean_exec(v: &Vec<i32>, lo: usize, n: usize) -> (r: i32)
    requires
        samples_normalized(v@),
        v@.len() <= MAX_CLIP_LEN,
        n >= 1,
        lo + n <= v@.len(),
    ensures
        r == chunk_mean(v@, lo as int, n as int),
        -32768 <= r <= 32768,
{
    let mut sum_off: u64 = 0;
    let mut j: usize = 0;
    while j < n
        invariant
            j <= n,
            n >= 1,
            lo + n <= v@.len(),
            v@.len() <= MAX_CLIP_LEN,
            samples_normalized(v@),
            sum_off == sample_sum(v@, lo as int, j as int) + j * 32768,
            0 <= sample_sum(v@, lo as int, j as int) + j * 32768 <= j * 65536,
        decreases n - j,
    {
        proof {
            lemma_sample_sum_bounds(v@, lo as int, j + 1);
        }
        let s = v[lo + j];
        sum_off = sum_off + ((s + SAMPLE_UNIT) as u64);
        j = j + 1;
    }
    let mean_off: u64 = sum_off / (n as u64);
    proof {
        let total = sample_sum(v@, lo as int, n as int);
        lemma_hoist_over_denominator(total, 32768, n as nat);
        assert(32768 * n as int == n as int * 32768) by {
            lemma_mul_is_commutative(32768, n as int);
        }
        assert(mean_off == total / n as int + 32768);
        lemma_sample_sum_bounds(v@, lo as int, n as int);
        assert(-32768 <= total / n as int <= 32768) by {
            lemma_div_is_ordered(-32768 * n, total, n as int);
            lemma_div_is_ordered(total, 32768 * n, n as int);
            lemma_div_multiples_vanish(-32768, n as int);
            lemma_div_multiples_vanish(32768, n as int);
            lemma_mul_is_commutative(-32768, n as int);
            lemma_mul_is_commutative(32768, n as int);
        }
    }
    (mean_off as i64 - 32768) as i32
}

/// The sum of `n` normalized samples lies within `n` units of zero.
proof fn lemma_sample_sum_bounds(s: Seq<i32>, lo: int, n: int)
    requires
        samples_normalized(s),
        0 <= lo,
        n >= 0,
        lo + n <= s.len(),
    ensures
        -32768 * n <= sample_sum(s, lo, n) <= 32768 * n,
    decreases n,
{
    if n > 0 {
        lemma_sample_sum_bounds(s, lo, n - 1);
        assert(-32768 * n == -32768 * (n - 1) + -32768) by {
            lemma_mul_is_distributive_sub(-32768, n, 1);
        }
        assert(32768 * n == 32768 * (n - 1) + 32768) by {
            lemma_mul_is_distributive_sub(32768, n, 1);
        }
    }
}

} // verus!
