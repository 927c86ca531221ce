//! Sample-rate conversion by linear interpolation.
//!
//! An output stream at rate `dst` walks through a source at rate
//! `src`: output sample `i` sits at source position `i * src / dst`
//! (a rational), and its value is interpolated linearly between the
//! two neighbouring source samples. A missing neighbour (at either
//! end of the clip) counts as silence, so clips with fewer than two
//! samples still resample to a defined result. The output holds
//! exactly `floor(len * dst / src)` samples — the deterministic
//! rounding rule of this engine.

use crate::clip::AudioClip;
use crate::clip::samples_normalized;
use crate::clip::MAX_CLIP_LEN;
use crate::clip::SAMPLE_UNIT;
use vstd::arithmetic::div_mod::lemma_div_is_ordered;
use vstd::arithmetic::div_mod::lemma_div_multiples_vanish;
use vstd::arithmetic::div_mod::lemma_div_pos_is_pos;
use vstd::arithmetic::div_mod::lemma_mod_bound;
use vstd::arithmetic::mul::lemma_mul_is_commutative;
use vstd::arithmetic::mul::lemma_mul_is_distributive_sub;
use vstd::arithmetic::mul::lemma_mul_nonnegative;
use vstd::arithmetic::mul::lemma_mul_upper_bound;
use vstd::prelude::*;

verus! {

/// Number of samples a clip of `len` samples resamples to when going
/// from rate `src` to rate `dst`.
pub open spec fn resampled_len(len: int, src: int, dst: int) -> int {
    len * dst / src
}

/// The source sample at index `j`, with silence outside the clip.
pub open spec fn sample_at(s: Seq<i32>, j: int) -> int {
    if 0 <= j < s.len() {
        s[j] as int
    } else {
        0
    }
}

/// Linear interpolation between `a` and `b` at fraction `num / den`,
/// computed in the non-negative offset domain (each value shifted up
/// by one amplitude unit) with the quotient rounded down.
pub open spec fn lerp(a: int, b: int, num: int, den: int) -> int {
    ((a + 32768) * (den - num) + (b + 32768) * num) / den - 32768
}

/// Value of output sample `i` when resampling `s` from rate `src` to
/// rate `dst`: the interpolation of the two source samples around
/// position `i * src / dst`.
pub open spec fn resampled_sample(s: Seq<i32>, src: int, dst: int, i: int) -> int {
    let pos = i * src;
    lerp(sample_at(s, pos / dst), sample_at(s, pos / dst + 1), pos % dst, dst)
}

/// The full resampled sequence. Equal rates are the identity
/// transform; otherwise every output sample is interpolated.
pub open spec fn resampled_seq(s: Seq<i32>, src: int, dst: int) -> Seq<i32> {
    if src == dst {
        s
    } else {
        Seq::new(
            resampled_len(s.len() as int, src, dst) as nat,
            |i: int| resampled_sample(s, src, dst, i) as i32,
        )
    }
}

/// Interpolation stays within the amplitude range of its endpoints'
/// domain: with normalized endpoints the offset numerator stays below
/// `65536 * den` and the result within one unit of zero.
proof fn lemma_lerp_bounds(a: int, b: int, num: int, den: int)
    requires
        -32768 <= a <= 32768,
        -32768 <= b <= 32768,
        0 <= num < den,
    ensures
        0 <= (a + 32768) * (den - num) + (b + 32768) * num <= 65536 * den,
        -32768 <= lerp(a, b, num, den) <= 32768,
{
    let numerator = (a + 32768) * (den - num) + (b + 32768) * num;
    lemma_mul_nonnegative(a + 32768, den - num);
    lemma_mul_nonnegative(b + 32768, num);
    lemma_mul_upper_bound(a + 32768, 65536, den - num, den - num);
    lemma_mul_upper_bound(b + 32768, 65536, num, num);
    lemma_mul_is_distributive_sub(65536, den, num);
    assert(numerator <= 65536 * den);
    lemma_div_pos_is_pos(numerator, den);
    lemma_div_is_ordered(numerator, 65536 * den, den);
    lemma_div_multiples_vanish(65536, den);
    lemma_mul_is_commutative(65536, den);
}

impl AudioClip {
    /// Produce a new clip at `sample_rate` with the same perceptual
    /// content. Equal rates return an identical copy with no
    /// computation; otherwise each output sample is the linear
    /// interpolation of the source around its rational position, and
    /// the output holds exactly `floor(len * target / source)`
    /// samples.
    pub fn resample(&self, sample_rate: u32) -> (r: AudioClip)
        requires
            self.wf(),
            sample_rate >= 1,
            resampled_len(
                self.samples@.len() as int,
                self.sample_rate as int,
                sample_rate as int,
            ) <= MAX_CLIP_LEN,
        ensures
            r.wf(),
            r.id == self.id,
            r.date == self.date,
            r.sample_rate == sample_rate,
            r.samples@ == resampled_seq(
                self.samples@,
                self.sample_rate as int,
                sample_rate as int,
            ),
            self.sample_rate == sample_rate ==> r.samples@ == self.samples@,
            r.samples@.len() == resampled_len(
                self.samples@.len() as int,
                self.sample_rate as int,
                sample_rate as int,
            ),
    {
        let len = self.samples.len();
        let src = self.sample_rate;
        let dst = sample_rate;
        if src == dst {
            proof {
                lemma_div_multiples_vanish(len as int, src as int);
                lemma_mul_is_commutative(len as int, src as int);
            }
            let mut out: Vec<i32> = Vec::new();
            let mut j: usize = 0;
            while j < len
                invariant
                    j <= len,
                    len == self.samples@.len(),
                    out@ == self.samples@.take(j as int),
                decreases len - j,
            {
                let s = self.samples[j];
                out.push(s);
                proof {
                    assert(out@ =~= self.samples@.take(j + 1));
                }
                j = j + 1;
            }
            proof {
                assert(out@ =~= self.samples@);
            }
            return AudioClip {
                id: self.id,
                date: self.date,
                samples: out,
                sample_rate: dst,
            };
        }

        proof {
            lemma_mul_upper_bound(len as int, MAX_CLIP_LEN as int, dst as int, u32::MAX as int);
        }
        let total: u64 = (len as u64) * (dst as u64);
        let out_len_wide: u64 = total / (src as u64);
        let out_len: usize = out_len_wide as usize;
        let ghost spec_out_len = resampled_len(len as int, src as int, dst as int);
        proof {
            assert(out_len == spec_out_len);
        }

        let mut out: Vec<i32> = Vec::new();
        let mut i: usize = 0;
        while i < out_len
            invariant
                i <= out_len,
                out_len == spec_out_len,
                spec_out_len == resampled_len(len as int, src as int, dst as int),
                spec_out_len <= MAX_CLIP_LEN,
                len == self.samples@.len(),
                len <= MAX_CLIP_LEN,
                samples_normalized(self.samples@),
                1 <= src,
                1 <= dst,
                src != dst,
                out@.len() == i,
                forall|k: int|
                    0 <= k < i ==> #[trigger] out@[k] == resampled_sample(
                        self.samples@,
                        src as int,
                        dst as int,
                        k,
                    ) as i32,
                samples_normalized(out@),
            decreases out_len - i,
        {
            proof {
                lemma_mul_upper_bound(i as int, MAX_CLIP_LEN as int, src as int, u32::MAX as int);
                lemma_mul_nonnegative(i as int, src as int);
            }
            let pos: u64 = (i as u64) * (src as u64);
            let idx: u64 = pos / (dst as u64);
            let frac: u64 = pos % (dst as u64);
            proof {
                lemma_div_pos_is_pos(pos as int, dst as int);
                lemma_mod_bound(pos as int, dst as int);
            }
            let a: i32 = if idx < len as u64 {
                self.samples[idx as usize]
            } else {
                0
            };
            let b: i32 = if idx + 1 < len as u64 {
                self.samples[(idx + 1) as usize]
            } else {
                0
            };
            proof {
                assert(a as int == sample_at(self.samples@, pos as int / dst as int));
                assert(b as int == sample_at(self.samples@, pos as int / dst as int + 1));
                lemma_lerp_bounds(a as int, b as int, frac as int, dst as int);
                lemma_mul_upper_bound(a + 32768, 65536, dst as int - frac as int, u32::MAX as int);
                lemma_mul_upper_bound(b + 32768, 65536, frac as int, u32::MAX as int);
                lemma_mul_nonnegative(a + 32768, dst as int - frac as int);
                lemma_mul_nonnegative(b + 32768, frac as int);
            }
            let a_off: u64 = (a + SAMPLE_UNIT) as u64;
            let b_off: u64 = (b + SAMPLE_UNIT) as u64;
            let den: u64 = dst as u64;
            let numerator: u64 = a_off * (den - frac) + b_off * frac;
            let val_off: u64 = numerator / den;
            let sample: i32 = (val_off as i64 - 32768) as i32;
            proof {
                assert(sample as int == resampled_sample(
                    self.samples@,
                    src as int,
                    dst as int,
                    i as int,
                ));
            }
            out.push(sample);
            i = i + 1;
        }
        proof {
            assert(out@ =~= resampled_seq(self.samples@, src as int, dst as int));
        }
        AudioClip { id: self.id, date: self.date, samples: out, sample_rate: dst }
    }
}

} // verus!
