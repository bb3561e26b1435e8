//! The capture-side sample processing: linear sample-rate conversion for
//! interleaved stereo and for mono blocks, channel down-mixing, the
//! accumulation buffer that re-frames resampled audio into fixed-size
//! codec frames, and input-device selection by name.
//!
//! Samples are 16-bit PCM. Interpolation is computed exactly over the
//! rational position `i * from_rate / to_rate`, shifted into the
//! non-negative range so that every division is a floor division.

use vstd::prelude::*;

verus! {

/// Linear interpolation between `s0` and `s1` at fraction `rem / den`,
/// computed over samples shifted into `0 ..= 65535`.
pub open spec fn spec_lerp(s0: i16, s1: i16, rem: int, den: int) -> int {
    ((s0 as int + 32768) * (den - rem) + (s1 as int + 32768) * rem) / den - 32768
}

/// One interpolated sample; exact over the shifted representation.
fn lerp_sample(s0: i16, s1: i16, rem: u64, den: u64) -> (s: i16)
    requires
        1 <= den <= 1_000_000,
        rem < den,
    ensures
        s as int == spec_lerp(s0, s1, rem as int, den as int),
{
    let u0: u64 = (s0 as i64 + 32768) as u64;
    let u1: u64 = (s1 as i64 + 32768) as u64;
    proof {
        vstd::arithmetic::mul::lemma_mul_upper_bound(
            u0 as int,
            65535,
            (den - rem) as int,
            1_000_000,
        );
        vstd::arithmetic::mul::lemma_mul_upper_bound(u1 as int, 65535, rem as int, 1_000_000);
    }
    let num: u64 = u0 * (den - rem) + u1 * rem;
    let q: u64 = num / den;
    proof {
        assert(num <= 65535 * den) by (nonlinear_arith)
            requires
                num == u0 * (den - rem) + u1 * rem,
                u0 <= 65535,
                u1 <= 65535,
                rem < den,
        ;
        vstd::arithmetic::div_mod::lemma_div_is_ordered(num as int, 65535 * (den as int), den as int);
        vstd::arithmetic::mul::lemma_mul_is_commutative(65535, den as int);
        vstd::arithmetic::div_mod::lemma_div_multiples_vanish(65535, den as int);
        assert(q <= 65535);
    }
    (q as i64 - 32768) as i16
}

/// The sample count of a mono buffer resampled from `from` to `to`:
/// `round(len * to / from)`, rounding half upward.
pub open spec fn spec_mono_out_len(len: int, from: int, to: int) -> int {
    (len * to + from / 2) / from
}

/// One output sample of the mono resampler: interpolate between the two
/// bracketing input samples, or carry the last sample when the position
/// falls on the final one.
pub open spec fn spec_mono_sample_at(samples: Seq<i16>, from: int, to: int, i: int) -> i16 {
    let idx = i * from / to;
    let rem = (i * from) % to;
    if idx + 1 < samples.len() {
        spec_lerp(samples[idx], samples[idx + 1], rem, to) as i16
    } else {
        samples[idx]
    }
}

/// The mono resampler as a function: the identity at equal rates,
/// otherwise `round(len * to / from)` interpolated samples.
pub open spec fn spec_resample_mono(samples: Seq<i16>, from: int, to: int) -> Seq<i16> {
    if from == to {
        samples
    } else {
        Seq::new(
            spec_mono_out_len(samples.len() as int, from, to) as nat,
            |i: int| spec_mono_sample_at(samples, from, to, i),
        )
    }
}

/// A source index computed for an in-range output index stays in range.
proof fn lemma_src_index_in_range(len: int, from: int, to: int, i: int)
    by (nonlinear_arith)
    requires
        1 <= from,
        1 <= to,
        0 <= i < (len * to + from / 2) / from,
    ensures
        0 <= i * from / to < len,
        (i * from) % to < to,
        i * from <= len * to + from / 2,
{
}

/// Simple linear resampling of a mono sample block to
/// `round(len * to / from)` samples; at equal rates the input passes
/// through bit for bit.
pub fn resample_linear(samples: &Vec<i16>, from_rate: u32, to_rate: u32) -> (out: Vec<i16>)
    requires
        1 <= from_rate <= 1_000_000,
        1 <= to_rate <= 1_000_000,
        samples@.len() * (to_rate as int) <= 0x4000_0000_0000,
        samples@.len() * (from_rate as int) <= 0x4000_0000_0000,
        spec_mono_out_len(samples@.len() as int, from_rate as int, to_rate as int) <= usize::MAX,
    ensures
        out@ == spec_resample_mono(samples@, from_rate as int, to_rate as int),
        from_rate == to_rate ==> out@ == samples@,
{
    if from_rate == to_rate {
        return samples.clone();
    }
    let from64: u64 = from_rate as u64;
    let to64: u64 = to_rate as u64;
    let len64: u64 = samples.len() as u64;
    let out_len64: u64 = (len64 * to64 + from64 / 2) / from64;
    let out_len: usize = out_len64 as usize;
    proof {
        assert(out_len64 <= len64 * to64 + from64 / 2) by {
            vstd::arithmetic::div_mod::lemma_div_is_ordered_by_denominator(
                (len64 * to64 + from64 / 2) as int,
                1,
                from64 as int,
            );
        }
    }
    let mut out: Vec<i16> = Vec::new();
    let mut i: usize = 0;
    while i < out_len
        invariant
            i <= out_len,
            out@.len() == i,
            from_rate != to_rate,
            1 <= from_rate <= 1_000_000,
            1 <= to_rate <= 1_000_000,
            from64 == from_rate,
            to64 == to_rate,
            len64 == samples@.len(),
            samples@.len() <= usize::MAX,
            samples@.len() * (to_rate as int) <= 0x4000_0000_0000,
            samples@.len() * (from_rate as int) <= 0x4000_0000_0000,
            out_len == spec_mono_out_len(samples@.len() as int, from_rate as int, to_rate as int),
            forall|k: int|
                0 <= k < i ==> out@[k] == spec_mono_sample_at(
                    samples@,
                    from_rate as int,
                    to_rate as int,
                    k,
                ),
        decreases out_len - i,
    {
        proof {
            lemma_src_index_in_range(
                samples@.len() as int,
                from_rate as int,
                to_rate as int,
                i as int,
            );
        }
        let pos_num: u64 = (i as u64) * from64;
        let idx64: u64 = pos_num / to64;
        let rem: u64 = pos_num % to64;
        let idx: usize = idx64 as usize;
        proof {
            assert(idx64 == (i as int * from_rate as int) / (to_rate as int));
            assert(idx64 < samples@.len());
        }
        let s: i16 = if idx + 1 < samples.len() {
            lerp_sample(samples[idx], samples[idx + 1], rem, to64)
        } else {
            samples[idx]
        };
        out.push(s);
        i += 1;
    }
    proof {
        assert(out@ =~= spec_resample_mono(samples@, from_rate as int, to_rate as int));
    }
    out
}

/// The frame count of a stereo buffer resampled from `from` to `to`:
/// `round(frames * to / from)`, rounding half upward.
pub open spec fn spec_stereo_out_frames(frames: int, from: int, to: int) -> int {
    (frames * to + from / 2) / from
}

/// One output sample of the stereo resampler at source frame `idx`,
/// channel `ch` and fraction `rem / den`: out-of-range leading access
/// yields silence, out-of-range trailing access clamps to the last
/// available sample of the channel.
pub open spec fn spec_stereo_pick(samples: Seq<i16>, idx: int, ch: int, rem: int, den: int) -> i16 {
    let s0 = if 2 * idx + ch < samples.len() {
        samples[2 * idx + ch]
    } else {
        0i16
    };
    let s1 = if 2 * (idx + 1) + ch < samples.len() {
        samples[2 * (idx + 1) + ch]
    } else {
        s0
    };
    spec_lerp(s0, s1, rem, den) as i16
}

/// One output sample of the stereo resampler at output frame `i`.
pub open spec fn spec_stereo_sample_at(samples: Seq<i16>, from: int, to: int, i: int, ch: int) -> i16 {
    spec_stereo_pick(samples, i * from / to, ch, (i * from) % to, to)
}

/// The stereo resampler as a function: the identity at equal rates,
/// otherwise the two channels interpolated independently and
/// re-interleaved.
pub open spec fn spec_resample_stereo(samples: Seq<i16>, from: int, to: int) -> Seq<i16> {
    if from == to {
        samples
    } else {
        Seq::new(
            (2 * spec_stereo_out_frames(samples.len() as int / 2, from, to)) as nat,
            |k: int| spec_stereo_sample_at(samples, from, to, k / 2, k % 2),
        )
    }
}

/// Position bounds for an in-range stereo output frame index.
proof fn lemma_stereo_src_bounds(frames: int, from: int, to: int, i: int)
    by (nonlinear_arith)
    requires
        1 <= from <= 1_000_000,
        1 <= to <= 1_000_000,
        0 <= frames,
        0 <= i < (frames * to + from / 2) / from,
    ensures
        i * from <= frames * to + from / 2,
        0 <= i * from / to <= frames * to + from / 2,
        (i * from) % to < to,
{
}

/// Fetch and interpolate one channel sample at a clamped source index.
fn stereo_sample(samples: &Vec<i16>, idx64: u64, ch: u64, rem: u64, den: u64) -> (s: i16)
    requires
        1 <= den <= 1_000_000,
        rem < den,
        ch < 2,
        idx64 <= 0x7fff_ffff_ffff,
        samples@.len() <= usize::MAX,
    ensures
        s == spec_stereo_pick(samples@, idx64 as int, ch as int, rem as int, den as int),
{
    let len64: u64 = samples.len() as u64;
    let p0: u64 = 2 * idx64 + ch;
    let p1: u64 = 2 * (idx64 + 1) + ch;
    let s0: i16 = if p0 < len64 {
        samples[p0 as usize]
    } else {
        0
    };
    let s1: i16 = if p1 < len64 {
        samples[p1 as usize]
    } else {
        s0
    };
    let s = lerp_sample(s0, s1, rem, den);
    proof {
        assert(s as int == spec_lerp(s0, s1, rem as int, den as int));
        assert(s == spec_stereo_pick(samples@, idx64 as int, ch as int, rem as int, den as int));
    }
    s
}

/// Linear resampling of an interleaved stereo sample block: each channel
/// is interpolated independently and the result re-interleaved; at equal
/// rates the input passes through bit for bit.
pub fn resample_linear_stereo(samples: &Vec<i16>, from_rate: u32, to_rate: u32) -> (out: Vec<i16>)
    requires
        1 <= from_rate <= 1_000_000,
        1 <= to_rate <= 1_000_000,
        samples@.len() * (to_rate as int) <= 0x4000_0000_0000,
        2 * spec_stereo_out_frames(
            samples@.len() as int / 2,
            from_rate as int,
            to_rate as int,
        ) <= usize::MAX,
    ensures
        out@ == spec_resample_stereo(samples@, from_rate as int, to_rate as int),
        from_rate == to_rate ==> out@ == samples@,
{
    if from_rate == to_rate {
        return samples.clone();
    }
    let from64: u64 = from_rate as u64;
    let to64: u64 = to_rate as u64;
    let len64: u64 = samples.len() as u64;
    let frames64: u64 = len64 / 2;
    proof {
        vstd::arithmetic::mul::lemma_mul_inequality(
            frames64 as int,
            samples@.len() as int,
            to_rate as int,
        );
    }
    let out_frames64: u64 = (frames64 * to64 + from64 / 2) / from64;
    let out_frames: usize = out_frames64 as usize;
    let ghost gfrom = from_rate as int;
    let ghost gto = to_rate as int;
    let mut out: Vec<i16> = Vec::new();
    let mut i: usize = 0;
    while i < out_frames
        invariant
            i <= out_frames,
            out@.len() == 2 * i,
            from_rate != to_rate,
            1 <= from_rate <= 1_000_000,
            1 <= to_rate <= 1_000_000,
            gfrom == from_rate as int,
            gto == to_rate as int,
            from64 == from_rate,
            to64 == to_rate,
            len64 == samples@.len(),
            frames64 == samples@.len() as int / 2,
            samples@.len() <= usize::MAX,
            samples@.len() * (to_rate as int) <= 0x4000_0000_0000,
            out_frames == spec_stereo_out_frames(samples@.len() as int / 2, gfrom, gto),
            2 * out_frames <= usize::MAX,
            forall|k: int|
                0 <= k < out@.len() ==> out@[k] == spec_stereo_sample_at(
                    samples@,
                    gfrom,
                    gto,
                    k / 2,
                    k % 2,
                ),
        decreases out_frames - i,
    {
        proof {
            lemma_stereo_src_bounds(frames64 as int, gfrom, gto, i as int);
            vstd::arithmetic::mul::lemma_mul_inequality(
                frames64 as int,
                samples@.len() as int,
                to_rate as int,
            );
        }
        let pos_num: u64 = (i as u64) * from64;
        let idx64: u64 = pos_num / to64;
        let rem: u64 = pos_num % to64;
        let s_left = stereo_sample(samples, idx64, 0, rem, to64);
        let s_right = stereo_sample(samples, idx64, 1, rem, to64);
        out.push(s_left);
        out.push(s_right);
        proof {
            let k0 = 2 * i as int;
            let k1 = 2 * i as int + 1;
            assert(k0 / 2 == i as int && k0 % 2 == 0) by (nonlinear_arith)
                requires
                    k0 == 2 * i as int,
            ;
            assert(k1 / 2 == i as int && k1 % 2 == 1) by (nonlinear_arith)
                requires
                    k1 == 2 * i as int + 1,
            ;
            assert(idx64 as int == (i as int * gfrom) / gto);
            assert(rem as int == (i as int * gfrom) % gto);
            assert(out@[k0] == spec_stereo_sample_at(samples@, gfrom, gto, k0 / 2, k0 % 2));
            assert(out@[k1] == spec_stereo_sample_at(samples@, gfrom, gto, k1 / 2, k1 % 2));
        }
        i += 1;
    }
    proof {
        assert(out@ =~= spec_resample_stereo(samples@, gfrom, gto));
    }
    out
}

// ------------------------------------------------------------------
// Down-mixing to mono.
// ------------------------------------------------------------------

/// The sum of `count` samples starting at `base`, each shifted by 32768
/// into the non-negative range.
pub open spec fn spec_sum_shifted(samples: Seq<i16>, base: int, count: int) -> int
    decreases count,
{
    if count <= 0 {
        0
    } else {
        (samples[base] as int + 32768) + spec_sum_shifted(samples, base + 1, count - 1)
    }
}

proof fn lemma_sum_shifted_extend(samples: Seq<i16>, base: int, count: int)
    requires
        0 <= count,
    ensures
        spec_sum_shifted(samples, base, count + 1) == spec_sum_shifted(samples, base, count) + (
        samples[base + count] as int + 32768),
    decreases count,
{
    reveal_with_fuel(spec_sum_shifted, 3);
    if count > 0 {
        lemma_sum_shifted_extend(samples, base + 1, count - 1);
    }
}

proof fn lemma_sum_shifted_bound(samples: Seq<i16>, base: int, count: int)
    requires
        0 <= count,
        0 <= base,
        base + count <= samples.len(),
    ensures
        0 <= spec_sum_shifted(samples, base, count) <= 65535 * count,
    decreases count,
{
    if count > 0 {
        lemma_sum_shifted_bound(samples, base + 1, count - 1);
        assert(65535 * count == 65535 * (count - 1) + 65535) by (nonlinear_arith);
    }
}

/// One mono sample: the arithmetic mean of a chunk of `channels` samples,
/// computed over the shifted representation with floor division.
pub open spec fn spec_downmix_at(samples: Seq<i16>, channels: int, i: int) -> i16 {
    (spec_sum_shifted(samples, i * channels, channels) / channels - 32768) as i16
}

/// Down-mixing as a function: one mean sample per frame of `channels`.
pub open spec fn spec_downmix(samples: Seq<i16>, channels: int) -> Seq<i16> {
    Seq::new(
        (samples.len() as int / channels) as nat,
        |i: int| spec_downmix_at(samples, channels, i),
    )
}

/// Down-mix an interleaved multi-channel block to mono by taking the
/// arithmetic mean across the channels of each frame.
pub fn downmix_mono(samples: &Vec<i16>, channels: usize) -> (out: Vec<i16>)
    requires
        1 <= channels <= 256,
        samples@.len() as int % (channels as int) == 0,
    ensures
        out@ == spec_downmix(samples@, channels as int),
        out@.len() == samples@.len() as int / (channels as int),
{
    let out_len = samples.len() / channels;
    proof {
        vstd::arithmetic::div_mod::lemma_remainder_lower(
            samples@.len() as int,
            channels as int,
        );
    }
    let mut out: Vec<i16> = Vec::new();
    let mut i: usize = 0;
    while i < out_len
        invariant
            i <= out_len,
            out@.len() == i,
            1 <= channels <= 256,
            samples@.len() <= usize::MAX,
            out_len == samples@.len() as int / (channels as int),
            out_len * channels <= samples@.len(),
            forall|k: int| 0 <= k < i ==> out@[k] == spec_downmix_at(samples@, channels as int, k),
        decreases out_len - i,
    {
        proof {
            vstd::arithmetic::mul::lemma_mul_inequality(
                i + 1,
                out_len as int,
                channels as int,
            );
            assert((i + 1) * (channels as int) == i * (channels as int) + channels)
                by (nonlinear_arith);
        }
        let base = i * channels;
        let mut sum: u64 = 0;
        let mut ch: usize = 0;
        while ch < channels
            invariant
                ch <= channels,
                1 <= channels <= 256,
                base == i * (channels as int),
                base + channels <= samples@.len(),
                samples@.len() <= usize::MAX,
                sum == spec_sum_shifted(samples@, base as int, ch as int),
                sum <= 65535 * ch,
            decreases channels - ch,
        {
            proof {
                lemma_sum_shifted_extend(samples@, base as int, ch as int);
                assert(65535 * (ch + 1) == 65535 * ch + 65535) by (nonlinear_arith);
            }
            sum = sum + ((samples[base + ch] as i64 + 32768) as u64);
            ch += 1;
        }
        let q: u64 = sum / (channels as u64);
        proof {
            lemma_sum_shifted_bound(samples@, base as int, channels as int);
            vstd::arithmetic::div_mod::lemma_div_is_ordered(
                sum as int,
                65535 * (channels as int),
                channels as int,
            );
            vstd::arithmetic::mul::lemma_mul_is_commutative(65535, channels as int);
            vstd::arithmetic::div_mod::lemma_div_multiples_vanish(65535, channels as int);
            assert(q <= 65535);
        }
        out.push((q as i64 - 32768) as i16);
        i += 1;
    }
    proof {
        assert(out@ =~= spec_downmix(samples@, channels as int));
    }
    out
}

// ------------------------------------------------------------------
// The capture accumulation buffer.
// ------------------------------------------------------------------

/// The per-stream accumulation buffer of the capture callback: resampled
/// samples are appended, and whole codec frames of `samples_per_frame`
/// samples are drained off its front.
pub struct CaptureAccumulator {
    buffer: Vec<i16>,
    samples_per_frame: usize,
}

impl CaptureAccumulator {
    /// The samples currently held back, waiting to fill a frame.
    pub closed spec fn spec_buffer(&self) -> Seq<i16> {
        self.buffer@
    }

    /// The fixed frame length this accumulator drains.
    pub closed spec fn spec_samples_per_frame(&self) -> int {
        self.samples_per_frame as int
    }

    /// The buffer never retains a full frame.
    pub open spec fn well_formed(&self) -> bool {
        &&& 1 <= self.spec_samples_per_frame()
        &&& self.spec_buffer().len() < self.spec_samples_per_frame()
    }

    /// A fresh, empty accumulator for the given frame length.
    pub fn new(samples_per_frame: usize) -> (acc: CaptureAccumulator)
        requires
            1 <= samples_per_frame,
        ensures
            acc.well_formed(),
            acc.spec_buffer() == Seq::<i16>::empty(),
            acc.spec_samples_per_frame() == samples_per_frame as int,
    {
        let acc = CaptureAccumulator { buffer: Vec::new(), samples_per_frame };
        proof {
            assert(acc.spec_buffer() =~= Seq::<i16>::empty());
        }
        acc
    }

    /// Append a block of samples and drain every full frame, in order:
    /// the held-back samples followed by the new block split into frames,
    /// with the remainder (less than one frame) retained.
    pub fn push_samples(&mut self, sampled: &Vec<i16>) -> (frames: Vec<Vec<i16>>)
        requires
            old(self).well_formed(),
            old(self).spec_buffer().len() + sampled@.len() <= usize::MAX,
        ensures
            final(self).well_formed(),
            final(self).spec_samples_per_frame() == old(self).spec_samples_per_frame(),
            ({
                let combined = old(self).spec_buffer() + sampled@;
                let spf = old(self).spec_samples_per_frame();
                let n = combined.len() as int / spf;
                &&& frames@.len() == n
                &&& forall|j: int|
                    0 <= j < n ==> (#[trigger] frames@[j])@ == combined.subrange(
                        j * spf,
                        (j + 1) * spf,
                    )
                &&& final(self).spec_buffer() == combined.subrange(n * spf, combined.len() as int)
            }),
    {
        let ghost combined = self.buffer@ + sampled@;
        let mut k: usize = 0;
        while k < sampled.len()
            invariant
                k <= sampled@.len(),
                self.buffer@.len() == old(self).spec_buffer().len() + k,
                self.buffer@ == old(self).spec_buffer() + sampled@.subrange(0, k as int),
                self.samples_per_frame == old(self).samples_per_frame,
                old(self).spec_buffer().len() + sampled@.len() <= usize::MAX,
                combined == old(self).spec_buffer() + sampled@,
            decreases sampled@.len() - k,
        {
            self.buffer.push(sampled[k]);
            proof {
                assert(self.buffer@ =~= old(self).spec_buffer() + sampled@.subrange(
                    0,
                    k as int + 1,
                ));
            }
            k += 1;
        }
        proof {
            assert(sampled@.subrange(0, sampled@.len() as int) =~= sampled@);
            assert(self.buffer@ == combined);
        }
        let spf = self.samples_per_frame;
        let total = self.buffer.len();
        let n = total / spf;
        proof {
            vstd::arithmetic::div_mod::lemma_remainder_lower(total as int, spf as int);
            vstd::arithmetic::div_mod::lemma_remainder(total as int, spf as int);
        }
        let mut frames: Vec<Vec<i16>> = Vec::new();
        let mut j: usize = 0;
        while j < n
            invariant
                j <= n,
                frames@.len() == j,
                self.buffer@ == combined,
                self.samples_per_frame == old(self).samples_per_frame,
                spf == self.samples_per_frame,
                1 <= spf,
                total == combined.len(),
                total <= usize::MAX,
                n == combined.len() as int / (spf as int),
                n * spf <= total,
                forall|t: int|
                    0 <= t < j ==> (#[trigger] frames@[t])@ == combined.subrange(
                        t * (spf as int),
                        (t + 1) * (spf as int),
                    ),
            decreases n - j,
        {
            proof {
                vstd::arithmetic::mul::lemma_mul_inequality(j + 1, n as int, spf as int);
                assert((j + 1) * (spf as int) == j * (spf as int) + spf) by (nonlinear_arith);
            }
            let start = j * spf;
            let frame = vstd::slice::slice_to_vec(
                vstd::slice::slice_subrange(self.buffer.as_slice(), start, start + spf),
            );
            frames.push(frame);
            j += 1;
        }
        let rest = vstd::slice::slice_to_vec(
            vstd::slice::slice_subrange(self.buffer.as_slice(), n * spf, total),
        );
        self.buffer = rest;
        frames
    }
}

// ------------------------------------------------------------------
// Input-device selection.
// ------------------------------------------------------------------

/// The position of the first device name equal to `target`, if any; the
/// embedding application lists the device names and performs the switch.
pub fn find_device_index(names: &Vec<String>, target: &String) -> (r: Option<usize>)
    ensures
        r matches Some(i) ==> {
            &&& i < names@.len()
            &&& names@[i as int]@ == target@
            &&& forall|j: int| 0 <= j < i ==> names@[j]@ != target@
        },
        r is None ==> forall|j: int| 0 <= j < names@.len() ==> names@[j]@ != target@,
{
    let mut i: usize = 0;
    while i < names.len()
        invariant
            i <= names@.len(),
            forall|j: int| 0 <= j < i ==> names@[j]@ != target@,
        decreases names@.len() - i,
    {
        if names[i].eq(target) {
            return Some(i);
        }
        i += 1;
    }
    None
}

// ------------------------------------------------------------------
// The capture callback's compute step.
// ------------------------------------------------------------------

/// The codec frame length in frames per channel: 10 ms at 48 kHz.
pub const OPUS_FRAME_SIZE: usize = 480;

/// Numeric bounds for one capture block: everything the resampling and
/// down-mixing of a device callback block can produce stays well inside
/// the machine's integer ranges.
proof fn lemma_capture_bounds(len: int, channels: int, rate: int)
    requires
        0 <= len <= 0x0100_0000,
        1 <= channels <= 64,
        8000 <= rate <= 384_000,
    ensures
        len * (48000 as int) <= 0x4000_0000_0000,
        len * rate <= 0x4000_0000_0000,
        2 * spec_stereo_out_frames(len / 2, rate, 48000) <= 0x7fff_ffff,
        0 <= len / channels <= len,
        (len / channels) * (16000 as int) <= 0x4000_0000_0000,
        (len / channels) * rate <= 0x4000_0000_0000,
        spec_mono_out_len(len / channels, rate, 16000) <= 0x7fff_ffff,
{
    vstd::arithmetic::mul::lemma_mul_upper_bound(len, 0x0100_0000, rate, 384_000);
    vstd::arithmetic::div_mod::lemma_div_pos_is_pos(len, channels);
    vstd::arithmetic::div_mod::lemma_div_is_ordered_by_denominator(len, 1, channels);
    assert(len / 1 == len) by (nonlinear_arith);
    let len2 = len / channels;
    vstd::arithmetic::mul::lemma_mul_upper_bound(len2, 0x0100_0000, rate, 384_000);
    assert(len2 * (16000 as int) <= 0x0100_0000 * 16000) by (nonlinear_arith)
        requires
            0 <= len2 <= 0x0100_0000,
    ;
    assert(len * (48000 as int) <= 0x0100_0000 * 48000) by (nonlinear_arith)
        requires
            0 <= len <= 0x0100_0000,
    ;
    // The mono output count: at most about twice the block length.
    vstd::arithmetic::div_mod::lemma_div_pos_is_pos(len2 * 16000 + rate / 2, rate);
    vstd::arithmetic::div_mod::lemma_div_is_ordered_by_denominator(
        len2 * 16000 + rate / 2,
        8000,
        rate,
    );
    vstd::arithmetic::div_mod::lemma_div_is_ordered(
        len2 * 16000 + rate / 2,
        (0x0100_0000 * 16000 + 192_000) as int,
        8000,
    );
    // The stereo output frame count.
    vstd::arithmetic::div_mod::lemma_div_is_ordered(rate, 384_000, 2);
    assert((len / 2) * (48000 as int) <= 0x0080_0000 * 48000) by (nonlinear_arith)
        requires
            0 <= len / 2 <= 0x0080_0000,
    ;
    vstd::arithmetic::div_mod::lemma_div_pos_is_pos((len / 2) * 48000 + rate / 2, rate);
    vstd::arithmetic::div_mod::lemma_div_is_ordered_by_denominator(
        (len / 2) * 48000 + rate / 2,
        8000,
        rate,
    );
    vstd::arithmetic::div_mod::lemma_div_is_ordered(
        (len / 2) * 48000 + rate / 2,
        (0x0080_0000 * 48000 + 192_000) as int,
        8000,
    );
}

/// One capture-callback step on plain values, mirroring the real-time
/// stream callback: resample the device block to the codec rate and drain
/// whole codec frames through the accumulator for encoding, and
/// independently down-mix the block to mono and resample it to the
/// transcription rate of 16 kHz.
pub fn process_capture_block(
    acc: &mut CaptureAccumulator,
    data: &Vec<i16>,
    channels: usize,
    sample_rate: u32,
) -> (r: (Vec<Vec<i16>>, Vec<i16>))
    requires
        1 <= channels <= 64,
        data@.len() as int % (channels as int) == 0,
        8000 <= sample_rate <= 384_000,
        data@.len() <= 0x0100_0000,
        old(acc).well_formed(),
        old(acc).spec_samples_per_frame() == 480 * channels,
    ensures
        final(acc).well_formed(),
        final(acc).spec_samples_per_frame() == old(acc).spec_samples_per_frame(),
        ({
            let sampled = spec_resample_stereo(data@, sample_rate as int, 48000);
            let combined = old(acc).spec_buffer() + sampled;
            let spf = old(acc).spec_samples_per_frame();
            let n = combined.len() as int / spf;
            &&& r.0@.len() == n
            &&& forall|j: int|
                0 <= j < n ==> (#[trigger] r.0@[j])@ == combined.subrange(j * spf, (j + 1) * spf)
            &&& final(acc).spec_buffer() == combined.subrange(n * spf, combined.len() as int)
        }),
        r.1@ == spec_resample_mono(spec_downmix(data@, channels as int), sample_rate as int, 16000),
{
    proof {
        lemma_capture_bounds(data@.len() as int, channels as int, sample_rate as int);
    }
    let sampled = resample_linear_stereo(data, sample_rate, 48000);
    let frames = acc.push_samples(&sampled);
    let mono = downmix_mono(data, channels);
    let voice = resample_linear(&mono, sample_rate, 16000);
    (frames, voice)
}

} // verus!
