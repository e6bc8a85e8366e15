//! Spectral analysis: the dominant bin of a magnitude spectrum and the
//! frequency that a bin stands for.

use vstd::prelude::*;
use crate::config::Config;

verus! {

/// The analysis frame of the samples `span` of `samples`: those samples,
/// followed by zeros up to `fft_size`.
pub open spec fn frame_of(samples: Seq<i16>, start: int, len: int, fft_size: int) -> Seq<i16> {
    Seq::new(fft_size as nat, |j: int| if j < len { samples[start + j] } else { 0i16 })
}

/// Copies `len` samples from `start` on into a frame of `fft_size` samples,
/// padding a short frame with zeros.
pub fn frame_samples(samples: &Vec<i16>, start: usize, len: usize, fft_size: usize) -> (frame: Vec<i16>)
    requires
        start + len <= samples.len(),
        len <= fft_size,
    ensures
        frame@ == frame_of(samples@, start as int, len as int, fft_size as int),
{
    let mut frame: Vec<i16> = Vec::new();
    let mut j: usize = 0;
    while j < fft_size
        invariant
            start + len <= samples.len(),
            len <= fft_size,
            j <= fft_size,
            frame.len() == j,
            forall|t: int| 0 <= t < j ==> frame[t] == (if t < len { samples[start + t] } else { 0i16 }),
        decreases fft_size - j,
    {
        let value: i16 = if j < len { samples[start + j] } else { 0 };
        frame.push(value);
        j = j + 1;
    }
    assert(frame@ =~= frame_of(samples@, start as int, len as int, fft_size as int));
    frame
}

/// `k` is the dominant bin of `magnitudes`: no bin is greater, and every
/// earlier bin is strictly smaller.
pub open spec fn is_dominant(magnitudes: Seq<u32>, k: int) -> bool {
    &&& 0 <= k < magnitudes.len()
    &&& forall|j: int| 0 <= j < magnitudes.len() ==> magnitudes[j] <= magnitudes[k]
    &&& forall|j: int| 0 <= j < k ==> magnitudes[j] < magnitudes[k]
}

/// The dominant bin of a spectrum, and 0 for an empty one.
pub open spec fn dominant(magnitudes: Seq<u32>) -> int {
    if magnitudes.len() == 0 {
        0
    } else {
        choose|k: int| is_dominant(magnitudes, k)
    }
}

/// A spectrum has at most one dominant bin.
pub proof fn lemma_dominant_unique(magnitudes: Seq<u32>, a: int, b: int)
    requires
        is_dominant(magnitudes, a),
        is_dominant(magnitudes, b),
    ensures
        a == b,
{
    if a < b {
        assert(magnitudes[a] < magnitudes[b]);
    } else if b < a {
        assert(magnitudes[b] < magnitudes[a]);
    }
}

/// Every spectrum that is not empty has a dominant bin.
pub proof fn lemma_dominant_exists(magnitudes: Seq<u32>)
    requires
        magnitudes.len() > 0,
    ensures
        is_dominant(magnitudes, dominant(magnitudes)),
    decreases magnitudes.len(),
{
    if magnitudes.len() == 1 {
        assert(is_dominant(magnitudes, 0));
    } else {
        let front = magnitudes.drop_last();
        lemma_dominant_exists(front);
        let b = dominant(front);
        let last = magnitudes.len() - 1;
        if magnitudes[last] > magnitudes[b] {
            assert forall|j: int| 0 <= j < magnitudes.len() implies magnitudes[j] <= magnitudes[last] by {
                if j < last {
                    assert(front[j] <= front[b]);
                }
            }
            assert forall|j: int| 0 <= j < last implies magnitudes[j] < magnitudes[last] by {
                assert(front[j] <= front[b]);
            }
            assert(is_dominant(magnitudes, last));
        } else {
            assert forall|j: int| 0 <= j < magnitudes.len() implies magnitudes[j] <= magnitudes[b] by {
                if j < last {
                    assert(front[j] <= front[b]);
                }
            }
            assert forall|j: int| 0 <= j < b implies magnitudes[j] < magnitudes[b] by {
                assert(front[j] < front[b]);
            }
            assert(is_dominant(magnitudes, b));
        }
    }
}

/// Index of the greatest magnitude, the lowest such index where several
/// bins share it. Magnitudes are given as keys that order as they do.
pub fn dominant_bin(magnitudes: &Vec<u32>) -> (k: usize)
    ensures
        k as int == dominant(magnitudes@),
        magnitudes.len() == 0 ==> k == 0,
        magnitudes.len() > 0 ==> is_dominant(magnitudes@, k as int),
{
    let n: usize = magnitudes.len();
    if n == 0 {
        return 0;
    }
    let mut best: usize = 0;
    let mut i: usize = 1;
    while i < n
        invariant
            n == magnitudes.len(),
            1 <= i <= n,
            is_dominant(magnitudes@.subrange(0, i as int), best as int),
        decreases n - i,
    {
        let ghost before = magnitudes@.subrange(0, i as int);
        let ghost after = magnitudes@.subrange(0, i + 1);
        let old_best: usize = best;
        if magnitudes[i] > magnitudes[best] {
            best = i;
        }
        proof {
            assert forall|j: int| 0 <= j < after.len() implies after[j] <= after[best as int] by {
                if j < i {
                    assert(before[j] <= before[old_best as int]);
                }
            }
            assert forall|j: int| 0 <= j < best implies after[j] < after[best as int] by {
                if best == old_best {
                    assert(before[j] < before[old_best as int]);
                } else {
                    assert(before[j] <= before[old_best as int]);
                }
            }
        }
        i = i + 1;
    }
    proof {
        assert(magnitudes@.subrange(0, n as int) =~= magnitudes@);
        let c = dominant(magnitudes@);
        lemma_dominant_unique(magnitudes@, best as int, c);
    }
    best
}

/// The frequency of bin `k` lies within the retained band: the exact value
/// `k * sample_rate / fft_size` hertz is neither below the floor nor above
/// the ceiling.
pub open spec fn bin_in_band(cfg: Config, k: int) -> bool {
    cfg.floor_hz * cfg.fft_size <= k * cfg.sample_rate <= cfg.ceiling_hz * cfg.fft_size
}

/// The frequency of bin `k` in millihertz, rounded down.
pub open spec fn bin_millihertz(cfg: Config, k: int) -> int {
    (k * cfg.sample_rate * 1000) / (cfg.fft_size as int)
}

/// Decides whether the frequency of bin `k` is retained.
pub fn in_band(cfg: &Config, k: usize) -> (keep: bool)
    requires
        cfg.wf(),
    ensures
        keep == bin_in_band(*cfg, k as int),
{
    let size: u128 = cfg.fft_size as u128;
    let rate: u128 = cfg.sample_rate as u128;
    let low: u128 = cfg.floor_hz as u128;
    let high: u128 = cfg.ceiling_hz as u128;
    let bin: u128 = k as u128;
    assert(bin * rate <= 0xFFFF_FFFF_FFFF_FFFF * 0xFFFF_FFFF) by (nonlinear_arith)
        requires
            0 <= bin <= 0xFFFF_FFFF_FFFF_FFFF,
            0 <= rate <= 0xFFFF_FFFF,
    ;
    assert(low * size <= 0xFFFF_FFFF * 0xFFFF_FFFF) by (nonlinear_arith)
        requires
            0 <= low <= 0xFFFF_FFFF,
            0 <= size <= 0xFFFF_FFFF,
    ;
    assert(high * size <= 0xFFFF_FFFF * 0xFFFF_FFFF) by (nonlinear_arith)
        requires
            0 <= high <= 0xFFFF_FFFF,
            0 <= size <= 0xFFFF_FFFF,
    ;
    let scaled: u128 = bin * rate;
    low * size <= scaled && scaled <= high * size
}

/// Converts a bin index to its frequency in millihertz, rounded down.
pub fn bin_frequency(cfg: &Config, k: usize) -> (millihertz: u64)
    requires
        cfg.wf(),
        k < cfg.fft_size,
    ensures
        millihertz as int == bin_millihertz(*cfg, k as int),
        millihertz < cfg.sample_rate * 1000,
{
    let size: u128 = cfg.fft_size as u128;
    let rate: u128 = cfg.sample_rate as u128;
    let bin: u128 = k as u128;
    assert(bin * rate <= 0xFFFF_FFFF * 0xFFFF_FFFF) by (nonlinear_arith)
        requires
            0 <= bin <= 0xFFFF_FFFF,
            0 <= rate <= 0xFFFF_FFFF,
    ;
    let scaled: u128 = bin * rate * 1000;
    let q: u128 = scaled / size;
    proof {
        assert(scaled < size * (rate * 1000)) by (nonlinear_arith)
            requires
                scaled == bin * rate * 1000,
                bin < size,
                rate > 0,
        ;
        assert(q < rate * 1000) by (nonlinear_arith)
            requires
                q == scaled / size,
                0 <= scaled < size * (rate * 1000),
                size > 0,
        ;
    }
    q as u64
}

} // verus!
