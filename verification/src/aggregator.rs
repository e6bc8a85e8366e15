//! Pitch aggregation: windows, frames, and the one pitch of a window.

use vstd::prelude::*;
use crate::analyzer::{bin_in_band, in_band};
use crate::config::{Config, MAX_SPAN};

verus! {

/// A contiguous run of samples of the stream.
#[derive(Clone, Copy, Debug, PartialEq, Eq, Structural)]
pub struct Span {
    /// Index of the first sample.
    pub start: usize,
    /// Number of samples, never 0.
    pub len: usize,
}

/// A stable pitch estimate and the number of samples that it spans.
#[derive(Clone, Copy, Debug, PartialEq, Eq, Structural)]
pub struct PitchEvent {
    /// Frequency in millihertz.
    pub millihertz: u64,
    /// Duration in samples at the configured sample rate.
    pub samples: usize,
}

/// The `i`-th of the consecutive spans of `size` samples that a stream of
/// `total` samples is cut into: the last one holds what is left.
pub open spec fn span_at(total: int, size: int, i: int) -> Span {
    Span {
        start: (i * size) as usize,
        len: (if total - i * size < size { total - i * size } else { size }) as usize,
    }
}

/// `n` spans of `size` samples are just enough to hold `total` samples.
pub open spec fn span_count_is(total: int, size: int, n: int) -> bool {
    &&& 0 <= n
    &&& total <= n * size
    &&& n > 0 ==> (n - 1) * size < total
}

/// The spans of a stream follow one another without a gap: the first
/// starts at 0, each ends where the next starts, and the last ends with
/// the stream.
pub proof fn lemma_spans_tile(total: usize, size: usize, n: int, i: int)
    requires
        size > 0,
        span_count_is(total as int, size as int, n),
        0 <= i < n,
    ensures
        span_at(total as int, size as int, 0).start == 0,
        span_at(total as int, size as int, i).len > 0,
        i < n - 1 ==> span_at(total as int, size as int, i).start + span_at(total as int, size as int, i).len
            == span_at(total as int, size as int, i + 1).start,
        i == n - 1 ==> span_at(total as int, size as int, i).start + span_at(total as int, size as int, i).len
            == total,
{
    assert(0 <= i * size && (i + 1) * size == i * size + size && (i + 1) * size <= (n - 1) * size
        || i == n - 1) by (nonlinear_arith)
        requires
            0 <= i < n,
            size > 0,
    ;
    assert(0 <= i * size <= (n - 1) * size) by (nonlinear_arith)
        requires
            0 <= i < n,
            size > 0,
    ;
    assert(0 * size == 0) by (nonlinear_arith);
    assert(n * size == (n - 1) * size + size) by (nonlinear_arith);
}

/// Total length of the first `n` spans of a stream.
pub open spec fn spans_length(total: int, size: int, n: int) -> int
    decreases n,
{
    if n <= 0 {
        0
    } else {
        spans_length(total, size, n - 1) + span_at(total, size, n - 1).len
    }
}

/// The spans of a stream hold every sample once: their lengths add up to
/// the length of the stream.
pub proof fn lemma_spans_length(total: usize, size: usize, n: int)
    requires
        size > 0,
        span_count_is(total as int, size as int, n),
    ensures
        spans_length(total as int, size as int, n) == total,
{
    if n > 0 {
        lemma_full_spans_length(total, size, n - 1);
        lemma_spans_tile(total, size, n, n - 1);
    }
}

/// Spans that are followed by another are full: the first `k` of them hold
/// `k * size` samples.
pub proof fn lemma_full_spans_length(total: usize, size: usize, k: int)
    requires
        size > 0,
        0 <= k,
        k * size < total,
    ensures
        spans_length(total as int, size as int, k) == k * size,
    decreases k,
{
    if k > 0 {
        assert((k - 1) * size + size == k * size) by (nonlinear_arith);
        assert(0 <= (k - 1) * size) by (nonlinear_arith)
            requires
                k >= 1,
                size > 0,
        ;
        lemma_full_spans_length(total, size, k - 1);
    } else {
        assert(0 * size == 0) by (nonlinear_arith);
    }
}

/// Cuts a stream of `total` samples into consecutive spans of `size`
/// samples. The last span is shorter where `size` does not divide `total`;
/// an empty stream has no span.
pub fn chunk_spans(total: usize, size: usize) -> (spans: Vec<Span>)
    requires
        size > 0,
    ensures
        span_count_is(total as int, size as int, spans.len() as int),
        forall|i: int| 0 <= i < spans.len() ==> spans[i] == span_at(total as int, size as int, i),
        forall|i: int| 0 <= i < spans.len() ==> 0 < #[trigger] spans[i].len <= size
            && spans[i].start + spans[i].len <= total,
{
    let mut spans: Vec<Span> = Vec::new();
    let mut start: usize = 0;
    assert(spans.len() * size == 0) by (nonlinear_arith)
        requires
            spans.len() == 0,
    ;
    while start < total
        invariant
            size > 0,
            start <= total,
            start == total ==> span_count_is(total as int, size as int, spans.len() as int),
            start < total ==> start == spans.len() * size,
            forall|i: int| 0 <= i < spans.len() ==> spans[i] == span_at(total as int, size as int, i),
            forall|i: int| 0 <= i < spans.len() ==> 0 < #[trigger] spans[i].len <= size
                && spans[i].start + spans[i].len <= total,
        decreases total - start,
    {
        let left: usize = total - start;
        let len: usize = if left < size { left } else { size };
        let ghost n = spans.len() as int;
        spans.push(Span { start, len });
        proof {
            assert((n + 1) * size == n * size + size) by (nonlinear_arith);
            assert((n + 1 - 1) * size == n * size) by (nonlinear_arith);
        }
        start = start + len;
    }
    spans
}

/// An aggregate window of the stream and its analysis frames, each placed
/// in the stream.
#[derive(Clone, Debug, PartialEq, Eq)]
pub struct WindowFrames {
    /// The window.
    pub window: Span,
    /// The frames of the window, in order.
    pub frames: Vec<Span>,
}

/// The `f`-th frame of the `w`-th window of a stream of `total` samples,
/// with its start counted from the start of the stream.
pub open spec fn frame_at(cfg: Config, total: int, w: int, f: int) -> Span {
    let window = span_at(total, cfg.aggregate_size as int, w);
    let inner = span_at(window.len as int, cfg.fft_size as int, f);
    Span { start: (window.start + inner.start) as usize, len: inner.len }
}

/// `item` is the `w`-th window of a stream of `total` samples with all its
/// frames: as many as hold the window, each where `frame_at` says, none
/// empty, none longer than a frame, and all within the stream.
pub open spec fn is_window_frames(cfg: Config, total: int, w: int, item: WindowFrames) -> bool {
    &&& item.window == span_at(total, cfg.aggregate_size as int, w)
    &&& span_count_is(item.window.len as int, cfg.fft_size as int, item.frames@.len() as int)
    &&& forall|f: int|
        0 <= f < item.frames@.len() ==> {
            &&& (#[trigger] item.frames@[f]) == frame_at(cfg, total, w, f)
            &&& 0 < item.frames@[f].len <= cfg.fft_size
            &&& item.frames@[f].start + item.frames@[f].len <= total
        }
}

/// Lays a stream of `total` samples out in aggregate windows and each
/// window in analysis frames.
pub fn window_frames(cfg: &Config, total: usize) -> (layout: Vec<WindowFrames>)
    requires
        cfg.wf(),
    ensures
        span_count_is(total as int, cfg.aggregate_size as int, layout.len() as int),
        forall|w: int| 0 <= w < layout.len() ==> is_window_frames(*cfg, total as int, w, #[trigger] layout[w]),
{
    let windows: Vec<Span> = chunk_spans(total, cfg.aggregate_size);
    let mut layout: Vec<WindowFrames> = Vec::new();
    let mut w: usize = 0;
    while w < windows.len()
        invariant
            cfg.wf(),
            w <= windows.len(),
            layout.len() == w,
            forall|i: int| 0 <= i < windows.len() ==> windows[i] == span_at(total as int, cfg.aggregate_size as int, i),
            forall|i: int| 0 <= i < windows.len() ==> 0 < #[trigger] windows[i].len <= cfg.aggregate_size
                && windows[i].start + windows[i].len <= total,
            forall|v: int| 0 <= v < w ==> is_window_frames(*cfg, total as int, v, #[trigger] layout[v]),
        decreases windows.len() - w,
    {
        let window: Span = windows[w];
        assert(0 < windows[w as int].len);
        let inner: Vec<Span> = chunk_spans(window.len, cfg.fft_size);
        let mut frames: Vec<Span> = Vec::new();
        let mut f: usize = 0;
        while f < inner.len()
            invariant
                f <= inner.len(),
                frames.len() == f,
                window == span_at(total as int, cfg.aggregate_size as int, w as int),
                window.start + window.len <= total,
                forall|i: int| 0 <= i < inner.len() ==> inner[i] == span_at(window.len as int, cfg.fft_size as int, i),
                forall|i: int| 0 <= i < inner.len() ==> 0 < #[trigger] inner[i].len <= cfg.fft_size
                    && inner[i].start + inner[i].len <= window.len,
                forall|g: int|
                    0 <= g < f ==> {
                        &&& (#[trigger] frames@[g]) == frame_at(*cfg, total as int, w as int, g)
                        &&& 0 < frames@[g].len <= cfg.fft_size
                        &&& frames@[g].start + frames@[g].len <= total
                    },
            decreases inner.len() - f,
        {
            let part: Span = inner[f];
            assert(0 < inner[f as int].len);
            frames.push(Span { start: window.start + part.start, len: part.len });
            f = f + 1;
        }
        layout.push(WindowFrames { window, frames });
        w = w + 1;
    }
    layout
}

/// Number of bins of `bins` whose frequency lies within the band.
pub open spec fn retained_count(cfg: Config, bins: Seq<usize>) -> nat
    decreases bins.len(),
{
    if bins.len() == 0 {
        0
    } else {
        retained_count(cfg, bins.drop_last()) + if bin_in_band(cfg, bins.last() as int) {
            1nat
        } else {
            0nat
        }
    }
}

/// Sum of the bins of `bins` whose frequency lies within the band.
pub open spec fn retained_sum(cfg: Config, bins: Seq<usize>) -> nat
    decreases bins.len(),
{
    if bins.len() == 0 {
        0
    } else {
        retained_sum(cfg, bins.drop_last()) + if bin_in_band(cfg, bins.last() as int) {
            bins.last() as nat
        } else {
            0nat
        }
    }
}

/// Arithmetic mean of the retained frequencies, in millihertz, rounded
/// down: bin `k` has frequency `k * sample_rate / fft_size` hertz.
pub open spec fn mean_millihertz(cfg: Config, bins: Seq<usize>) -> int {
    (retained_sum(cfg, bins) * cfg.sample_rate * 1000) / (cfg.fft_size * retained_count(cfg, bins))
}

/// The pitch event of a window of `samples` samples whose frames have the
/// dominant bins `bins`: none where no frame is retained.
pub open spec fn window_pitch(cfg: Config, samples: usize, bins: Seq<usize>) -> Option<PitchEvent> {
    if retained_count(cfg, bins) == 0 {
        None
    } else {
        Some(PitchEvent { millihertz: mean_millihertz(cfg, bins) as u64, samples })
    }
}

/// Reduces the dominant bins of a window's frames to the window's pitch
/// event. Frames whose frequency lies outside the band are left out; the
/// event has the mean of the others as its frequency and the window's
/// length as its duration. A window with no retained frame has no event.
pub fn aggregate_window(cfg: &Config, samples: usize, bins: &Vec<usize>) -> (event: Option<PitchEvent>)
    requires
        cfg.wf(),
        bins.len() <= MAX_SPAN,
        forall|i: int| 0 <= i < bins.len() ==> bins[i] < cfg.fft_size,
    ensures
        event == window_pitch(*cfg, samples, bins@),
        event matches Some(p) ==> cfg.floor_hz * 1000 <= p.millihertz <= cfg.ceiling_hz * 1000,
{
    let mut sum: u128 = 0;
    let mut count: usize = 0;
    let mut i: usize = 0;
    let ghost size = cfg.fft_size as int;
    let ghost rate = cfg.sample_rate as int;
    let ghost low = cfg.floor_hz as int;
    let ghost high = cfg.ceiling_hz as int;
    proof {
        assert(bins@.subrange(0, 0) =~= Seq::<usize>::empty());
    }
    while i < bins.len()
        invariant
            cfg.wf(),
            bins.len() <= MAX_SPAN,
            forall|j: int| 0 <= j < bins.len() ==> bins[j] < cfg.fft_size,
            size == cfg.fft_size,
            rate == cfg.sample_rate,
            low == cfg.floor_hz,
            high == cfg.ceiling_hz,
            i <= bins.len(),
            count <= i,
            count == retained_count(*cfg, bins@.subrange(0, i as int)),
            sum == retained_sum(*cfg, bins@.subrange(0, i as int)),
            sum <= count * (size - 1),
            low * size * count <= sum * rate <= high * size * count,
        decreases bins.len() - i,
    {
        let k: usize = bins[i];
        proof {
            let next = bins@.subrange(0, i + 1);
            assert(next.drop_last() =~= bins@.subrange(0, i as int));
            assert(next.last() == k);
            assert((count + 1) * (size - 1) == count * (size - 1) + (size - 1)) by (nonlinear_arith);
            assert(count * (size - 1) <= 0xFFFF_FFFF * 0xFFFF_FFFF) by (nonlinear_arith)
                requires
                    0 <= count <= 0xFFFF_FFFF,
                    0 <= size - 1 <= 0xFFFF_FFFF,
            ;
            assert(low * size * (count + 1) == low * size * count + low * size) by (nonlinear_arith);
            assert(high * size * (count + 1) == high * size * count + high * size) by (nonlinear_arith);
            assert((sum + k) * rate == sum * rate + k * rate) by (nonlinear_arith);
        }
        if in_band(cfg, k) {
            sum = sum + k as u128;
            count = count + 1;
        }
        i = i + 1;
    }
    proof {
        assert(bins@.subrange(0, i as int) =~= bins@);
    }
    if count == 0 {
        return None;
    }
    let n: u128 = cfg.fft_size as u128;
    let r: u128 = cfg.sample_rate as u128;
    let c: u128 = count as u128;
    proof {
        assert(sum <= 0xFFFF_FFFF * 0xFFFF_FFFF) by (nonlinear_arith)
            requires
                sum <= count * (size - 1),
                0 <= count <= 0xFFFF_FFFF,
                0 <= size - 1 <= 0xFFFF_FFFF,
        ;
        assert(sum * r <= 0xFFFF_FFFF * 0xFFFF_FFFF * 0xFFFF_FFFF) by (nonlinear_arith)
            requires
                0 <= sum <= 0xFFFF_FFFF * 0xFFFF_FFFF,
                0 <= r <= 0xFFFF_FFFF,
        ;
        assert(n * c <= 0xFFFF_FFFF * 0xFFFF_FFFF) by (nonlinear_arith)
            requires
                0 <= n <= 0xFFFF_FFFF,
                0 <= c <= 0xFFFF_FFFF,
        ;
        assert(n * c > 0) by (nonlinear_arith)
            requires
                n > 0,
                c > 0,
        ;
    }
    let scaled: u128 = sum * r * 1000;
    let divisor: u128 = n * c;
    let mean: u128 = scaled / divisor;
    proof {
        assert(scaled < divisor * (r * 1000)) by (nonlinear_arith)
            requires
                scaled == sum * r * 1000,
                divisor == n * c,
                0 <= sum <= c * (n - 1),
                c > 0,
                n > 0,
                r > 0,
        ;
        assert(mean < r * 1000) by (nonlinear_arith)
            requires
                mean == scaled / divisor,
                0 <= scaled < divisor * (r * 1000),
                divisor > 0,
        ;
        assert(low * 1000 <= mean) by (nonlinear_arith)
            requires
                mean == scaled / divisor,
                scaled == sum * r * 1000,
                divisor == n * c,
                divisor > 0,
                low * n * c <= sum * r,
        ;
        assert(mean <= high * 1000) by (nonlinear_arith)
            requires
                mean == scaled / divisor,
                scaled == sum * r * 1000,
                divisor == n * c,
                divisor > 0,
                sum * r <= high * n * c,
        ;
    }
    Some(PitchEvent { millihertz: mean as u64, samples })
}

} // verus!
