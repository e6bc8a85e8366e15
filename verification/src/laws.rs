//! Properties of the pipeline as a whole.

use vstd::prelude::*;
use crate::aggregator::{mean_millihertz, retained_count, retained_sum, window_pitch};
use crate::analyzer::{bin_in_band, bin_millihertz, dominant, is_dominant, lemma_dominant_unique};
use crate::config::Config;
use crate::pipeline::{notes_of, stream_samples, total_samples, window_note, WindowBins};
use crate::quantizer::NoteEvent;
use crate::scheduler::{plan_of, plan_samples};

verus! {

/// A spectrum whose bins all have the same magnitude, as that of silence
/// has, has bin 0 as its dominant bin.
pub proof fn lemma_flat_spectrum(magnitudes: Seq<u32>)
    requires
        forall|j: int| 0 <= j < magnitudes.len() ==> #[trigger] magnitudes[j] == magnitudes[0],
    ensures
        dominant(magnitudes) == 0,
{
    if magnitudes.len() > 0 {
        assert(is_dominant(magnitudes, 0));
        let k = dominant(magnitudes);
        lemma_dominant_unique(magnitudes, 0, k);
    }
}

/// With a floor above 0 Hz, a window whose frames all have bin 0 as their
/// dominant bin has no pitch event.
pub proof fn lemma_silent_window(cfg: Config, samples: usize, bins: Seq<usize>)
    requires
        cfg.wf(),
        cfg.floor_hz > 0,
        forall|i: int| 0 <= i < bins.len() ==> bins[i] == 0,
    ensures
        retained_count(cfg, bins) == 0,
        window_pitch(cfg, samples, bins) is None,
    decreases bins.len(),
{
    if bins.len() > 0 {
        lemma_silent_window(cfg, samples, bins.drop_last());
        assert(cfg.floor_hz * cfg.fft_size > 0) by (nonlinear_arith)
            requires
                cfg.floor_hz > 0,
                cfg.fft_size > 0,
        ;
        assert(!bin_in_band(cfg, bins.last() as int));
    }
}

/// With a floor above 0 Hz, a stream in which every frame has bin 0 as its
/// dominant bin transcribes to no note, and its plan renders no sample.
pub proof fn lemma_silence_yields_nothing(cfg: Config, ws: Seq<WindowBins>)
    requires
        cfg.wf(),
        cfg.floor_hz > 0,
        forall|w: int, i: int| 0 <= w < ws.len() && 0 <= i < ws[w].bins@.len() ==> ws[w].bins@[i] == 0,
    ensures
        notes_of(cfg, ws) == Seq::<NoteEvent>::empty(),
        plan_of(cfg, notes_of(cfg, ws)).len() == 0,
        plan_samples(plan_of(cfg, notes_of(cfg, ws))) == 0,
    decreases ws.len(),
{
    if ws.len() > 0 {
        lemma_silence_yields_nothing(cfg, ws.drop_last());
        lemma_silent_window(cfg, ws.last().samples, ws.last().bins@);
    }
}

/// A window in which every frame has the same dominant bin, and that bin
/// within the band, has that bin's frequency as its pitch.
pub proof fn lemma_steady_window(cfg: Config, samples: usize, bins: Seq<usize>, k: usize)
    requires
        cfg.wf(),
        bins.len() > 0,
        bin_in_band(cfg, k as int),
        forall|i: int| 0 <= i < bins.len() ==> bins[i] == k,
    ensures
        retained_count(cfg, bins) == bins.len(),
        retained_sum(cfg, bins) == bins.len() * k,
        mean_millihertz(cfg, bins) == bin_millihertz(cfg, k as int),
    decreases bins.len(),
{
    let n = bins.len() as int;
    if n == 1 {
        assert(retained_count(cfg, bins.drop_last()) == 0);
        assert(retained_sum(cfg, bins.drop_last()) == 0);
    } else {
        lemma_steady_window(cfg, samples, bins.drop_last(), k);
    }
    assert(retained_sum(cfg, bins) == n * k) by (nonlinear_arith)
        requires
            retained_sum(cfg, bins) == (n - 1) * k + k,
    ;
    let x = k * cfg.sample_rate * 1000;
    let d = cfg.fft_size as int;
    assert(retained_sum(cfg, bins) * cfg.sample_rate * 1000 == n * x) by (nonlinear_arith)
        requires
            retained_sum(cfg, bins) == n * k,
            x == k * cfg.sample_rate * 1000,
    ;
    assert(d * n == n * d) by (nonlinear_arith);
    vstd::arithmetic::div_mod::lemma_div_multiples_vanish_quotient(n, x, d);
}

/// Windows of a steady tone agree: where every frame of two windows has the
/// same dominant bin, within the band, both windows have the same pitch and
/// so the same note, if they have one.
pub proof fn lemma_steady_windows_agree(cfg: Config, a: WindowBins, b: WindowBins, k: usize)
    requires
        cfg.wf(),
        a.bins@.len() > 0,
        b.bins@.len() > 0,
        bin_in_band(cfg, k as int),
        forall|i: int| 0 <= i < a.bins@.len() ==> a.bins@[i] == k,
        forall|i: int| 0 <= i < b.bins@.len() ==> b.bins@[i] == k,
    ensures
        window_pitch(cfg, a.samples, a.bins@) is Some,
        window_pitch(cfg, b.samples, b.bins@) is Some,
        window_pitch(cfg, a.samples, a.bins@).unwrap().millihertz == window_pitch(
            cfg,
            b.samples,
            b.bins@,
        ).unwrap().millihertz,
        window_note(cfg, a) is Some <==> window_note(cfg, b) is Some,
        window_note(cfg, a) is Some ==> window_note(cfg, a).unwrap().note == window_note(
            cfg,
            b,
        ).unwrap().note,
{
    lemma_steady_window(cfg, a.samples, a.bins@, k);
    lemma_steady_window(cfg, b.samples, b.bins@, k);
}

/// A note event lasts as long as the window that it came from.
pub proof fn lemma_note_keeps_window_length(cfg: Config, w: WindowBins)
    ensures
        window_note(cfg, w) matches Some(n) ==> n.samples == w.samples,
{
}

/// Appending a note adds its duration to the total.
pub proof fn lemma_total_samples_push(notes: Seq<NoteEvent>, n: NoteEvent)
    ensures
        total_samples(notes.push(n)) == total_samples(notes) + n.samples,
{
    assert(notes.push(n).drop_last() =~= notes);
}

/// The notes of a stream never last longer than the stream.
pub proof fn lemma_duration_bound(cfg: Config, ws: Seq<WindowBins>)
    ensures
        total_samples(notes_of(cfg, ws)) <= stream_samples(ws),
    decreases ws.len(),
{
    if ws.len() > 0 {
        lemma_duration_bound(cfg, ws.drop_last());
        match window_note(cfg, ws.last()) {
            Some(n) => {
                lemma_total_samples_push(notes_of(cfg, ws.drop_last()), n);
            },
            None => {},
        }
    }
}

/// Where a window that holds samples yields no note, the notes last
/// strictly less long than the stream.
pub proof fn lemma_dropped_window_shortens(cfg: Config, ws: Seq<WindowBins>, i: int)
    requires
        0 <= i < ws.len(),
        window_note(cfg, ws[i]) is None,
        ws[i].samples > 0,
    ensures
        total_samples(notes_of(cfg, ws)) < stream_samples(ws),
    decreases ws.len(),
{
    let rest = ws.drop_last();
    if i == ws.len() - 1 {
        lemma_duration_bound(cfg, rest);
    } else {
        lemma_dropped_window_shortens(cfg, rest, i);
        match window_note(cfg, ws.last()) {
            Some(n) => {
                lemma_total_samples_push(notes_of(cfg, rest), n);
            },
            None => {},
        }
    }
}

/// The notes of a stream depend only on the configuration, the lengths of
/// the windows and the dominant bins of their frames.
pub proof fn lemma_same_input_same_notes(cfg: Config, a: Seq<WindowBins>, b: Seq<WindowBins>)
    requires
        a.len() == b.len(),
        forall|i: int| 0 <= i < a.len() ==> a[i].samples == b[i].samples && a[i].bins@ == b[i].bins@,
    ensures
        notes_of(cfg, a) == notes_of(cfg, b),
        plan_of(cfg, notes_of(cfg, a)) == plan_of(cfg, notes_of(cfg, b)),
    decreases a.len(),
{
    if a.len() > 0 {
        lemma_same_input_same_notes(cfg, a.drop_last(), b.drop_last());
    }
}

} // verus!
