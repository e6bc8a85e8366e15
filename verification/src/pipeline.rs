//! The transcription of a whole stream: from the dominant bins of every
//! frame of every window to the ordered note sequence.

use vstd::prelude::*;
use crate::aggregator::{aggregate_window, window_pitch, PitchEvent};
use crate::analyzer::{dominant, dominant_bin, lemma_dominant_exists};
use crate::config::{Config, MAX_SPAN};
use crate::quantizer::{note_event, note_of, NoteEvent};

verus! {

/// What the analyzer found in one aggregate window.
#[derive(Clone, Debug)]
pub struct WindowBins {
    /// Number of samples in the window.
    pub samples: usize,
    /// Dominant bin of each frame of the window, in order.
    pub bins: Vec<usize>,
}

/// Every bin of the window is a bin of the configured spectrum, and the
/// window has no more frames than the arithmetic supports.
pub open spec fn window_ok(cfg: Config, w: WindowBins) -> bool {
    &&& w.bins@.len() <= MAX_SPAN
    &&& forall|i: int| 0 <= i < w.bins@.len() ==> w.bins@[i] < cfg.fft_size
}

/// Decides whether every bin of the window is a bin of the configured
/// spectrum, and the window has no more frames than the arithmetic supports.
pub fn check_window(cfg: &Config, w: &WindowBins) -> (ok: bool)
    ensures
        ok == window_ok(*cfg, *w),
{
    if w.bins.len() > MAX_SPAN {
        return false;
    }
    let mut i: usize = 0;
    while i < w.bins.len()
        invariant
            i <= w.bins.len(),
            forall|j: int| 0 <= j < i ==> w.bins@[j] < cfg.fft_size,
        decreases w.bins.len() - i,
    {
        if w.bins[i] >= cfg.fft_size {
            return false;
        }
        i = i + 1;
    }
    true
}

/// The note event of a window: none where the window has no pitch event or
/// the pitch has no playable note.
pub open spec fn window_note(cfg: Config, w: WindowBins) -> Option<NoteEvent> {
    match window_pitch(cfg, w.samples, w.bins@) {
        Some(p) => note_of(p),
        None => None,
    }
}

/// The note events of the windows `ws`, in the order of the windows; a
/// window without a note event contributes nothing.
pub open spec fn notes_of(cfg: Config, ws: Seq<WindowBins>) -> Seq<NoteEvent>
    decreases ws.len(),
{
    if ws.len() == 0 {
        Seq::empty()
    } else {
        match window_note(cfg, ws.last()) {
            Some(n) => notes_of(cfg, ws.drop_last()).push(n),
            None => notes_of(cfg, ws.drop_last()),
        }
    }
}

/// Total length of the windows `ws`, in samples.
pub open spec fn stream_samples(ws: Seq<WindowBins>) -> nat
    decreases ws.len(),
{
    if ws.len() == 0 {
        0
    } else {
        stream_samples(ws.drop_last()) + ws.last().samples as nat
    }
}

/// Total length of the note events `notes`, in samples.
pub open spec fn total_samples(notes: Seq<NoteEvent>) -> nat
    decreases notes.len(),
{
    if notes.len() == 0 {
        0
    } else {
        total_samples(notes.drop_last()) + notes.last().samples as nat
    }
}

/// The dominant bin of each spectrum of `spectra`.
pub open spec fn bins_of(spectra: Seq<Vec<u32>>) -> Seq<usize> {
    Seq::new(spectra.len(), |i: int| dominant(spectra[i]@) as usize)
}

/// Picks the dominant bin of each frame's spectrum.
pub fn dominant_bins(spectra: &Vec<Vec<u32>>) -> (bins: Vec<usize>)
    ensures
        bins@ == bins_of(spectra@),
{
    let mut bins: Vec<usize> = Vec::new();
    let mut i: usize = 0;
    while i < spectra.len()
        invariant
            i <= spectra.len(),
            bins.len() == i,
            forall|j: int| 0 <= j < i ==> bins[j] == dominant(spectra[j]@) as usize,
        decreases spectra.len() - i,
    {
        let k: usize = dominant_bin(&spectra[i]);
        bins.push(k);
        i = i + 1;
    }
    assert(bins@ =~= bins_of(spectra@));
    bins
}

/// The pitch event of one window from the magnitude spectra of its frames:
/// the dominant bin of each frame, reduced as `aggregate_window` does.
pub fn analyze_window(cfg: &Config, samples: usize, spectra: &Vec<Vec<u32>>) -> (event: Option<PitchEvent>)
    requires
        cfg.wf(),
        spectra.len() <= MAX_SPAN,
        forall|i: int| 0 <= i < spectra.len() ==> spectra[i].len() == cfg.fft_size,
    ensures
        event == window_pitch(*cfg, samples, bins_of(spectra@)),
{
    let bins: Vec<usize> = dominant_bins(spectra);
    proof {
        assert forall|i: int| 0 <= i < bins.len() implies bins[i] < cfg.fft_size by {
            lemma_dominant_exists(spectra[i]@);
        }
    }
    aggregate_window(cfg, samples, &bins)
}

/// Transcribes a stream: each window is reduced to its pitch event and
/// quantized, and the notes that remain are returned in window order.
pub fn transcribe(cfg: &Config, windows: &Vec<WindowBins>) -> (notes: Vec<NoteEvent>)
    requires
        cfg.wf(),
        forall|i: int| 0 <= i < windows.len() ==> window_ok(*cfg, #[trigger] windows[i]),
    ensures
        notes@ == notes_of(*cfg, windows@),
{
    let mut notes: Vec<NoteEvent> = Vec::new();
    let mut i: usize = 0;
    proof {
        assert(windows@.subrange(0, 0) =~= Seq::<WindowBins>::empty());
    }
    while i < windows.len()
        invariant
            cfg.wf(),
            i <= windows.len(),
            forall|j: int| 0 <= j < windows.len() ==> window_ok(*cfg, #[trigger] windows[j]),
            notes@ == notes_of(*cfg, windows@.subrange(0, i as int)),
        decreases windows.len() - i,
    {
        let w: &WindowBins = &windows[i];
        proof {
            let next = windows@.subrange(0, i + 1);
            assert(next.drop_last() =~= windows@.subrange(0, i as int));
            assert(next.last() == windows@[i as int]);
            assert(window_ok(*cfg, windows[i as int]));
        }
        match aggregate_window(cfg, w.samples, &w.bins) {
            Some(p) => {
                match note_event(&p) {
                    Some(n) => {
                        notes.push(n);
                    },
                    None => {},
                }
            },
            None => {},
        }
        i = i + 1;
    }
    proof {
        assert(windows@.subrange(0, i as int) =~= windows@);
    }
    notes
}

} // verus!
