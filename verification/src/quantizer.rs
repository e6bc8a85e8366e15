//! Note quantization: from a frequency to the nearest note of twelve-tone
//! equal temperament, with A4 = note 69 = 440 Hz.
//!
//! Note `n` covers the frequencies from `440 * 2^((n - 69.5) / 12)` Hz up to
//! the same bound of note `n + 1`. No bound is a rational number, so a
//! frequency in whole millihertz never lies on one, and comparing with the
//! bound rounded up is exact. Doubling a frequency raises its note by twelve,
//! so one octave of bounds is enough: the octave of notes 609 to 620, the
//! lowest whose lower edge no 64-bit frequency can double past.

use vstd::prelude::*;
use vstd::arithmetic::power2::{lemma2_to64, lemma2_to64_rest, lemma_pow2_pos, lemma_pow2_unfold, pow2};
use crate::aggregator::PitchEvent;

verus! {

/// The lowest note of the octave whose edges are tabulated.
pub const TOP_NOTE: i32 = 609;

/// The highest note that a synthesizer can play.
pub const MAX_NOTE: i32 = 127;

/// Least whole number of millihertz above the lower edge of note 609.
pub const EDGE_0: u128 = 15040406178042829507;

/// Least whole number of millihertz above the lower edge of note 610.
pub const EDGE_1: u128 = 15934755269809917731;

/// Least whole number of millihertz above the lower edge of note 611.
pub const EDGE_2: u128 = 16882285126010902341;

/// Least whole number of millihertz above the lower edge of note 612.
pub const EDGE_3: u128 = 17886158039459415573;

/// Least whole number of millihertz above the lower edge of note 613.
pub const EDGE_4: u128 = 18949724342685058395;

/// Least whole number of millihertz above the lower edge of note 614.
pub const EDGE_5: u128 = 20076533589356774456;

/// Least whole number of millihertz above the lower edge of note 615.
pub const EDGE_6: u128 = 21270346400588257182;

/// Least whole number of millihertz above the lower edge of note 616.
pub const EDGE_7: u128 = 22535147015661333112;

/// Least whole number of millihertz above the lower edge of note 617.
pub const EDGE_8: u128 = 23875156589054194044;

/// Least whole number of millihertz above the lower edge of note 618.
pub const EDGE_9: u128 = 25294847278152073658;

/// Least whole number of millihertz above the lower edge of note 619.
pub const EDGE_10: u128 = 26798957168656793405;

/// Least whole number of millihertz above the lower edge of note 620.
pub const EDGE_11: u128 = 28392506087507344571;

/// The frequency of the lowest tabulated note, in millihertz: 440 Hz
/// raised by 45 octaves.
pub const TOP_CENTER: u128 = 15481123719086080000;

/// The lower edge of the `i`-th tabulated note, for `0 <= i < 12`, and for
/// `i == 12` the lower edge of the note above them.
pub open spec fn edge(i: int) -> int {
    if i == 0 {
        EDGE_0 as int
    } else if i == 1 {
        EDGE_1 as int
    } else if i == 2 {
        EDGE_2 as int
    } else if i == 3 {
        EDGE_3 as int
    } else if i == 4 {
        EDGE_4 as int
    } else if i == 5 {
        EDGE_5 as int
    } else if i == 6 {
        EDGE_6 as int
    } else if i == 7 {
        EDGE_7 as int
    } else if i == 8 {
        EDGE_8 as int
    } else if i == 9 {
        EDGE_9 as int
    } else if i == 10 {
        EDGE_10 as int
    } else if i == 11 {
        EDGE_11 as int
    } else {
        2 * EDGE_0 - 1
    }
}

/// The 24th power of `x`.
pub open spec fn pow24(x: int) -> int {
    let x2 = x * x;
    let x4 = x2 * x2;
    let x8 = x4 * x4;
    x8 * x8 * x8
}

/// A note and the number of samples for which it sounds.
#[derive(Clone, Copy, Debug, PartialEq, Eq, Structural)]
pub struct NoteEvent {
    /// Note number, at most 127.
    pub note: u8,
    /// Duration in samples at the configured sample rate.
    pub samples: usize,
}

/// Position within the tabulated octave of a frequency `x` that lies in it:
/// the number of edges above the first that `x` has reached.
pub open spec fn semitone_step(x: int) -> int {
    if x < EDGE_1 {
        0
    } else if x < EDGE_2 {
        1
    } else if x < EDGE_3 {
        2
    } else if x < EDGE_4 {
        3
    } else if x < EDGE_5 {
        4
    } else if x < EDGE_6 {
        5
    } else if x < EDGE_7 {
        6
    } else if x < EDGE_8 {
        7
    } else if x < EDGE_9 {
        8
    } else if x < EDGE_10 {
        9
    } else if x < EDGE_11 {
        10
    } else {
        11
    }
}

/// The note nearest to a frequency of `f` millihertz, for `f` from 1 up to
/// the end of the tabulated octave. A frequency below that octave has the
/// note of its double, less twelve.
pub open spec fn midi_of(f: int) -> int
    decreases 2 * EDGE_0 - f,
{
    if f <= 0 {
        0
    } else if f >= EDGE_0 {
        TOP_NOTE + semitone_step(f)
    } else {
        midi_of(2 * f) - 12
    }
}

/// The note event of a pitch event: present where the frequency is positive
/// and its note is at most 127.
pub open spec fn note_of(p: PitchEvent) -> Option<NoteEvent> {
    if p.millihertz > 0 && 0 <= midi_of(p.millihertz as int) <= MAX_NOTE {
        Some(NoteEvent { note: midi_of(p.millihertz as int) as u8, samples: p.samples })
    } else {
        None
    }
}

fn semitone(x: u128) -> (s: i32)
    ensures
        s == semitone_step(x as int),
        0 <= s <= 11,
{
    if x < EDGE_1 {
        0
    } else if x < EDGE_2 {
        1
    } else if x < EDGE_3 {
        2
    } else if x < EDGE_4 {
        3
    } else if x < EDGE_5 {
        4
    } else if x < EDGE_6 {
        5
    } else if x < EDGE_7 {
        6
    } else if x < EDGE_8 {
        7
    } else if x < EDGE_9 {
        8
    } else if x < EDGE_10 {
        9
    } else if x < EDGE_11 {
        10
    } else {
        11
    }
}

/// The note nearest to a frequency given in millihertz. The frequency 0 has
/// no note and is rejected.
pub fn frequency_to_midi(millihertz: u64) -> (note: Option<i32>)
    ensures
        millihertz == 0 <==> note is None,
        note matches Some(n) ==> n == midi_of(millihertz as int),
{
    if millihertz == 0 {
        return None;
    }
    let mut x: u128 = millihertz as u128;
    let mut octaves: i32 = 0;
    proof {
        lemma2_to64();
    }
    while x < EDGE_0
        invariant
            0 < x < 2 * EDGE_0,
            0 <= octaves <= 64,
            x >= pow2(octaves as nat),
            midi_of(millihertz as int) == midi_of(x as int) - 12 * octaves,
        decreases 2 * EDGE_0 - x,
    {
        proof {
            lemma2_to64();
            if octaves == 64 {
                assert(false);
            }
            lemma_pow2_unfold((octaves + 1) as nat);
        }
        x = 2 * x;
        octaves = octaves + 1;
    }
    let step: i32 = semitone(x);
    Some(TOP_NOTE - 12 * octaves + step)
}

/// Quantizes a pitch event. The event is dropped where its frequency is 0
/// or its note lies above 127.
pub fn note_event(p: &PitchEvent) -> (event: Option<NoteEvent>)
    ensures
        event == note_of(*p),
{
    match frequency_to_midi(p.millihertz) {
        Some(n) => {
            if 0 <= n && n <= MAX_NOTE {
                Some(NoteEvent { note: n as u8, samples: p.samples })
            } else {
                None
            }
        },
        None => None,
    }
}

/// Doubling a frequency below the tabulated octave raises its note by an
/// octave.
pub proof fn lemma_octave(f: int)
    requires
        0 < f < EDGE_0,
    ensures
        midi_of(2 * f) == midi_of(f) + 12,
{
}

/// Each edge is the least whole number of millihertz above
/// `2^((i - 1/2) / 12)` times the frequency of the lowest tabulated note.
/// Raised to the 24th power and doubled, that bound is
/// `TOP_CENTER^24 * 4^i`.
pub proof fn lemma_edges_are_exact(i: int)
    requires
        0 <= i <= 12,
    ensures
        2 * pow24(edge(i) - 1) < pow24(TOP_CENTER as int) * pow2((2 * i) as nat) < 2 * pow24(edge(i)),
{
    lemma2_to64();
    if i == 0 {
        assert(2 * pow24(EDGE_0 - 1) < pow24(TOP_CENTER as int) * 1 < 2 * pow24(EDGE_0 as int)) by (nonlinear_arith);
    } else if i == 1 {
        assert(2 * pow24(EDGE_1 - 1) < pow24(TOP_CENTER as int) * 4 < 2 * pow24(EDGE_1 as int)) by (nonlinear_arith);
    } else if i == 2 {
        assert(2 * pow24(EDGE_2 - 1) < pow24(TOP_CENTER as int) * 16 < 2 * pow24(EDGE_2 as int)) by (nonlinear_arith);
    } else if i == 3 {
        assert(2 * pow24(EDGE_3 - 1) < pow24(TOP_CENTER as int) * 64 < 2 * pow24(EDGE_3 as int)) by (nonlinear_arith);
    } else if i == 4 {
        assert(2 * pow24(EDGE_4 - 1) < pow24(TOP_CENTER as int) * 256 < 2 * pow24(EDGE_4 as int)) by (nonlinear_arith);
    } else if i == 5 {
        assert(2 * pow24(EDGE_5 - 1) < pow24(TOP_CENTER as int) * 1024 < 2 * pow24(EDGE_5 as int)) by (nonlinear_arith);
    } else if i == 6 {
        assert(2 * pow24(EDGE_6 - 1) < pow24(TOP_CENTER as int) * 4096 < 2 * pow24(EDGE_6 as int)) by (nonlinear_arith);
    } else if i == 7 {
        assert(2 * pow24(EDGE_7 - 1) < pow24(TOP_CENTER as int) * 16384 < 2 * pow24(EDGE_7 as int)) by (nonlinear_arith);
    } else if i == 8 {
        assert(2 * pow24(EDGE_8 - 1) < pow24(TOP_CENTER as int) * 65536 < 2 * pow24(EDGE_8 as int)) by (nonlinear_arith);
    } else if i == 9 {
        assert(2 * pow24(EDGE_9 - 1) < pow24(TOP_CENTER as int) * 262144 < 2 * pow24(EDGE_9 as int)) by (nonlinear_arith);
    } else if i == 10 {
        assert(2 * pow24(EDGE_10 - 1) < pow24(TOP_CENTER as int) * 1048576 < 2 * pow24(EDGE_10 as int)) by (nonlinear_arith);
    } else if i == 11 {
        assert(2 * pow24(EDGE_11 - 1) < pow24(TOP_CENTER as int) * 4194304 < 2 * pow24(EDGE_11 as int)) by (nonlinear_arith);
    } else {
        assert(2 * pow24(2 * EDGE_0 - 2) < pow24(TOP_CENTER as int) * 16777216 < 2 * pow24(2 * EDGE_0 - 1)) by (nonlinear_arith);
    }
}

/// Among whole numbers from 0 on, a greater one has a greater 24th power.
pub proof fn lemma_pow24_increases(a: int, b: int)
    requires
        0 <= a <= b,
    ensures
        0 <= pow24(a) <= pow24(b),
{
    let a2 = a * a;
    let b2 = b * b;
    assert(0 <= a2 <= b2) by (nonlinear_arith)
        requires
            0 <= a <= b,
            a2 == a * a,
            b2 == b * b,
    ;
    let a4 = a2 * a2;
    let b4 = b2 * b2;
    assert(0 <= a4 <= b4) by (nonlinear_arith)
        requires
            0 <= a2 <= b2,
            a4 == a2 * a2,
            b4 == b2 * b2,
    ;
    let a8 = a4 * a4;
    let b8 = b4 * b4;
    assert(0 <= a8 <= b8) by (nonlinear_arith)
        requires
            0 <= a4 <= b4,
            a8 == a4 * a4,
            b8 == b4 * b4,
    ;
    let a16 = a8 * a8;
    let b16 = b8 * b8;
    assert(0 <= a16 <= b16) by (nonlinear_arith)
        requires
            0 <= a8 <= b8,
            a16 == a8 * a8,
            b16 == b8 * b8,
    ;
    assert(0 <= a16 * a8 <= b16 * b8) by (nonlinear_arith)
        requires
            0 <= a8 <= b8,
            0 <= a16 <= b16,
    ;
}

/// Within the tabulated octave the note of `f` is the nearest one: with
/// `s` the note's distance from the lowest tabulated note,
/// `(f / TOP_CENTER)^24` lies between `2^(2s - 1)` and `2^(2s + 1)`, so that
/// `12 * log2(f / TOP_CENTER)` lies within a half of `s`.
pub proof fn lemma_top_octave_note(f: int)
    requires
        EDGE_0 <= f <= 2 * EDGE_0 - 2,
    ensures
        0 <= midi_of(f) - TOP_NOTE < 12,
        pow24(TOP_CENTER as int) * pow2((2 * (midi_of(f) - TOP_NOTE)) as nat) < 2 * pow24(f),
        2 * pow24(f) < pow24(TOP_CENTER as int) * pow2((2 * (midi_of(f) - TOP_NOTE) + 2) as nat),
{
    let s = semitone_step(f);
    assert(edge(s) <= f <= edge(s + 1) - 1);
    lemma_edges_are_exact(s);
    lemma_edges_are_exact(s + 1);
    lemma_pow24_increases(edge(s), f);
    lemma_pow24_increases(f, edge(s + 1) - 1);
}

/// Doubling a frequency `j` times raises its note by `j` octaves.
pub proof fn lemma_octaves(f: int, j: nat)
    requires
        0 < f,
        f * pow2(j) <= 2 * EDGE_0 - 2,
    ensures
        midi_of(f * pow2(j)) == midi_of(f) + 12 * j,
    decreases j,
{
    if j == 0 {
        lemma2_to64();
    } else {
        lemma_pow2_unfold(j);
        lemma_pow2_pos(j);
        let h = f * pow2((j - 1) as nat);
        assert(f * pow2(j) == 2 * h) by (nonlinear_arith)
            requires
                pow2(j) == 2 * pow2((j - 1) as nat),
                h == f * pow2((j - 1) as nat),
        ;
        lemma_octaves(f, (j - 1) as nat);
        assert(0 < h) by (nonlinear_arith)
            requires
                0 < f,
                2 * h == f * pow2(j),
                pow2(j) > 0,
        ;
        lemma_octave(h);
    }
}

/// Every frequency up to the end of the tabulated octave is brought into
/// that octave by some number of doublings.
pub proof fn lemma_octave_count(f: int) -> (j: nat)
    requires
        0 < f <= 2 * EDGE_0 - 2,
    ensures
        EDGE_0 <= f * pow2(j) <= 2 * EDGE_0 - 2,
    decreases 2 * EDGE_0 - f,
{
    if f >= EDGE_0 {
        lemma2_to64();
        0
    } else {
        let i = lemma_octave_count(2 * f);
        lemma_pow2_unfold(i + 1);
        assert(f * pow2(i + 1) == (2 * f) * pow2(i)) by (nonlinear_arith)
            requires
                pow2(i + 1) == 2 * pow2(i),
        ;
        i + 1
    }
}

/// The note of a frequency is the nearest one. Let `j` doublings bring `f`
/// into the tabulated octave, and let `s` be the distance of the note of
/// `f`, raised by `j` octaves, from the lowest tabulated note. Then
/// `(f * 2^j / TOP_CENTER)^24` lies between `2^(2s - 1)` and `2^(2s + 1)`:
/// the frequency is less than half a semitone away from its note.
pub proof fn lemma_nearest_note(f: int, j: nat)
    requires
        0 < f,
        EDGE_0 <= f * pow2(j) <= 2 * EDGE_0 - 2,
    ensures
        0 <= midi_of(f) + 12 * j - TOP_NOTE < 12,
        pow24(TOP_CENTER as int) * pow2((2 * (midi_of(f) + 12 * j - TOP_NOTE)) as nat) < 2 * pow24(
            f * pow2(j),
        ),
        2 * pow24(f * pow2(j)) < pow24(TOP_CENTER as int) * pow2(
            (2 * (midi_of(f) + 12 * j - TOP_NOTE) + 2) as nat,
        ),
{
    lemma_octaves(f, j);
    lemma_top_octave_note(f * pow2(j));
}

/// The note 69 is that of 440 Hz, and the note 81 that of 880 Hz.
pub proof fn lemma_reference_notes()
    ensures
        midi_of(440_000) == 69,
        midi_of(880_000) == 81,
{
    lemma2_to64_rest();
    assert(440_000 * pow2(45) == TOP_CENTER);
    assert(880_000 * pow2(44) == TOP_CENTER);
    lemma_octaves(440_000, 45);
    lemma_octaves(880_000, 44);
}

/// No frequency up to the end of the tabulated octave has a note above
/// that octave.
pub proof fn lemma_note_bound(f: int)
    requires
        0 < f <= 2 * EDGE_0 - 2,
    ensures
        midi_of(f) <= TOP_NOTE + 11,
        f < EDGE_0 ==> midi_of(f) < TOP_NOTE,
    decreases 2 * EDGE_0 - f,
{
    if f < EDGE_0 {
        lemma_note_bound(2 * f);
    }
}

/// A higher frequency never has a lower note.
pub proof fn lemma_note_rises_with_frequency(f: int, g: int)
    requires
        0 < f <= g,
        g <= 2 * EDGE_0 - 2,
    ensures
        midi_of(f) <= midi_of(g),
    decreases 2 * EDGE_0 - f,
{
    if g < EDGE_0 {
        lemma_note_rises_with_frequency(2 * f, 2 * g);
    } else if f < EDGE_0 {
        lemma_note_bound(f);
    }
}

} // verus!
