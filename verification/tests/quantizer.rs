use pitch_transcriber::aggregator::PitchEvent;
use pitch_transcriber::quantizer::{frequency_to_midi, note_event, NoteEvent};

#[test]
fn concert_pitch_is_note_69() {
    assert_eq!(frequency_to_midi(440_000), Some(69));
}

#[test]
fn octave_above_concert_pitch_is_note_81() {
    assert_eq!(frequency_to_midi(880_000), Some(81));
}

#[test]
fn zero_frequency_is_rejected() {
    assert_eq!(frequency_to_midi(0), None);
}

#[test]
fn named_pitches() {
    assert_eq!(frequency_to_midi(27_500), Some(21));
    assert_eq!(frequency_to_midi(261_626), Some(60));
    assert_eq!(frequency_to_midi(4_186_009), Some(108));
    assert_eq!(frequency_to_midi(8_372_018), Some(120));
    assert_eq!(frequency_to_midi(12_543_854), Some(127));
}

#[test]
fn band_limits() {
    assert_eq!(frequency_to_midi(20_000), Some(15));
    assert_eq!(frequency_to_midi(20_000_000), Some(135));
}

#[test]
fn edges_between_notes() {
    assert_eq!(frequency_to_midi(427_474), Some(68));
    assert_eq!(frequency_to_midi(427_475), Some(69));
    assert_eq!(frequency_to_midi(452_892), Some(69));
    assert_eq!(frequency_to_midi(452_893), Some(70));
    assert_eq!(frequency_to_midi(12_911_416), Some(127));
    assert_eq!(frequency_to_midi(12_911_417), Some(128));
    assert_eq!(frequency_to_midi(7_943), Some(-1));
    assert_eq!(frequency_to_midi(7_944), Some(0));
}

#[test]
fn extremes_of_the_domain() {
    assert_eq!(frequency_to_midi(1), Some(-156));
    assert_eq!(frequency_to_midi(u64::MAX), Some(612));
}

#[test]
fn doubling_adds_twelve() {
    let mut f: u64 = 3;
    while f < u64::MAX / 2 {
        let low = frequency_to_midi(f).unwrap();
        let high = frequency_to_midi(2 * f).unwrap();
        assert_eq!(high, low + 12);
        f = f * 3 + 1;
    }
}

#[test]
fn notes_never_fall_as_frequency_rises() {
    let mut previous = frequency_to_midi(1).unwrap();
    let mut f: u64 = 1;
    while f < 30_000_000 {
        let n = frequency_to_midi(f).unwrap();
        assert!(n >= previous);
        previous = n;
        f = f + f / 50 + 1;
    }
}

#[test]
fn note_event_keeps_duration() {
    let p = PitchEvent { millihertz: 440_000, samples: 44_100 };
    assert_eq!(note_event(&p), Some(NoteEvent { note: 69, samples: 44_100 }));
}

#[test]
fn note_event_drops_notes_above_127() {
    let p = PitchEvent { millihertz: 12_919_921, samples: 44_100 };
    assert_eq!(note_event(&p), None);
    let q = PitchEvent { millihertz: 12_876_855, samples: 44_100 };
    assert_eq!(note_event(&q), Some(NoteEvent { note: 127, samples: 44_100 }));
}

#[test]
fn note_event_drops_negative_notes_and_zero_frequency() {
    assert_eq!(note_event(&PitchEvent { millihertz: 7_943, samples: 10 }), None);
    assert_eq!(note_event(&PitchEvent { millihertz: 0, samples: 10 }), None);
    assert_eq!(
        note_event(&PitchEvent { millihertz: 7_944, samples: 10 }),
        Some(NoteEvent { note: 0, samples: 10 })
    );
}
