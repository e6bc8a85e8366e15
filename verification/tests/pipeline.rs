use pitch_transcriber::config::Config;
use pitch_transcriber::pipeline::{check_window, transcribe, WindowBins};
use pitch_transcriber::quantizer::NoteEvent;
use pitch_transcriber::scheduler::{next_step, rendered_length, schedule, Command, Step};

fn window(samples: usize, bins: Vec<usize>) -> WindowBins {
    WindowBins { samples, bins }
}

#[test]
fn silence_transcribes_to_nothing() {
    let cfg = Config::standard();
    let windows = vec![window(44_100, vec![0; 44]), window(44_100, vec![0; 44]), window(500, vec![0])];
    let notes = transcribe(&cfg, &windows);
    assert!(notes.is_empty());
    assert!(schedule(&cfg, &notes).is_empty());
    assert_eq!(rendered_length(&notes), 0);
}

#[test]
fn empty_stream_transcribes_to_nothing() {
    let cfg = Config::standard();
    assert!(transcribe(&cfg, &Vec::new()).is_empty());
}

#[test]
fn steady_tone_gives_the_same_note_in_every_window() {
    let cfg = Config::standard();
    let windows = vec![window(44_100, vec![10; 44]), window(44_100, vec![10; 44]), window(44_100, vec![10; 44])];
    let notes = transcribe(&cfg, &windows);
    assert_eq!(notes, vec![NoteEvent { note: 69, samples: 44_100 }; 3]);
}

#[test]
fn trailing_partial_window_keeps_its_own_duration() {
    let cfg = Config::standard();
    let windows = vec![window(44_100, vec![10; 44]), window(3000, vec![20, 20, 20])];
    let notes = transcribe(&cfg, &windows);
    assert_eq!(
        notes,
        vec![NoteEvent { note: 69, samples: 44_100 }, NoteEvent { note: 81, samples: 3000 }]
    );
}

#[test]
fn dropped_windows_shorten_the_transcription() {
    let cfg = Config::standard();
    let windows = vec![
        window(44_100, vec![10; 44]),
        window(44_100, vec![0; 44]),
        window(44_100, vec![300; 44]),
        window(44_100, vec![20; 44]),
    ];
    let notes = transcribe(&cfg, &windows);
    assert_eq!(
        notes,
        vec![NoteEvent { note: 69, samples: 44_100 }, NoteEvent { note: 81, samples: 44_100 }]
    );
    assert_eq!(rendered_length(&notes), 88_200);
    assert!(rendered_length(&notes) < 4 * 44_100);
}

#[test]
fn highest_playable_note_is_kept() {
    let cfg = Config::standard();
    let notes = transcribe(&cfg, &vec![window(1024, vec![299])]);
    assert_eq!(notes, vec![NoteEvent { note: 127, samples: 1024 }]);
}

#[test]
fn transcription_is_repeatable() {
    let cfg = Config::standard();
    let windows = vec![window(44_100, vec![10, 11, 12, 0]), window(100, vec![40])];
    let first = transcribe(&cfg, &windows);
    let second = transcribe(&cfg, &windows.clone());
    assert_eq!(first, second);
    assert_eq!(schedule(&cfg, &first), schedule(&cfg, &second));
}

#[test]
fn plan_has_three_commands_per_note() {
    let cfg = Config::standard();
    let notes = vec![NoteEvent { note: 69, samples: 44_100 }, NoteEvent { note: 81, samples: 3000 }];
    let plan = schedule(&cfg, &notes);
    assert_eq!(
        plan,
        vec![
            Command::NoteOn { channel: 0, note: 69, velocity: 100 },
            Command::Render { samples: 44_100 },
            Command::NoteOff { channel: 0, note: 69 },
            Command::NoteOn { channel: 0, note: 81, velocity: 100 },
            Command::Render { samples: 3000 },
            Command::NoteOff { channel: 0, note: 81 },
        ]
    );
}

#[test]
fn plan_uses_the_configured_channel_and_velocity() {
    let cfg = Config { channel: 3, velocity: 64, ..Config::standard() };
    let plan = schedule(&cfg, &vec![NoteEvent { note: 60, samples: 5 }]);
    assert_eq!(plan[0], Command::NoteOn { channel: 3, note: 60, velocity: 64 });
    assert_eq!(plan[2], Command::NoteOff { channel: 3, note: 60 });
}

#[test]
fn rendered_length_is_the_sum_of_durations() {
    let notes = vec![
        NoteEvent { note: 1, samples: 10 },
        NoteEvent { note: 2, samples: 0 },
        NoteEvent { note: 3, samples: 32 },
    ];
    assert_eq!(rendered_length(&notes), 42);
    let long = vec![NoteEvent { note: 1, samples: usize::MAX }; 3];
    assert_eq!(rendered_length(&long), 3 * (usize::MAX as u128));
}

#[test]
fn steps_follow_the_plan() {
    let cfg = Config::standard();
    let notes = vec![NoteEvent { note: 69, samples: 44_100 }, NoteEvent { note: 81, samples: 3000 }];
    let plan = schedule(&cfg, &notes);
    let mut done: usize = 0;
    while done < plan.len() {
        assert_eq!(next_step(&cfg, &notes, done, true), Step::Issue(plan[done]));
        done += 1;
    }
    assert_eq!(next_step(&cfg, &notes, done, true), Step::Finished);
    assert_eq!(next_step(&cfg, &notes, done + 1, true), Step::Finished);
}

#[test]
fn first_failure_aborts() {
    let cfg = Config::standard();
    let notes = vec![NoteEvent { note: 69, samples: 44_100 }];
    assert_eq!(next_step(&cfg, &notes, 1, false), Step::Aborted);
    assert_eq!(next_step(&cfg, &notes, 3, false), Step::Aborted);
    assert_eq!(next_step(&cfg, &Vec::new(), 0, true), Step::Finished);
}

#[test]
fn windows_with_foreign_bins_are_refused() {
    let cfg = Config::standard();
    assert!(check_window(&cfg, &window(44_100, vec![0, 10, 1023])));
    assert!(!check_window(&cfg, &window(44_100, vec![0, 1024])));
    assert!(check_window(&cfg, &window(0, Vec::new())));
}
