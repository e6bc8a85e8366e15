use fluidlite::{Settings, Synth};
use pitch_transcriber::config::Config;
use pitch_transcriber::quantizer::NoteEvent;
use pitch_transcriber::scheduler::{
    acknowledged, advance, begin, conclude, next_step, render_samples, rendered_buffer, schedule,
    Command, Rendering, Step, SynthesisError,
};

fn bare_synth() -> Synth {
    Synth::new(Settings::new().unwrap()).unwrap()
}

#[test]
fn rendering_fills_a_buffer_of_the_requested_length() {
    let synth = bare_synth();
    let rendered = render_samples(&synth, 64);
    assert_eq!(rendered.map(|buffer| buffer.len()), Some(64));
    assert_eq!(render_samples(&synth, 0), Some(Vec::new()));
}

#[test]
fn note_on_without_an_instrument_is_refused() {
    let synth = bare_synth();
    assert_eq!(acknowledged(synth.note_on(0, 69, 100)), None);
}

#[test]
fn rendering_starts_with_nothing() {
    let state = begin();
    assert_eq!(state, Rendering { done: 0, last_ok: true, output: Vec::new() });
}

#[test]
fn rendering_no_notes_gives_no_samples() {
    let cfg = Config::standard();
    let notes: Vec<NoteEvent> = Vec::new();
    assert_eq!(next_step(&cfg, &notes, 0, true), Step::Finished);
    assert_eq!(conclude(&cfg, &notes, begin()), Some(Ok(Vec::new())));
}

#[test]
fn answers_are_appended_in_order() {
    let state = advance(begin(), Some(Vec::new()));
    assert_eq!(state, Rendering { done: 1, last_ok: true, output: Vec::new() });
    let state = advance(state, Some(vec![1, 2, 3]));
    assert_eq!(state, Rendering { done: 2, last_ok: true, output: vec![1, 2, 3] });
    let state = advance(state, Some(vec![-4, 5]));
    assert_eq!(state, Rendering { done: 3, last_ok: true, output: vec![1, 2, 3, -4, 5] });
}

#[test]
fn failed_answer_keeps_the_output_and_marks_the_failure() {
    let state = advance(begin(), Some(vec![7, 8]));
    let state = advance(state, None);
    assert_eq!(state, Rendering { done: 2, last_ok: false, output: vec![7, 8] });
}

#[test]
fn whole_rendering_with_a_stand_in_engine() {
    let cfg = Config::standard();
    let notes = vec![NoteEvent { note: 69, samples: 3 }, NoteEvent { note: 81, samples: 2 }];
    let mut sent: Vec<Command> = Vec::new();
    let mut state = begin();
    while let Step::Issue(command) = next_step(&cfg, &notes, state.done, state.last_ok) {
        sent.push(command);
        let answer = match command {
            Command::Render { samples } => Some(vec![9; samples]),
            _ => Some(Vec::new()),
        };
        state = advance(state, answer);
    }
    assert_eq!(sent, schedule(&cfg, &notes));
    assert_eq!(state.done, 6);
    assert_eq!(conclude(&cfg, &notes, state), Some(Ok(vec![9; 5])));
}

#[test]
fn first_synthesizer_failure_ends_the_rendering() {
    let cfg = Config::standard();
    let synth = bare_synth();
    let notes = vec![NoteEvent { note: 69, samples: 100 }, NoteEvent { note: 81, samples: 50 }];
    let mut state = begin();
    while let Step::Issue(command) = next_step(&cfg, &notes, state.done, state.last_ok) {
        let answer = match command {
            Command::NoteOn { channel, note, velocity } => {
                acknowledged(synth.note_on(channel, note as u32, velocity))
            }
            Command::Render { samples } => render_samples(&synth, samples),
            Command::NoteOff { channel, note } => acknowledged(synth.note_off(channel, note as u32)),
        };
        state = advance(state, answer);
    }
    assert_eq!(state.done, 1);
    assert_eq!(
        conclude(&cfg, &notes, state),
        Some(Err(SynthesisError {
            position: 0,
            command: Command::NoteOn { channel: 0, note: 69, velocity: 100 },
        }))
    );
}

#[test]
fn failure_in_the_middle_names_the_command() {
    let cfg = Config::standard();
    let notes = vec![NoteEvent { note: 69, samples: 3 }, NoteEvent { note: 81, samples: 2 }];
    let mut state = begin();
    state = advance(state, Some(Vec::new()));
    state = advance(state, Some(vec![1, 1, 1]));
    state = advance(state, Some(Vec::new()));
    state = advance(state, Some(Vec::new()));
    state = advance(state, None);
    assert_eq!(next_step(&cfg, &notes, state.done, state.last_ok), Step::Aborted);
    assert_eq!(
        conclude(&cfg, &notes, state),
        Some(Err(SynthesisError { position: 4, command: Command::Render { samples: 2 } }))
    );
}

#[test]
fn unfinished_rendering_has_no_result() {
    let cfg = Config::standard();
    let notes = vec![NoteEvent { note: 69, samples: 3 }];
    assert_eq!(conclude(&cfg, &notes, begin()), None);
    let state = advance(begin(), Some(Vec::new()));
    assert_eq!(conclude(&cfg, &notes, state), None);
    let stray = Rendering { done: 0, last_ok: false, output: Vec::new() };
    assert_eq!(conclude(&cfg, &notes, stray), None);
    let beyond = Rendering { done: 4, last_ok: false, output: Vec::new() };
    assert_eq!(conclude(&cfg, &notes, beyond), None);
}

#[test]
fn accepted_message_yields_an_empty_buffer() {
    assert_eq!(acknowledged(Ok(())), Some(Vec::new()));
}

#[test]
fn refused_message_yields_nothing() {
    assert_eq!(acknowledged(Err(fluidlite::Error::Alloc)), None);
    assert_eq!(acknowledged(Err(fluidlite::Error::Fluid(String::from("refused")))), None);
}

#[test]
fn filled_buffer_is_handed_on_unchanged() {
    assert_eq!(rendered_buffer(Ok(vec![3, -4, 5])), Some(vec![3, -4, 5]));
    assert_eq!(rendered_buffer(Ok(Vec::new())), Some(Vec::new()));
}

#[test]
fn failed_rendering_yields_nothing() {
    assert_eq!(rendered_buffer(Err(fluidlite::Error::Alloc)), None);
}
