//! Note scheduling: the commands that render a note sequence on a
//! synthesizer, and what to do after each of them.

use vstd::prelude::*;
use crate::config::Config;
use crate::pipeline::total_samples;
use crate::quantizer::NoteEvent;

verus! {

/// Largest number of samples that one rendering may hold: a buffer of this
/// many 16-bit samples can be allocated on every supported machine.
pub const MAX_RENDER: usize = 0x3FFF_FFFF;

/// One request to the synthesizer.
#[derive(Clone, Copy, Debug, PartialEq, Eq, Structural)]
pub enum Command {
    /// Start a note.
    NoteOn { channel: u32, note: u8, velocity: u32 },
    /// Render this many samples.
    Render { samples: usize },
    /// Stop a note.
    NoteOff { channel: u32, note: u8 },
}

/// The synthesizer of the `fluidlite` crate: a handle that is only passed on.
#[verifier::external_type_specification]
#[verifier::external_body]
pub struct ExSynth(fluidlite::Synth);

/// The error of the `fluidlite` crate: only its presence is looked at.
#[verifier::external_type_specification]
#[verifier::external_body]
pub struct ExSynthError(fluidlite::Error);

/// The command that the synthesizer refused, and its position in the plan.
#[derive(Clone, Copy, Debug, PartialEq, Eq, Structural)]
pub struct SynthesisError {
    /// Position of the command in the plan.
    pub position: usize,
    /// The command that failed.
    pub command: Command,
}

/// What follows in the rendering of a plan.
#[derive(Clone, Copy, Debug, PartialEq, Eq, Structural)]
pub enum Step {
    /// Send this command to the synthesizer.
    Issue(Command),
    /// Every command has been performed.
    Finished,
    /// A command failed: nothing more is sent.
    Aborted,
}

/// The command at position `j` of the plan for `notes`: each note takes
/// three positions, to start it, to render it and to stop it.
pub open spec fn command_at(cfg: Config, notes: Seq<NoteEvent>, j: int) -> Command {
    let e = notes[j / 3];
    if j % 3 == 0 {
        Command::NoteOn { channel: cfg.channel, note: e.note, velocity: cfg.velocity }
    } else if j % 3 == 1 {
        Command::Render { samples: e.samples }
    } else {
        Command::NoteOff { channel: cfg.channel, note: e.note }
    }
}

/// The plan for `notes`: for each note in turn, its three commands.
pub open spec fn plan_of(cfg: Config, notes: Seq<NoteEvent>) -> Seq<Command> {
    Seq::new(3 * notes.len(), |j: int| command_at(cfg, notes, j))
}

/// Number of samples that `command` asks to be rendered.
pub open spec fn command_samples(command: Command) -> nat {
    match command {
        Command::Render { samples } => samples as nat,
        _ => 0nat,
    }
}

/// Number of samples that the commands `plan` ask to be rendered.
pub open spec fn plan_samples(plan: Seq<Command>) -> nat
    decreases plan.len(),
{
    if plan.len() == 0 {
        0
    } else {
        plan_samples(plan.drop_last()) + command_samples(plan.last())
    }
}

/// The step after `done` commands of the plan for `notes` were performed,
/// the last of them with success or not.
pub open spec fn step_at(cfg: Config, notes: Seq<NoteEvent>, done: int, last_ok: bool) -> Step {
    if !last_ok {
        Step::Aborted
    } else if done >= 3 * notes.len() {
        Step::Finished
    } else {
        Step::Issue(command_at(cfg, notes, done))
    }
}

/// Lists the commands that render `notes` in order: note on, render for the
/// note's duration, note off, all on the configured channel.
pub fn schedule(cfg: &Config, notes: &Vec<NoteEvent>) -> (plan: Vec<Command>)
    ensures
        plan@ == plan_of(*cfg, notes@),
        plan.len() == 3 * notes.len(),
{
    let mut plan: Vec<Command> = Vec::new();
    let mut i: usize = 0;
    while i < notes.len()
        invariant
            i <= notes.len(),
            plan.len() == 3 * i,
            forall|j: int| 0 <= j < 3 * i ==> plan[j] == command_at(*cfg, notes@, j),
        decreases notes.len() - i,
    {
        let e: NoteEvent = notes[i];
        plan.push(Command::NoteOn { channel: cfg.channel, note: e.note, velocity: cfg.velocity });
        plan.push(Command::Render { samples: e.samples });
        plan.push(Command::NoteOff { channel: cfg.channel, note: e.note });
        i = i + 1;
    }
    assert(plan@ =~= plan_of(*cfg, notes@));
    plan
}

/// Decides what follows after `done` commands: stop at the first failure,
/// finish when the plan is exhausted, and otherwise issue the next command.
pub fn next_step(cfg: &Config, notes: &Vec<NoteEvent>, done: usize, last_ok: bool) -> (step: Step)
    ensures
        step == step_at(*cfg, notes@, done as int, last_ok),
{
    if !last_ok {
        return Step::Aborted;
    }
    let index: usize = done / 3;
    if index >= notes.len() {
        return Step::Finished;
    }
    let e: NoteEvent = notes[index];
    let phase: usize = done % 3;
    if phase == 0 {
        Step::Issue(Command::NoteOn { channel: cfg.channel, note: e.note, velocity: cfg.velocity })
    } else if phase == 1 {
        Step::Issue(Command::Render { samples: e.samples })
    } else {
        Step::Issue(Command::NoteOff { channel: cfg.channel, note: e.note })
    }
}

/// `Synth::write` of `fluidlite` on a fresh buffer of `count` 16-bit
/// samples: where the call succeeds, the buffer comes back, still `count`
/// samples long. Nothing is claimed of the samples. The engine's 16-bit
/// writer scales and dithers the samples itself, so they can differ from
/// what rendering floating-point samples and scaling them would give.
#[verifier::external_body]
fn synth_write(synth: &fluidlite::Synth, count: usize) -> (rendered: Result<Vec<i16>, fluidlite::Error>)
    requires
        count <= MAX_RENDER,
    ensures
        rendered matches Ok(buffer) ==> buffer.len() == count,
{
    let mut buffer: Vec<i16> = vec![0; count];
    synth.write(&mut buffer[..])?;
    Ok(buffer)
}

/// Asks the synthesizer for `samples` rendered samples: the answer to a
/// `Render` command. There is no buffer where the synthesizer reports a
/// failure.
pub fn render_samples(synth: &fluidlite::Synth, samples: usize) -> (rendered: Option<Vec<i16>>)
    requires
        samples <= MAX_RENDER,
    ensures
        rendered matches Some(buffer) ==> buffer.len() == samples,
{
    rendered_buffer(synth_write(synth, samples))
}

/// What a note-on or a note-off yields, given the synthesizer's answer to
/// it: an empty buffer where the message was accepted, and nothing where
/// it was refused.
pub fn acknowledged(status: Result<(), fluidlite::Error>) -> (rendered: Option<Vec<i16>>)
    ensures
        status is Ok <==> rendered is Some,
        rendered matches Some(buffer) ==> buffer@ == Seq::<i16>::empty(),
{
    match status {
        Ok(_) => Some(Vec::new()),
        Err(_) => None,
    }
}

/// What a rendering request yields, given the synthesizer's answer to it:
/// the buffer that it filled, unchanged, and nothing where it failed.
pub fn rendered_buffer(answer: Result<Vec<i16>, fluidlite::Error>) -> (rendered: Option<Vec<i16>>)
    ensures
        answer is Ok <==> rendered is Some,
        answer matches Ok(buffer) ==> rendered == Some(buffer),
{
    match answer {
        Ok(buffer) => Some(buffer),
        Err(_) => None,
    }
}

/// How far the rendering of a plan has come.
#[derive(Clone, Debug, PartialEq, Eq)]
pub struct Rendering {
    /// Number of commands that were sent and answered.
    pub done: usize,
    /// Whether the last of them succeeded; true before the first.
    pub last_ok: bool,
    /// What the commands rendered, in order.
    pub output: Vec<i16>,
}

/// The samples that an answer holds: none where the command failed.
pub open spec fn answer_samples(answer: Option<Vec<i16>>) -> Seq<i16> {
    match answer {
        Some(buffer) => buffer@,
        None => Seq::empty(),
    }
}

/// The state before the first command: nothing sent, nothing rendered.
pub fn begin() -> (state: Rendering)
    ensures
        state.done == 0,
        state.last_ok,
        state.output@ == Seq::<i16>::empty(),
{
    Rendering { done: 0, last_ok: true, output: Vec::new() }
}

/// Takes in the synthesizer's answer to the command that was sent in
/// `state`: one more command is done, the answer says whether it
/// succeeded, and what it rendered is appended to the output.
pub fn advance(state: Rendering, answer: Option<Vec<i16>>) -> (next: Rendering)
    requires
        state.done < usize::MAX,
        state.output@.len() + answer_samples(answer).len() <= MAX_RENDER,
    ensures
        next.done == state.done + 1,
        next.last_ok == (answer is Some),
        next.output@ == state.output@ + answer_samples(answer),
{
    let mut output: Vec<i16> = state.output;
    let last_ok: bool = match answer {
        Some(buffer) => {
            let mut buffer = buffer;
            output.append(&mut buffer);
            true
        },
        None => {
            assert(output@ + Seq::<i16>::empty() =~= output@);
            false
        },
    };
    Rendering { done: state.done + 1, last_ok, output }
}

/// The result of the rendering in `state`, once it is over.
pub open spec fn conclusion(cfg: Config, notes: Seq<NoteEvent>, state: Rendering) -> Option<
    Result<Seq<i16>, SynthesisError>,
> {
    if state.last_ok {
        if state.done >= 3 * notes.len() {
            Some(Ok(state.output@))
        } else {
            None
        }
    } else if 1 <= state.done <= 3 * notes.len() {
        Some(
            Err(
                SynthesisError {
                    position: (state.done - 1) as usize,
                    command: command_at(cfg, notes, state.done - 1),
                },
            ),
        )
    } else {
        None
    }
}

/// Ends a rendering. After a failure the result is the error that names the
/// last command sent; after the last command of the plan it is the whole
/// output; while commands remain, or where `state` cannot have come from
/// rendering `notes`, there is none.
pub fn conclude(cfg: &Config, notes: &Vec<NoteEvent>, state: Rendering) -> (result: Option<
    Result<Vec<i16>, SynthesisError>,
>)
    ensures
        result is Some <==> conclusion(*cfg, notes@, state) is Some,
        result matches Some(Ok(output)) ==> conclusion(*cfg, notes@, state) == Some(
            Ok::<Seq<i16>, SynthesisError>(output@),
        ) && output == state.output,
        result matches Some(Err(e)) ==> conclusion(*cfg, notes@, state) == Some(
            Err::<Seq<i16>, SynthesisError>(e),
        ),
{
    if state.last_ok {
        if state.done / 3 >= notes.len() {
            Some(Ok(state.output))
        } else {
            None
        }
    } else if state.done >= 1 && (state.done - 1) / 3 < notes.len() {
        let position: usize = state.done - 1;
        let e: NoteEvent = notes[position / 3];
        let phase: usize = position % 3;
        let command: Command = if phase == 0 {
            Command::NoteOn { channel: cfg.channel, note: e.note, velocity: cfg.velocity }
        } else if phase == 1 {
            Command::Render { samples: e.samples }
        } else {
            Command::NoteOff { channel: cfg.channel, note: e.note }
        };
        Some(Err(SynthesisError { position, command }))
    } else {
        None
    }
}

/// The answers `answers`, one after another.
pub open spec fn joined(answers: Seq<Seq<i16>>) -> Seq<i16>
    decreases answers.len(),
{
    if answers.len() == 0 {
        Seq::empty()
    } else {
        joined(answers.drop_last()) + answers.last()
    }
}

/// The plan for a note sequence renders as many samples as the notes last.
pub proof fn lemma_plan_renders_total(cfg: Config, notes: Seq<NoteEvent>)
    ensures
        plan_samples(plan_of(cfg, notes)) == total_samples(notes),
    decreases notes.len(),
{
    if notes.len() > 0 {
        let rest = notes.drop_last();
        lemma_plan_renders_total(cfg, rest);
        let p3 = plan_of(cfg, notes);
        let p2 = p3.drop_last();
        let p1 = p2.drop_last();
        let p0 = p1.drop_last();
        assert(p0 =~= plan_of(cfg, rest));
        assert(plan_samples(p1) == plan_samples(p0));
        assert(plan_samples(p2) == plan_samples(p1) + notes.last().samples);
        assert(plan_samples(p3) == plan_samples(p2));
    } else {
        assert(plan_of(cfg, notes).len() == 0);
    }
}

/// Where every command of a plan is answered with as many samples as it
/// asks for, the answers together hold as many samples as the plan asks
/// for.
pub proof fn lemma_joined_length(plan: Seq<Command>, answers: Seq<Seq<i16>>)
    requires
        answers.len() == plan.len(),
        forall|k: int| 0 <= k < plan.len() ==> (#[trigger] answers[k]).len() == command_samples(plan[k]),
    ensures
        joined(answers).len() == plan_samples(plan),
    decreases plan.len(),
{
    if plan.len() > 0 {
        assert forall|k: int| 0 <= k < plan.drop_last().len() implies (#[trigger] answers.drop_last()[k]).len()
            == command_samples(plan.drop_last()[k]) by {
            assert(answers.drop_last()[k] == answers[k]);
        }
        lemma_joined_length(plan.drop_last(), answers.drop_last());
    }
}

/// A rendering in which every command succeeds and renders what it asks for
/// holds, at its end, as many samples as the notes last.
pub proof fn lemma_full_rendering_length(cfg: Config, notes: Seq<NoteEvent>, answers: Seq<Seq<i16>>)
    requires
        answers.len() == 3 * notes.len(),
        forall|k: int| 0 <= k < answers.len() ==> (#[trigger] answers[k]).len() == command_samples(
            command_at(cfg, notes, k),
        ),
    ensures
        joined(answers).len() == total_samples(notes),
{
    lemma_joined_length(plan_of(cfg, notes), answers);
    lemma_plan_renders_total(cfg, notes);
}

/// Number of samples that rendering `notes` produces: the sum of their
/// durations.
pub fn rendered_length(notes: &Vec<NoteEvent>) -> (length: u128)
    ensures
        length == total_samples(notes@),
{
    let mut length: u128 = 0;
    let mut i: usize = 0;
    proof {
        assert(notes@.subrange(0, 0) =~= Seq::<NoteEvent>::empty());
    }
    while i < notes.len()
        invariant
            i <= notes.len(),
            length == total_samples(notes@.subrange(0, i as int)),
            length <= i * usize::MAX,
        decreases notes.len() - i,
    {
        proof {
            let next = notes@.subrange(0, i + 1);
            assert(next.drop_last() =~= notes@.subrange(0, i as int));
            assert((i + 1) * usize::MAX == i * usize::MAX + usize::MAX) by (nonlinear_arith);
            assert(i * usize::MAX <= usize::MAX * usize::MAX) by (nonlinear_arith)
                requires
                    0 <= i <= usize::MAX,
            ;
            assert(usize::MAX * usize::MAX <= 0xFFFF_FFFF_FFFF_FFFF * 0xFFFF_FFFF_FFFF_FFFF) by (nonlinear_arith)
                requires
                    0 <= usize::MAX <= 0xFFFF_FFFF_FFFF_FFFF,
            ;
        }
        length = length + notes[i].samples as u128;
        i = i + 1;
    }
    proof {
        assert(notes@.subrange(0, i as int) =~= notes@);
    }
    length
}

} // verus!
