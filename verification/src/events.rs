//! Mapping raw process events to the structured events a UI consumes.
//!
//! An accepted run announces itself with `Started`, turns each output
//! chunk into at most one leveled `Log` event, and closes with exactly
//! one terminal event: `Terminated` when the process exited, `Error`
//! when the stream failed. Events after the terminal one never arise,
//! because consumption stops there.

use crate::classify::classify_level;
use crate::classify::spec_classify;
use crate::classify::LogLevel;
use crate::classify::LogSource;
use crate::sanitize::sanitize_line;
use crate::sanitize::sanitized_line;
use vstd::prelude::*;

verus! {

/// One event delivered by the host's process stream.
pub enum ProcessEvent {
    /// A chunk of the process's standard output.
    StdoutChunk(Vec<u8>),
    /// A chunk of the process's standard error.
    StderrChunk(Vec<u8>),
    /// The process exited, with its exit code where the host knows one.
    Terminated(Option<i32>),
    /// Spawning or reading the stream failed.
    SpawnOrIoError(String),
    /// An event kind this orchestrator does not know; kept for
    /// forward compatibility and ignored.
    Unknown,
}

/// One structured event published to the UI for a run.
#[derive(Debug, PartialEq)]
pub enum RunEvent {
    /// The run was accepted and the process spawned.
    Started,
    /// One sanitized, classified output line.
    Log { level: LogLevel, message: String, source: LogSource },
    /// The process exited; the last event of a normal run.
    Terminated { code: Option<i32> },
    /// The run failed; the last event of a failed run.
    Error { message: String },
}

/// What one process event obliges the consumption loop to do.
pub enum StepOutcome {
    /// Nothing: the chunk held no line, or the event kind is unknown.
    Silent,
    /// Publish this event and keep consuming.
    Emit(RunEvent),
    /// Clear the session guard, publish this event, and stop consuming.
    Finish(RunEvent),
}

/// True when the process event ends the run.
pub open spec fn is_terminal_process_event(event: ProcessEvent) -> bool {
    event is Terminated || event is SpawnOrIoError
}

/// True when the published event is a terminal event.
pub open spec fn is_terminal_run_event(event: RunEvent) -> bool {
    event is Terminated || event is Error
}

/// True when `event` is the log event owed for a line `msg` that
/// arrived on `source`.
pub open spec fn is_log_event_for(source: LogSource, msg: Seq<char>, event: RunEvent) -> bool {
    &&& event matches RunEvent::Log { level, message, source: s } && level == spec_classify(
        source,
        msg,
    ) && message@ == msg && s == source
}

/// True when `outcome` is what the consumption loop owes for `event`:
/// a chunk becomes a log event exactly when the sanitizer yields a
/// line; process exit and stream failure become the terminal events;
/// unknown events pass silently.
pub open spec fn step_matches(event: ProcessEvent, outcome: StepOutcome) -> bool {
    match event {
        ProcessEvent::StdoutChunk(bytes) => match sanitized_line(bytes@) {
            Option::None => outcome is Silent,
            Option::Some(msg) => outcome matches StepOutcome::Emit(ev) && is_log_event_for(
                LogSource::Stdout,
                msg,
                ev,
            ),
        },
        ProcessEvent::StderrChunk(bytes) => match sanitized_line(bytes@) {
            Option::None => outcome is Silent,
            Option::Some(msg) => outcome matches StepOutcome::Emit(ev) && is_log_event_for(
                LogSource::Stderr,
                msg,
                ev,
            ),
        },
        ProcessEvent::Terminated(code) => outcome == StepOutcome::Finish(
            RunEvent::Terminated { code },
        ),
        ProcessEvent::SpawnOrIoError(text) => outcome matches StepOutcome::Finish(ev) && (
        ev matches RunEvent::Error { message } && message@ == text@),
        ProcessEvent::Unknown => outcome is Silent,
    }
}

/// Turns one process event into the action the consumption loop takes.
pub fn handle_event(event: ProcessEvent) -> (outcome: StepOutcome)
    ensures
        step_matches(event, outcome),
        is_terminal_process_event(event) <==> outcome is Finish,
        outcome matches StepOutcome::Emit(ev) ==> !is_terminal_run_event(ev),
        outcome matches StepOutcome::Finish(ev) ==> is_terminal_run_event(ev),
{
    match event {
        ProcessEvent::StdoutChunk(bytes) => match sanitize_line(bytes) {
            Option::Some(message) => {
                let level = classify_level(LogSource::Stdout, message.as_str());
                StepOutcome::Emit(RunEvent::Log { level, message, source: LogSource::Stdout })
            },
            Option::None => StepOutcome::Silent,
        },
        ProcessEvent::StderrChunk(bytes) => match sanitize_line(bytes) {
            Option::Some(message) => {
                let level = classify_level(LogSource::Stderr, message.as_str());
                StepOutcome::Emit(RunEvent::Log { level, message, source: LogSource::Stderr })
            },
            Option::None => StepOutcome::Silent,
        },
        ProcessEvent::Terminated(code) => StepOutcome::Finish(RunEvent::Terminated { code }),
        ProcessEvent::SpawnOrIoError(message) => StepOutcome::Finish(
            RunEvent::Error { message },
        ),
        ProcessEvent::Unknown => StepOutcome::Silent,
    }
}

/// True when `out` is exactly the sequence of published events that
/// consuming `events` produces: each chunk's log event in stream order,
/// cut off at (and including) the first terminal event.
pub open spec fn drain_matches(events: Seq<ProcessEvent>, out: Seq<RunEvent>) -> bool
    decreases events.len(),
{
    if events.len() == 0 {
        out.len() == 0
    } else {
        let event = events[0];
        let rest = events.drop_first();
        if is_terminal_process_event(event) {
            out.len() == 1 && step_matches(event, StepOutcome::Finish(out[0]))
        } else {
            ||| (step_matches(event, StepOutcome::Silent) && drain_matches(rest, out))
            ||| (out.len() >= 1 && step_matches(event, StepOutcome::Emit(out[0]))
                && drain_matches(rest, out.drop_first()))
        }
    }
}

/// Consumes a finite stream of process events and yields the events to
/// publish, stopping at the first terminal event.
pub fn drain_events(events: Vec<ProcessEvent>) -> (out: Vec<RunEvent>)
    ensures
        drain_matches(events@, out@),
    decreases events@.len(),
{
    let ghost input = events@;
    let mut events = events;
    if events.len() == 0 {
        return Vec::new();
    }
    let event = events.remove(0);
    proof {
        assert(events@ =~= input.drop_first());
    }
    match handle_event(event) {
        StepOutcome::Silent => drain_events(events),
        StepOutcome::Emit(ev) => {
            let mut out = drain_events(events);
            let ghost tail = out@;
            out.insert(0, ev);
            proof {
                assert(out@.drop_first() =~= tail);
            }
            out
        },
        StepOutcome::Finish(ev) => {
            let mut out = Vec::new();
            out.push(ev);
            out
        },
    }
}

/// The full event trace of an accepted run: `Started`, then everything
/// the consumption of `events` publishes.
pub fn run_events(events: Vec<ProcessEvent>) -> (out: Vec<RunEvent>)
    ensures
        out@.len() >= 1,
        out@[0] == RunEvent::Started,
        drain_matches(events@, out@.drop_first()),
{
    let mut tail = drain_events(events);
    let ghost published = tail@;
    let mut out = Vec::new();
    out.push(RunEvent::Started);
    out.append(&mut tail);
    proof {
        assert(out@.drop_first() =~= published);
    }
    out
}

/// Consumption publishes at most one terminal event, always as its last
/// event; a stream that reports the process's end (exit or failure)
/// yields exactly one.
pub proof fn lemma_drain_single_terminal(events: Seq<ProcessEvent>, out: Seq<RunEvent>)
    requires
        drain_matches(events, out),
    ensures
        forall|i: int| 0 <= i < out.len() - 1 ==> !is_terminal_run_event(#[trigger] out[i]),
        (exists|i: int|
            0 <= i < events.len() && is_terminal_process_event(#[trigger] events[i])) ==> out.len()
            >= 1 && is_terminal_run_event(out[out.len() - 1]),
    decreases events.len(),
{
    if events.len() > 0 {
        let event = events[0];
        let rest = events.drop_first();
        if is_terminal_process_event(event) {
            assert(is_terminal_run_event(out[0]));
        } else {
            let has_terminal = exists|i: int|
                0 <= i < events.len() && is_terminal_process_event(#[trigger] events[i]);
            if has_terminal {
                let i = choose|i: int|
                    0 <= i < events.len() && is_terminal_process_event(#[trigger] events[i]);
                assert(i >= 1);
                assert(rest[i - 1] == events[i]);
            }
            if step_matches(event, StepOutcome::Silent) && drain_matches(rest, out) {
                lemma_drain_single_terminal(rest, out);
            } else {
                lemma_drain_single_terminal(rest, out.drop_first());
                assert(!is_terminal_run_event(out[0]));
                assert forall|i: int| 0 <= i < out.len() - 1 implies !is_terminal_run_event(
                    #[trigger] out[i],
                ) by {
                    if i > 0 {
                        assert(out[i] == out.drop_first()[i - 1]);
                    }
                }
                if has_terminal {
                    assert(out.drop_first().len() >= 1);
                    assert(out[out.len() - 1] == out.drop_first()[out.len() - 2]);
                }
            }
        }
    }
}

/// The law of the run trace: a started run whose stream reports the
/// process's end publishes `Started`, then log events only, then exactly
/// one terminal event, and nothing after it.
pub proof fn lemma_run_trace_single_terminal(events: Seq<ProcessEvent>, out: Seq<RunEvent>)
    requires
        out.len() >= 1,
        out[0] == RunEvent::Started,
        drain_matches(events, out.drop_first()),
        exists|i: int| 0 <= i < events.len() && is_terminal_process_event(#[trigger] events[i]),
    ensures
        out.len() >= 2,
        is_terminal_run_event(out[out.len() - 1]),
        forall|i: int| 0 <= i < out.len() - 1 ==> !is_terminal_run_event(#[trigger] out[i]),
{
    lemma_drain_single_terminal(events, out.drop_first());
    assert(out[out.len() - 1] == out.drop_first()[out.len() - 2]);
    assert forall|i: int| 0 <= i < out.len() - 1 implies !is_terminal_run_event(
        #[trigger] out[i],
    ) by {
        if i > 0 {
            assert(out[i] == out.drop_first()[i - 1]);
        }
    }
}

} // verus!
