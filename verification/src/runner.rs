//! The decisions of running a child process whose two output streams are
//! drained while the parent waits for it to exit.
//!
//! Spawning, reading and waiting are done by the caller. After each of them
//! it tells [`step`] what happened, and is told what to do next.

use vstd::prelude::*;

verus! {

/// One of the two output streams of a child process.
#[derive(Clone, Copy, Debug, PartialEq, Eq)]
pub enum Stream {
    Stdout,
    Stderr,
}

/// How a child process ended.
#[derive(Clone, Copy, Debug, PartialEq, Eq)]
pub struct ChildExit {
    /// Whether the process ended well.
    pub success: bool,
    /// Its exit code, where it ended with one.
    pub code: Option<i32>,
}

/// Why a run failed.
#[derive(Clone, Copy, Debug, PartialEq, Eq)]
pub enum RunError {
    /// The program could not be started.
    Spawn,
    /// The pipe of this stream could not be had after the start.
    StreamCapture(Stream),
    /// Waiting for the process failed.
    Wait,
    /// The process ran and did not end well.
    ChildFailure(ChildExit),
}

/// Where a run stands.
#[derive(Clone, Copy, Debug, PartialEq, Eq)]
pub enum RunnerState {
    /// Nothing has been started.
    Ready,
    /// The start of the process has been asked for.
    Starting,
    /// The process runs; a tailer drains each of its streams.
    Running,
    /// The process has ended; not every tailer has been joined yet.
    Draining { exit: ChildExit, stdout_joined: bool, stderr_joined: bool },
    /// The run has reported its result.
    Done,
}

/// What happened in a run.
#[derive(Clone, Copy, Debug, PartialEq, Eq)]
pub enum RunnerEvent {
    /// The caller wants the run to begin.
    Start,
    /// The process could not be started.
    SpawnFailed,
    /// The process was started; of each stream, whether its pipe was had.
    Spawned { stdout: bool, stderr: bool },
    /// Waiting for the process failed.
    WaitFailed,
    /// The process ended.
    Exited(ChildExit),
    /// The tailer of this stream has drained it and was joined.
    TailerJoined(Stream),
}

/// What the caller does next.
#[derive(Clone, Copy, Debug, PartialEq, Eq)]
pub enum RunnerAction {
    /// Start the process, with both of its output streams piped.
    Spawn,
    /// Start a tailer on each stream, and wait for the process to end.
    TailAndWait,
    /// Join the tailers that have not been joined yet.
    JoinTailers,
    /// Hand this result to whoever asked for the run.
    Report(Result<(), RunError>),
    /// Nothing: the event has no place in this state.
    Nothing,
}

/// The result that an exit stands for.
pub open spec fn outcome(exit: ChildExit) -> Result<(), RunError> {
    if exit.success {
        Ok(())
    } else {
        Err(RunError::ChildFailure(exit))
    }
}

/// Whether this stream has been joined, once `joined` has been.
pub open spec fn joined_after(before: bool, stream: Stream, joined: Stream) -> bool {
    before || stream == joined
}

/// The state that follows `state` on `event`, and what to do then.
pub open spec fn next(state: RunnerState, event: RunnerEvent) -> (RunnerState, RunnerAction) {
    match (state, event) {
        (RunnerState::Ready, RunnerEvent::Start) => (RunnerState::Starting, RunnerAction::Spawn),
        (RunnerState::Starting, RunnerEvent::SpawnFailed) => (
            RunnerState::Done,
            RunnerAction::Report(Err(RunError::Spawn)),
        ),
        (RunnerState::Starting, RunnerEvent::Spawned { stdout, stderr }) => if !stdout {
            (RunnerState::Done, RunnerAction::Report(Err(RunError::StreamCapture(Stream::Stdout))))
        } else if !stderr {
            (RunnerState::Done, RunnerAction::Report(Err(RunError::StreamCapture(Stream::Stderr))))
        } else {
            (RunnerState::Running, RunnerAction::TailAndWait)
        },
        (RunnerState::Running, RunnerEvent::WaitFailed) => (
            RunnerState::Done,
            RunnerAction::Report(Err(RunError::Wait)),
        ),
        (RunnerState::Running, RunnerEvent::Exited(exit)) => (
            RunnerState::Draining { exit, stdout_joined: false, stderr_joined: false },
            RunnerAction::JoinTailers,
        ),
        (
            RunnerState::Draining { exit, stdout_joined, stderr_joined },
            RunnerEvent::TailerJoined(stream),
        ) => {
            let out = joined_after(stdout_joined, Stream::Stdout, stream);
            let err = joined_after(stderr_joined, Stream::Stderr, stream);
            if out && err {
                (RunnerState::Done, RunnerAction::Report(outcome(exit)))
            } else {
                (
                    RunnerState::Draining { exit, stdout_joined: out, stderr_joined: err },
                    RunnerAction::JoinTailers,
                )
            }
        },
        _ => (state, RunnerAction::Nothing),
    }
}

/// The result of a process that ended with `exit`: success where it ended
/// well, else the failure with its status.
pub fn exit_outcome(exit: ChildExit) -> (r: Result<(), RunError>)
    ensures
        r == outcome(exit),
        r is Ok <==> exit.success,
        r is Err ==> r == Err::<(), RunError>(RunError::ChildFailure(exit)),
{
    if exit.success {
        Ok(())
    } else {
        Err(RunError::ChildFailure(exit))
    }
}

/// Takes the run one step on: the state after `event`, and what the caller
/// does next.
pub fn step(state: RunnerState, event: RunnerEvent) -> (r: (RunnerState, RunnerAction))
    ensures
        r == next(state, event),
{
    match state {
        RunnerState::Ready => match event {
            RunnerEvent::Start => (RunnerState::Starting, RunnerAction::Spawn),
            _ => (state, RunnerAction::Nothing),
        },
        RunnerState::Starting => match event {
            RunnerEvent::SpawnFailed => (
                RunnerState::Done,
                RunnerAction::Report(Err(RunError::Spawn)),
            ),
            RunnerEvent::Spawned { stdout, stderr } => {
                if !stdout {
                    (
                        RunnerState::Done,
                        RunnerAction::Report(Err(RunError::StreamCapture(Stream::Stdout))),
                    )
                } else if !stderr {
                    (
                        RunnerState::Done,
                        RunnerAction::Report(Err(RunError::StreamCapture(Stream::Stderr))),
                    )
                } else {
                    (RunnerState::Running, RunnerAction::TailAndWait)
                }
            },
            _ => (state, RunnerAction::Nothing),
        },
        RunnerState::Running => match event {
            RunnerEvent::WaitFailed => (
                RunnerState::Done,
                RunnerAction::Report(Err(RunError::Wait)),
            ),
            RunnerEvent::Exited(exit) => (
                RunnerState::Draining { exit, stdout_joined: false, stderr_joined: false },
                RunnerAction::JoinTailers,
            ),
            _ => (state, RunnerAction::Nothing),
        },
        RunnerState::Draining { exit, stdout_joined, stderr_joined } => match event {
            RunnerEvent::TailerJoined(stream) => {
                let out = stdout_joined || matches!(stream, Stream::Stdout);
                let err = stderr_joined || matches!(stream, Stream::Stderr);
                if out && err {
                    (RunnerState::Done, RunnerAction::Report(exit_outcome(exit)))
                } else {
                    (
                        RunnerState::Draining { exit, stdout_joined: out, stderr_joined: err },
                        RunnerAction::JoinTailers,
                    )
                }
            },
            _ => (state, RunnerAction::Nothing),
        },
        RunnerState::Done => (state, RunnerAction::Nothing),
    }
}

/// The state that a run has reached from `state` after `events`.
pub open spec fn state_after(state: RunnerState, events: Seq<RunnerEvent>) -> RunnerState
    decreases events.len(),
{
    if events.len() == 0 {
        state
    } else {
        next(state_after(state, events.drop_last()), events.last()).0
    }
}

/// Whether `stream` was joined at some event behind index `i`.
pub open spec fn joined_since(events: Seq<RunnerEvent>, i: int, stream: Stream) -> bool {
    exists|j: int| i < j < events.len() && #[trigger] events[j] == RunnerEvent::TailerJoined(stream)
}

/// Whether the process ended with `exit` at some event of `events`, and
/// both tailers were joined behind that event.
pub open spec fn drained(events: Seq<RunnerEvent>, exit: ChildExit) -> bool {
    exists|i: int|
        0 <= i < events.len() && #[trigger] events[i] == RunnerEvent::Exited(exit) && joined_since(
            events,
            i,
            Stream::Stdout,
        ) && joined_since(events, i, Stream::Stderr)
}

/// What a draining run has behind it: the exit that it holds, and the join
/// of every tailer that it counts as joined.
pub open spec fn draining_history(
    events: Seq<RunnerEvent>,
    exit: ChildExit,
    stdout_joined: bool,
    stderr_joined: bool,
) -> bool {
    exists|i: int|
        0 <= i < events.len() && #[trigger] events[i] == RunnerEvent::Exited(exit) && (stdout_joined
            ==> joined_since(events, i, Stream::Stdout)) && (stderr_joined ==> joined_since(
            events,
            i,
            Stream::Stderr,
        ))
}

/// A result that rests on the exit status is reported on one event only:
/// the joining of the last tailer, after the process has ended. Success is
/// reported if and only if the process ended well, and a failure carries the
/// status that the process ended with.
pub proof fn lemma_report_waits_for_tailers(state: RunnerState, event: RunnerEvent)
    ensures
        match next(state, event).1 {
            RunnerAction::Report(r) => (r is Ok || (r matches Err(RunError::ChildFailure(_)))) ==> {
                &&& state matches RunnerState::Draining { exit, stdout_joined, stderr_joined }
                &&& event matches RunnerEvent::TailerJoined(stream)
                &&& joined_after(stdout_joined, Stream::Stdout, stream)
                &&& joined_after(stderr_joined, Stream::Stderr, stream)
                &&& r == outcome(exit)
                &&& (r is Ok <==> exit.success)
            },
            _ => true,
        },
{
}

/// A run that drains has seen its process end, and has joined the tailers
/// that it counts as joined afterwards.
pub proof fn lemma_draining_history(events: Seq<RunnerEvent>)
    ensures
        state_after(RunnerState::Ready, events) matches RunnerState::Draining {
            exit,
            stdout_joined,
            stderr_joined,
        } ==> draining_history(events, exit, stdout_joined, stderr_joined),
    decreases events.len(),
{
    if events.len() > 0 {
        let before = events.drop_last();
        let event = events.last();
        lemma_draining_history(before);
        let prev = state_after(RunnerState::Ready, before);
        match state_after(RunnerState::Ready, events) {
            RunnerState::Draining { exit, stdout_joined, stderr_joined } => {
                let n = events.len() as int - 1;
                match prev {
                    RunnerState::Running => {
                        assert(events[n] == RunnerEvent::Exited(exit));
                    },
                    RunnerState::Draining { exit: e0, stdout_joined: o0, stderr_joined: r0 } => {
                        assert(e0 == exit);
                        let i = choose|i: int|
                            0 <= i < before.len() && #[trigger] before[i] == RunnerEvent::Exited(
                                exit,
                            ) && (o0 ==> joined_since(before, i, Stream::Stdout)) && (r0
                                ==> joined_since(before, i, Stream::Stderr));
                        assert(events[i] == before[i]);
                        if o0 {
                            let j = choose|j: int|
                                i < j < before.len() && #[trigger] before[j]
                                    == RunnerEvent::TailerJoined(Stream::Stdout);
                            assert(events[j] == before[j]);
                        }
                        if r0 {
                            let j = choose|j: int|
                                i < j < before.len() && #[trigger] before[j]
                                    == RunnerEvent::TailerJoined(Stream::Stderr);
                            assert(events[j] == before[j]);
                        }
                        if stdout_joined && !o0 {
                            assert(events[n] == RunnerEvent::TailerJoined(Stream::Stdout));
                        }
                        if stderr_joined && !r0 {
                            assert(events[n] == RunnerEvent::TailerJoined(Stream::Stderr));
                        }
                    },
                    _ => {},
                }
            },
            _ => {},
        }
    }
}

/// Whatever happens in a run, it reports success or a failed exit only once
/// the process has ended and both tailers have been joined after that.
pub proof fn lemma_result_only_after_draining(events: Seq<RunnerEvent>, event: RunnerEvent)
    ensures
        match next(state_after(RunnerState::Ready, events), event).1 {
            RunnerAction::Report(Ok(())) => exists|exit: ChildExit|
                exit.success && #[trigger] drained(events.push(event), exit),
            RunnerAction::Report(Err(RunError::ChildFailure(exit))) => !exit.success && drained(
                events.push(event),
                exit,
            ),
            _ => true,
        },
{
    lemma_draining_history(events);
    lemma_report_waits_for_tailers(state_after(RunnerState::Ready, events), event);
    let all = events.push(event);
    match state_after(RunnerState::Ready, events) {
        RunnerState::Draining { exit, stdout_joined, stderr_joined } => {
            match event {
                RunnerEvent::TailerJoined(stream) => {
                    if joined_after(stdout_joined, Stream::Stdout, stream) && joined_after(
                        stderr_joined,
                        Stream::Stderr,
                        stream,
                    ) {
                        let n = events.len() as int;
                        let i = choose|i: int|
                            0 <= i < events.len() && #[trigger] events[i] == RunnerEvent::Exited(
                                exit,
                            ) && (stdout_joined ==> joined_since(events, i, Stream::Stdout)) && (
                            stderr_joined ==> joined_since(events, i, Stream::Stderr));
                        assert(all[i] == events[i]);
                        assert(all[n] == event);
                        if stdout_joined {
                            let j = choose|j: int|
                                i < j < events.len() && #[trigger] events[j]
                                    == RunnerEvent::TailerJoined(Stream::Stdout);
                            assert(all[j] == events[j]);
                        }
                        if stderr_joined {
                            let j = choose|j: int|
                                i < j < events.len() && #[trigger] events[j]
                                    == RunnerEvent::TailerJoined(Stream::Stderr);
                            assert(all[j] == events[j]);
                        }
                        assert(joined_since(all, i, Stream::Stdout));
                        assert(joined_since(all, i, Stream::Stderr));
                        assert(drained(all, exit));
                    }
                },
                _ => {},
            }
        },
        _ => {},
    }
}

/// A run is over once it has reported: no later event changes its state or
/// asks for anything.
pub proof fn lemma_done_is_final(event: RunnerEvent)
    ensures
        next(RunnerState::Done, event) == (RunnerState::Done, RunnerAction::Nothing),
{
}

/// A run in which everything works reports what the exit stands for, in
/// whichever order the two tailers are joined, and reports it last.
pub proof fn lemma_full_run_reports_exit(exit: ChildExit, first: Stream)
    ensures
        ({
            let second = if first == Stream::Stdout {
                Stream::Stderr
            } else {
                Stream::Stdout
            };
            let s1 = next(RunnerState::Ready, RunnerEvent::Start);
            let s2 = next(s1.0, RunnerEvent::Spawned { stdout: true, stderr: true });
            let s3 = next(s2.0, RunnerEvent::Exited(exit));
            let s4 = next(s3.0, RunnerEvent::TailerJoined(first));
            let s5 = next(s4.0, RunnerEvent::TailerJoined(second));
            &&& s1.1 == RunnerAction::Spawn
            &&& s2.1 == RunnerAction::TailAndWait
            &&& s3.1 == RunnerAction::JoinTailers
            &&& s4.1 == RunnerAction::JoinTailers
            &&& s5 == (RunnerState::Done, RunnerAction::Report(outcome(exit)))
        }),
{
}

} // verus!
