//! The watch loop as a state machine: what the program does next, given
//! what just happened. The caller runs the pipeline and waits for changes;
//! the decisions are made here.

use vstd::prelude::*;

verus! {

/// Where the program stands.
#[derive(Clone, Copy, Debug, PartialEq, Eq, Structural)]
pub enum WatchState {
    /// A run of the pipeline is in progress.
    Generating,
    /// Waiting for changes in the input directory.
    Idle,
    /// Ended after a run without error, watch mode being off.
    Done,
    /// Ended by a run that failed.
    Aborted,
}

/// What just happened.
#[derive(Clone, Copy, Debug, PartialEq, Eq, Structural)]
pub enum WatchEvent {
    /// The run in progress ended without error.
    RunCompleted,
    /// The run in progress failed.
    RunFailed,
    /// A wait for changes came back with this many notifications.
    ChangesObserved(usize),
}

/// What the program does next.
#[derive(Clone, Copy, Debug, PartialEq, Eq, Structural)]
pub enum WatchAction {
    /// Run the whole pipeline.
    StartRun,
    /// Block until the input directory changes.
    AwaitChanges,
    /// End the process with success.
    Exit,
    /// End the process with failure.
    Abort,
    /// Nothing new: go on with what is in progress.
    Proceed,
}

/// The state at startup: one run is made unconditionally.
pub open spec fn initial() -> (WatchState, WatchAction) {
    (WatchState::Generating, WatchAction::StartRun)
}

/// The transition function. A completed run leads to waiting where watch
/// mode is on and to the end where it is off; a failed run ends the
/// process; one notification or more, received while waiting, starts one
/// run; a run in progress is never interrupted; an ended process stays
/// ended.
pub open spec fn next(state: WatchState, event: WatchEvent, watch: bool) -> (
    WatchState,
    WatchAction,
) {
    match (state, event) {
        (WatchState::Generating, WatchEvent::RunCompleted) => if watch {
            (WatchState::Idle, WatchAction::AwaitChanges)
        } else {
            (WatchState::Done, WatchAction::Exit)
        },
        (WatchState::Generating, WatchEvent::RunFailed) => (
            WatchState::Aborted,
            WatchAction::Abort,
        ),
        (WatchState::Generating, WatchEvent::ChangesObserved(_)) => (
            WatchState::Generating,
            WatchAction::Proceed,
        ),
        (WatchState::Idle, WatchEvent::ChangesObserved(count)) => if count > 0 {
            (WatchState::Generating, WatchAction::StartRun)
        } else {
            (WatchState::Idle, WatchAction::AwaitChanges)
        },
        (WatchState::Idle, _) => (WatchState::Idle, WatchAction::Proceed),
        (WatchState::Done, _) => (WatchState::Done, WatchAction::Exit),
        (WatchState::Aborted, _) => (WatchState::Aborted, WatchAction::Abort),
    }
}

/// The state and the action with which the program starts.
pub fn start() -> (r: (WatchState, WatchAction))
    ensures
        r == initial(),
{
    (WatchState::Generating, WatchAction::StartRun)
}

/// The next state and the action to perform, after `event` in `state`.
pub fn watch_and_generate(state: WatchState, event: WatchEvent, watch: bool) -> (r: (
    WatchState,
    WatchAction,
))
    ensures
        r == next(state, event, watch),
{
    match state {
        WatchState::Generating => match event {
            WatchEvent::RunCompleted => if watch {
                (WatchState::Idle, WatchAction::AwaitChanges)
            } else {
                (WatchState::Done, WatchAction::Exit)
            },
            WatchEvent::RunFailed => (WatchState::Aborted, WatchAction::Abort),
            WatchEvent::ChangesObserved(_) => (WatchState::Generating, WatchAction::Proceed),
        },
        WatchState::Idle => match event {
            WatchEvent::ChangesObserved(count) => if count > 0 {
                (WatchState::Generating, WatchAction::StartRun)
            } else {
                (WatchState::Idle, WatchAction::AwaitChanges)
            },
            _ => (WatchState::Idle, WatchAction::Proceed),
        },
        WatchState::Done => (WatchState::Done, WatchAction::Exit),
        WatchState::Aborted => (WatchState::Aborted, WatchAction::Abort),
    }
}

/// A burst of notifications starts one run, however many they are.
pub proof fn lemma_burst_starts_one_run(count: usize, other: usize, watch: bool)
    requires
        count > 0,
        other > 0,
    ensures
        next(WatchState::Idle, WatchEvent::ChangesObserved(count), watch) == (
            WatchState::Generating,
            WatchAction::StartRun,
        ),
        next(WatchState::Idle, WatchEvent::ChangesObserved(count), watch) == next(
            WatchState::Idle,
            WatchEvent::ChangesObserved(other),
            watch,
        ),
{
}

/// With watch mode on the loop never ends by itself: from waiting or
/// running, only a failed run leads to an end.
pub proof fn lemma_watch_ends_only_by_failure(state: WatchState, event: WatchEvent)
    requires
        state == WatchState::Idle || state == WatchState::Generating,
    ensures
        ({
            let after = next(state, event, true).0;
            after == WatchState::Aborted <==> (state == WatchState::Generating && event
                == WatchEvent::RunFailed)
        }),
        next(state, event, true).0 != WatchState::Done,
{
}

} // verus!
