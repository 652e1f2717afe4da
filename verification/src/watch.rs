//! The watch loop as a state machine: one event in, one action out.

use vstd::prelude::*;

verus! {

/// Where the loop stands.
#[derive(Clone, Copy, Debug, PartialEq, Eq, Structural)]
pub enum WatchState {
    /// The first build is running; nothing is served or watched yet.
    Starting,
    /// Waiting for a change.
    Idle,
    /// A build is running.
    Rebuilding,
    /// The event channel is closed; the loop has ended.
    Stopped,
}

/// What the loop is told.
#[derive(Clone, Copy, Debug, PartialEq, Eq, Structural)]
pub enum WatchEvent {
    /// A watched path changed.
    Changed,
    /// The watcher reported an error.
    WatchFailed,
    /// The event channel was closed.
    Closed,
    /// The running build succeeded.
    BuildSucceeded,
    /// The running build failed.
    BuildFailed,
}

/// What the loop's driver does next.
#[derive(Clone, Copy, Debug, PartialEq, Eq, Structural)]
pub enum WatchAction {
    /// Start serving the output and watching for changes.
    StartWatching,
    /// Give up: without a first build there is nothing to serve.
    Abort,
    /// Run one full build, then report how it ended.
    Rebuild,
    /// Report the watcher's error and keep waiting.
    ReportWatchError,
    /// Report that the site was rebuilt.
    ReportRebuilt,
    /// Report that the build failed; the last output stays in place.
    ReportBuildFailure,
    /// Leave the loop.
    Stop,
    /// Nothing.
    Wait,
}

/// The transition of the loop.
pub open spec fn next_of(state: WatchState, event: WatchEvent) -> (WatchState, WatchAction) {
    match (state, event) {
        (WatchState::Starting, WatchEvent::BuildSucceeded) => (
            WatchState::Idle,
            WatchAction::StartWatching,
        ),
        (WatchState::Starting, WatchEvent::BuildFailed) => (
            WatchState::Stopped,
            WatchAction::Abort,
        ),
        (WatchState::Idle, WatchEvent::Changed) => (WatchState::Rebuilding, WatchAction::Rebuild),
        (WatchState::Idle, WatchEvent::WatchFailed) => (
            WatchState::Idle,
            WatchAction::ReportWatchError,
        ),
        (WatchState::Idle, WatchEvent::Closed) => (WatchState::Stopped, WatchAction::Stop),
        (WatchState::Rebuilding, WatchEvent::BuildSucceeded) => (
            WatchState::Idle,
            WatchAction::ReportRebuilt,
        ),
        (WatchState::Rebuilding, WatchEvent::BuildFailed) => (
            WatchState::Idle,
            WatchAction::ReportBuildFailure,
        ),
        _ => (state, WatchAction::Wait),
    }
}

/// Takes one event and says where the loop stands then and what to do.
pub fn watch_step(state: WatchState, event: WatchEvent) -> (r: (WatchState, WatchAction))
    ensures
        r == next_of(state, event),
{
    match state {
        WatchState::Starting => match event {
            WatchEvent::BuildSucceeded => (WatchState::Idle, WatchAction::StartWatching),
            WatchEvent::BuildFailed => (WatchState::Stopped, WatchAction::Abort),
            _ => (state, WatchAction::Wait),
        },
        WatchState::Idle => match event {
            WatchEvent::Changed => (WatchState::Rebuilding, WatchAction::Rebuild),
            WatchEvent::WatchFailed => (WatchState::Idle, WatchAction::ReportWatchError),
            WatchEvent::Closed => (WatchState::Stopped, WatchAction::Stop),
            _ => (state, WatchAction::Wait),
        },
        WatchState::Rebuilding => match event {
            WatchEvent::BuildSucceeded => (WatchState::Idle, WatchAction::ReportRebuilt),
            WatchEvent::BuildFailed => (WatchState::Idle, WatchAction::ReportBuildFailure),
            _ => (state, WatchAction::Wait),
        },
        WatchState::Stopped => (state, WatchAction::Wait),
    }
}

/// A build is started only while none is running. A failed rebuild leaves the
/// loop waiting for the next change; the loop ends only when the first build
/// fails or the channel is closed.
pub proof fn lemma_builds_are_serialized(state: WatchState, event: WatchEvent)
    ensures
        next_of(state, event).1 == WatchAction::Rebuild ==> state == WatchState::Idle && next_of(
            state,
            event,
        ).0 == WatchState::Rebuilding,
        next_of(WatchState::Rebuilding, WatchEvent::BuildFailed).0 == WatchState::Idle,
        next_of(state, event).0 == WatchState::Stopped ==> state == WatchState::Stopped || (state
            == WatchState::Starting && event == WatchEvent::BuildFailed) || (state
            == WatchState::Idle && event == WatchEvent::Closed),
{
}

} // verus!
