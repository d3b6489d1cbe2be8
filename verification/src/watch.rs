//! The life of the daemon, from start-up to the notifications it serves.
//!
//! The daemon starts out initializing. Once its subscription to the watched
//! root stands it is running, and stays so: every notification is classified
//! and served in full before the next is taken up. An error in place of a
//! notification is reported and leaves the daemon degraded until the next
//! notification comes through. No state ends the daemon.

use crate::events::{classify, paths_to_purge, ChangeEvent};
use crate::extensions::ExtensionSet;
use crate::text::views;
use vstd::prelude::*;

verus! {

/// Where the daemon stands.
#[derive(Clone, Copy, PartialEq, Eq, Structural, Debug)]
pub enum WatchState {
    /// Building the registry and subscribing to the watched root.
    Initializing,
    /// Waiting for notifications and serving them.
    Running,
    /// The last thing received was an error; waiting goes on.
    Degraded,
}

/// What the watch loop has to tell.
#[derive(Debug, PartialEq, Eq)]
pub enum Signal {
    /// The subscription to the watched root stands.
    Subscribed,
    /// A change notification came in.
    Change(ChangeEvent),
    /// An error came in place of a notification.
    Fault,
}

/// What the watch loop is to do next.
#[derive(Debug, PartialEq, Eq)]
pub enum Reaction {
    /// Wait for the next notification.
    Wait,
    /// Purge the thumbnails of these files, then wait.
    Purge(Vec<Vec<u8>>),
    /// Report the error, then wait.
    Report,
}

impl WatchState {
    /// Whether the daemon takes notifications in this state.
    pub open spec fn is_serving(self) -> bool {
        self == WatchState::Running || self == WatchState::Degraded
    }
}

/// The state that follows `state` on `signal`.
pub open spec fn next_state(state: WatchState, signal: Signal) -> WatchState {
    match signal {
        Signal::Subscribed => if state == WatchState::Initializing {
            WatchState::Running
        } else {
            state
        },
        Signal::Change(_) => if state.is_serving() {
            WatchState::Running
        } else {
            state
        },
        Signal::Fault => if state.is_serving() {
            WatchState::Degraded
        } else {
            state
        },
    }
}

/// The files whose thumbnails are purged on `signal` in `state`.
pub open spec fn purged_on(
    state: WatchState,
    signal: Signal,
    cache_dir: Seq<u8>,
    exts: Set<Seq<char>>,
) -> Seq<Seq<u8>> {
    match signal {
        Signal::Change(event) => if state.is_serving() {
            paths_to_purge(event.kind, views(event.paths@), cache_dir, exts)
        } else {
            Seq::empty()
        },
        _ => Seq::empty(),
    }
}

/// A daemon that serves notifications goes on serving them, whatever comes
/// in: it runs after a notification and is degraded after an error.
pub proof fn lemma_serving_goes_on(state: WatchState, signal: Signal)
    requires
        state.is_serving(),
    ensures
        next_state(state, signal).is_serving(),
        signal is Change ==> next_state(state, signal) == WatchState::Running,
        signal is Fault ==> next_state(state, signal) == WatchState::Degraded,
{
}

/// The state in which the daemon starts.
pub fn start() -> (state: WatchState)
    ensures
        state == WatchState::Initializing,
{
    WatchState::Initializing
}

/// Takes one signal of the watch loop: gives the state that follows and what
/// the loop is to do.
///
/// A notification that calls for no purge, and any signal that the state has
/// no use for, leaves the loop waiting.
pub fn step(state: WatchState, signal: &Signal, cache_dir: &[u8], valid_exts: &ExtensionSet) -> (next:
    (WatchState, Reaction))
    ensures
        next.0 == next_state(state, *signal),
        match next.1 {
            Reaction::Wait => !(signal is Fault && state.is_serving()) && purged_on(
                state,
                *signal,
                cache_dir@,
                valid_exts@,
            ).len() == 0,
            Reaction::Purge(paths) => views(paths@) == purged_on(
                state,
                *signal,
                cache_dir@,
                valid_exts@,
            ) && purged_on(state, *signal, cache_dir@, valid_exts@).len() > 0,
            Reaction::Report => signal is Fault && state.is_serving(),
        },
{
    let serving = match state {
        WatchState::Initializing => false,
        WatchState::Running => true,
        WatchState::Degraded => true,
    };
    match signal {
        Signal::Subscribed => {
            if serving {
                (state, Reaction::Wait)
            } else {
                (WatchState::Running, Reaction::Wait)
            }
        },
        Signal::Change(event) => {
            if !serving {
                return (state, Reaction::Wait);
            }
            let paths = classify(event, cache_dir, valid_exts);
            if paths.len() == 0 {
                (WatchState::Running, Reaction::Wait)
            } else {
                (WatchState::Running, Reaction::Purge(paths))
            }
        },
        Signal::Fault => {
            if serving {
                (WatchState::Degraded, Reaction::Report)
            } else {
                (state, Reaction::Wait)
            }
        },
    }
}

} // verus!
