//! The watch supervisor of one account, as a state machine.
//!
//! A supervisor keeps one connection to the server: it connects, brings
//! the primary folder up to date, and then waits for the server to signal
//! a change, which it answers with another pass. Whatever fails, it waits
//! a fixed time and connects again; only cancellation ends it.

use vstd::prelude::*;
use crate::sync::checkpoint::FolderRole;

verus! {

/// The time that a supervisor waits before it connects again, in seconds.
pub const RECONNECT_BACKOFF_SECS: u64 = 30;

/// Where a supervisor stands.
#[derive(Clone, Copy, Debug, PartialEq, Eq, Structural)]
pub enum WatchState {
    /// Not started.
    Idle,
    /// Opening a connection.
    Connecting,
    /// Connected; the pass that follows a connect is running.
    Syncing,
    /// Blocked until the server signals a change.
    Watching,
    /// The pass that answers a signal is running.
    Reacting,
    /// Waiting before the next connect.
    BackingOff,
    /// Cancelled, for good.
    Stopped,
}

/// What the driver of a supervisor reports.
#[derive(Clone, Copy, Debug, PartialEq, Eq, Structural)]
pub enum WatchEvent {
    /// The supervisor's task was started.
    Started,
    Connected,
    ConnectFailed,
    /// The pass over the primary folder has completed.
    PassCompleted,
    /// The pass over the primary folder was given up.
    PassFailed,
    /// The server has signalled a change.
    ChangeSignaled,
    /// Reading from or writing to the connection has failed.
    ConnectionLost,
    /// The wait before the next connect is over.
    BackoffElapsed,
    /// The cancellation signal was given.
    Cancelled,
}

/// What the driver of a supervisor is asked to do.
#[derive(Clone, Copy, Debug, PartialEq, Eq, Structural)]
pub enum WatchAction {
    /// Wait to be started.
    AwaitStart,
    /// Open an authenticated connection.
    Connect,
    /// Select the primary folder and run a pass over it.
    SyncPrimaryFolder,
    /// Block until the server signals a change or cancellation is
    /// signalled, whichever comes first.
    Watch,
    /// Let the connection go and wait this many seconds.
    Wait { seconds: u64 },
    /// Let the connection go and end the task.
    Exit,
}

/// The path of the primary folder, the one that a supervisor keeps up to
/// date and watches.
pub open spec fn primary_folder_path_spec() -> Seq<char> {
    "INBOX"@
}

/// The path of the primary folder.
pub fn primary_folder_path() -> (path: String)
    ensures
        path@ == primary_folder_path_spec(),
{
    "INBOX".to_owned()
}

/// The role of the primary folder.
pub fn primary_folder_role() -> (role: FolderRole)
    ensures
        role == FolderRole::Inbox,
{
    FolderRole::Inbox
}

impl WatchState {
    /// The state that follows when `event` is reported. Cancellation
    /// stops the supervisor wherever it stands; a failure sends it to
    /// wait and connect again; an event that the state does not wait for
    /// changes nothing.
    pub open spec fn next(self, event: WatchEvent) -> WatchState {
        match (self, event) {
            (WatchState::Stopped, _) => WatchState::Stopped,
            (_, WatchEvent::Cancelled) => WatchState::Stopped,
            (WatchState::Idle, WatchEvent::Started) => WatchState::Connecting,
            (WatchState::Connecting, WatchEvent::Connected) => WatchState::Syncing,
            (WatchState::Connecting, WatchEvent::ConnectFailed) => WatchState::BackingOff,
            (WatchState::Syncing, WatchEvent::PassCompleted) => WatchState::Watching,
            (WatchState::Syncing, WatchEvent::PassFailed) => WatchState::BackingOff,
            (WatchState::Syncing, WatchEvent::ConnectionLost) => WatchState::BackingOff,
            (WatchState::Watching, WatchEvent::ChangeSignaled) => WatchState::Reacting,
            (WatchState::Watching, WatchEvent::ConnectionLost) => WatchState::BackingOff,
            (WatchState::Reacting, WatchEvent::PassCompleted) => WatchState::Watching,
            (WatchState::Reacting, WatchEvent::PassFailed) => WatchState::BackingOff,
            (WatchState::Reacting, WatchEvent::ConnectionLost) => WatchState::BackingOff,
            (WatchState::BackingOff, WatchEvent::BackoffElapsed) => WatchState::Connecting,
            (state, _) => state,
        }
    }

    /// What the driver is to do in this state.
    pub open spec fn pending(self) -> WatchAction {
        match self {
            WatchState::Idle => WatchAction::AwaitStart,
            WatchState::Connecting => WatchAction::Connect,
            WatchState::Syncing => WatchAction::SyncPrimaryFolder,
            WatchState::Watching => WatchAction::Watch,
            WatchState::Reacting => WatchAction::SyncPrimaryFolder,
            WatchState::BackingOff => WatchAction::Wait { seconds: RECONNECT_BACKOFF_SECS },
            WatchState::Stopped => WatchAction::Exit,
        }
    }

    /// The state after `events` were reported, one after the other.
    pub open spec fn after(self, events: Seq<WatchEvent>) -> WatchState
        decreases events.len(),
    {
        if events.len() == 0 {
            self
        } else {
            self.after(events.drop_last()).next(events.last())
        }
    }
}

/// The watch supervisor of one account.
#[derive(Clone, Copy, Debug)]
pub struct WatchSupervisor {
    pub account_id: i64,
    pub state: WatchState,
}

impl WatchSupervisor {
    /// A supervisor for an account, not yet started. An account that has
    /// no identifier yet is not watched.
    pub fn for_account(account_id: Option<i64>) -> (supervisor: Option<WatchSupervisor>)
        ensures
            supervisor == match account_id {
                Some(id) => Some(WatchSupervisor { account_id: id, state: WatchState::Idle }),
                None => None,
            },
    {
        match account_id {
            Some(id) => Some(WatchSupervisor { account_id: id, state: WatchState::Idle }),
            None => None,
        }
    }

    /// The action that the supervisor is waiting on.
    pub fn pending_action(&self) -> (action: WatchAction)
        ensures
            action == self.state.pending(),
    {
        match self.state {
            WatchState::Idle => WatchAction::AwaitStart,
            WatchState::Connecting => WatchAction::Connect,
            WatchState::Syncing => WatchAction::SyncPrimaryFolder,
            WatchState::Watching => WatchAction::Watch,
            WatchState::Reacting => WatchAction::SyncPrimaryFolder,
            WatchState::BackingOff => WatchAction::Wait { seconds: RECONNECT_BACKOFF_SECS },
            WatchState::Stopped => WatchAction::Exit,
        }
    }

    /// Whether the supervisor was cancelled.
    pub fn is_stopped(&self) -> (stopped: bool)
        ensures
            stopped == (self.state is Stopped),
    {
        match self.state {
            WatchState::Stopped => true,
            _ => false,
        }
    }

    /// Takes a report of the driver and says what to do next.
    pub fn step(&mut self, event: WatchEvent) -> (action: WatchAction)
        ensures
            final(self).account_id == old(self).account_id,
            final(self).state == old(self).state.next(event),
            action == final(self).state.pending(),
            event is Cancelled ==> final(self).state is Stopped && action == WatchAction::Exit,
            final(self).state is Stopped ==> event is Cancelled || old(self).state is Stopped,
    {
        let next = match (self.state, event) {
            (WatchState::Stopped, _) => WatchState::Stopped,
            (_, WatchEvent::Cancelled) => WatchState::Stopped,
            (WatchState::Idle, WatchEvent::Started) => WatchState::Connecting,
            (WatchState::Connecting, WatchEvent::Connected) => WatchState::Syncing,
            (WatchState::Connecting, WatchEvent::ConnectFailed) => WatchState::BackingOff,
            (WatchState::Syncing, WatchEvent::PassCompleted) => WatchState::Watching,
            (WatchState::Syncing, WatchEvent::PassFailed) => WatchState::BackingOff,
            (WatchState::Syncing, WatchEvent::ConnectionLost) => WatchState::BackingOff,
            (WatchState::Watching, WatchEvent::ChangeSignaled) => WatchState::Reacting,
            (WatchState::Watching, WatchEvent::ConnectionLost) => WatchState::BackingOff,
            (WatchState::Reacting, WatchEvent::PassCompleted) => WatchState::Watching,
            (WatchState::Reacting, WatchEvent::PassFailed) => WatchState::BackingOff,
            (WatchState::Reacting, WatchEvent::ConnectionLost) => WatchState::BackingOff,
            (WatchState::BackingOff, WatchEvent::BackoffElapsed) => WatchState::Connecting,
            (state, _) => state,
        };
        self.state = next;
        self.pending_action()
    }
}

/// A stopped supervisor stays stopped, whatever is reported to it.
pub proof fn lemma_stopped_is_final(events: Seq<WatchEvent>)
    ensures
        WatchState::Stopped.after(events) == WatchState::Stopped,
    decreases events.len(),
{
    if events.len() > 0 {
        lemma_stopped_is_final(events.drop_last());
    }
}

/// A run can be cut in two.
pub proof fn lemma_watch_run_split(state: WatchState, events: Seq<WatchEvent>, k: int)
    requires
        0 <= k <= events.len(),
    ensures
        state.after(events) == state.after(events.take(k)).after(events.skip(k)),
    decreases events.len() - k,
{
    if k == events.len() {
        assert(events.take(k) == events);
        assert(events.skip(k).len() == 0);
    } else {
        let rest = events.skip(k);
        assert(events.drop_last().take(k) == events.take(k));
        assert(events.drop_last().skip(k) == rest.drop_last());
        assert(rest.last() == events.last());
        lemma_watch_run_split(state, events.drop_last(), k);
    }
}

/// Watch cancellation. Once cancellation was signalled, in whatever
/// state and whatever is reported afterwards, the supervisor is stopped:
/// the one thing it asks for is to end the task, so it never again asks
/// for a connection, a pass or a watch.
pub proof fn lemma_cancellation_stops(state: WatchState, events: Seq<WatchEvent>, k: int)
    requires
        0 <= k < events.len(),
        events[k] is Cancelled,
    ensures
        state.after(events) == WatchState::Stopped,
        state.after(events).pending() == WatchAction::Exit,
        forall|n: int|
            k < n <= events.len() ==> (#[trigger] state.after(events.take(n))).pending()
                == WatchAction::Exit,
{
    assert forall|n: int| k < n <= events.len() implies (#[trigger] state.after(
        events.take(n),
    )) == WatchState::Stopped by {
        let upto = events.take(n);
        let cut = upto.take(k + 1);
        assert(cut.drop_last() == upto.take(k));
        assert(cut.last() == events[k]);
        assert(state.after(cut) == WatchState::Stopped);
        lemma_watch_run_split(state, upto, k + 1);
        lemma_stopped_is_final(upto.skip(k + 1));
    }
    assert(events.take(events.len() as int) == events);
}

/// Only cancellation stops a supervisor: whatever else is reported, a
/// supervisor that runs keeps running.
pub proof fn lemma_only_cancellation_stops(state: WatchState, events: Seq<WatchEvent>)
    requires
        !(state is Stopped),
        forall|i: int| 0 <= i < events.len() ==> !(#[trigger] events[i] is Cancelled),
    ensures
        !(state.after(events) is Stopped),
    decreases events.len(),
{
    if events.len() > 0 {
        let shorter = events.drop_last();
        assert forall|i: int| 0 <= i < shorter.len() implies !(#[trigger] shorter[i] is Cancelled) by {
            assert(shorter[i] == events[i]);
        }
        lemma_only_cancellation_stops(state, shorter);
        assert(!(events.last() is Cancelled));
    }
}

/// A failure never ends a supervisor: from every state in which
/// something can fail, the failure leads to a wait of
/// [`RECONNECT_BACKOFF_SECS`] seconds, and the end of the wait to a new
/// connect.
pub proof fn lemma_failure_reconnects(state: WatchState, failure: WatchEvent)
    requires
        state is Connecting || state is Syncing || state is Watching || state is Reacting,
        match state {
            WatchState::Connecting => failure is ConnectFailed,
            WatchState::Watching => failure is ConnectionLost,
            _ => failure is PassFailed || failure is ConnectionLost,
        },
    ensures
        state.next(failure) == WatchState::BackingOff,
        state.next(failure).pending() == (WatchAction::Wait { seconds: RECONNECT_BACKOFF_SECS }),
        state.next(failure).next(WatchEvent::BackoffElapsed) == WatchState::Connecting,
        state.next(failure).next(WatchEvent::BackoffElapsed).pending() == WatchAction::Connect,
{
}

} // verus!
