use vstd::prelude::*;

verus! {

/// Where a renet client stands with its server. Exactly one of these holds at any time.
#[derive(Debug, Clone, Copy, PartialEq, Eq, Structural)]
pub enum ClientConnectionStatus {
    Disconnected,
    Connecting,
    Connected,
}

/// States of the client framework, in the order a client goes through them.
#[derive(Debug, Clone, Copy, PartialEq, Eq, Structural)]
pub enum ClientFwState {
    Setup,
    Connecting,
    Syncing,
    Init,
    Game,
    End,
}

/// Progress of one loading step: `done` units of work out of `total`.
#[derive(Debug, Clone, Copy, PartialEq, Eq, Structural)]
pub struct Progress {
    pub done: u32,
    pub total: u32,
}

/// Connection progress: nothing while disconnected, half-way while connecting, complete once connected.
pub open spec fn connection_progress(status: ClientConnectionStatus) -> Progress {
    match status {
        ClientConnectionStatus::Disconnected => Progress { done: 0, total: 2 },
        ClientConnectionStatus::Connecting => Progress { done: 1, total: 2 },
        ClientConnectionStatus::Connected => Progress { done: 2, total: 2 },
    }
}

/// Initialization progress: nothing while connecting, half-way while syncing, complete from `Init` on
/// (and in every other state).
pub open spec fn initialization_progress(state: ClientFwState) -> Progress {
    match state {
        ClientFwState::Connecting => Progress { done: 0, total: 2 },
        ClientFwState::Syncing => Progress { done: 1, total: 2 },
        _ => Progress { done: 2, total: 2 },
    }
}

/// Tracks the connection status of a client as loading progress.
pub fn track_connection_state(status: ClientConnectionStatus) -> (r: Progress)
    ensures
        r == connection_progress(status),
        r.done <= r.total,
{
    match status {
        ClientConnectionStatus::Disconnected => Progress { done: 0, total: 2 },
        ClientConnectionStatus::Connecting => Progress { done: 1, total: 2 },
        ClientConnectionStatus::Connected => Progress { done: 2, total: 2 },
    }
}

/// Tracks the client framework state as loading progress.
pub fn track_initialization_state(state: ClientFwState) -> (r: Progress)
    ensures
        r == initialization_progress(state),
        r.done <= r.total,
{
    match state {
        ClientFwState::Connecting => Progress { done: 0, total: 2 },
        ClientFwState::Syncing => Progress { done: 1, total: 2 },
        ClientFwState::Init => Progress { done: 2, total: 2 },
        _ => Progress { done: 2, total: 2 },
    }
}

/// Whether the first replication message after the latest connect has arrived.
///
/// Reset whenever the client has just connected or is not connected; set when the client is connected and the
/// server's init tick changed.
pub open spec fn next_replication_initialized(
    initialized: bool,
    just_connected: bool,
    status: ClientConnectionStatus,
    tick_changed: bool,
) -> bool {
    let reset = just_connected || status != ClientConnectionStatus::Connected;
    if status == ClientConnectionStatus::Connected && tick_changed {
        true
    } else if reset {
        false
    } else {
        initialized
    }
}

/// Progress of one flag: `0/1` while unset, `1/1` once set.
pub open spec fn flag_progress(flag: bool) -> Progress {
    if flag {
        Progress { done: 1, total: 1 }
    } else {
        Progress { done: 0, total: 1 }
    }
}

/// Remembers, from one tick to the next, whether replication has been initialized since the client last
/// connected.
#[derive(Debug, Clone, Copy, PartialEq, Eq, Structural)]
pub struct ReplicationTracker {
    initialized: bool,
}

impl ReplicationTracker {
    pub closed spec fn is_initialized(self) -> bool {
        self.initialized
    }

    /// A tracker that has seen no replication yet.
    pub fn new() -> (r: Self)
        ensures
            !r.is_initialized(),
    {
        ReplicationTracker { initialized: false }
    }

    /// Updates the tracker for this tick and reports its progress.
    /// - `just_connected`: the client connected in this tick.
    /// - `tick_changed`: the server's init tick changed in this tick.
    ///
    /// Several changes of the tick after connecting set the flag once and keep it set.
    pub fn track(&mut self, just_connected: bool, status: ClientConnectionStatus, tick_changed: bool) -> (r: Progress)
        ensures
            final(self).is_initialized() == next_replication_initialized(
                old(self).is_initialized(),
                just_connected,
                status,
                tick_changed,
            ),
            r == flag_progress(final(self).is_initialized()),
            r.done <= r.total,
    {
        let connected = match status {
            ClientConnectionStatus::Connected => true,
            _ => false,
        };
        if just_connected || !connected {
            self.initialized = false;
        }
        if connected && tick_changed {
            self.initialized = true;
        }
        if self.initialized {
            Progress { done: 1, total: 1 }
        } else {
            Progress { done: 0, total: 1 }
        }
    }
}

/// The replication flag follows the connection: it is never set while the client is not connected, and it
/// is cleared right after a connect unless the first replication message arrives in that same update; it is
/// set once the client is connected and the server's init tick changes, and otherwise it keeps its value.
/// Its progress counts one unit, done exactly when the flag is set.
pub proof fn lemma_replication_flag(
    initialized: bool,
    just_connected: bool,
    status: ClientConnectionStatus,
    tick_changed: bool,
)
    ensures
        status != ClientConnectionStatus::Connected ==> !next_replication_initialized(
            initialized,
            just_connected,
            status,
            tick_changed,
        ),
        just_connected && !tick_changed ==> !next_replication_initialized(initialized, just_connected, status, tick_changed),
        status == ClientConnectionStatus::Connected && tick_changed ==> next_replication_initialized(
            initialized,
            just_connected,
            status,
            tick_changed,
        ),
        status == ClientConnectionStatus::Connected && !just_connected && !tick_changed ==> next_replication_initialized(
            initialized,
            just_connected,
            status,
            tick_changed,
        ) == initialized,
        flag_progress(initialized).total == 1,
        (flag_progress(initialized).done == 1) == initialized,
        flag_progress(initialized).done <= 1,
{
}

} // verus!
