use vstd::prelude::*;
use crate::connect::ServerConnectToken;
use crate::game_instance::{GameOverReport, GameStartInfo};

verus! {

/// A monitored game client, as seen by a `ClientMonitor`.
pub trait ClientMonitorImpl: Sized {
    /// The monitored client's game id.
    spec fn spec_game_id(&self) -> u64;

    /// Whether the monitored client is running.
    spec fn spec_is_running(&self) -> bool;

    /// What taking the client's result gives now.
    spec fn spec_result(&self) -> Result<Option<GameOverReport>, ()>;

    /// The client after it was sent `token`.
    spec fn spec_after_token(&self, token: ServerConnectToken) -> Self;

    /// The client after it was killed.
    spec fn spec_after_kill(&self) -> Self;

    /// Get the monitored client's game id.
    fn game_id(&self) -> (r: u64)
        ensures
            r == self.spec_game_id(),
    ;

    /// Check if the game client is running.
    fn is_running(&self) -> (r: bool)
        ensures
            r == self.spec_is_running(),
    ;

    /// Send a fresh connect token into the monitored client.
    fn send_token(&mut self, token: ServerConnectToken)
        ensures
            *final(self) == old(self).spec_after_token(token),
    ;

    /// Kill the monitored client.
    fn kill(&mut self)
        ensures
            *final(self) == old(self).spec_after_kill(),
    ;

    /// Try to take the result from running the client.
    /// - Returns `Err` if the client is still running.
    /// - Returns `Ok(None)` if the client is shut down but there is no report available (either it doesn't exist
    ///   or it was already taken).
    fn take_result(&mut self) -> (r: Result<Option<GameOverReport>, ()>)
        ensures
            r == old(self).spec_result(),
            old(self).spec_is_running() ==> r is Err,
    ;
}

/// Monitors a running game client, if there is one.
#[derive(Debug)]
pub struct ClientMonitor<M: ClientMonitorImpl> {
    inner: Option<M>,
}

impl<M: ClientMonitorImpl> ClientMonitor<M> {
    /// The monitored client, if any.
    pub closed spec fn client(&self) -> Option<M> {
        self.inner
    }

    /// A monitor with no client.
    pub fn new() -> (r: Self)
        ensures
            r.client() is None,
    {
        ClientMonitor { inner: None }
    }

    /// The id of the monitored client's game (if there is one).
    pub fn game_id(&self) -> (r: Option<u64>)
        ensures
            r == match self.client() {
                Some(c) => Some(c.spec_game_id()),
                None => None,
            },
    {
        match &self.inner {
            Some(inner) => Some(inner.game_id()),
            None => None,
        }
    }

    /// Check if a client is currently monitored.
    pub fn has_client(&self) -> (r: bool)
        ensures
            r == self.client() is Some,
    {
        self.inner.is_some()
    }

    /// Check if the monitored client is still running (`false` without a client).
    pub fn is_running(&self) -> (r: bool)
        ensures
            r == match self.client() {
                Some(c) => c.spec_is_running(),
                None => false,
            },
    {
        match &self.inner {
            Some(inner) => inner.is_running(),
            None => false,
        }
    }

    /// Send a fresh connect token into the monitored client. Does nothing if no client is monitored.
    pub fn send_token(&mut self, token: ServerConnectToken)
        ensures
            final(self).client() == match old(self).client() {
                Some(c) => Some(c.spec_after_token(token)),
                None => None,
            },
    {
        match &mut self.inner {
            Some(inner) => inner.send_token(token),
            None => {},
        }
    }

    /// Kill the monitored client. Does nothing if not monitoring a client of game `game_id`.
    pub fn kill(&mut self, game_id: u64)
        ensures
            final(self).client() == match old(self).client() {
                Some(c) => if c.spec_game_id() == game_id { Some(c.spec_after_kill()) } else { Some(c) },
                None => None,
            },
    {
        match &mut self.inner {
            Some(inner) => {
                if inner.game_id() != game_id {
                    return;
                }
                inner.kill();
            },
            None => {},
        }
    }

    /// Set a new monitored client.
    pub fn set(&mut self, monitor: M)
        ensures
            final(self).client() == Some(monitor),
    {
        self.inner = Some(monitor);
    }

    /// Take the result of the monitored game; `Err(())` without a client.
    pub fn take_result(&mut self) -> (r: Result<Option<GameOverReport>, ()>)
        ensures
            r == match old(self).client() {
                Some(c) => c.spec_result(),
                None => Err(()),
            },
            old(self).client() is Some ==> final(self).client() is Some,
            old(self).client() is None ==> final(self).client() is None,
    {
        match &mut self.inner {
            Some(inner) => inner.take_result(),
            None => Err(()),
        }
    }

    /// Stop monitoring the client; `take_result` returns an error afterwards.
    pub fn clear(&mut self)
        ensures
            final(self).client() is None,
    {
        self.inner = None;
    }

    /// Clears the monitor when its client has stopped and its result could be taken, handing back the game
    /// over report that was taken, if any.
    /// - Leaves the monitor untouched and returns `None` while the client runs or when there is no client.
    pub fn cleanup(&mut self) -> (r: Option<GameOverReport>)
        ensures
            match old(self).client() {
                None => r is None && final(self).client() is None,
                Some(c) => if c.spec_is_running() {
                    r is None && final(self).client() == old(self).client()
                } else {
                    match c.spec_result() {
                        Ok(report) => r == report && final(self).client() is None,
                        Err(_) => r is None && final(self).client() is Some,
                    }
                },
            },
    {
        if self.is_running() || !self.has_client() {
            return None;
        }
        match self.take_result() {
            Ok(result) => {
                self.clear();
                result
            },
            Err(_) => None,
        }
    }
}

/// Stand-in monitor for multiplayer clients on WASM targets, where no client process can be watched.
#[derive(Debug)]
pub struct ClientMonitorMultiplayerWasm;

impl ClientMonitorImpl for ClientMonitorMultiplayerWasm {
    open spec fn spec_game_id(&self) -> u64 {
        u64::MAX
    }

    open spec fn spec_is_running(&self) -> bool {
        false
    }

    open spec fn spec_result(&self) -> Result<Option<GameOverReport>, ()> {
        Err(())
    }

    /// The token is ignored.
    open spec fn spec_after_token(&self, token: ServerConnectToken) -> Self {
        *self
    }

    /// There is nothing to kill.
    open spec fn spec_after_kill(&self) -> Self {
        *self
    }

    fn game_id(&self) -> (r: u64) {
        u64::MAX
    }

    fn is_running(&self) -> (r: bool) {
        false
    }

    fn send_token(&mut self, token: ServerConnectToken) {
    }

    fn kill(&mut self) {
    }

    fn take_result(&mut self) -> (r: Result<Option<GameOverReport>, ()>) {
        Err(())
    }
}

/// Launcher configuration for multiplayer clients on WASM targets.
#[derive(Debug)]
pub struct MultiPlayerLauncherConfigWasm<S>(core::marker::PhantomData<S>);

impl<S> MultiPlayerLauncherConfigWasm<S> {
    /// A launcher configuration (it carries no settings).
    pub fn new() -> (r: Self) {
        MultiPlayerLauncherConfigWasm(core::marker::PhantomData)
    }
}

impl<S> Clone for MultiPlayerLauncherConfigWasm<S> {
    fn clone(&self) -> (r: Self)
        ensures
            r == *self,
    {
        MultiPlayerLauncherConfigWasm(core::marker::PhantomData)
    }
}

/// Launches a multiplayer game on WASM targets.
pub fn launch_multiplayer_client_wasm(
    config: MultiPlayerLauncherConfigWasm<()>,
    token: ServerConnectToken,
    start_info: GameStartInfo,
) -> (r: ClientMonitorMultiplayerWasm)
    ensures
        r.spec_game_id() == u64::MAX,
        !r.spec_is_running(),
        r.spec_result() is Err,
{
    ClientMonitorMultiplayerWasm
}

} // verus!
