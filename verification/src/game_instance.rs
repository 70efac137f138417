use vstd::prelude::*;
use crate::connect::ConnectMetas;

verus! {

/// Contains all data needed to launch a game with a game factory.
#[derive(Debug, Clone)]
pub struct GameLaunchPack {
    /// Id of the game.
    pub game_id: u64,
    /// Game launch data (serialized). Client data in here should be pre-shuffled.
    pub game_launch_data: Vec<u8>,
}

impl GameLaunchPack {
    pub fn new(game_id: u64, game_launch_data: Vec<u8>) -> (r: Self)
        ensures
            r.game_id == game_id,
            r.game_launch_data@ == game_launch_data@,
    {
        GameLaunchPack { game_id, game_launch_data }
    }
}

/// Command-line arguments of a game instance process: the launch pack, given as JSON after `-G`.
#[derive(Debug)]
pub struct GameInstanceCli {
    pub launch_pack: GameLaunchPack,
}

/// A command that may be sent into a game instance.
#[derive(Debug, Clone, Copy, PartialEq, Eq, Structural)]
pub enum GameInstanceCommand {
    /// Abort the instance.
    ///
    /// Causes the game to exit with an error code:
    /// - `65`: the app was unable to forward a `GameInstanceReport::GameAborted` report to the owner.
    /// - `66`: the app was successfully aborted.
    Abort,
}

/// Information used by a client to connect to a game.
#[derive(Debug, Clone)]
pub struct GameStartInfo {
    /// The game id.
    pub game_id: u64,
    /// User's server id.
    pub user_id: u128,
    /// User's client id within the game.
    pub client_id: u64,
    /// Data needed for a user to start a game.
    pub serialized_start_data: Vec<u8>,
}

impl GameStartInfo {
    /// Makes a start info from already-serialized start data.
    pub fn new(game_id: u64, user_id: u128, client_id: u64, serialized_start_data: Vec<u8>) -> (r: Self)
        ensures
            r.game_id == game_id,
            r.user_id == user_id,
            r.client_id == client_id,
            r.serialized_start_data@ == serialized_start_data@,
    {
        GameStartInfo { game_id, user_id, client_id, serialized_start_data }
    }

    /// Generate an empty start info from a user id, for testing.
    pub fn new_from_id(user_id: u128) -> (r: GameStartInfo)
        ensures
            r.game_id == 0,
            r.user_id == user_id,
            r.client_id == 0,
            r.serialized_start_data@.len() == 0,
    {
        GameStartInfo { game_id: 0u64, user_id, client_id: 0u64, serialized_start_data: Vec::new() }
    }
}

/// A game's final report, serialized by the game framework.
#[derive(Debug, Clone)]
pub struct GameOverReport {
    pub data: Vec<u8>,
}

/// Report emitted by a game factory that has initialized a game.
#[derive(Debug, Clone)]
pub struct GameStartReport {
    /// Metadata for generating connect tokens for the game.
    pub metas: ConnectMetas,
    /// Contains information needed by clients in order to set up their local game clients.
    pub start_infos: Vec<GameStartInfo>,
}

/// Report emitted by a game instance.
#[derive(Debug, Clone)]
pub enum GameInstanceReport {
    GameStart(u64, GameStartReport),
    GameOver(u64, GameOverReport),
    /// Includes (game id, reason for aborting).
    GameAborted(u64, String),
}

/// The game id a report is about.
pub open spec fn report_game_id(report: GameInstanceReport) -> u64 {
    match report {
        GameInstanceReport::GameStart(id, _) => id,
        GameInstanceReport::GameOver(id, _) => id,
        GameInstanceReport::GameAborted(id, _) => id,
    }
}

/// How a report read from a game instance process ends the instance: a start report leaves it
/// running (`None`), a game-over report ends it normally (`Some(true)`), an abort ends it in error
/// (`Some(false)`).
pub open spec fn spec_report_outcome(report: GameInstanceReport) -> Option<bool> {
    match report {
        GameInstanceReport::GameStart(..) => None,
        GameInstanceReport::GameOver(..) => Some(true),
        GameInstanceReport::GameAborted(..) => Some(false),
    }
}

impl GameInstanceReport {
    pub fn game_id(&self) -> (r: u64)
        ensures
            r == report_game_id(*self),
    {
        match self {
            GameInstanceReport::GameStart(id, _) => *id,
            GameInstanceReport::GameOver(id, _) => *id,
            GameInstanceReport::GameAborted(id, _) => *id,
        }
    }
}

/// Decides what a report read from a game instance process's `stdout` means for the instance.
pub fn process_report_outcome(report: &GameInstanceReport) -> (r: Option<bool>)
    ensures
        r == spec_report_outcome(*report),
{
    match report {
        GameInstanceReport::GameStart(..) => None,
        GameInstanceReport::GameOver(..) => Some(true),
        GameInstanceReport::GameAborted(..) => Some(false),
    }
}

/// Caches the result of a running game instance once it is known.
///
/// `None` while the instance runs; `Some(false)` if it failed erroneously; `Some(true)` if it closed without
/// error.
#[derive(Debug, Clone, Copy, PartialEq, Eq, Structural)]
pub struct InstanceResult {
    result: Option<bool>,
}

/// The result of a finished runner: an error counts as failure.
pub open spec fn spec_runner_result(extracted: Result<bool, ()>) -> bool {
    match extracted {
        Ok(ok) => ok,
        Err(_) => false,
    }
}

impl InstanceResult {
    pub closed spec fn cached(self) -> Option<bool> {
        self.result
    }

    /// No result yet.
    pub fn new() -> (r: Self)
        ensures
            r.cached() is None,
    {
        InstanceResult { result: None }
    }

    /// The cached result, if any.
    pub fn get(&self) -> (r: Option<bool>)
        ensures
            r == self.cached(),
    {
        self.result
    }

    /// True while no result is cached.
    pub fn is_running(&self) -> (r: bool)
        ensures
            r == self.cached() is None,
    {
        self.result.is_none()
    }

    /// Records what polling the runner gave (`None` when it is still running) and returns the result.
    /// A result already cached is kept and returned: once known, a result never changes.
    pub fn try_get(&mut self, polled: Option<Result<bool, ()>>) -> (r: Option<bool>)
        ensures
            old(self).cached() is Some ==> final(self).cached() == old(self).cached(),
            old(self).cached() is None ==> final(self).cached() == match polled {
                Some(extracted) => Some(spec_runner_result(extracted)),
                None => None,
            },
            r == final(self).cached(),
    {
        if self.result.is_some() {
            return self.result;
        }
        let extracted = match polled {
            Some(e) => e,
            None => { return None; },
        };
        let bool_result = match extracted {
            Ok(ok) => ok,
            Err(_) => false,
        };
        self.result = Some(bool_result);
        self.result
    }
}

/// A start report leaves the instance running; only a game-over report ends it normally, and only an abort
/// ends it in error.
pub proof fn lemma_report_outcomes(report: GameInstanceReport)
    ensures
        report is GameStart ==> spec_report_outcome(report) is None,
        report is GameOver ==> spec_report_outcome(report) == Some(true),
        report is GameAborted ==> spec_report_outcome(report) == Some(false),
        spec_report_outcome(report) is None <==> report is GameStart,
{
}

} // verus!
