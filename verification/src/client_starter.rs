use vstd::prelude::*;
use crate::connect::ServerConnectToken;
use crate::game_instance::GameStartInfo;

verus! {

/// Facilitates starting and restarting a game client.
///
/// Holds the game id and the start info of the game that can be (re)started; the start info is cached for
/// re-use when reconnecting to a hosted game.
#[derive(Debug)]
pub struct ClientStarter {
    game_id: u64,
    start_info: Option<GameStartInfo>,
}

impl ClientStarter {
    /// The game id last set (kept after clearing).
    pub closed spec fn spec_game_id(&self) -> u64 {
        self.game_id
    }

    /// The cached start info, if a starter is registered.
    pub closed spec fn spec_start_info(&self) -> Option<GameStartInfo> {
        self.start_info
    }

    /// A starter with nothing registered.
    pub fn new() -> (r: Self)
        ensures
            r.spec_game_id() == 0,
            r.spec_start_info() is None,
    {
        ClientStarter { game_id: 0, start_info: None }
    }

    /// Set the starter, over-writing the existing one.
    pub fn set(&mut self, game_id: u64, start_info: GameStartInfo)
        ensures
            final(self).spec_game_id() == game_id,
            final(self).spec_start_info() == Some(start_info),
    {
        self.game_id = game_id;
        self.start_info = Some(start_info);
    }

    /// Check if there is a starter.
    pub fn has_starter(&self) -> (r: bool)
        ensures
            r == self.spec_start_info() is Some,
    {
        self.start_info.is_some()
    }

    /// The game id of the client that can be started; `None` if there is no starter.
    pub fn game_id(&self) -> (r: Option<u64>)
        ensures
            r == (if self.spec_start_info() is Some { Some(self.spec_game_id()) } else { None }),
    {
        if !self.has_starter() {
            return None;
        }
        Some(self.game_id)
    }

    /// The client start command's contents: the connect token and the cached start info.
    /// - Returns `Err(())` if there is no registered starter.
    pub fn start(&self, token: ServerConnectToken) -> (r: Result<(ServerConnectToken, &GameStartInfo), ()>)
        ensures
            match self.spec_start_info() {
                Some(info) => r matches Ok((t, i)) && t == token && *i == info,
                None => r is Err,
            },
    {
        match &self.start_info {
            Some(start_info) => Ok((token, start_info)),
            None => Err(()),
        }
    }

    /// Clear the starter if it matches the given game id.
    pub fn clear(&mut self, game_id: u64)
        ensures
            final(self).spec_game_id() == old(self).spec_game_id(),
            final(self).spec_start_info() == (if old(self).spec_game_id() == game_id {
                None
            } else {
                old(self).spec_start_info()
            }),
    {
        if self.game_id != game_id {
            return;
        }
        self.start_info = None;
    }

    /// Clears the starter regardless of the current game id.
    ///
    /// A fall-back when `clear` is not possible because the game id is unknown, for example when the user
    /// client lost its host server and may receive a new game-start package on reconnecting.
    pub fn force_clear(&mut self)
        ensures
            final(self).spec_game_id() == old(self).spec_game_id(),
            final(self).spec_start_info() is None,
    {
        self.start_info = None;
    }
}

impl Default for ClientStarter {
    fn default() -> (r: Self)
        ensures
            r.spec_game_id() == 0,
            r.spec_start_info() is None,
    {
        ClientStarter::new()
    }
}

} // verus!
