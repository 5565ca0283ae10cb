use crate::arena::ClientInfo;
use vstd::prelude::*;

verus! {

/// The newest client information with its update number, counted from one.
#[derive(Clone, Debug)]
pub struct GameUpdate {
    pub info: ClientInfo,
    pub update_num: usize,
}

/// A request from the arena to the remote aggregator.
#[derive(Debug)]
pub enum ArenaRequest {
    /// Authenticate the arena.
    Authenticate { secret: String },
    /// Resume the updates of the game with the given id.
    Reconnect { id: String },
    /// Create the game on the aggregator.
    InitializeGame { info: ClientInfo },
    /// Ordered updates of the game.
    GameUpdates(Vec<GameUpdate>),
    /// The last update sent was the final one.
    GameOver { total_updates: usize },
    /// A line for the aggregator's log.
    DebugMessage(String),
    /// Keeps the session alive.
    Heartbeat,
}

/// The aggregator's answer to authentication.
#[derive(Debug)]
pub enum Authenticated {
    Success,
    Failure { reason: String },
}

/// The aggregator's answer to an update.
#[derive(Debug)]
pub enum Updated {
    /// The updates were taken; the number taken since initialization.
    Success { num_lifetime_updates: usize },
    /// The updates were refused; the number taken before.
    Failure { reason: String, num_lifetime_updates: usize },
    /// The end of the game was acknowledged.
    GameOverAck,
}

/// The aggregator's answer to initialization.
#[derive(Debug)]
pub enum Initialized {
    Success { id: String, url: String },
    Failure { reason: String },
}

/// The aggregator's answer to a reconnection.
#[derive(Debug)]
pub enum Reconnected {
    Success,
    Failure { reason: String },
}

/// A message from the aggregator.
#[derive(Debug)]
pub enum GlobalServerResponse {
    Authenticated(Authenticated),
    Updated(Updated),
    Initialized(Initialized),
    Reconnected(Reconnected),
    Warning(String),
    Error(String),
    Info(String),
}

impl GameUpdate {
    /// The update that follows `sent` updates already sent.
    pub fn after(info: ClientInfo, sent: usize) -> (r: Option<GameUpdate>)
        ensures
            sent < usize::MAX ==> r.is_some() && r.unwrap().update_num == sent + 1,
            sent == usize::MAX ==> r.is_none(),
    {
        if sent == usize::MAX {
            None
        } else {
            Some(GameUpdate { info, update_num: sent + 1 })
        }
    }
}

} // verus!
