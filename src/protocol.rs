use crate::action::Action;
use crate::arena::{Arena, ClientId};
use vstd::prelude::*;

verus! {

/// Why a client's message could not be read.
#[derive(Debug, Clone, Copy, PartialEq, Eq, Structural)]
pub enum ParseError {
    Unknown,
    CannotConvertToString,
    CannotConvertToClientMessage,
    MessageTooLong,
}

/// A message from a client on its game channel.
#[derive(Debug, Clone)]
pub enum ClientMessage {
    Action(Action),
    Log(String),
}

/// Why a connecting client is turned away.
#[derive(Debug, Clone, Copy, PartialEq, Eq, Structural)]
pub enum Refusal {
    /// The id is not one of the arena's seats.
    NotAllowed,
    /// A client with this id is already connected.
    AlreadyConnected,
}

/// Whether `id` occurs in `ids`.
fn contains_client(ids: &Vec<ClientId>, id: ClientId) -> (r: bool)
    ensures
        r == ids@.contains(id),
{
    let mut i: usize = 0;
    while i < ids.len()
        invariant
            i <= ids@.len(),
            forall|j: int| 0 <= j < i ==> ids@[j] != id,
        decreases ids@.len() - i,
    {
        if ids[i] == id {
            proof {
                assert(ids@[i as int] == id);
            }
            return true;
        }
        i = i + 1;
    }
    proof {
        if ids@.contains(id) {
            let j = choose|j: int| 0 <= j < ids@.len() && ids@[j] == id;
            assert(ids@[j] != id);
        }
    }
    false
}

impl Arena {
    /// Whether a client with id `client` may join, given the clients already connected.
    pub fn check_connection(&self, client: ClientId, connected: &Vec<ClientId>) -> (r: Result<(), Refusal>)
        ensures
            r == Err::<(), Refusal>(Refusal::NotAllowed) <==> !self.clients@.contains(client),
            r == Err::<(), Refusal>(Refusal::AlreadyConnected) <==> self.clients@.contains(client)
                && connected@.contains(client),
            r.is_ok() <==> self.clients@.contains(client) && !connected@.contains(client),
    {
        if !contains_client(&self.clients, client) {
            return Err(Refusal::NotAllowed);
        }
        if contains_client(connected, client) {
            return Err(Refusal::AlreadyConnected);
        }
        Ok(())
    }

    /// Whether `client` may play `action` at time `now`: its clock has time
    /// left, the action is legal, and it is the client's turn.
    pub fn validate_action(&self, action: Action, client: ClientId, now: u64) -> (r: bool)
        requires
            self.wf(),
        ensures
            r == (self.clock.time_remaining_spec(now as int) > 0 && self.game.legal_action(action)
                && self.game_started && self.clients@[self.game.current_player as int] == client),
    {
        if self.is_timed_out(now) {
            return false;
        }
        if !self.game.is_legal_action(action) {
            return false;
        }
        match self.current_player_id() {
            Some(id) => id == client,
            None => false,
        }
    }

    /// The action played for a seat that sent nothing valid in time: the first
    /// legal action, or none once the game is over.
    pub fn default_action(&self) -> (r: Option<Action>)
        requires
            self.wf(),
        ensures
            r.is_none() ==> self.game.over(),
            r.is_some() ==> self.game.legal_action(r.unwrap()),
    {
        match self.get_legal_actions() {
            None => None,
            Some(actions) => {
                proof {
                    assert(actions@.contains(actions@[0]));
                }
                Some(actions[0])
            },
        }
    }
}

} // verus!
