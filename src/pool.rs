use crate::arena::{Arena, ClientId, GameId};
use crate::protocol::Refusal;
use vstd::prelude::*;

verus! {

/// Why a connection to the pool is turned away.
#[derive(Debug, Clone, Copy, PartialEq, Eq, Structural)]
pub enum RouteError {
    /// No hosted game has this id.
    UnknownGame,
    /// The game refused the client.
    Refused(Refusal),
}

/// Many arenas behind one listener, each under its own game id.
pub struct ArenaPool {
    pub port: u16,
    pub ids: Vec<GameId>,
    pub arenas: Vec<Arena>,
}

impl ArenaPool {
    /// One arena per id, and no id twice.
    pub open spec fn wf(&self) -> bool {
        self.ids@.len() == self.arenas@.len() && self.ids@.no_duplicates()
    }

    pub fn new(port: u16) -> (r: Self)
        ensures
            r.wf(),
            r.port == port,
            r.ids@.len() == 0,
    {
        ArenaPool { port, ids: Vec::new(), arenas: Vec::new() }
    }

    /// Where the arena with id `game_id` is kept.
    pub fn get_arena(&self, game_id: GameId) -> (r: Option<usize>)
        requires
            self.wf(),
        ensures
            r.is_none() <==> !self.ids@.contains(game_id),
            r.is_some() ==> r.unwrap() < self.ids@.len() && self.ids@[r.unwrap() as int] == game_id,
    {
        let mut i: usize = 0;
        while i < self.ids.len()
            invariant
                i <= self.ids@.len(),
                forall|j: int| 0 <= j < i ==> self.ids@[j] != game_id,
            decreases self.ids@.len() - i,
        {
            if self.ids[i] == game_id {
                return Some(i);
            }
            i = i + 1;
        }
        proof {
            if self.ids@.contains(game_id) {
                let j = choose|j: int| 0 <= j < self.ids@.len() && self.ids@[j] == game_id;
                assert(self.ids@[j] != game_id);
            }
        }
        None
    }

    /// Hosts `arena` under a fresh random id, replacing any arena already under
    /// that id; returns the id and the arena's seats.
    pub fn add_arena(&mut self, arena: Arena) -> (r: (GameId, Vec<ClientId>))
        requires
            old(self).wf(),
        ensures
            final(self).wf(),
            final(self).ids@.contains(r.0),
            forall|i: int| 0 <= i < final(self).ids@.len() && final(self).ids@[i] == r.0 ==> final(self).arenas@[i] == arena,
            r.1@ == arena.clients@,
            final(self).port == old(self).port,
            forall|g: GameId| #[trigger] old(self).ids@.contains(g) ==> final(self).ids@.contains(g),
            final(self).ids@.len() <= old(self).ids@.len() + 1,
    {
        let game_id = GameId::new();
        let client_ids = arena.allowed_clients();
        match self.get_arena(game_id) {
            Some(i) => {
                self.arenas.set(i, arena);
                proof {
                    assert(self.ids@[i as int] == game_id);
                    assert forall|j: int| 0 <= j < self.ids@.len() && self.ids@[j] == game_id implies j == i by {}
                }
            },
            None => {
                let ghost before = self.ids@;
                self.ids.push(game_id);
                self.arenas.push(arena);
                proof {
                    assert(self.ids@.no_duplicates()) by {
                        assert forall|a: int, b: int| 0 <= a < b < self.ids@.len() implies self.ids@[a] != self.ids@[b] by {
                            if b == before.len() {
                                assert(before.contains(before[a]));
                            } else {
                                assert(self.ids@[a] == before[a]);
                                assert(self.ids@[b] == before[b]);
                            }
                        }
                    }
                    assert(self.ids@[before.len() as int] == game_id);
                    assert forall|j: int| 0 <= j < self.ids@.len() && self.ids@[j] == game_id implies j == before.len() by {
                        if j < before.len() {
                            assert(before[j] == game_id);
                            assert(before.contains(game_id));
                        }
                    }
                    assert forall|g: GameId| #[trigger] before.contains(g) implies self.ids@.contains(g) by {
                        let j = choose|j: int| 0 <= j < before.len() && before[j] == g;
                        assert(self.ids@[j] == g);
                    }
                }
            },
        }
        (game_id, client_ids)
    }

    /// Finds the arena that a connection to `game/{game_id}/{client_id}` goes
    /// to, given the clients already connected to it.
    pub fn route(&self, game_id: GameId, client_id: ClientId, connected: &Vec<ClientId>) -> (r: Result<usize, RouteError>)
        requires
            self.wf(),
        ensures
            r == Err::<usize, RouteError>(RouteError::UnknownGame) <==> !self.ids@.contains(game_id),
            r.is_ok() ==> r.unwrap() < self.ids@.len() && self.ids@[r.unwrap() as int] == game_id
                && self.arenas@[r.unwrap() as int].clients@.contains(client_id) && !connected@.contains(client_id),
            forall|i: int| 0 <= i < self.ids@.len() && self.ids@[i] == game_id ==> r == (if !self.arenas@[i].clients@.contains(client_id) {
                Err(RouteError::Refused(Refusal::NotAllowed))
            } else if connected@.contains(client_id) {
                Err(RouteError::Refused(Refusal::AlreadyConnected))
            } else {
                Ok(i as usize)
            }),
    {
        let found = self.get_arena(game_id);
        proof {
            if found.is_some() {
                assert forall|j: int| 0 <= j < self.ids@.len() && self.ids@[j] == game_id implies j == found.unwrap() by {}
            }
        }
        match found {
            None => Err(RouteError::UnknownGame),
            Some(i) => match self.arenas[i].check_connection(client_id, connected) {
                Ok(()) => Ok(i),
                Err(why) => Err(RouteError::Refused(why)),
            },
        }
    }
}

} // verus!
