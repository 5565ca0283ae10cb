use crate::action::{Action, Phase};
use crate::board::Board;
use crate::card::Card;
use crate::clock::Clock;
use crate::game::{lookup_ok, Game};
use crate::history::GameHistory;
use crate::player::{Player, PlayerPublicInfo};
use std::sync::Arc;
use vstd::prelude::*;

verus! {

/// Relies on rand's `random::<u64>`: any value may come back.
#[verifier::external_body]
fn random_u64() -> (r: u64) {
    rand::random::<u64>()
}

/// Identifier of a hosted game.
#[derive(Debug, Clone, Hash, Eq, PartialEq, Structural, Copy)]
pub struct GameId(pub u64);

impl GameId {
    /// A fresh identifier drawn at random.
    pub fn new() -> (r: Self) {
        GameId(random_u64())
    }
}

/// Identifier of a client allowed to take a seat.
#[derive(Debug, Clone, Hash, Eq, PartialEq, Structural, Copy)]
pub struct ClientId(pub u64);

impl ClientId {
    /// A fresh identifier drawn at random.
    pub fn new() -> (r: Self) {
        ClientId(random_u64())
    }
}

/// Default time on each player's clock, in milliseconds.
pub const DEFAULT_INITIAL_TIME_MS: u64 = 60000;

/// Default local port of an arena.
pub const DEFAULT_PORT: u16 = 3030;

/// Collects the settings of an arena; times are in milliseconds.
pub struct ArenaBuilder {
    pub initial_time: u64,
    pub increment: u64,
    pub port: u16,
    pub send_to_web: bool,
    pub api_key: Option<String>,
    pub num_players: Option<usize>,
}

impl ArenaBuilder {
    pub fn new() -> (r: Self)
        ensures
            r.initial_time == DEFAULT_INITIAL_TIME_MS,
            r.increment == 0,
            r.port == DEFAULT_PORT,
            !r.send_to_web,
            r.api_key.is_none(),
            r.num_players.is_none(),
    {
        ArenaBuilder {
            initial_time: DEFAULT_INITIAL_TIME_MS,
            increment: 0,
            port: DEFAULT_PORT,
            send_to_web: false,
            api_key: None,
            num_players: None,
        }
    }

    pub fn initial_time(self, initial_time: u64) -> (r: Self)
        ensures
            r.initial_time == initial_time,
            r.increment == self.increment,
            r.port == self.port,
            r.send_to_web == self.send_to_web,
            r.num_players == self.num_players,
    {
        ArenaBuilder { initial_time, ..self }
    }

    pub fn increment(self, increment: u64) -> (r: Self)
        ensures
            r.increment == increment,
            r.initial_time == self.initial_time,
            r.port == self.port,
            r.send_to_web == self.send_to_web,
            r.num_players == self.num_players,
    {
        ArenaBuilder { increment, ..self }
    }

    pub fn port(self, port: u16) -> (r: Self)
        ensures
            r.port == port,
            r.initial_time == self.initial_time,
            r.increment == self.increment,
            r.send_to_web == self.send_to_web,
            r.num_players == self.num_players,
    {
        ArenaBuilder { port, ..self }
    }

    /// Mirrors the game to the remote aggregator, authenticated by `api_key`.
    pub fn send_to_web(self, active: bool, api_key: &str) -> (r: Self)
        ensures
            r.send_to_web == active,
            r.api_key.is_some() && r.api_key.unwrap()@ == api_key@,
            r.initial_time == self.initial_time,
            r.increment == self.increment,
            r.port == self.port,
            r.num_players == self.num_players,
    {
        ArenaBuilder { send_to_web: active, api_key: Some(api_key.to_string()), ..self }
    }

    pub fn num_players(self, num_players: usize) -> (r: Self)
        ensures
            r.num_players == Some(num_players),
            r.initial_time == self.initial_time,
            r.increment == self.increment,
            r.port == self.port,
            r.send_to_web == self.send_to_web,
    {
        ArenaBuilder { num_players: Some(num_players), ..self }
    }

    /// A new arena with a fresh game, a clock per seat and a fresh client id per seat.
    pub fn build(self) -> (r: Arena)
        requires
            self.num_players.is_some(),
            2 <= self.num_players.unwrap() <= 4,
        ensures
            r.wf(),
            r.game.num_players() == self.num_players.unwrap(),
            r.game.current_phase == Phase::PlayerStart,
            r.game.history.history@.len() == 0,
            !r.game_started,
            r.clock.current_player.is_none(),
            r.clock.increment == self.increment,
            r.clock.total_time@ == Seq::new(self.num_players.unwrap() as nat, |i: int| self.initial_time),
            r.port == self.port,
            r.send_to_web == self.send_to_web,
    {
        let num_players = self.num_players.unwrap();
        let card_lookup = Arc::new(Card::all());
        let game = Game::new(num_players as u8, card_lookup);
        let mut clients: Vec<ClientId> = Vec::new();
        let mut i: usize = 0;
        while i < num_players
            invariant
                i <= num_players,
                clients@.len() == i,
            decreases num_players - i,
        {
            clients.push(ClientId::new());
            i = i + 1;
        }
        Arena {
            game,
            clock: Clock::new(num_players, self.initial_time, self.increment),
            game_started: false,
            clients,
            port: self.port,
            send_to_web: self.send_to_web,
            api_key: self.api_key,
        }
    }
}

/// One match: the game, its clock, the seats' client ids and the settings of
/// the local server. Times are in milliseconds.
pub struct Arena {
    pub game: Game,
    pub clock: Clock,
    pub game_started: bool,
    pub clients: Vec<ClientId>,
    pub port: u16,
    pub send_to_web: bool,
    pub api_key: Option<String>,
}

/// What the current player is sent when asked for an action.
#[derive(Clone, Debug)]
pub struct ClientInfo {
    pub board: Board,
    pub history: GameHistory,
    pub phase: Phase,
    pub players: Vec<PlayerPublicInfo>,
    pub current_player: Player,
    pub current_player_num: usize,
    pub legal_actions: Vec<Action>,
    /// Local port of the server, whose `time` endpoint reports the clock.
    pub port: u16,
}

/// What every seat is sent after each action.
#[derive(Clone, Debug)]
pub struct BroadcastInfo {
    pub board: Board,
    pub history: GameHistory,
    pub players: Vec<PlayerPublicInfo>,
    pub current_player_num: usize,
    pub phase: Phase,
}

/// The public part of a `ClientInfo`.
#[derive(Clone, Debug)]
pub struct SmallClientInfo {
    pub board: Board,
    pub players: Vec<PlayerPublicInfo>,
    pub current_player_num: usize,
}

/// A message from the server to a client.
#[derive(Clone, Debug)]
pub enum ServerMessage {
    Broadcast(BroadcastInfo),
    PlayerActionRequest(ClientInfo),
}

/// The outcome of a match.
pub struct GameResults {}

impl BroadcastInfo {
    /// The part of a client's information that every seat may see.
    pub fn from_info(info: ClientInfo) -> (r: BroadcastInfo)
        ensures
            r.current_player_num == info.current_player_num,
            r.phase == info.phase,
            r.history.history@ == info.history.history@,
            r.players@ == info.players@,
    {
        BroadcastInfo {
            board: info.board,
            history: info.history,
            players: info.players,
            current_player_num: info.current_player_num,
            phase: info.phase,
        }
    }
}

impl Arena {
    /// The arena's invariant: a valid game, a clock and a client id per seat,
    /// and, once started, the clock held by the seat whose turn it is.
    pub open spec fn wf(&self) -> bool {
        self.game.wf() && self.clock.wf() && self.clock.total_time@.len() == self.game.num_players()
            && self.clients@.len() == self.game.num_players() && (self.game_started
            ==> self.clock.current_player == Some(self.game.current_player))
    }

    pub fn initial_time(&self) -> (r: u64)
        requires
            self.wf(),
        ensures
            r == self.clock.total_time@[0],
    {
        self.clock.total_time[0]
    }

    pub fn increment(&self) -> (r: u64)
        ensures
            r == self.clock.increment,
    {
        self.clock.increment
    }

    pub fn port(&self) -> (r: u16)
        ensures
            r == self.port,
    {
        self.port
    }

    pub fn send_to_web(&self) -> (r: bool)
        ensures
            r == self.send_to_web,
    {
        self.send_to_web
    }

    pub fn num_players(&self) -> (r: usize)
        ensures
            r == self.game.num_players(),
    {
        self.game.players.len()
    }

    pub fn is_game_over(&self) -> (r: bool)
        requires
            self.wf(),
        ensures
            r == self.game.over(),
    {
        self.game.game_over()
    }

    /// The public view of every seat.
    fn public_players(&self) -> (r: Vec<PlayerPublicInfo>)
        requires
            self.wf(),
        ensures
            r@.len() == self.game.num_players(),
            forall|i: int| 0 <= i < r@.len() ==> (#[trigger] r@[i]).points == self.game.players@[i].points
                && r@[i].gems == self.game.players@[i].gems && r@[i].num_reserved
                == self.game.players@[i].reserved@.len(),
    {
        let mut out: Vec<PlayerPublicInfo> = Vec::new();
        let mut i: usize = 0;
        while i < self.game.players.len()
            invariant
                self.wf(),
                i <= self.game.players@.len(),
                out@.len() == i,
                forall|j: int| 0 <= j < i ==> (#[trigger] out@[j]).points == self.game.players@[j].points
                    && out@[j].gems == self.game.players@[j].gems && out@[j].num_reserved
                    == self.game.players@[j].reserved@.len(),
            decreases self.game.players@.len() - i,
        {
            proof {
                assert(self.game.players@[i as int].wf());
            }
            out.push(self.game.players[i].to_public());
            i = i + 1;
        }
        out
    }

    /// Everything the current player is told when asked for an action.
    pub fn client_info(&self) -> (r: ClientInfo)
        requires
            self.wf(),
            !self.game.over(),
        ensures
            r.current_player_num == self.game.current_player,
            r.port == self.port,
            r.phase == self.game.current_phase,
            r.history.history@ == self.game.history.history@,
            r.players@.len() == self.game.num_players(),
            forall|a: Action| #[trigger] r.legal_actions@.contains(a) <==> self.game.legal_action(a),
    {
        let players = self.public_players();
        let legal_actions = self.game.get_legal_actions().unwrap();
        ClientInfo {
            board: Board::from_game(&self.game),
            history: self.game.history(),
            players,
            current_player: self.game.current_player(),
            current_player_num: self.game.current_player_num(),
            legal_actions,
            port: self.port,
            phase: self.game.phase(),
        }
    }

    /// The public part of `client_info`.
    pub fn small_client_info(&self) -> (r: SmallClientInfo)
        requires
            self.wf(),
            !self.game.over(),
        ensures
            r.current_player_num == self.game.current_player,
            r.players@.len() == self.game.num_players(),
    {
        let client_info = self.client_info();
        SmallClientInfo {
            board: client_info.board,
            players: client_info.players,
            current_player_num: client_info.current_player_num,
        }
    }

    /// Plays `action` at time `now` if it is legal, and reports whether it did.
    /// On `Continue` the current seat is charged the time it used, the clock
    /// passes to the next seat and that seat is credited the increment; any other
    /// action leaves the clock alone.
    pub fn play_action(&mut self, action: Action, now: u64) -> (applied: bool)
        requires
            old(self).wf(),
        ensures
            final(self).wf(),
            applied == old(self).game.legal_action(action),
            !applied ==> final(self).game == old(self).game,
            applied ==> old(self).game.step_effects(action, &final(self).game),
            final(self).game_started == old(self).game_started,
            final(self).clients@ == old(self).clients@,
            !(applied && action == Action::Continue) ==> final(self).clock == old(self).clock,
            applied && action == Action::Continue ==> {
                let q = old(self).clock.next_seat();
                let charged = old(self).clock.charged_times(now as int);
                &&& final(self).clock.current_player == Some(q)
                &&& final(self).clock.current_timestamp == now
                &&& final(self).clock.timed_out@ == old(self).clock.charged_flags(now as int)
                &&& final(self).clock.total_time@ == charged.update(
                    q as int,
                    crate::clock::sat_add_u64(charged[q as int] as int, old(self).clock.increment as int) as u64,
                )
            },
    {
        let applied = self.game.play_action(action);
        if applied {
            match action {
                Action::Continue => {
                    self.clock.end(now);
                    self.clock.next_player();
                    self.clock.start(now);
                },
                _ => {},
            }
        }
        applied
    }

    pub fn get_legal_actions(&self) -> (r: Option<Vec<Action>>)
        requires
            self.wf(),
        ensures
            r.is_none() <==> self.game.over(),
            r.is_some() ==> forall|a: Action| #[trigger]
                r.unwrap()@.contains(a) <==> self.game.legal_action(a),
            r.is_some() ==> r.unwrap()@.len() > 0,
    {
        self.game.get_legal_actions()
    }

    /// The client whose turn it is, once the game has started.
    pub fn current_player_id(&self) -> (r: Option<ClientId>)
        requires
            self.wf(),
        ensures
            self.game_started ==> r == Some(self.clients@[self.game.current_player as int]),
            !self.game_started ==> r.is_none(),
    {
        if self.game_started {
            Some(self.clients[self.game.current_player_num()])
        } else {
            None
        }
    }

    /// The seat whose turn it is, once the game has started.
    pub fn current_player_num(&self) -> (r: Option<usize>)
        ensures
            self.game_started ==> r == Some(self.game.current_player),
            !self.game_started ==> r.is_none(),
    {
        if self.game_started {
            Some(self.game.current_player_num())
        } else {
            None
        }
    }

    pub fn get_winner(&self) -> (r: Option<usize>)
        requires
            self.wf(),
        ensures
            r.is_some() ==> !self.game.deadlocked() && self.game.wins(r.unwrap() as int),
            r.is_none() ==> self.game.deadlocked() || forall|i: int| !self.game.wins(i),
    {
        self.game.get_winner()
    }

    pub fn board(&self) -> (r: Board)
        requires
            self.wf(),
        ensures
            r.gems == self.game.bank,
            forall|t: int| 0 <= t < 3 ==> (#[trigger] r.available_cards@[t])@ == self.game.dealt_cards@[t]@,
    {
        Board::from_game(&self.game)
    }

    pub fn players(&self) -> (r: &Vec<Player>)
        ensures
            r@ == self.game.players@,
    {
        self.game.players()
    }

    /// The current player has no time left at time `now`.
    pub fn is_timed_out(&self, now: u64) -> (r: bool)
        requires
            self.wf(),
        ensures
            r == (self.clock.time_remaining_spec(now as int) == 0),
    {
        self.clock.time_remaining(now) == 0
    }

    /// Time left to the current player at time `now`.
    pub fn time_remaining(&self, now: u64) -> (r: u64)
        requires
            self.wf(),
        ensures
            r == self.clock.time_remaining_spec(now as int),
    {
        self.clock.time_remaining(now)
    }

    /// Starts the game at time `now`: the first seat's clock runs.
    pub fn start_game(&mut self, now: u64)
        requires
            old(self).wf(),
            old(self).game.current_player == 0,
            old(self).clock.current_player.is_none() || old(self).clock.current_player == Some(0usize),
        ensures
            final(self).wf(),
            final(self).game_started,
            final(self).clock.current_timestamp == now,
            final(self).game == old(self).game,
    {
        self.game_started = true;
        self.clock.start(now);
    }

    /// Number of times the acting seat has changed.
    pub fn num_moves(&self) -> (r: usize)
        requires
            self.game.history.history@.len() <= i32::MAX,
        ensures
            r == crate::history::seat_changes(self.game.history.history@),
    {
        proof {
            crate::history::lemma_seat_changes_bounds(self.game.history.history@);
        }
        self.game.history().num_moves() as usize
    }

    /// The client id of each seat, in seating order.
    pub fn allowed_clients(&self) -> (r: Vec<ClientId>)
        ensures
            r@ == self.clients@,
    {
        self.clients.clone()
    }

    pub fn api_key(&self) -> (r: Option<String>)
        ensures
            r.is_some() == self.api_key.is_some(),
            r.is_some() ==> r.unwrap()@ == self.api_key.unwrap()@,
    {
        match &self.api_key {
            Some(k) => Some(k.clone()),
            None => None,
        }
    }
}

} // verus!
