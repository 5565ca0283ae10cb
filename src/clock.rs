use vstd::prelude::*;

verus! {

/// Each player's remaining thinking time, in milliseconds, with an increment
/// credited at the start of every turn.
#[derive(Clone, Debug)]
pub struct Clock {
    pub total_time: Vec<u64>,
    pub increment: u64,
    pub current_timestamp: u64,
    pub current_player: Option<usize>,
    pub timed_out: Vec<bool>,
}

/// `a + b`, stopping at `u64::MAX`.
pub open spec fn sat_add_u64(a: int, b: int) -> int {
    if a + b > u64::MAX {
        u64::MAX as int
    } else {
        a + b
    }
}

/// Time gone by from `since` to `now`; none when `now` is earlier.
pub open spec fn elapsed(since: int, now: int) -> int {
    if now >= since {
        now - since
    } else {
        0
    }
}

impl Clock {
    /// One accumulator and one time-out flag per player, and a valid current player.
    pub open spec fn wf(&self) -> bool {
        self.total_time@.len() == self.timed_out@.len() && self.total_time@.len() > 0 && (
        self.current_player.is_some() ==> self.current_player.unwrap() < self.total_time@.len())
    }

    /// The accumulators once the current player is charged the time used up to `now`.
    pub open spec fn charged_times(&self, now: int) -> Seq<u64> {
        match self.current_player {
            None => self.total_time@,
            Some(p) => if self.total_time@[p as int] < elapsed(self.current_timestamp as int, now) {
                self.total_time@.update(p as int, 0)
            } else {
                self.total_time@.update(
                    p as int,
                    (self.total_time@[p as int] - elapsed(self.current_timestamp as int, now)) as u64,
                )
            },
        }
    }

    /// The time-out flags once the current player is charged the time used up to `now`.
    pub open spec fn charged_flags(&self, now: int) -> Seq<bool> {
        match self.current_player {
            None => self.timed_out@,
            Some(p) => if self.total_time@[p as int] < elapsed(self.current_timestamp as int, now) {
                self.timed_out@.update(p as int, true)
            } else {
                self.timed_out@
            },
        }
    }

    /// The seat that holds the clock after the current one.
    pub open spec fn next_seat(&self) -> usize {
        match self.current_player {
            None => 0,
            Some(p) => ((p + 1) % self.total_time@.len() as int) as usize,
        }
    }

    pub fn new(num_players: usize, initial_time: u64, increment: u64) -> (r: Clock)
        requires
            num_players > 0,
        ensures
            r.wf(),
            r.total_time@ == Seq::new(num_players as nat, |i: int| initial_time),
            r.timed_out@ == Seq::new(num_players as nat, |i: int| false),
            r.increment == increment,
            r.current_player.is_none(),
    {
        let mut total_time: Vec<u64> = Vec::new();
        let mut timed_out: Vec<bool> = Vec::new();
        let mut i: usize = 0;
        while i < num_players
            invariant
                i <= num_players,
                total_time@ == Seq::new(i as nat, |j: int| initial_time),
                timed_out@ == Seq::new(i as nat, |j: int| false),
            decreases num_players - i,
        {
            total_time.push(initial_time);
            timed_out.push(false);
            proof {
                assert(total_time@ =~= Seq::new((i + 1) as nat, |j: int| initial_time));
                assert(timed_out@ =~= Seq::new((i + 1) as nat, |j: int| false));
            }
            i = i + 1;
        }
        Clock { total_time, increment, current_timestamp: 0, current_player: None, timed_out }
    }

    /// Passes the clock to the next player; to player 0 when nobody held it.
    pub fn next_player(&mut self)
        requires
            old(self).wf(),
        ensures
            final(self).wf(),
            final(self).current_player == match old(self).current_player {
                None => Some(0usize),
                Some(p) => Some(((p + 1) % old(self).total_time@.len() as int) as usize),
            },
            final(self).total_time == old(self).total_time,
            final(self).timed_out == old(self).timed_out,
            final(self).current_timestamp == old(self).current_timestamp,
            final(self).increment == old(self).increment,
    {
        match self.current_player {
            None => {
                self.current_player = Some(0);
            },
            Some(p) => {
                let next = if p >= self.total_time.len() - 1 { 0 } else { p + 1 };
                proof {
                    let n = self.total_time@.len() as int;
                    assert(next as int == (p + 1) % n) by (nonlinear_arith)
                        requires
                            0 <= p < n,
                            next as int == if p >= n - 1 { 0 } else { p + 1 },
                    {}
                }
                self.current_player = Some(next);
            },
        }
    }

    /// Starts the current player's turn at time `now`, crediting the increment;
    /// player 0 holds the clock when nobody did.
    pub fn start(&mut self, now: u64)
        requires
            old(self).wf(),
        ensures
            final(self).wf(),
            final(self).current_timestamp == now,
            final(self).current_player == Some(
                if old(self).current_player.is_none() { 0usize } else { old(self).current_player.unwrap() },
            ),
            final(self).total_time@ == old(self).total_time@.update(
                final(self).current_player.unwrap() as int,
                sat_add_u64(
                    old(self).total_time@[final(self).current_player.unwrap() as int] as int,
                    old(self).increment as int,
                ) as u64,
            ),
            final(self).timed_out == old(self).timed_out,
            final(self).increment == old(self).increment,
    {
        if self.current_player.is_none() {
            self.current_player = Some(0);
        }
        let p = self.current_player.unwrap();
        self.current_timestamp = now;
        let t = self.total_time[p];
        let credited: u64 = if t <= u64::MAX - self.increment { t + self.increment } else { u64::MAX };
        self.total_time.set(p, credited);
    }

    /// Time left to the current player at time `now`.
    pub open spec fn time_remaining_spec(&self, now: int) -> int {
        match self.current_player {
            None => 0,
            Some(p) => if self.timed_out@[p as int] {
                0
            } else if self.total_time@[p as int] < elapsed(self.current_timestamp as int, now) {
                0
            } else {
                self.total_time@[p as int] - elapsed(self.current_timestamp as int, now)
            },
        }
    }

    /// Time left to the current player at time `now`; none when nobody holds
    /// the clock or the player has timed out.
    pub fn time_remaining(&self, now: u64) -> (r: u64)
        requires
            self.wf(),
        ensures
            r == self.time_remaining_spec(now as int),
            r == match self.current_player {
                None => 0,
                Some(p) => if self.timed_out@[p as int] {
                    0
                } else if self.total_time@[p as int] < elapsed(self.current_timestamp as int, now as int) {
                    0
                } else {
                    (self.total_time@[p as int] - elapsed(self.current_timestamp as int, now as int)) as u64
                },
            },
    {
        match self.current_player {
            None => 0,
            Some(p) => {
                if self.timed_out[p] {
                    return 0;
                }
                let gone: u64 = if now >= self.current_timestamp { now - self.current_timestamp } else { 0 };
                if self.total_time[p] < gone {
                    0
                } else {
                    self.total_time[p] - gone
                }
            },
        }
    }

    /// Ends the current player's turn at time `now`: the time used is charged,
    /// and a player who used more than was left times out with nothing left.
    pub fn end(&mut self, now: u64)
        requires
            old(self).wf(),
        ensures
            final(self).wf(),
            final(self).current_player == old(self).current_player,
            final(self).current_timestamp == old(self).current_timestamp,
            final(self).increment == old(self).increment,
            old(self).current_player.is_none() ==> *final(self) == *old(self),
            final(self).total_time@ == old(self).charged_times(now as int),
            final(self).timed_out@ == old(self).charged_flags(now as int),
            old(self).current_player.is_some() ==> {
                let p = old(self).current_player.unwrap() as int;
                let used = elapsed(old(self).current_timestamp as int, now as int);
                if old(self).total_time@[p] < used {
                    final(self).timed_out@ == old(self).timed_out@.update(p, true)
                        && final(self).total_time@ == old(self).total_time@.update(p, 0)
                } else {
                    final(self).timed_out@ == old(self).timed_out@ && final(self).total_time@
                        == old(self).total_time@.update(p, (old(self).total_time@[p] - used) as u64)
                }
            },
    {
        match self.current_player {
            None => {},
            Some(p) => {
                let gone: u64 = if now >= self.current_timestamp { now - self.current_timestamp } else { 0 };
                let t = self.total_time[p];
                if t < gone {
                    self.timed_out.set(p, true);
                    self.total_time.set(p, 0);
                } else {
                    self.total_time.set(p, t - gone);
                }
            },
        }
    }
}

} // verus!
