use crate::action::Action;
use vstd::prelude::*;

verus! {

/// One logged entry: the seat that acted and what it did.
pub type Entry = (usize, Action);

/// The ordered log of every action played in a game.
#[derive(Clone, Debug)]
pub struct GameHistory {
    pub history: Vec<Entry>,
}

/// The log cut into turns: maximal runs of consecutive entries by one seat.
pub open spec fn turns(s: Seq<Entry>) -> Seq<Seq<Entry>>
    decreases s.len(),
{
    if s.len() == 0 {
        Seq::empty()
    } else {
        let g = turns(s.drop_last());
        if g.len() > 0 && g.last().last().0 == s.last().0 {
            g.update(g.len() - 1, g.last().push(s.last()))
        } else {
            g.push(seq![s.last()])
        }
    }
}

/// The turns laid end to end.
pub open spec fn flatten(g: Seq<Seq<Entry>>) -> Seq<Entry>
    decreases g.len(),
{
    if g.len() == 0 {
        Seq::empty()
    } else {
        flatten(g.drop_last()) + g.last()
    }
}

/// Number of places where the seat changes from one entry to the next.
pub open spec fn seat_changes(s: Seq<Entry>) -> int
    decreases s.len(),
{
    if s.len() <= 1 {
        0
    } else {
        seat_changes(s.drop_last()) + (if s[s.len() - 2].0 != s.last().0 {
            1int
        } else {
            0int
        })
    }
}

/// Where the final run of entries by `p` starts.
pub open spec fn run_start(s: Seq<Entry>, p: usize) -> int
    decreases s.len(),
{
    if s.len() == 0 || s.last().0 != p {
        s.len() as int
    } else {
        run_start(s.drop_last(), p)
    }
}

proof fn lemma_turns_shape(s: Seq<Entry>)
    ensures
        flatten(turns(s)) == s,
        s.len() > 0 ==> turns(s).len() > 0 && turns(s).last().len() > 0 && turns(s).last().last()
            == s.last(),
        forall|i: int| 0 <= i < turns(s).len() ==> (#[trigger] turns(s)[i]).len() > 0,
    decreases s.len(),
{
    if s.len() > 0 {
        let g = turns(s.drop_last());
        lemma_turns_shape(s.drop_last());
        if g.len() > 0 && g.last().last().0 == s.last().0 {
            let h = g.update(g.len() - 1, g.last().push(s.last()));
            assert(h.drop_last() =~= g.drop_last());
            assert(g.drop_last().push(g.last()) =~= g);
            assert(flatten(g) == flatten(g.drop_last()) + g.last());
            assert(flatten(h) == flatten(h.drop_last()) + h.last());
            assert(h.last() == g.last().push(s.last()));
            assert(s.drop_last().push(s.last()) =~= s);
            assert(flatten(h) =~= s);
        } else {
            let h = g.push(seq![s.last()]);
            assert(h.drop_last() =~= g);
            assert(flatten(h) =~= s);
        }
    }
}

/// A log has fewer seat changes than entries.
pub proof fn lemma_seat_changes_bounds(s: Seq<Entry>)
    ensures
        0 <= seat_changes(s) <= s.len(),
    decreases s.len(),
{
    if s.len() > 1 {
        lemma_seat_changes_bounds(s.drop_last());
    }
}

proof fn lemma_run_start_bounds(s: Seq<Entry>, p: usize)
    ensures
        0 <= run_start(s, p) <= s.len(),
        forall|i: int| run_start(s, p) <= i < s.len() ==> (#[trigger] s[i]).0 == p,
        run_start(s, p) > 0 ==> s[run_start(s, p) - 1].0 != p,
    decreases s.len(),
{
    if s.len() > 0 && s.last().0 == p {
        lemma_run_start_bounds(s.drop_last(), p);
        assert forall|i: int| run_start(s, p) <= i < s.len() implies (#[trigger] s[i]).0 == p by {
            if i < s.len() - 1 {
                assert(s.drop_last()[i] == s[i]);
            }
        }
        if run_start(s, p) > 0 {
            assert(s.drop_last()[run_start(s, p) - 1] == s[run_start(s, p) - 1]);
        }
    }
}

impl GameHistory {
    pub fn new() -> (r: Self)
        ensures
            r.history@.len() == 0,
    {
        GameHistory { history: Vec::new() }
    }

    pub fn from(history: Vec<Entry>) -> (r: Self)
        ensures
            r.history@ == history@,
    {
        GameHistory { history }
    }

    /// A copy of the log.
    pub fn duplicate(&self) -> (r: GameHistory)
        ensures
            r.history@ == self.history@,
    {
        let mut out: Vec<Entry> = Vec::new();
        let mut k: usize = 0;
        while k < self.history.len()
            invariant
                k <= self.history@.len(),
                out@ == self.history@.subrange(0, k as int),
            decreases self.history@.len() - k,
        {
            out.push(self.history[k]);
            proof {
                assert(out@ =~= self.history@.subrange(0, k + 1));
            }
            k = k + 1;
        }
        assert(self.history@.subrange(0, k as int) =~= self.history@);
        GameHistory::from(out)
    }

    /// Drops the latest entry.
    pub fn undo(&mut self)
        ensures
            old(self).history@.len() > 0 ==> final(self).history@ == old(self).history@.drop_last(),
            old(self).history@.len() == 0 ==> final(self).history@.len() == 0,
    {
        self.history.pop();
    }

    /// The latest run of entries by `player_num`.
    pub fn history_since_player(&self, player_num: usize) -> (r: GameHistory)
        ensures
            r.history@ == self.history@.subrange(
                run_start(self.history@, player_num),
                self.history@.len() as int,
            ),
    {
        let ghost s = self.history@;
        let mut j: usize = self.history.len();
        proof {
            assert(s.subrange(0, j as int) =~= s);
        }
        while j > 0 && self.history[j - 1].0 == player_num
            invariant
                j <= s.len(),
                s == self.history@,
                run_start(s, player_num) == run_start(s.subrange(0, j as int), player_num),
            decreases j,
        {
            proof {
                assert(s.subrange(0, j as int).drop_last() =~= s.subrange(0, j - 1));
            }
            j = j - 1;
        }
        let mut out: Vec<Entry> = Vec::new();
        let mut k: usize = j;
        while k < self.history.len()
            invariant
                j <= k <= s.len(),
                s == self.history@,
                out@ == s.subrange(j as int, k as int),
            decreases s.len() - k,
        {
            out.push(self.history[k]);
            proof {
                assert(out@ =~= s.subrange(j as int, k + 1));
            }
            k = k + 1;
        }
        GameHistory::from(out)
    }

    /// Appends an entry.
    pub fn add(&mut self, player_num: usize, action: Action)
        ensures
            final(self).history@ == old(self).history@.push((player_num, action)),
    {
        self.history.push((player_num, action));
    }

    /// Number of times the acting seat changes along the log.
    pub fn num_moves(&self) -> (r: i32)
        requires
            self.history@.len() <= i32::MAX,
        ensures
            r == seat_changes(self.history@),
    {
        let ghost s = self.history@;
        if self.history.len() == 0 {
            return 0;
        }
        let mut moves: i32 = 0;
        let mut i: usize = 1;
        while i < self.history.len()
            invariant
                1 <= i <= s.len() <= i32::MAX,
                s == self.history@,
                0 <= moves < i,
                moves == seat_changes(s.subrange(0, i as int)),
            decreases s.len() - i,
        {
            proof {
                assert(s.subrange(0, i + 1).drop_last() =~= s.subrange(0, i as int));
            }
            if self.history[i - 1].0 != self.history[i].0 {
                moves = moves + 1;
            }
            i = i + 1;
        }
        assert(s.subrange(0, i as int) =~= s);
        moves
    }

    /// The log cut into turns: maximal runs of consecutive entries by one seat.
    pub fn group_by_player(&self) -> (r: Vec<Vec<Entry>>)
        ensures
            r@.map_values(|v: Vec<Entry>| v@) == turns(self.history@),
    {
        let ghost s = self.history@;
        let mut turn_sequences: Vec<Vec<Entry>> = Vec::new();
        let mut current_turn: Vec<Entry> = Vec::new();
        let mut i: usize = 0;
        while i < self.history.len()
            invariant
                i <= s.len(),
                s == self.history@,
                i == 0 ==> current_turn@.len() == 0 && turn_sequences@.len() == 0,
                i > 0 ==> current_turn@.len() > 0 && turn_sequences@.map_values(
                    |v: Vec<Entry>| v@,
                ).push(current_turn@) == turns(s.subrange(0, i as int)),
            decreases s.len() - i,
        {
            let entry = self.history[i];
            let ghost t = s.subrange(0, i + 1);
            let ghost cur_old = current_turn@;
            let ghost prev_all = turn_sequences@.map_values(|v: Vec<Entry>| v@);
            proof {
                assert(t.drop_last() =~= s.subrange(0, i as int));
                assert(t.last() == entry);
                if i > 0 {
                    let g = turns(s.subrange(0, i as int));
                    assert(g == prev_all.push(cur_old));
                    assert(g.last() == cur_old);
                    if cur_old.last().0 == entry.0 {
                        assert(turns(t) == g.update(g.len() - 1, cur_old.push(entry)));
                        assert(turns(t) =~= prev_all.push(cur_old.push(entry)));
                    } else {
                        assert(turns(t) == g.push(seq![entry]));
                    }
                } else {
                    assert(turns(t.drop_last()) == Seq::<Seq<Entry>>::empty());
                    assert(turns(t) == Seq::<Seq<Entry>>::empty().push(seq![entry]));
                }
            }
            if i > 0 && current_turn[current_turn.len() - 1].0 == entry.0 {
                let ghost prev = turn_sequences@.map_values(|v: Vec<Entry>| v@);
                current_turn.push(entry);
                proof {
                    assert(prev.push(current_turn@) =~= prev.push(current_turn@.drop_last()).update(
                        prev.len() as int,
                        current_turn@,
                    ));
                    assert(current_turn@.drop_last().push(entry) =~= current_turn@);
                }
            } else {
                if i > 0 {
                    let ghost prev = turn_sequences@.map_values(|v: Vec<Entry>| v@);
                    let done = current_turn;
                    turn_sequences.push(done);
                    proof {
                        assert(turn_sequences@.map_values(|v: Vec<Entry>| v@) =~= prev.push(done@));
                    }
                }
                current_turn = Vec::new();
                current_turn.push(entry);
                proof {
                    assert(current_turn@ =~= seq![entry]);
                    if i == 0 {
                        assert(turn_sequences@.map_values(|v: Vec<Entry>| v@) =~= Seq::<Seq<Entry>>::empty());
                    }
                }
            }
            i = i + 1;
        }
        if current_turn.len() > 0 {
            let ghost prev = turn_sequences@.map_values(|v: Vec<Entry>| v@);
            let done = current_turn;
            turn_sequences.push(done);
            proof {
                assert(turn_sequences@.map_values(|v: Vec<Entry>| v@) =~= prev.push(done@));
                assert(s.subrange(0, i as int) =~= s);
            }
        } else {
            proof {
                assert(turn_sequences@.map_values(|v: Vec<Entry>| v@) =~= Seq::<Seq<Entry>>::empty());
            }
        }
        turn_sequences
    }

    /// The entries of the first `move_index_target + 1` turns.
    pub fn take_until_move(&self, move_index_target: i32) -> (r: GameHistory)
        ensures
            move_index_target < 0 ==> r.history@.len() == 0,
            move_index_target >= 0 ==> r.history@ == flatten(
                turns(self.history@).take(
                    if move_index_target + 1 <= turns(self.history@).len() {
                        move_index_target + 1
                    } else {
                        turns(self.history@).len() as int
                    },
                ),
            ),
    {
        let groups = self.group_by_player();
        let ghost g = turns(self.history@);
        let ghost gv = groups@.map_values(|v: Vec<Entry>| v@);
        let mut actions: Vec<Entry> = Vec::new();
        if move_index_target < 0 {
            return GameHistory::from(actions);
        }
        let limit: usize = if (move_index_target as usize) < groups.len() {
            move_index_target as usize + 1
        } else {
            groups.len()
        };
        let mut j: usize = 0;
        proof {
            assert(g.take(0) =~= Seq::<Seq<Entry>>::empty());
        }
        while j < limit
            invariant
                j <= limit <= groups@.len(),
                gv == groups@.map_values(|v: Vec<Entry>| v@),
                gv == g,
                actions@ == flatten(g.take(j as int)),
            decreases limit - j,
        {
            let ghost before = actions@;
            let mut k: usize = 0;
            while k < groups[j].len()
                invariant
                    j < limit <= groups@.len(),
                    k <= groups@[j as int]@.len(),
                    actions@ == before + groups@[j as int]@.subrange(0, k as int),
                decreases groups@[j as int]@.len() - k,
            {
                actions.push(groups[j][k]);
                proof {
                    assert(actions@ =~= before + groups@[j as int]@.subrange(0, k + 1));
                }
                k = k + 1;
            }
            proof {
                assert(groups@[j as int]@.subrange(0, k as int) =~= groups@[j as int]@);
                assert(gv[j as int] == groups@[j as int]@);
                assert(g.take(j + 1).drop_last() =~= g.take(j as int));
                assert(g.take(j + 1).last() == g[j as int]);
            }
            j = j + 1;
        }
        GameHistory::from(actions)
    }
}

/// Laying the turns end to end gives back the whole log.
pub proof fn lemma_turns_flatten(s: Seq<Entry>)
    ensures
        flatten(turns(s)) == s,
        forall|i: int| 0 <= i < turns(s).len() ==> (#[trigger] turns(s)[i]).len() > 0,
{
    lemma_turns_shape(s);
}

} // verus!
