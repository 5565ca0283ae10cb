use crate::action::{Action, Phase};
use crate::card::{tier_of, Card, CardId, NUM_CARDS};
use crate::gem::Gem;
use crate::gems::Gems;
use crate::history::GameHistory;
use crate::nobles::{meets, Noble, NobleId, NUM_NOBLES};
use crate::player::Player;
use rand::seq::SliceRandom;
use std::sync::Arc;
use vstd::prelude::*;

verus! {

/// Points that end the game at the close of a round.
pub const WINNING_POINTS: u8 = 15;

/// Most tokens a player may keep at the end of a turn.
pub const GEM_CAP: u32 = 10;

/// Tokens of colour `g` held by the players of `ps`.
pub open spec fn held(ps: Seq<Player>, g: Gem) -> int
    decreases ps.len(),
{
    if ps.len() == 0 {
        0
    } else {
        held(ps.drop_last(), g) + ps.last().gems.count(g)
    }
}

/// Replacing one player changes the tokens held by the difference of the two.
pub proof fn lemma_held_update(ps: Seq<Player>, i: int, p: Player, g: Gem)
    requires
        0 <= i < ps.len(),
    ensures
        held(ps.update(i, p), g) == held(ps, g) - ps[i].gems.count(g) + p.gems.count(g),
    decreases ps.len(),
{
    let qs = ps.update(i, p);
    if i < ps.len() - 1 {
        assert(qs.drop_last() =~= ps.drop_last().update(i, p));
        lemma_held_update(ps.drop_last(), i, p, g);
    } else {
        assert(qs.drop_last() =~= ps.drop_last());
    }
}

/// With no negative counts, each player holds at most what all players hold.
pub proof fn lemma_held_bounds(ps: Seq<Player>, g: Gem)
    requires
        forall|i: int| 0 <= i < ps.len() ==> (#[trigger] ps[i]).gems.is_legal(),
    ensures
        held(ps, g) >= 0,
        forall|i: int| 0 <= i < ps.len() ==> 0 <= (#[trigger] ps[i]).gems.count(g) <= held(ps, g),
    decreases ps.len(),
{
    if ps.len() > 0 {
        assert forall|i: int| 0 <= i < ps.len() - 1 implies (#[trigger] ps.drop_last()[i]).gems.is_legal() by {
            assert(ps.drop_last()[i] == ps[i]);
        }
        lemma_held_bounds(ps.drop_last(), g);
        assert(ps.last().gems.is_legal());
        assert forall|i: int| 0 <= i < ps.len() implies 0 <= (#[trigger] ps[i]).gems.count(g) <= held(ps, g) by {
            if i < ps.len() - 1 {
                assert(ps.drop_last()[i] == ps[i]);
            }
        }
    }
}

/// Players that hold no tokens hold none in all.
pub proof fn lemma_held_zero(ps: Seq<Player>, g: Gem)
    requires
        forall|i: int| 0 <= i < ps.len() ==> (#[trigger] ps[i]).gems == Gems::zero(),
    ensures
        held(ps, g) == 0,
    decreases ps.len(),
{
    if ps.len() > 0 {
        assert forall|i: int| 0 <= i < ps.len() - 1 implies (#[trigger] ps.drop_last()[i]).gems == Gems::zero() by {
            assert(ps.drop_last()[i] == ps[i]);
        }
        lemma_held_zero(ps.drop_last(), g);
        assert(ps.last().gems == Gems::zero());
    }
}

/// Relies on rand's `SliceRandom::shuffle` with the thread-local generator: the
/// items are put in an order chosen at random.
#[verifier::external_body]
pub fn shuffle<T>(items: &mut Vec<T>)
    ensures
        final(items)@.to_multiset() == old(items)@.to_multiset(),
{
    items.shuffle(&mut rand::thread_rng());
}

/// The full state of one game.
#[derive(Clone, Debug)]
pub struct Game {
    pub players: Vec<Player>,
    pub bank: Gems,
    pub decks: Vec<Vec<Card>>,
    pub current_player: usize,
    pub nobles: Vec<Noble>,
    pub dealt_cards: Vec<Vec<CardId>>,
    pub current_phase: Phase,
    pub card_lookup: Arc<Vec<Card>>,
    pub history: GameHistory,
    pub deadlock_count: u8,
}

/// `id` is a card of the tier at index `t` (0 to 2).
pub open spec fn dealt_id_ok(id: CardId, t: int) -> bool {
    id < NUM_CARDS && tier_of(id as int) == t + 1
}

/// `lookup` maps each card id to the catalogue card with that id.
pub open spec fn lookup_ok(lookup: Seq<Card>) -> bool {
    lookup.len() == NUM_CARDS && forall|i: int|
        0 <= i < NUM_CARDS ==> (#[trigger] lookup[i]).id == i && lookup[i].wf() && lookup[i]
            == crate::card::card_table(i as u8)
}

/// After a random reordering the items are those from before, and items that
/// were all different still are.
pub proof fn lemma_shuffled_members<T>(before: Seq<T>, after: Seq<T>)
    requires
        after.to_multiset() == before.to_multiset(),
    ensures
        after.len() == before.len(),
        forall|i: int| 0 <= i < after.len() ==> before.contains(#[trigger] after[i]),
        forall|x: T| #[trigger] after.contains(x) <==> before.contains(x),
        before.no_duplicates() ==> after.no_duplicates(),
{
    before.to_multiset_ensures();
    after.to_multiset_ensures();
    assert forall|i: int| 0 <= i < after.len() implies before.contains(#[trigger] after[i]) by {
        assert(after.contains(after[i]));
        assert(after.to_multiset().count(after[i]) > 0);
        assert(before.to_multiset().count(after[i]) > 0);
    }
    assert forall|x: T| #[trigger] after.contains(x) <==> before.contains(x) by {
        assert(after.to_multiset().count(x) == before.to_multiset().count(x));
        assert(after.contains(x) <==> after.to_multiset().count(x) > 0);
        assert(before.contains(x) <==> before.to_multiset().count(x) > 0);
    }
    if before.no_duplicates() {
        before.lemma_multiset_has_no_duplicates();
        after.lemma_multiset_has_no_duplicates_conv();
    }
}

/// Dealing the last four cards of a catalogue deck without repeats gives four
/// different ids, none of them left in the deck.
proof fn lemma_dealt_apart(s: Seq<Card>, ids: Seq<CardId>)
    requires
        s.no_duplicates(),
        s.len() >= 4,
        forall|i: int| 0 <= i < s.len() ==> #[trigger] s[i] == crate::card::card_table(s[i].id),
        ids.len() == 4,
        forall|i: int| 0 <= i < 4 ==> #[trigger] ids[i] == s[s.len() - 1 - i].id,
    ensures
        ids.no_duplicates(),
        s.subrange(0, s.len() - 4).no_duplicates(),
        forall|k: int| 0 <= k < s.len() - 4 ==> !ids.contains(#[trigger] s[k].id),
{
    let n = s.len();
    assert forall|a: int, b: int| 0 <= a < b < 4 implies ids[a] != ids[b] by {
        if ids[a] == ids[b] {
            assert(s[n - 1 - a] == crate::card::card_table(ids[a]));
            assert(s[n - 1 - b] == crate::card::card_table(ids[b]));
        }
    }
    let d = s.subrange(0, n - 4);
    assert forall|a: int, b: int| 0 <= a < b < d.len() implies d[a] != d[b] by {
        assert(d[a] == s[a] && d[b] == s[b]);
    }
    assert forall|k: int| 0 <= k < n - 4 implies !ids.contains(#[trigger] s[k].id) by {
        if ids.contains(s[k].id) {
            let i = choose|i: int| 0 <= i < 4 && ids[i] == s[k].id;
            assert(s[n - 1 - i] == crate::card::card_table(ids[i]));
            assert(s[k] == crate::card::card_table(s[k].id));
        }
    }
}

/// Pops four cards off `deck` and returns their ids.
fn deal_four(deck: &mut Vec<Card>, tier: Ghost<int>) -> (ids: Vec<CardId>)
    requires
        old(deck)@.len() >= 4,
        forall|i: int| 0 <= i < old(deck)@.len() ==> (#[trigger] old(deck)@[i]).wf() && old(deck)@[i].tier == tier@,
    ensures
        final(deck)@ == old(deck)@.subrange(0, old(deck)@.len() - 4),
        ids@.len() == 4,
        forall|i: int| 0 <= i < 4 ==> dealt_id_ok(#[trigger] ids@[i], tier@ - 1),
        forall|i: int| 0 <= i < 4 ==> #[trigger] ids@[i] == old(deck)@[old(deck)@.len() - 1 - i].id,
{
    let mut ids: Vec<CardId> = Vec::new();
    let ghost start = deck@;
    let mut k: usize = 0;
    while k < 4
        invariant
            k <= 4,
            start.len() >= 4,
            deck@ == start.subrange(0, start.len() - k),
            ids@.len() == k,
            forall|i: int| 0 <= i < start.len() ==> (#[trigger] start[i]).wf() && start[i].tier == tier@,
            forall|i: int| 0 <= i < k ==> dealt_id_ok(#[trigger] ids@[i], tier@ - 1),
            forall|i: int| 0 <= i < k ==> #[trigger] ids@[i] == start[start.len() - 1 - i].id,
        decreases 4 - k,
    {
        let card = deck.pop().unwrap();
        proof {
            assert(card == start[start.len() - k - 1]);
            assert(deck@ =~= start.subrange(0, start.len() - (k + 1)));
        }
        ids.push(card.id());
        k = k + 1;
    }
    ids
}

/// Builds the deck of one tier from the catalogue, in catalogue order.
fn deck_of_tier(tier: u8) -> (deck: Vec<Card>)
    requires
        1 <= tier <= 3,
    ensures
        deck@.len() == (if tier == 1 { 40int } else if tier == 2 { 30int } else { 20int }),
        forall|i: int| 0 <= i < deck@.len() ==> (#[trigger] deck@[i]).wf() && deck@[i].tier == tier
            && deck@[i] == crate::card::card_table(deck@[i].id),
        deck@.no_duplicates(),
        forall|id: CardId| id < NUM_CARDS && tier_of(id as int) == tier ==> #[trigger] deck@.contains(crate::card::card_table(id)),
{
    let all = Card::all();
    let mut deck: Vec<Card> = Vec::new();
    let mut i: usize = 0;
    while i < all.len()
        invariant
            i <= all@.len() == NUM_CARDS,
            forall|j: int| 0 <= j < NUM_CARDS ==> (#[trigger] all@[j]).id == j && all@[j].wf(),
            deck@.len() == (if tier == 1 {
                if i < 40 { i as int } else { 40int }
            } else if tier == 2 {
                if i < 40 { 0int } else if i < 70 { i - 40 } else { 30int }
            } else {
                if i < 70 { 0int } else { i - 70 }
            }),
            1 <= tier <= 3,
            forall|j: int| 0 <= j < NUM_CARDS ==> #[trigger] all@[j] == crate::card::card_table(j as u8),
            forall|j: int| 0 <= j < deck@.len() ==> (#[trigger] deck@[j]).wf() && deck@[j].tier == tier
                && deck@[j].id < i && deck@[j] == crate::card::card_table(deck@[j].id),
            forall|a: int, b: int| 0 <= a < b < deck@.len() ==> deck@[a].id < deck@[b].id,
            forall|id: CardId| id < i && tier_of(id as int) == tier ==> #[trigger] deck@.contains(crate::card::card_table(id)),
        decreases all@.len() - i,
    {
        let card = all[i];
        let ghost before = deck@;
        if card.tier() == tier {
            deck.push(card);
            proof {
                assert forall|id: CardId| id < i + 1 && tier_of(id as int) == tier implies #[trigger] deck@.contains(crate::card::card_table(id)) by {
                    crate::rules::lemma_push_contains(before, card, crate::card::card_table(id));
                }
            }
        } else {
            proof {
                assert forall|id: CardId| id < i + 1 && tier_of(id as int) == tier implies #[trigger] deck@.contains(crate::card::card_table(id)) by {
                    if id == i {
                        assert(all@[i as int].tier == tier_of(i as int));
                    }
                }
            }
        }
        i = i + 1;
    }
    proof {
        assert forall|a: int, b: int| 0 <= a < b < deck@.len() implies deck@[a] != deck@[b] by {
            assert(deck@[a].id < deck@[b].id);
        }
    }
    deck
}

impl Game {
    pub open spec fn num_players(&self) -> int {
        self.players@.len() as int
    }

    /// The player whose turn it is.
    pub open spec fn me(&self) -> Player {
        self.players@[self.current_player as int]
    }

    /// The starting bank of this game.
    pub open spec fn initial_bank(&self) -> Gems {
        Gems::start_spec(self.num_players())
    }

    /// Every token is either in the bank or with a player, as at the start.
    pub open spec fn conserved(&self) -> bool {
        forall|g: Gem| #[trigger]
            self.bank.count(g) + held(self.players@, g) == self.initial_bank().count(g)
    }

    pub open spec fn decks_ok(&self) -> bool {
        self.decks@.len() == 3 && forall|t: int, i: int|
            0 <= t < 3 && 0 <= i < self.decks@[t]@.len() ==> (#[trigger] self.decks@[t]@[i]).wf()
                && self.decks@[t]@[i].tier == t + 1
    }

    pub open spec fn dealt_ok(&self) -> bool {
        self.dealt_cards@.len() == 3 && forall|t: int|
            0 <= t < 3 ==> (#[trigger] self.dealt_cards@[t])@.len() <= 4 && forall|i: int|
                0 <= i < self.dealt_cards@[t]@.len() ==> dealt_id_ok(
                    #[trigger] self.dealt_cards@[t]@[i],
                    t,
                )
    }

    pub open spec fn players_ok(&self) -> bool {
        forall|i: int|
            0 <= i < self.players@.len() ==> (#[trigger] self.players@[i]).wf() && forall|j: int|
                0 <= j < self.players@[i].reserved@.len() ==> (
                #[trigger] self.players@[i].reserved@[j]) < NUM_CARDS
    }

    pub open spec fn nobles_ok(&self) -> bool {
        forall|i: int| 0 <= i < self.nobles@.len() ==> (#[trigger] self.nobles@[i]).wf()
    }

    /// Some player holds card `id` in reserve.
    pub open spec fn reserved_by_someone(&self, id: CardId) -> bool {
        exists|i: int| 0 <= i < self.players@.len() && (#[trigger] self.players@[i]).reserved@.contains(id)
    }

    /// Every card is in one place at most: no face-up row and no deck repeats a
    /// card, no reserve repeats a card, face-up cards are nobody's reserve, and a
    /// card still in a deck is neither face up nor reserved.
    pub open spec fn cards_apart(&self) -> bool {
        (forall|t: int| 0 <= t < 3 ==> (#[trigger] self.dealt_cards@[t])@.no_duplicates()
            && self.decks@[t]@.no_duplicates())
        && (forall|i: int| 0 <= i < self.players@.len() ==> (#[trigger] self.players@[i]).reserved@.no_duplicates())
        && (forall|i: int, id: CardId| 0 <= i < self.players@.len()
            && (#[trigger] self.players@[i].reserved@.contains(id)) ==> !self.on_board(id))
        && (forall|t: int, k: int| 0 <= t < 3 && 0 <= k < self.decks@[t]@.len() ==>
            #[trigger] self.decks@[t]@[k] == crate::card::card_table(self.decks@[t]@[k].id)
            && !self.on_board(self.decks@[t]@[k].id) && !self.reserved_by_someone(self.decks@[t]@[k].id))
    }

    /// The card `id` lies face up on the board.
    pub open spec fn on_board(&self, id: CardId) -> bool {
        self.dealt_cards@[0]@.contains(id) || self.dealt_cards@[1]@.contains(id)
            || self.dealt_cards@[2]@.contains(id)
    }

    /// The invariant of a game state, but for what the phase asks of the current player.
    pub open spec fn wf_core(&self) -> bool {
        2 <= self.num_players() <= 4 && self.current_player < self.num_players()
            && self.bank.is_legal() && self.conserved() && self.players_ok() && self.decks_ok()
            && self.dealt_ok() && self.nobles_ok() && lookup_ok(self.card_lookup@) && self.cards_apart()
            && self.deadlock_count <= 2 * self.num_players()
    }

    /// The invariant of a game state.
    pub open spec fn wf(&self) -> bool {
        self.wf_core() && (self.current_phase == Phase::PlayerGemCapExceeded
            ==> self.me().gems.total_spec() > GEM_CAP)
    }

    /// Some player has reached the winning score.
    pub open spec fn someone_won(&self) -> bool {
        exists|i: int| 0 <= i < self.num_players() && (#[trigger] self.players@[i]).points >= WINNING_POINTS
    }

    /// Every player passed for two full rounds.
    pub open spec fn deadlocked(&self) -> bool {
        self.deadlock_count == 2 * self.num_players()
    }

    /// No action is left: deadlock, or the last seat has ended its turn in a
    /// round in which somebody reached the winning score.
    pub open spec fn over(&self) -> bool {
        self.deadlocked() || (self.current_phase == Phase::PlayerActionEnd && self.current_player
            == self.num_players() - 1 && self.someone_won())
    }

    /// Conservation bounds every count of the bank and of each player by the
    /// starting bank.
    pub proof fn lemma_token_bounds(&self)
        requires
            self.wf_core(),
        ensures
            crate::selection::tiny(self.bank),
            forall|i: int| 0 <= i < self.num_players() ==> crate::selection::tiny(
                #[trigger] self.players@[i].gems,
            ),
    {
        assert forall|i: int| 0 <= i < self.players@.len() implies (#[trigger] self.players@[i]).gems.is_legal() by {
            assert(self.players@[i].wf());
        }
        assert forall|g: Gem| 0 <= #[trigger] self.bank.count(g) <= 7 && held(self.players@, g) <= 7 by {
            lemma_held_bounds(self.players@, g);
            assert(self.bank.count(g) + held(self.players@, g) == self.initial_bank().count(g));
        }
        assert(0 <= self.bank.count(Gem::Onyx) <= 7);
        assert(0 <= self.bank.count(Gem::Sapphire) <= 7);
        assert(0 <= self.bank.count(Gem::Emerald) <= 7);
        assert(0 <= self.bank.count(Gem::Ruby) <= 7);
        assert(0 <= self.bank.count(Gem::Diamond) <= 7);
        assert(0 <= self.bank.count(Gem::Gold) <= 7);
        assert forall|i: int| 0 <= i < self.num_players() implies crate::selection::tiny(
            #[trigger] self.players@[i].gems,
        ) by {
            assert forall|g: Gem| #[trigger] self.players@[i].gems.count(g) <= 7 by {
                lemma_held_bounds(self.players@, g);
                assert(held(self.players@, g) <= 7);
            }
            assert(self.players@[i].gems.count(Gem::Onyx) <= 7);
            assert(self.players@[i].gems.count(Gem::Sapphire) <= 7);
            assert(self.players@[i].gems.count(Gem::Emerald) <= 7);
            assert(self.players@[i].gems.count(Gem::Ruby) <= 7);
            assert(self.players@[i].gems.count(Gem::Diamond) <= 7);
            assert(self.players@[i].gems.count(Gem::Gold) <= 7);
        }
    }

    /// Number of cards in each deck, tier 1 to 3.
    pub fn deck_counts(&self) -> (r: [usize; 3])
        requires
            self.decks@.len() == 3,
        ensures
            r@[0] == self.decks@[0]@.len(),
            r@[1] == self.decks@[1]@.len(),
            r@[2] == self.decks@[2]@.len(),
    {
        [self.decks[0].len(), self.decks[1].len(), self.decks[2].len()]
    }

    /// The table that maps card ids to cards.
    pub fn card_lookup(&self) -> (r: Arc<Vec<Card>>)
        ensures
            r@ == self.card_lookup@,
    {
        Arc::clone(&self.card_lookup)
    }

    /// The face-up cards, by tier.
    pub fn cards(&self) -> (r: Vec<Vec<CardId>>)
        ensures
            r@.len() == self.dealt_cards@.len(),
            forall|t: int| 0 <= t < r@.len() ==> (#[trigger] r@[t])@ == self.dealt_cards@[t]@,
    {
        let mut out: Vec<Vec<CardId>> = Vec::new();
        let mut t: usize = 0;
        while t < self.dealt_cards.len()
            invariant
                t <= self.dealt_cards@.len(),
                out@.len() == t,
                forall|u: int| 0 <= u < t ==> (#[trigger] out@[u])@ == self.dealt_cards@[u]@,
            decreases self.dealt_cards@.len() - t,
        {
            out.push(self.dealt_cards[t].clone());
            t = t + 1;
        }
        out
    }

    /// The tokens in the bank.
    pub fn bank(&self) -> (r: &Gems)
        ensures
            *r == self.bank,
    {
        &self.bank
    }

    /// The nobles still on the board.
    pub fn nobles(&self) -> (r: &Vec<Noble>)
        ensures
            r@ == self.nobles@,
    {
        &self.nobles
    }

    pub fn players(&self) -> (r: &Vec<Player>)
        ensures
            r@ == self.players@,
    {
        &self.players
    }

    /// Seat of the player whose turn it is.
    pub fn current_player_num(&self) -> (r: usize)
        ensures
            r == self.current_player,
    {
        self.current_player
    }

    /// The phase of the current turn.
    pub fn phase(&self) -> (r: Phase)
        ensures
            r == self.current_phase,
    {
        self.current_phase
    }

    /// A copy of the player whose turn it is.
    pub fn current_player(&self) -> (r: Player)
        requires
            self.current_player < self.players@.len(),
        ensures
            r.points == self.me().points,
            r.noble_points == self.me().noble_points,
            r.gems == self.me().gems,
            r.developments == self.me().developments,
            r.reserved@ == self.me().reserved@,
            r.blind_reserved@ == self.me().blind_reserved@,
    {
        let p = &self.players[self.current_player];
        Player {
            points: p.points,
            noble_points: p.noble_points,
            reserved: p.reserved.clone(),
            gems: p.gems,
            developments: p.developments,
            blind_reserved: p.blind_reserved.clone(),
        }
    }

    /// A copy of the log.
    pub fn history(&self) -> (r: GameHistory)
        ensures
            r.history@ == self.history.history@,
    {
        self.history.duplicate()
    }

    /// Sets up a game for `players` players: shuffled decks with four cards of
    /// each tier face up, `players + 1` nobles drawn at random, the starting bank.
    pub fn new(players: u8, card_lookup: Arc<Vec<Card>>) -> (r: Game)
        requires
            2 <= players <= 4,
            lookup_ok(card_lookup@),
        ensures
            r.wf(),
            r.num_players() == players,
            r.bank == Gems::start_spec(players as int),
            r.current_player == 0,
            r.current_phase == Phase::PlayerStart,
            r.deadlock_count == 0,
            r.history.history@.len() == 0,
            r.nobles@.len() == players + 1,
            r.decks@[0]@.len() == 36 && r.decks@[1]@.len() == 26 && r.decks@[2]@.len() == 16,
            forall|t: int| 0 <= t < 3 ==> (#[trigger] r.dealt_cards@[t])@.len() == 4
                && r.dealt_cards@[t]@.no_duplicates(),
            forall|t: int, id: CardId| 0 <= t < 3 && id < NUM_CARDS && tier_of(id as int) == t + 1
                ==> #[trigger] r.decks@[t]@.contains(crate::card::card_table(id)) || r.dealt_cards@[t]@.contains(id),
            r.nobles@.no_duplicates(),
            forall|i: int| 0 <= i < r.nobles@.len() ==> #[trigger] r.nobles@[i] == crate::nobles::noble_table(r.nobles@[i].id),
            forall|i: int| 0 <= i < players ==> (#[trigger] r.players@[i]).points == 0
                && r.players@[i].gems == Gems::zero() && r.players@[i].developments == Gems::zero()
                && r.players@[i].reserved@.len() == 0,
    {
        let mut deck1 = deck_of_tier(1);
        let mut deck2 = deck_of_tier(2);
        let mut deck3 = deck_of_tier(3);

        let mut nobles = Noble::all();
        let ghost nobles_before = nobles@;
        shuffle(&mut nobles);
        proof {
            assert(nobles_before.no_duplicates()) by {
                assert forall|a: int, b: int| 0 <= a < b < nobles_before.len() implies nobles_before[a] != nobles_before[b] by {
                    assert(nobles_before[a].id == a && nobles_before[b].id == b);
                }
            }
            lemma_shuffled_members(nobles_before, nobles@);
            assert forall|i: int| 0 <= i < nobles@.len() implies #[trigger] nobles@[i] == crate::nobles::noble_table(nobles@[i].id) by {
                let j = choose|j: int| 0 <= j < nobles_before.len() && nobles_before[j] == nobles@[i];
            }
        }
        let ghost shuffled_nobles = nobles@;
        nobles.truncate(players as usize + 1);
        proof {
            assert(nobles@ =~= shuffled_nobles.subrange(0, players + 1));
            assert forall|a: int, b: int| 0 <= a < b < nobles@.len() implies nobles@[a] != nobles@[b] by {
                assert(nobles@[a] == shuffled_nobles[a] && nobles@[b] == shuffled_nobles[b]);
            }
        }

        let ghost d1 = deck1@;
        let ghost d2 = deck2@;
        let ghost d3 = deck3@;
        shuffle(&mut deck1);
        shuffle(&mut deck2);
        shuffle(&mut deck3);
        proof {
            lemma_shuffled_members(d1, deck1@);
            lemma_shuffled_members(d2, deck2@);
            lemma_shuffled_members(d3, deck3@);
            assert forall|i: int| 0 <= i < deck1@.len() implies (#[trigger] deck1@[i]).wf() && deck1@[i].tier == 1 by {
                let j = choose|j: int| 0 <= j < d1.len() && d1[j] == deck1@[i];
            }
            assert forall|i: int| 0 <= i < deck2@.len() implies (#[trigger] deck2@[i]).wf() && deck2@[i].tier == 2 by {
                let j = choose|j: int| 0 <= j < d2.len() && d2[j] == deck2@[i];
            }
            assert forall|i: int| 0 <= i < deck3@.len() implies (#[trigger] deck3@[i]).wf() && deck3@[i].tier == 3 by {
                let j = choose|j: int| 0 <= j < d3.len() && d3[j] == deck3@[i];
            }
            assert forall|i: int| 0 <= i < nobles@.len() implies (#[trigger] nobles@[i]).wf() by {
                let j = choose|j: int| 0 <= j < nobles_before.len() && nobles_before[j] == nobles@[i];
            }
        }

        proof {
            assert forall|i: int| 0 <= i < deck1@.len() implies #[trigger] deck1@[i] == crate::card::card_table(deck1@[i].id) by {
                let j = choose|j: int| 0 <= j < d1.len() && d1[j] == deck1@[i];
            }
            assert forall|i: int| 0 <= i < deck2@.len() implies #[trigger] deck2@[i] == crate::card::card_table(deck2@[i].id) by {
                let j = choose|j: int| 0 <= j < d2.len() && d2[j] == deck2@[i];
            }
            assert forall|i: int| 0 <= i < deck3@.len() implies #[trigger] deck3@[i] == crate::card::card_table(deck3@[i].id) by {
                let j = choose|j: int| 0 <= j < d3.len() && d3[j] == deck3@[i];
            }
        }
        let ghost s1 = deck1@;
        let ghost s2 = deck2@;
        let ghost s3 = deck3@;
        let mut dealt_cards: Vec<Vec<CardId>> = Vec::new();
        let ids1 = deal_four(&mut deck1, Ghost(1));
        let ids2 = deal_four(&mut deck2, Ghost(2));
        let ids3 = deal_four(&mut deck3, Ghost(3));
        proof {
            lemma_dealt_apart(s1, ids1@);
            lemma_dealt_apart(s2, ids2@);
            lemma_dealt_apart(s3, ids3@);
        }
        let ghost (e1, e2, e3) = (ids1@, ids2@, ids3@);
        dealt_cards.push(ids1);
        dealt_cards.push(ids2);
        dealt_cards.push(ids3);

        let mut decks: Vec<Vec<Card>> = Vec::new();
        decks.push(deck1);
        decks.push(deck2);
        decks.push(deck3);

        let mut seats: Vec<Player> = Vec::new();
        let mut i: u8 = 0;
        while i < players
            invariant
                i <= players,
                seats@.len() == i,
                forall|j: int| 0 <= j < i ==> (#[trigger] seats@[j]).wf() && seats@[j].points == 0
                    && seats@[j].gems == Gems::zero() && seats@[j].developments == Gems::zero()
                    && seats@[j].reserved@.len() == 0,
            decreases players - i,
        {
            seats.push(Player::new());
            i = i + 1;
        }
        proof {
            assert forall|g: Gem| #[trigger] held(seats@, g) == 0 by {
                lemma_held_zero(seats@, g);
            }
        }

        let game = Game {
            players: seats,
            bank: Gems::start(players),
            decks,
            current_player: 0,
            nobles,
            current_phase: Phase::PlayerStart,
            dealt_cards,
            card_lookup,
            history: GameHistory::new(),
            deadlock_count: 0,
        };
        proof {
            assert(game.decks_ok()) by {
                assert forall|t: int, i: int|
                    0 <= t < 3 && 0 <= i < game.decks@[t]@.len() implies (#[trigger] game.decks@[t]@[i]).wf()
                        && game.decks@[t]@[i].tier == t + 1 by {
                    if t == 0 {
                        assert(game.decks@[t]@[i] == s1.subrange(0, 36)[i]);
                    } else if t == 1 {
                        assert(game.decks@[t]@[i] == s2.subrange(0, 26)[i]);
                    } else {
                        assert(game.decks@[t]@[i] == s3.subrange(0, 16)[i]);
                    }
                }
            }
            assert(game.dealt_cards@[0]@ == e1 && game.dealt_cards@[1]@ == e2 && game.dealt_cards@[2]@ == e3);
            assert(game.decks@[0]@ == s1.subrange(0, 36) && game.decks@[1]@ == s2.subrange(0, 26)
                && game.decks@[2]@ == s3.subrange(0, 16));
            assert forall|t: int, k: int| 0 <= t < 3 && 0 <= k < game.decks@[t]@.len() implies
                #[trigger] game.decks@[t]@[k] == crate::card::card_table(game.decks@[t]@[k].id)
                && !game.on_board(game.decks@[t]@[k].id) && !game.reserved_by_someone(game.decks@[t]@[k].id) by {
                let c = game.decks@[t]@[k];
                let s = if t == 0 { s1 } else if t == 1 { s2 } else { s3 };
                assert(c == s[k]);
                assert forall|u: int| 0 <= u < 3 implies !(#[trigger] game.dealt_cards@[u])@.contains(c.id) by {
                    if u != t && game.dealt_cards@[u]@.contains(c.id) {
                        let m = choose|m: int| 0 <= m < game.dealt_cards@[u]@.len() && game.dealt_cards@[u]@[m] == c.id;
                        assert(dealt_id_ok(game.dealt_cards@[u]@[m], u));
                    }
                }
                if game.reserved_by_someone(c.id) {
                    let p = choose|p: int| 0 <= p < game.players@.len() && (#[trigger] game.players@[p]).reserved@.contains(c.id);
                }
            }
            assert forall|t: int, id: CardId| 0 <= t < 3 && id < NUM_CARDS && tier_of(id as int) == t + 1
                implies #[trigger] game.decks@[t]@.contains(crate::card::card_table(id)) || game.dealt_cards@[t]@.contains(id) by {
                let s = if t == 0 { s1 } else if t == 1 { s2 } else { s3 };
                let e = if t == 0 { e1 } else if t == 1 { e2 } else { e3 };
                assert(s.contains(crate::card::card_table(id)));
                let j = choose|j: int| 0 <= j < s.len() && s[j] == crate::card::card_table(id);
                assert(s[j].id == id);
                if j < s.len() - 4 {
                    assert(game.decks@[t]@[j] == s[j]);
                } else {
                    assert(e[s.len() - 1 - j] == id);
                }
            }
            assert forall|i: int, x: CardId| 0 <= i < game.players@.len()
                && (#[trigger] game.players@[i].reserved@.contains(x)) implies !game.on_board(x) by {
                assert(game.players@[i].reserved@.len() == 0);
            }
        }
        game
    }
}

} // verus!
