use crate::action::{Action, Phase};
use crate::card::{Card, CardId, NUM_CARDS};
use crate::game::{held, lemma_held_update, Game, GEM_CAP};
use crate::gem::Gem;
use crate::gems::Gems;
use crate::history::GameHistory;
use crate::player::{Player, MAX_RESERVED};
use vstd::prelude::*;

verus! {

impl Game {
    /// `self` and `o` agree in everything but the bank, the players and the board.
    pub open spec fn same_frame(&self, o: &Game) -> bool {
        self.current_player == o.current_player && self.current_phase == o.current_phase
            && self.card_lookup@ == o.card_lookup@ && self.history.history@
            == o.history.history@ && self.deadlock_count == o.deadlock_count
            && self.nobles@ == o.nobles@
    }

    /// `self` and `o` have the same board: decks and face-up cards.
    pub open spec fn same_board(&self, o: &Game) -> bool {
        self.decks@.len() == o.decks@.len() && self.dealt_cards@.len() == o.dealt_cards@.len()
            && (forall|t: int| 0 <= t < self.decks@.len() ==> (#[trigger] self.decks@[t])@ == o.decks@[t]@)
            && (forall|t: int|
            0 <= t < self.dealt_cards@.len() ==> (#[trigger] self.dealt_cards@[t])@
                == o.dealt_cards@[t]@)
    }

    /// The other players are untouched.
    pub open spec fn others_same(&self, o: &Game) -> bool {
        self.players@.len() == o.players@.len() && forall|i: int|
            0 <= i < self.players@.len() && i != self.current_player ==> #[trigger] self.players@[i]
                == o.players@[i]
    }

    /// Moves `amount` from the bank to the current player.
    fn give_tokens(&mut self, amount: Gems)
        requires
            old(self).wf_core(),
            amount.is_legal(),
            amount.le(old(self).bank),
        ensures
            final(self).wf_core(),
            final(self).same_frame(old(self)),
            final(self).same_board(old(self)),
            final(self).others_same(old(self)),
            old(self).bank.is_sum(final(self).bank, amount),
            final(self).me().gems.is_sum(old(self).me().gems, amount),
            final(self).me().points == old(self).me().points,
            final(self).me().noble_points == old(self).me().noble_points,
            final(self).me().developments == old(self).me().developments,
            final(self).me().reserved@ == old(self).me().reserved@,
            final(self).me().blind_reserved@ == old(self).me().blind_reserved@,
    {
        proof {
            self.lemma_token_bounds();
        }
        let cp = self.current_player;
        self.bank = self.bank.minus(&amount);
        self.players[cp].add_gems(amount);
        proof {
            let ghost op = old(self).players@;
            assert(self.players@ == op.update(cp as int, self.players@[cp as int]));
            assert forall|g: Gem| #[trigger]
                self.bank.count(g) + held(self.players@, g) == self.initial_bank().count(g) by {
                lemma_held_update(op, cp as int, self.players@[cp as int], g);
                assert(old(self).bank.count(g) + held(op, g) == old(self).initial_bank().count(g));
            }
            assert(crate::selection::tiny(op[cp as int].gems));
            assert(self.players_ok()) by {
                assert forall|i: int| 0 <= i < self.players@.len() implies (#[trigger] self.players@[i]).wf() && forall|j: int|
                    0 <= j < self.players@[i].reserved@.len() ==> (#[trigger] self.players@[i].reserved@[j]) < NUM_CARDS by {
                    assert(op[i].wf());
                }
            }
        }
    }

    /// Moves `amount` from the current player to the bank.
    fn take_tokens(&mut self, amount: Gems)
        requires
            old(self).wf_core(),
            amount.is_legal(),
            amount.le(old(self).me().gems),
        ensures
            final(self).wf_core(),
            final(self).same_frame(old(self)),
            final(self).same_board(old(self)),
            final(self).others_same(old(self)),
            final(self).bank.is_sum(old(self).bank, amount),
            old(self).me().gems.is_sum(final(self).me().gems, amount),
            final(self).me().points == old(self).me().points,
            final(self).me().noble_points == old(self).me().noble_points,
            final(self).me().developments == old(self).me().developments,
            final(self).me().reserved@ == old(self).me().reserved@,
            final(self).me().blind_reserved@ == old(self).me().blind_reserved@,
    {
        proof {
            self.lemma_token_bounds();
        }
        let cp = self.current_player;
        self.bank = self.bank.plus(&amount);
        self.players[cp].remove_gems(amount);
        proof {
            let ghost op = old(self).players@;
            assert(self.players@ == op.update(cp as int, self.players@[cp as int]));
            assert forall|g: Gem| #[trigger]
                self.bank.count(g) + held(self.players@, g) == self.initial_bank().count(g) by {
                lemma_held_update(op, cp as int, self.players@[cp as int], g);
                assert(old(self).bank.count(g) + held(op, g) == old(self).initial_bank().count(g));
            }
            assert(self.players_ok()) by {
                assert forall|i: int| 0 <= i < self.players@.len() implies (#[trigger] self.players@[i]).wf() && forall|j: int|
                    0 <= j < self.players@[i].reserved@.len() ==> (#[trigger] self.players@[i].reserved@[j]) < NUM_CARDS by {
                    assert(op[i].wf());
                }
            }
        }
    }

    /// Whether card `card_id` lies face up on the board.
    pub fn has_card(&self, card_id: CardId) -> (r: bool)
        requires
            self.dealt_cards@.len() == 3,
        ensures
            r == self.on_board(card_id),
    {
        crate::player::contains_id(&self.dealt_cards[0], card_id) || crate::player::contains_id(
            &self.dealt_cards[1],
            card_id,
        ) || crate::player::contains_id(&self.dealt_cards[2], card_id)
    }

    /// Takes a face-up card off the board and returns its tier (0 to 2).
    pub fn remove_card(&mut self, card_id: CardId) -> (tier: usize)
        requires
            old(self).wf_core(),
            old(self).on_board(card_id),
        ensures
            final(self).wf_core(),
            final(self).same_frame(old(self)),
            final(self).players@ == old(self).players@,
            final(self).bank == old(self).bank,
            final(self).decks@.len() == 3,
            final(self).dealt_cards@.len() == 3,
            forall|t: int| 0 <= t < 3 ==> (#[trigger] final(self).decks@[t])@ == old(self).decks@[t]@,
            tier < 3,
            old(self).dealt_cards@[tier as int]@.contains(card_id),
            exists|i: int|
                0 <= i < old(self).dealt_cards@[tier as int]@.len() && old(self).dealt_cards@[tier as int]@[i]
                    == card_id && final(self).dealt_cards@[tier as int]@ == old(self).dealt_cards@[tier as int]@.remove(i),
            forall|t: int| 0 <= t < 3 && t != tier ==> (#[trigger] final(self).dealt_cards@[t])@ == old(self).dealt_cards@[t]@,
    {
        let tier: usize = if crate::player::contains_id(&self.dealt_cards[0], card_id) {
            0
        } else if crate::player::contains_id(&self.dealt_cards[1], card_id) {
            1
        } else {
            2
        };
        let mut j: usize = 0;
        while j < self.dealt_cards[tier].len() && self.dealt_cards[tier][j] != card_id
            invariant
                tier < 3,
                self.dealt_cards@.len() == 3,
                j <= self.dealt_cards@[tier as int]@.len(),
                self.dealt_cards@[tier as int]@.contains(card_id),
                forall|k: int| 0 <= k < j ==> self.dealt_cards@[tier as int]@[k] != card_id,
            decreases self.dealt_cards@[tier as int]@.len() - j,
        {
            j = j + 1;
        }
        proof {
            if j == self.dealt_cards@[tier as int]@.len() {
                let k = choose|k: int| 0 <= k < self.dealt_cards@[tier as int]@.len() && self.dealt_cards@[tier as int]@[k] == card_id;
                assert(false);
            }
        }
        let ghost before = self.dealt_cards@[tier as int]@;
        self.dealt_cards[tier].remove(j);
        proof {
            assert(self.dealt_cards@[tier as int]@ == before.remove(j as int));
            assert(before[j as int] == card_id);
            assert(self.dealt_ok()) by {
                assert forall|t: int| 0 <= t < 3 implies (#[trigger] self.dealt_cards@[t])@.len() <= 4 && forall|i: int|
                    0 <= i < self.dealt_cards@[t]@.len() ==> crate::game::dealt_id_ok(#[trigger] self.dealt_cards@[t]@[i], t) by {
                    if t == tier {
                        assert forall|i: int| 0 <= i < self.dealt_cards@[t]@.len() implies crate::game::dealt_id_ok(#[trigger] self.dealt_cards@[t]@[i], t) by {
                            if i < j {
                                assert(self.dealt_cards@[t]@[i] == before[i]);
                            } else {
                                assert(self.dealt_cards@[t]@[i] == before[i + 1]);
                            }
                        }
                    }
                }
            }
        }
        tier
    }

    /// Turns the top card of a tier's deck face up, if the deck has one.
    pub fn deal_to(&mut self, tier: usize) -> (r: Option<CardId>)
        requires
            old(self).wf_core(),
            tier < 3,
            old(self).dealt_cards@[tier as int]@.len() < 4,
        ensures
            final(self).wf_core(),
            final(self).same_frame(old(self)),
            final(self).players@ == old(self).players@,
            final(self).bank == old(self).bank,
            final(self).decks@.len() == 3,
            final(self).dealt_cards@.len() == 3,
            forall|t: int| 0 <= t < 3 && t != tier ==> (#[trigger] final(self).decks@[t])@ == old(self).decks@[t]@,
            forall|t: int| 0 <= t < 3 && t != tier ==> (#[trigger] final(self).dealt_cards@[t])@ == old(self).dealt_cards@[t]@,
            old(self).decks@[tier as int]@.len() == 0 ==> r.is_none()
                && final(self).decks@[tier as int]@ == old(self).decks@[tier as int]@
                && final(self).dealt_cards@[tier as int]@ == old(self).dealt_cards@[tier as int]@,
            old(self).decks@[tier as int]@.len() > 0 ==> r == Some(old(self).decks@[tier as int]@.last().id)
                && final(self).decks@[tier as int]@ == old(self).decks@[tier as int]@.drop_last()
                && final(self).dealt_cards@[tier as int]@ == old(self).dealt_cards@[tier as int]@.push(r.unwrap()),
    {
        if self.decks[tier].len() == 0 {
            return None;
        }
        let ghost deck = self.decks@[tier as int]@;
        let new_card = self.decks[tier].pop().unwrap();
        proof {
            assert(new_card == deck.last());
            assert(self.decks@[tier as int]@ =~= deck.drop_last());
            assert(new_card.wf());
        }
        let id = new_card.id();
        let ghost dealt = self.dealt_cards@[tier as int]@;
        self.dealt_cards[tier].push(id);
        proof {
            assert(self.decks_ok()) by {
                assert forall|t: int, i: int|
                    0 <= t < 3 && 0 <= i < self.decks@[t]@.len() implies (#[trigger] self.decks@[t]@[i]).wf()
                        && self.decks@[t]@[i].tier == t + 1 by {
                    if t == tier {
                        assert(self.decks@[t]@[i] == deck[i]);
                    }
                }
            }
            assert(self.dealt_ok()) by {
                assert forall|t: int| 0 <= t < 3 implies (#[trigger] self.dealt_cards@[t])@.len() <= 4 && forall|i: int|
                    0 <= i < self.dealt_cards@[t]@.len() ==> crate::game::dealt_id_ok(#[trigger] self.dealt_cards@[t]@[i], t) by {
                    if t == tier {
                        assert forall|i: int| 0 <= i < self.dealt_cards@[t]@.len() implies crate::game::dealt_id_ok(#[trigger] self.dealt_cards@[t]@[i], t) by {
                            if i < dealt.len() {
                                assert(self.dealt_cards@[t]@[i] == dealt[i]);
                            }
                        }
                    }
                }
            }
        }
        Some(id)
    }

    /// Takes the top card off the deck of a tier.
    fn draw(&mut self, tier: usize) -> (card: Card)
        requires
            old(self).wf_core(),
            tier < 3,
            old(self).decks@[tier as int]@.len() > 0,
        ensures
            final(self).wf_core(),
            final(self).same_frame(old(self)),
            final(self).players@ == old(self).players@,
            final(self).bank == old(self).bank,
            final(self).decks@.len() == 3,
            final(self).dealt_cards@ == old(self).dealt_cards@,
            card == old(self).decks@[tier as int]@.last(),
            card.wf(),
            final(self).decks@[tier as int]@ == old(self).decks@[tier as int]@.drop_last(),
            forall|t: int| 0 <= t < 3 && t != tier ==> (#[trigger] final(self).decks@[t])@ == old(self).decks@[t]@,
    {
        let ghost deck = self.decks@[tier as int]@;
        let card = self.decks[tier].pop().unwrap();
        proof {
            assert(card == deck.last());
            assert(self.decks@[tier as int]@ =~= deck.drop_last());
            assert(self.decks_ok()) by {
                assert forall|t: int, i: int|
                    0 <= t < 3 && 0 <= i < self.decks@[t]@.len() implies (#[trigger] self.decks@[t]@[i]).wf()
                        && self.decks@[t]@[i].tier == t + 1 by {
                    if t == tier {
                        assert(self.decks@[t]@[i] == deck[i]);
                    }
                }
            }
        }
        card
    }

    /// Puts a card in the current player's reserve; blind when drawn from a deck.
    fn reserve_for_me(&mut self, card_id: CardId, blind: bool)
        requires
            old(self).wf_core(),
            old(self).me().reserved@.len() < MAX_RESERVED,
            card_id < NUM_CARDS,
            !old(self).on_board(card_id),
            !old(self).reserved_by_someone(card_id),
            forall|t: int, k: int| 0 <= t < 3 && 0 <= k < old(self).decks@[t]@.len() ==> (#[trigger] old(self).decks@[t]@[k]).id != card_id,
        ensures
            final(self).wf_core(),
            final(self).same_frame(old(self)),
            final(self).same_board(old(self)),
            final(self).others_same(old(self)),
            final(self).bank == old(self).bank,
            final(self).me().gems == old(self).me().gems,
            final(self).me().points == old(self).me().points,
            final(self).me().noble_points == old(self).me().noble_points,
            final(self).me().developments == old(self).me().developments,
            final(self).me().reserved@ == old(self).me().reserved@.push(card_id),
            blind ==> final(self).me().blind_reserved@ == old(self).me().blind_reserved@.push(card_id),
            !blind ==> final(self).me().blind_reserved@ == old(self).me().blind_reserved@,
    {
        let cp = self.current_player;
        if blind {
            self.players[cp].blind_reserve_card(card_id);
        } else {
            self.players[cp].reserve_card(card_id);
        }
        proof {
            let ghost op = old(self).players@;
            let ghost me = old(self).me();
            assert(self.players@ == op.update(cp as int, self.players@[cp as int]));
            assert forall|g: Gem| #[trigger]
                self.bank.count(g) + held(self.players@, g) == self.initial_bank().count(g) by {
                lemma_held_update(op, cp as int, self.players@[cp as int], g);
                assert(old(self).bank.count(g) + held(op, g) == old(self).initial_bank().count(g));
            }
            assert(self.players_ok()) by {
                assert forall|i: int| 0 <= i < self.players@.len() implies (#[trigger] self.players@[i]).wf() && forall|j: int|
                    0 <= j < self.players@[i].reserved@.len() ==> (#[trigger] self.players@[i].reserved@[j]) < NUM_CARDS by {
                    assert(op[i].wf());
                    if i == cp {
                        assert forall|j: int| 0 <= j < self.players@[i].reserved@.len() implies (#[trigger] self.players@[i].reserved@[j]) < NUM_CARDS by {
                            if j < me.reserved@.len() {
                                assert(self.players@[i].reserved@[j] == me.reserved@[j]);
                            }
                        }
                    }
                }
            }
            assert forall|i: int, x: CardId| 0 <= i < self.players@.len() && (#[trigger] self.players@[i].reserved@.contains(x))
                implies !self.on_board(x) && (i == cp ==> (me.reserved@.contains(x) || x == card_id))
                    && (i != cp ==> op[i].reserved@.contains(x)) by {
                if i == cp {
                    crate::rules::lemma_push_contains(me.reserved@, card_id, x);
                } else {
                    assert(self.players@[i] == op[i]);
                }
            }
            assert forall|i: int| 0 <= i < self.players@.len() implies (#[trigger] self.players@[i]).reserved@.no_duplicates() by {
                if i == cp {
                    let r = self.players@[i].reserved@;
                    assert forall|a: int, b: int| 0 <= a < b < r.len() implies r[a] != r[b] by {
                        if b == me.reserved@.len() {
                            assert(me.reserved@.contains(me.reserved@[a]));
                            assert(r[a] == me.reserved@[a]);
                            assert(old(self).reserved_by_someone(me.reserved@[a])) by {
                                assert(op[cp as int].reserved@.contains(me.reserved@[a]));
                            }
                        } else {
                            assert(r[a] == me.reserved@[a] && r[b] == me.reserved@[b]);
                        }
                    }
                } else {
                    assert(self.players@[i] == op[i]);
                }
            }
            assert forall|t: int, k: int| 0 <= t < 3 && 0 <= k < self.decks@[t]@.len() implies
                #[trigger] self.decks@[t]@[k] == crate::card::card_table(self.decks@[t]@[k].id)
                && !self.on_board(self.decks@[t]@[k].id) && !self.reserved_by_someone(self.decks@[t]@[k].id) by {
                let y = self.decks@[t]@[k].id;
                assert(self.decks@[t]@[k] == old(self).decks@[t]@[k]);
                if self.reserved_by_someone(y) {
                    let i = choose|i: int| 0 <= i < self.players@.len() && (#[trigger] self.players@[i]).reserved@.contains(y);
                    if i == cp {
                        crate::rules::lemma_push_contains(me.reserved@, card_id, y);
                        assert(op[cp as int].reserved@.contains(y));
                    } else {
                        assert(self.players@[i] == op[i]);
                    }
                    assert(old(self).reserved_by_someone(y));
                }
            }
        }
    }

    /// The current player buys `card` with `payment`, which goes to the bank.
    fn buy_for_me(&mut self, card: Card, payment: Gems)
        requires
            old(self).wf_core(),
            card.wf(),
            old(self).me().can_pay_with(card, payment),
        ensures
            final(self).wf_core(),
            final(self).same_frame(old(self)),
            final(self).same_board(old(self)),
            final(self).others_same(old(self)),
            final(self).bank.is_sum(old(self).bank, payment),
            old(self).me().gems.is_sum(final(self).me().gems, payment),
            final(self).me().developments == old(self).me().developments.with(
                card.gem,
                crate::player::bump(old(self).me().developments.count(card.gem)) as i8,
            ),
            final(self).me().points == crate::player::sat_add_u8(old(self).me().points as int, card.points as int),
            final(self).me().noble_points == old(self).me().noble_points,
            final(self).me().reserved@ == crate::player::without(old(self).me().reserved@, card.id),
            final(self).me().blind_reserved@ == crate::player::without(old(self).me().blind_reserved@, card.id),
    {
        proof {
            self.lemma_token_bounds();
        }
        let cp = self.current_player;
        self.players[cp].purchase_card(&card, &payment);
        self.bank = self.bank.plus(&payment);
        proof {
            let ghost op = old(self).players@;
            let ghost me = old(self).me();
            assert(self.players@ == op.update(cp as int, self.players@[cp as int]));
            assert forall|g: Gem| #[trigger]
                self.bank.count(g) + held(self.players@, g) == self.initial_bank().count(g) by {
                lemma_held_update(op, cp as int, self.players@[cp as int], g);
                assert(old(self).bank.count(g) + held(op, g) == old(self).initial_bank().count(g));
            }
            assert(self.players_ok()) by {
                assert forall|i: int| 0 <= i < self.players@.len() implies (#[trigger] self.players@[i]).wf() && forall|j: int|
                    0 <= j < self.players@[i].reserved@.len() ==> (#[trigger] self.players@[i].reserved@[j]) < NUM_CARDS by {
                    assert(op[i].wf());
                    if i == cp {
                        assert forall|j: int| 0 <= j < self.players@[i].reserved@.len() implies (#[trigger] self.players@[i].reserved@[j]) < NUM_CARDS by {
                            let x = self.players@[i].reserved@[j];
                            assert(crate::player::without(me.reserved@, card.id).contains(x));
                            me.reserved@.lemma_filter_contains_rev(crate::player::differs_from(card.id), x);
                        }
                    }
                }
            }
            crate::player::lemma_without_no_dup(me.reserved@, card.id);
            assert forall|i: int, x: CardId| 0 <= i < self.players@.len() && (#[trigger] self.players@[i].reserved@.contains(x))
                implies op[i].reserved@.contains(x) by {
                if i != cp {
                    assert(self.players@[i] == op[i]);
                }
            }
            assert forall|i: int| 0 <= i < self.players@.len() implies (#[trigger] self.players@[i]).reserved@.no_duplicates() by {
                if i != cp {
                    assert(self.players@[i] == op[i]);
                }
            }
            assert forall|t: int, k: int| 0 <= t < 3 && 0 <= k < self.decks@[t]@.len() implies
                #[trigger] self.decks@[t]@[k] == crate::card::card_table(self.decks@[t]@[k].id)
                && !self.on_board(self.decks@[t]@[k].id) && !self.reserved_by_someone(self.decks@[t]@[k].id) by {
                let y = self.decks@[t]@[k].id;
                assert(self.decks@[t]@[k] == old(self).decks@[t]@[k]);
                if self.reserved_by_someone(y) {
                    let i = choose|i: int| 0 <= i < self.players@.len() && (#[trigger] self.players@[i]).reserved@.contains(y);
                    assert(op[i].reserved@.contains(y));
                    assert(old(self).reserved_by_someone(y));
                }
            }
        }
    }

    /// The current player is visited by the noble at `index`.
    fn visit_noble(&mut self, index: usize)
        requires
            old(self).wf_core(),
            index < old(self).nobles@.len(),
        ensures
            final(self).wf_core(),
            final(self).current_player == old(self).current_player,
            final(self).current_phase == old(self).current_phase,
            final(self).history.history@ == old(self).history.history@,
            final(self).deadlock_count == old(self).deadlock_count,
            final(self).same_board(old(self)),
            final(self).others_same(old(self)),
            final(self).bank == old(self).bank,
            final(self).nobles@ == old(self).nobles@.remove(index as int),
            final(self).card_lookup@ == old(self).card_lookup@,
            final(self).me().blind_reserved@ == old(self).me().blind_reserved@,
            final(self).me().gems == old(self).me().gems,
            final(self).me().developments == old(self).me().developments,
            final(self).me().points == crate::player::sat_add_u8(old(self).me().points as int, 3),
            final(self).me().noble_points == crate::player::sat_add_u8(old(self).me().noble_points as int, 3),
            final(self).me().reserved@ == old(self).me().reserved@,
    {
        let cp = self.current_player;
        self.players[cp].add_noble_points();
        let ghost nb = self.nobles@;
        self.nobles.remove(index);
        proof {
            let ghost op = old(self).players@;
            assert(self.players@ == op.update(cp as int, self.players@[cp as int]));
            assert forall|g: Gem| #[trigger]
                self.bank.count(g) + held(self.players@, g) == self.initial_bank().count(g) by {
                lemma_held_update(op, cp as int, self.players@[cp as int], g);
                assert(old(self).bank.count(g) + held(op, g) == old(self).initial_bank().count(g));
            }
            assert(self.players_ok()) by {
                assert forall|i: int| 0 <= i < self.players@.len() implies (#[trigger] self.players@[i]).wf() && forall|j: int|
                    0 <= j < self.players@[i].reserved@.len() ==> (#[trigger] self.players@[i].reserved@[j]) < NUM_CARDS by {
                    assert(op[i].wf());
                }
            }
            assert(self.nobles_ok()) by {
                assert forall|i: int| 0 <= i < self.nobles@.len() implies (#[trigger] self.nobles@[i]).wf() by {
                    if i < index {
                        assert(self.nobles@[i] == nb[i]);
                    } else {
                        assert(self.nobles@[i] == nb[i + 1]);
                    }
                }
            }
        }
    }

    /// The tokens that a taking or reserving action moves from the bank to the player.
    pub open spec fn tokens_taken(&self, a: Action) -> Gems {
        match a {
            Action::TakeDouble(c) => Gems::unit(c).with(c, 2),
            Action::TakeDistinct(s) => s,
            Action::Reserve(_) | Action::ReserveHidden(_) => if self.bank.gold > 0 {
                Gems::unit(Gem::Gold)
            } else {
                Gems::zero()
            },
            _ => Gems::zero(),
        }
    }

    /// The phase that follows `a`, given whether the player now holds more than ten tokens.
    pub open spec fn phase_after(&self, a: Action, over_cap: bool) -> Phase {
        match a {
            Action::TakeDouble(_) | Action::TakeDistinct(_) | Action::Reserve(_) | Action::ReserveHidden(_) =>
                if over_cap {
                Phase::PlayerGemCapExceeded
            } else {
                Phase::NobleAction
            },
            Action::Purchase(_, _) | Action::Discard(_) => Phase::NobleAction,
            Action::AttractNoble(_) => Phase::PlayerActionEnd,
            Action::Pass => if self.current_phase == Phase::PlayerStart {
                Phase::NobleAction
            } else {
                Phase::PlayerActionEnd
            },
            Action::Continue => Phase::PlayerStart,
        }
    }

    /// What playing the legal action `action` from `self` leads to in `new`:
    /// the log, phase, seat and deadlock count move on; the tokens, score,
    /// developments and reserve of the player change by the rules of the action;
    /// the other players are untouched; the board and the nobles change only by
    /// the card or noble the action takes.
    pub open spec fn step_effects(&self, action: Action, new: &Game) -> bool {
        (new.num_players() == self.num_players())
            && (new.history.history@ == self.history.history@.push((self.current_player, action)))
            && (new.current_phase == self.phase_after(
                action,
                new.players@[self.current_player as int].gems.total_spec() > GEM_CAP,
            ))
            && (new.current_player == if action == Action::Continue {
                ((self.current_player + 1) as int % self.num_players()) as usize
            } else {
                self.current_player
            })
            && (new.deadlock_count == match action {
                Action::Pass => self.deadlock_count + 1,
                Action::Continue => self.deadlock_count as int,
                _ => 0,
            })
            && (forall|i: int, g: Gem|
                0 <= i < self.num_players() ==> #[trigger] new.players@[i].developments.count(g)
                    >= self.players@[i].developments.count(g))
            && (forall|i: int|
                0 <= i < self.num_players() && i != self.current_player ==> #[trigger] new.players@[i]
                    == self.players@[i])
            && (match action {
                Action::TakeDouble(_) | Action::TakeDistinct(_) | Action::Reserve(_) | Action::ReserveHidden(_) =>
                    self.bank.is_sum(new.bank, self.tokens_taken(action))
                    && new.players@[self.current_player as int].gems.is_sum(self.me().gems, self.tokens_taken(action)),
                Action::Purchase(_, p) | Action::Discard(p) => new.bank.is_sum(self.bank, p)
                    && self.me().gems.is_sum(new.players@[self.current_player as int].gems, p),
                _ => new.bank == self.bank && new.players@[self.current_player as int].gems == self.me().gems,
            })
            && (action is Discard ==> new.players@[self.current_player as int].gems.total_spec() == GEM_CAP)
            && (forall|c: Gem| #[trigger]
                new.bank.count(c) + held(new.players@, c) == Gems::start_spec(self.num_players()).count(c))
            && (forall|i: int|
                0 <= i < self.num_players() ==> (#[trigger] new.players@[i]).reserved@.len() <= MAX_RESERVED)
            && (new.card_lookup@ == self.card_lookup@)
            && (new.players@[self.current_player as int].points == match action {
                Action::Purchase(id, _) => crate::player::sat_add_u8(self.me().points as int, self.card(id).points as int),
                Action::AttractNoble(_) => crate::player::sat_add_u8(self.me().points as int, 3),
                _ => self.me().points as int,
            })
            && (new.players@[self.current_player as int].noble_points == match action {
                Action::AttractNoble(_) => crate::player::sat_add_u8(self.me().noble_points as int, 3),
                _ => self.me().noble_points as int,
            })
            && (new.players@[self.current_player as int].developments == match action {
                Action::Purchase(id, _) => self.me().developments.with(
                    self.card(id).gem,
                    crate::player::bump(self.me().developments.count(self.card(id).gem)) as i8,
                ),
                _ => self.me().developments,
            })
            && (new.players@[self.current_player as int].reserved@ == match action {
                Action::Reserve(id) => self.me().reserved@.push(id),
                Action::ReserveHidden(t) => self.me().reserved@.push(self.decks@[t as int]@.last().id),
                Action::Purchase(id, _) => crate::player::without(self.me().reserved@, id),
                _ => self.me().reserved@,
            })
            && (new.players@[self.current_player as int].blind_reserved@ == match action {
                Action::ReserveHidden(t) => self.me().blind_reserved@.push(self.decks@[t as int]@.last().id),
                Action::Purchase(id, _) => crate::player::without(self.me().blind_reserved@, id),
                _ => self.me().blind_reserved@,
            })
            && (match action {
                Action::Reserve(id) => self.board_took(new, id),
                Action::Purchase(id, _) => if self.on_board(id) { self.board_took(new, id) } else { new.same_board(self) },
                Action::ReserveHidden(t) => new.dealt_cards@.len() == 3 && (forall|u: int|
                    0 <= u < 3 ==> (#[trigger] new.dealt_cards@[u])@ == self.dealt_cards@[u]@) && new.decks@.len() == 3
                    && new.decks@[t as int]@ == self.decks@[t as int]@.drop_last()
                    && forall|u: int| 0 <= u < 3 && u != t ==> (#[trigger] new.decks@[u])@ == self.decks@[u]@,
                _ => new.same_board(self),
            })
            && (match action {
                Action::AttractNoble(nid) => exists|i: int| 0 <= i < self.nobles@.len() && self.nobles@[i].id == nid
                    && (forall|j: int| 0 <= j < i ==> (#[trigger] self.nobles@[j]).id != nid)
                    && new.nobles@ == self.nobles@.remove(i),
                _ => new.nobles@ == self.nobles@,
            })
    }

    /// `new` is `self` with face-up card `id` taken from its tier and the top of
    /// that tier's deck, if any, dealt in its place.
    pub open spec fn board_took(&self, new: &Game, id: CardId) -> bool {
        new.decks@.len() == 3 && new.dealt_cards@.len() == 3 && exists|t: int, i: int|
            0 <= t < 3 && 0 <= i < self.dealt_cards@[t]@.len() && self.dealt_cards@[t]@[i] == id
                && new.dealt_cards@[t]@ == (if self.decks@[t]@.len() > 0 {
                self.dealt_cards@[t]@.remove(i).push(self.decks@[t]@.last().id)
            } else {
                self.dealt_cards@[t]@.remove(i)
            }) && new.decks@[t]@ == (if self.decks@[t]@.len() > 0 {
                self.decks@[t]@.drop_last()
            } else {
                self.decks@[t]@
            }) && forall|u: int|
                0 <= u < 3 && u != t ==> (#[trigger] new.decks@[u])@ == self.decks@[u]@
                    && new.dealt_cards@[u]@ == self.dealt_cards@[u]@
    }

    /// Taking a card is a statement about decks and face-up cards alone.
    pub proof fn lemma_board_took_frame(a: Game, b: Game, c: Game, d: Game, id: CardId)
        requires
            b.same_board(&a),
            b.board_took(&c, id),
            d.same_board(&c),
            a.decks@.len() == 3,
            a.dealt_cards@.len() == 3,
        ensures
            a.board_took(&d, id),
    {
        let (t, i) = choose|t: int, i: int|
            0 <= t < 3 && 0 <= i < b.dealt_cards@[t]@.len() && b.dealt_cards@[t]@[i] == id
                && c.dealt_cards@[t]@ == (if b.decks@[t]@.len() > 0 {
                b.dealt_cards@[t]@.remove(i).push(b.decks@[t]@.last().id)
            } else {
                b.dealt_cards@[t]@.remove(i)
            }) && c.decks@[t]@ == (if b.decks@[t]@.len() > 0 {
                b.decks@[t]@.drop_last()
            } else {
                b.decks@[t]@
            }) && forall|u: int|
                0 <= u < 3 && u != t ==> (#[trigger] c.decks@[u])@ == b.decks@[u]@
                    && c.dealt_cards@[u]@ == b.dealt_cards@[u]@;
        assert(a.dealt_cards@[t]@ == b.dealt_cards@[t]@);
        assert(a.decks@[t]@ == b.decks@[t]@);
        assert(d.dealt_cards@[t]@ == c.dealt_cards@[t]@);
        assert(d.decks@[t]@ == c.decks@[t]@);
        assert forall|u: int| 0 <= u < 3 && u != t implies (#[trigger] d.decks@[u])@ == a.decks@[u]@
            && d.dealt_cards@[u]@ == a.dealt_cards@[u]@ by {
            assert(c.decks@[u]@ == b.decks@[u]@);
            assert(d.decks@[u]@ == c.decks@[u]@);
            assert(d.dealt_cards@[u]@ == c.dealt_cards@[u]@);
        }
    }

    /// Takes face-up card `id` off the board and deals its replacement.
    fn take_from_board(&mut self, id: CardId)
        requires
            old(self).wf_core(),
            old(self).on_board(id),
        ensures
            final(self).wf_core(),
            final(self).same_frame(old(self)),
            final(self).players@ == old(self).players@,
            final(self).bank == old(self).bank,
            old(self).board_took(final(self), id),
    {
        let ghost before = *self;
        let tier = self.remove_card(id);
        let ghost mid = *self;
        self.deal_to(tier);
        proof {
            let i = choose|i: int|
                0 <= i < before.dealt_cards@[tier as int]@.len() && before.dealt_cards@[tier as int]@[i]
                    == id && mid.dealt_cards@[tier as int]@ == before.dealt_cards@[tier as int]@.remove(i);
            assert(0 <= tier < 3 && 0 <= i < before.dealt_cards@[tier as int]@.len()
                && before.dealt_cards@[tier as int]@[i] == id);
        }
    }

    /// A card taken off the board is then nowhere in play.
    proof fn lemma_taken_card_gone(a: Game, b: Game, id: CardId)
        requires
            a.wf_core(),
            b.wf_core(),
            a.on_board(id),
            a.board_took(&b, id),
            b.players@ == a.players@,
        ensures
            !b.on_board(id),
            !b.reserved_by_someone(id),
            forall|t: int, k: int| 0 <= t < 3 && 0 <= k < b.decks@[t]@.len() ==> (#[trigger] b.decks@[t]@[k]).id != id,
    {
        let (t, i) = choose|t: int, i: int|
            0 <= t < 3 && 0 <= i < a.dealt_cards@[t]@.len() && a.dealt_cards@[t]@[i] == id
                && b.dealt_cards@[t]@ == (if a.decks@[t]@.len() > 0 {
                a.dealt_cards@[t]@.remove(i).push(a.decks@[t]@.last().id)
            } else {
                a.dealt_cards@[t]@.remove(i)
            }) && b.decks@[t]@ == (if a.decks@[t]@.len() > 0 {
                a.decks@[t]@.drop_last()
            } else {
                a.decks@[t]@
            }) && forall|u: int|
                0 <= u < 3 && u != t ==> (#[trigger] b.decks@[u])@ == a.decks@[u]@
                    && b.dealt_cards@[u]@ == a.dealt_cards@[u]@;
        let row = a.dealt_cards@[t]@;
        assert(crate::game::dealt_id_ok(row[i], t));
        assert(!row.remove(i).contains(id)) by {
            if row.remove(i).contains(id) {
                let j = choose|j: int| 0 <= j < row.remove(i).len() && row.remove(i)[j] == id;
                if j < i {
                    assert(row[j] == id);
                } else {
                    assert(row[j + 1] == id);
                }
            }
        }
        if a.decks@[t]@.len() > 0 {
            let top = a.decks@[t]@[a.decks@[t]@.len() - 1];
            assert(!a.on_board(top.id));
            crate::rules::lemma_push_contains(row.remove(i), top.id, id);
        }
        assert forall|u: int| 0 <= u < 3 && u != t implies !(#[trigger] b.dealt_cards@[u])@.contains(id) by {
            if a.dealt_cards@[u]@.contains(id) {
                let j = choose|j: int| 0 <= j < a.dealt_cards@[u]@.len() && a.dealt_cards@[u]@[j] == id;
                assert(crate::game::dealt_id_ok(a.dealt_cards@[u]@[j], u));
            }
        }
        assert(!b.dealt_cards@[t]@.contains(id));
        if b.reserved_by_someone(id) {
            let p = choose|p: int| 0 <= p < b.players@.len() && (#[trigger] b.players@[p]).reserved@.contains(id);
            assert(a.players@[p].reserved@.contains(id));
        }
        assert forall|u: int, k: int| 0 <= u < 3 && 0 <= k < b.decks@[u]@.len() implies (#[trigger] b.decks@[u]@[k]).id != id by {
            if u == t {
                assert(b.decks@[u]@[k] == a.decks@[u]@[k]);
            } else {
                assert(b.decks@[u]@[k] == a.decks@[u]@[k]);
            }
            assert(!a.on_board(a.decks@[u]@[k].id));
        }
    }

    /// The current player reserves face-up card `id`, whose place is refilled
    /// from the deck, and takes a gold token if the bank has one.
    fn reserve_face_up(&mut self, card_id: CardId)
        requires
            old(self).wf_core(),
            old(self).on_board(card_id),
            old(self).me().reserved@.len() < MAX_RESERVED,
        ensures
            final(self).wf_core(),
            final(self).same_frame(old(self)),
            final(self).others_same(old(self)),
            old(self).bank.is_sum(final(self).bank, old(self).tokens_taken(Action::Reserve(card_id))),
            final(self).me().gems.is_sum(old(self).me().gems, old(self).tokens_taken(Action::Reserve(card_id))),
            final(self).me().points == old(self).me().points,
            final(self).me().noble_points == old(self).me().noble_points,
            final(self).me().developments == old(self).me().developments,
            final(self).me().reserved@ == old(self).me().reserved@.push(card_id),
            final(self).me().blind_reserved@ == old(self).me().blind_reserved@,
            old(self).board_took(final(self), card_id),
    {
        let ghost before_take = *self;
        self.take_from_board(card_id);
        let ghost after_take = *self;
        proof {
            Game::lemma_taken_card_gone(before_take, after_take, card_id);
            assert(card_id < NUM_CARDS) by {
                if before_take.dealt_cards@[0]@.contains(card_id) {
                    let j = choose|j: int| 0 <= j < before_take.dealt_cards@[0]@.len() && before_take.dealt_cards@[0]@[j] == card_id;
                    assert(crate::game::dealt_id_ok(before_take.dealt_cards@[0]@[j], 0));
                } else if before_take.dealt_cards@[1]@.contains(card_id) {
                    let j = choose|j: int| 0 <= j < before_take.dealt_cards@[1]@.len() && before_take.dealt_cards@[1]@[j] == card_id;
                    assert(crate::game::dealt_id_ok(before_take.dealt_cards@[1]@[j], 1));
                } else {
                    let j = choose|j: int| 0 <= j < before_take.dealt_cards@[2]@.len() && before_take.dealt_cards@[2]@[j] == card_id;
                    assert(crate::game::dealt_id_ok(before_take.dealt_cards@[2]@[j], 2));
                }
            }
        }
        self.reserve_for_me(card_id, false);
        if self.bank.gold > 0 {
            self.give_tokens(Gems::one(Gem::Gold));
        }
        proof {
            Game::lemma_board_took_frame(before_take, before_take, after_take, *self, card_id);
        }
    }

    /// The current player reserves the top card of a tier's deck, hidden from
    /// the others, and takes a gold token if the bank has one.
    fn reserve_blind(&mut self, tier: usize)
        requires
            old(self).wf_core(),
            tier < 3,
            old(self).decks@[tier as int]@.len() > 0,
            old(self).me().reserved@.len() < MAX_RESERVED,
        ensures
            final(self).wf_core(),
            final(self).same_frame(old(self)),
            final(self).others_same(old(self)),
            old(self).bank.is_sum(final(self).bank, old(self).tokens_taken(Action::ReserveHidden(tier))),
            final(self).me().gems.is_sum(old(self).me().gems, old(self).tokens_taken(Action::ReserveHidden(tier))),
            final(self).me().points == old(self).me().points,
            final(self).me().noble_points == old(self).me().noble_points,
            final(self).me().developments == old(self).me().developments,
            final(self).me().reserved@ == old(self).me().reserved@.push(old(self).decks@[tier as int]@.last().id),
            final(self).me().blind_reserved@ == old(self).me().blind_reserved@.push(old(self).decks@[tier as int]@.last().id),
            final(self).dealt_cards@.len() == 3,
            forall|u: int| 0 <= u < 3 ==> (#[trigger] final(self).dealt_cards@[u])@ == old(self).dealt_cards@[u]@,
            final(self).decks@.len() == 3,
            final(self).decks@[tier as int]@ == old(self).decks@[tier as int]@.drop_last(),
            forall|u: int| 0 <= u < 3 && u != tier ==> (#[trigger] final(self).decks@[u])@ == old(self).decks@[u]@,
    {
        let ghost before = *self;
        let card = self.draw(tier);
        proof {
            let deck = before.decks@[tier as int]@;
            let n = deck.len() - 1;
            assert(card == deck[n]);
            assert forall|t: int, k: int| 0 <= t < 3 && 0 <= k < self.decks@[t]@.len() implies (#[trigger] self.decks@[t]@[k]).id != card.id by {
                assert(self.decks@[t]@[k] == before.decks@[t]@[k]);
                if t == tier && self.decks@[t]@[k].id == card.id {
                    assert(deck[k] == crate::card::card_table(deck[k].id));
                    assert(deck[n] == crate::card::card_table(deck[n].id));
                    assert(deck[k] == deck[n]);
                }
                if t != tier && self.decks@[t]@[k].id == card.id {
                    assert(before.decks@[t]@[k].tier == t + 1);
                    assert(deck[n].tier == tier + 1);
                }
            }
        }
        self.reserve_for_me(card.id(), true);
        if self.bank.gold > 0 {
            self.give_tokens(Gems::one(Gem::Gold));
        }
    }

    /// Plays a legal action, logs it, and moves to the next phase.
    #[verifier::rlimit(50)]
    fn apply_legal(&mut self, action: Action)
        requires
            old(self).wf(),
            old(self).legal_action(action),
        ensures
            final(self).wf(),
            old(self).step_effects(action, final(self)),
    {
        let cp = self.current_player;
        let ghost start = *self;
        proof {
            self.lemma_token_bounds();
        }
        let next_phase = match action {
            Action::TakeDouble(c) => {
                let mut two = Gems::one(c);
                two.set(c, 2);
                self.give_tokens(two);
                if self.players[cp].gems().total() > GEM_CAP {
                    Phase::PlayerGemCapExceeded
                } else {
                    Phase::NobleAction
                }
            },
            Action::TakeDistinct(colors) => {
                self.give_tokens(colors);
                if self.players[cp].gems().total() > GEM_CAP {
                    Phase::PlayerGemCapExceeded
                } else {
                    Phase::NobleAction
                }
            },
            Action::Reserve(card_id) => {
                self.reserve_face_up(card_id);
                if self.players[cp].gems().total() > GEM_CAP {
                    Phase::PlayerGemCapExceeded
                } else {
                    Phase::NobleAction
                }
            },
            Action::ReserveHidden(tier) => {
                self.reserve_blind(tier);
                if self.players[cp].gems().total() > GEM_CAP {
                    Phase::PlayerGemCapExceeded
                } else {
                    Phase::NobleAction
                }
            },
            Action::Purchase(card_id, payment) => {
                let card = self.card_lookup[card_id as usize];
                self.buy_for_me(card, payment);
                if self.has_card(card_id) {
                    let ghost before_take = *self;
                    self.take_from_board(card_id);
                    proof {
                        Game::lemma_board_took_frame(start, before_take, *self, *self, card_id);
                    }
                }
                Phase::NobleAction
            },
            Action::Discard(discards) => {
                self.take_tokens(discards);
                Phase::NobleAction
            },
            Action::AttractNoble(noble_id) => {
                let mut index: usize = 0;
                while index < self.nobles.len() && self.nobles[index].id() != noble_id
                    invariant
                        index <= self.nobles@.len(),
                        exists|j: int| 0 <= j < self.nobles@.len() && (#[trigger] self.nobles@[j]).id == noble_id,
                        forall|j: int| 0 <= j < index ==> (#[trigger] self.nobles@[j]).id != noble_id,
                    decreases self.nobles@.len() - index,
                {
                    index = index + 1;
                }
                proof {
                    if index == self.nobles@.len() {
                        let j = choose|j: int| 0 <= j < self.nobles@.len() && (#[trigger] self.nobles@[j]).id == noble_id;
                        assert(self.nobles@[j].id != noble_id);
                    }
                }
                self.visit_noble(index);
                Phase::PlayerActionEnd
            },
            Action::Continue => {
                self.current_player = (self.current_player + 1) % self.players.len();
                Phase::PlayerStart
            },
            Action::Pass => {
                match self.current_phase {
                    Phase::PlayerStart => Phase::NobleAction,
                    _ => Phase::PlayerActionEnd,
                }
            },
        };
        match action {
            Action::Pass => {
                self.deadlock_count = self.deadlock_count + 1;
            },
            Action::Continue => {},
            _ => {
                self.deadlock_count = 0;
            },
        }
        self.history.add(cp, action);
        self.current_phase = next_phase;
        proof {
            crate::laws::lemma_valid_game_keeps_tokens_and_reserve_cap(*self);
        }
    }

    /// Plays `action` if it is legal now and reports whether it did; an action
    /// that is not legal is refused and leaves the game as it was.
    pub fn play_action(&mut self, action: Action) -> (applied: bool)
        requires
            old(self).wf(),
        ensures
            final(self).wf(),
            applied == old(self).legal_action(action),
            !applied ==> *final(self) == *old(self),
            applied ==> old(self).step_effects(action, final(self)),
    {
        if !self.is_legal_action(action) {
            return false;
        }
        self.apply_legal(action);
        true
    }

    /// Plays the logged actions of `history` in order, for as long as each is
    /// legal, and returns how many were played; the log grows by each of them.
    pub fn advance_history_with(&mut self, history: GameHistory) -> (played: usize)
        requires
            old(self).wf(),
        ensures
            final(self).wf(),
            played <= history.history@.len(),
            final(self).history.history@.len() == old(self).history.history@.len() + played,
            forall|j: int|
                0 <= j < played ==> (#[trigger] final(self).history.history@[old(self).history.history@.len() + j]).1
                    == history.history@[j].1,
            played < history.history@.len() ==> !final(self).legal_action(history.history@[played as int].1),
            crate::laws::runs(*old(self), Seq::new(played as nat, |j: int| history.history@[j].1), *final(self)),
    {
        let ghost base = self.history.history@;
        proof {
            crate::laws::lemma_same_state_refl(*self);
            assert(crate::laws::runs(*self, Seq::new(0, |j: int| history.history@[j].1), *self));
        }
        let mut i: usize = 0;
        while i < history.history.len()
            invariant
                self.wf(),
                base == old(self).history.history@,
                i <= history.history@.len(),
                self.history.history@.len() == base.len() + i,
                self.history.history@.subrange(0, base.len() as int) == base,
                forall|j: int| 0 <= j < i ==> (#[trigger] self.history.history@[base.len() + j]).1
                    == history.history@[j].1,
                crate::laws::runs(*old(self), Seq::new(i as nat, |j: int| history.history@[j].1), *self),
            decreases history.history@.len() - i,
        {
            let action = history.history[i].1;
            if !self.is_legal_action(action) {
                return i;
            }
            let ghost before = self.history.history@;
            let ghost before_state = *self;
            self.apply_legal(action);
            proof {
                let acts = Seq::new((i + 1) as nat, |j: int| history.history@[j].1);
                assert(acts.drop_last() =~= Seq::new(i as nat, |j: int| history.history@[j].1));
                assert(acts.last() == action);
                assert(crate::laws::runs(*old(self), acts.drop_last(), before_state));
                assert(crate::laws::runs(*old(self), acts, *self));
                assert forall|j: int| 0 <= j < i + 1 implies (#[trigger] self.history.history@[base.len() + j]).1
                    == history.history@[j].1 by {
                    if j < i {
                        assert(self.history.history@[base.len() + j] == before[base.len() + j]);
                    }
                }
                assert(self.history.history@.subrange(0, base.len() as int) =~= base) by {
                    assert forall|j: int| 0 <= j < base.len() implies self.history.history@[j] == base[j] by {
                        assert(self.history.history@[j] == before[j]);
                        assert(before.subrange(0, base.len() as int)[j] == before[j]);
                    }
                }
            }
            i = i + 1;
        }
        i
    }

    /// Replaces the nobles on the board by those with the given ids, in order.
    pub fn with_nobles(&mut self, nobles: Vec<crate::nobles::NobleId>)
        requires
            old(self).wf(),
            forall|i: int| 0 <= i < nobles@.len() ==> (#[trigger] nobles@[i]) < crate::nobles::NUM_NOBLES,
        ensures
            final(self).wf(),
            final(self).nobles@.len() == nobles@.len(),
            forall|i: int| 0 <= i < nobles@.len() ==> (#[trigger] final(self).nobles@[i]).id == nobles@[i],
            final(self).same_frame_but_nobles(old(self)),
            final(self).same_board(old(self)),
            final(self).players@ == old(self).players@,
            final(self).bank == old(self).bank,
    {
        let noble_lookup = crate::nobles::Noble::all();
        let mut chosen: Vec<crate::nobles::Noble> = Vec::new();
        let mut i: usize = 0;
        while i < nobles.len()
            invariant
                i <= nobles@.len(),
                noble_lookup@.len() == crate::nobles::NUM_NOBLES,
                forall|j: int| 0 <= j < crate::nobles::NUM_NOBLES ==> (#[trigger] noble_lookup@[j]).id == j && noble_lookup@[j].wf(),
                forall|j: int| 0 <= j < nobles@.len() ==> (#[trigger] nobles@[j]) < crate::nobles::NUM_NOBLES,
                chosen@.len() == i,
                forall|j: int| 0 <= j < i ==> (#[trigger] chosen@[j]).id == nobles@[j] && chosen@[j].wf(),
            decreases nobles@.len() - i,
        {
            chosen.push(noble_lookup[nobles[i] as usize]);
            i = i + 1;
        }
        self.nobles = chosen;
    }

    /// `self` and `o` agree in everything that the nobles do not touch.
    pub open spec fn same_frame_but_nobles(&self, o: &Game) -> bool {
        self.current_player == o.current_player && self.current_phase == o.current_phase
            && self.card_lookup@ == o.card_lookup@ && self.history.history@
            == o.history.history@ && self.deadlock_count == o.deadlock_count
    }

    /// The deck and face-up ids of tier `t` once `initial` is laid face up: the
    /// deck holds every other card of the tier, shuffled.
    fn rebuild_tier(&self, t: usize, initial: &Vec<Card>) -> (r: (Vec<Card>, Vec<CardId>))
        requires
            self.wf(),
            t < 3,
            initial@.len() <= 4,
            initial@.no_duplicates(),
            forall|i: int| 0 <= i < initial@.len() ==> (#[trigger] initial@[i]).wf() && initial@[i].tier == t + 1
                && initial@[i] == crate::card::card_table(initial@[i].id),
        ensures
            r.0@.no_duplicates(),
            forall|i: int| 0 <= i < r.0@.len() ==> (#[trigger] r.0@[i]).wf() && r.0@[i].tier == t + 1
                && r.0@[i] == crate::card::card_table(r.0@[i].id) && !initial@.contains(r.0@[i]),
            forall|id: CardId| id < NUM_CARDS && crate::card::tier_of(id as int) == t + 1
                && !initial@.contains(crate::card::card_table(id)) ==> #[trigger] r.0@.contains(crate::card::card_table(id)),
            r.1@.len() == initial@.len(),
            r.1@.no_duplicates(),
            forall|i: int| 0 <= i < r.1@.len() ==> (#[trigger] r.1@[i]) == initial@[i].id
                && crate::game::dealt_id_ok(r.1@[i], t as int),
    {
        let lookup: &Vec<Card> = &self.card_lookup;
        let mut kept: Vec<Card> = Vec::new();
        let mut j: usize = 0;
        while j < lookup.len()
            invariant
                self.wf(),
                t < 3,
                *lookup == *self.card_lookup,
                j <= lookup@.len(),
                forall|i: int| 0 <= i < initial@.len() ==> (#[trigger] initial@[i]).wf() && initial@[i].tier == t + 1
                    && initial@[i] == crate::card::card_table(initial@[i].id),
                forall|a: int, b: int| 0 <= a < b < kept@.len() ==> kept@[a].id < kept@[b].id,
                forall|m: int| 0 <= m < kept@.len() ==> (#[trigger] kept@[m]).wf() && kept@[m].tier == t + 1
                    && kept@[m].id < j && kept@[m] == crate::card::card_table(kept@[m].id) && !initial@.contains(kept@[m]),
                forall|id: CardId| id < j && crate::card::tier_of(id as int) == t + 1
                    && !initial@.contains(crate::card::card_table(id)) ==> #[trigger] kept@.contains(crate::card::card_table(id)),
            decreases lookup@.len() - j,
        {
            let card = lookup[j];
            proof {
                assert(card == crate::card::card_table(j as u8));
            }
            let ghost before = kept@;
            if card.tier() as usize == t + 1 && !contains_card(initial, card) {
                kept.push(card);
                proof {
                    assert forall|id: CardId| id < j + 1 && crate::card::tier_of(id as int) == t + 1
                        && !initial@.contains(crate::card::card_table(id)) implies #[trigger] kept@.contains(crate::card::card_table(id)) by {
                        crate::rules::lemma_push_contains(before, card, crate::card::card_table(id));
                    }
                }
            } else {
                proof {
                    assert forall|id: CardId| id < j + 1 && crate::card::tier_of(id as int) == t + 1
                        && !initial@.contains(crate::card::card_table(id)) implies #[trigger] kept@.contains(crate::card::card_table(id)) by {
                        if id == j {
                            assert(card.tier == crate::card::tier_of(j as int));
                        }
                    }
                }
            }
            j = j + 1;
        }
        proof {
            assert forall|a: int, b: int| 0 <= a < b < kept@.len() implies kept@[a] != kept@[b] by {
                assert(kept@[a].id < kept@[b].id);
            }
        }
        let ghost ordered = kept@;
        crate::game::shuffle(&mut kept);
        proof {
            crate::game::lemma_shuffled_members(ordered, kept@);
            ordered.lemma_multiset_has_no_duplicates();
            kept@.lemma_multiset_has_no_duplicates_conv();
            ordered.to_multiset_ensures();
            kept@.to_multiset_ensures();
            assert forall|i: int| 0 <= i < kept@.len() implies (#[trigger] kept@[i]).wf() && kept@[i].tier == t + 1
                && kept@[i] == crate::card::card_table(kept@[i].id) && !initial@.contains(kept@[i]) by {
                let k = choose|k: int| 0 <= k < ordered.len() && ordered[k] == kept@[i];
            }
            assert forall|id: CardId| id < NUM_CARDS && crate::card::tier_of(id as int) == t + 1
                && !initial@.contains(crate::card::card_table(id)) implies #[trigger] kept@.contains(crate::card::card_table(id)) by {
                assert(ordered.contains(crate::card::card_table(id)));
                assert(ordered.to_multiset().count(crate::card::card_table(id)) > 0);
            }
        }
        let mut ids: Vec<CardId> = Vec::new();
        let mut k: usize = 0;
        while k < initial.len()
            invariant
                k <= initial@.len(),
                t < 3,
                initial@.no_duplicates(),
                forall|i: int| 0 <= i < initial@.len() ==> (#[trigger] initial@[i]).wf() && initial@[i].tier == t + 1
                    && initial@[i] == crate::card::card_table(initial@[i].id),
                ids@.len() == k,
                forall|i: int| 0 <= i < k ==> (#[trigger] ids@[i]) == initial@[i].id
                    && crate::game::dealt_id_ok(ids@[i], t as int),
            decreases initial@.len() - k,
        {
            ids.push(initial[k].id());
            k = k + 1;
        }
        proof {
            assert forall|a: int, b: int| 0 <= a < b < ids@.len() implies ids@[a] != ids@[b] by {
                if ids@[a] == ids@[b] {
                    assert(initial@[a] == initial@[b]);
                }
            }
        }
        (kept, ids)
    }

    /// Lays the given cards face up, tier by tier, with every other card of each
    /// tier shuffled into its deck. No card may be reserved yet.
    pub fn with_initial_cards(&mut self, initial_cards: Vec<Vec<Card>>)
        requires
            old(self).wf(),
            forall|i: int| 0 <= i < old(self).players@.len() ==> (#[trigger] old(self).players@[i]).reserved@.len() == 0,
            initial_cards@.len() == 3,
            forall|t: int| 0 <= t < 3 ==> (#[trigger] initial_cards@[t])@.len() <= 4 && initial_cards@[t]@.no_duplicates(),
            forall|t: int, i: int|
                0 <= t < 3 && 0 <= i < initial_cards@[t]@.len() ==> (#[trigger] initial_cards@[t]@[i]).wf()
                    && initial_cards@[t]@[i].tier == t + 1
                    && initial_cards@[t]@[i] == crate::card::card_table(initial_cards@[t]@[i].id),
        ensures
            final(self).wf(),
            forall|t: int, i: int|
                0 <= t < 3 && 0 <= i < initial_cards@[t]@.len() ==> (#[trigger] final(self).dealt_cards@[t]@[i])
                    == initial_cards@[t]@[i].id,
            forall|t: int| 0 <= t < 3 ==> (#[trigger] final(self).dealt_cards@[t])@.len() == initial_cards@[t]@.len(),
            final(self).same_frame(old(self)),
            final(self).players@ == old(self).players@,
            final(self).bank == old(self).bank,
    {
        let (d0, i0) = self.rebuild_tier(0, &initial_cards[0]);
        let (d1, i1) = self.rebuild_tier(1, &initial_cards[1]);
        let (d2, i2) = self.rebuild_tier(2, &initial_cards[2]);
        let mut decks: Vec<Vec<Card>> = Vec::new();
        decks.push(d0);
        decks.push(d1);
        decks.push(d2);
        let mut dealt: Vec<Vec<CardId>> = Vec::new();
        dealt.push(i0);
        dealt.push(i1);
        dealt.push(i2);
        self.decks = decks;
        self.dealt_cards = dealt;
        proof {
            assert(self.decks_ok());
            assert(self.dealt_ok());
            assert forall|t: int, k: int| 0 <= t < 3 && 0 <= k < self.decks@[t]@.len() implies
                #[trigger] self.decks@[t]@[k] == crate::card::card_table(self.decks@[t]@[k].id)
                && !self.on_board(self.decks@[t]@[k].id) && !self.reserved_by_someone(self.decks@[t]@[k].id) by {
                let c = self.decks@[t]@[k];
                assert forall|u: int| 0 <= u < 3 implies !(#[trigger] self.dealt_cards@[u])@.contains(c.id) by {
                    if self.dealt_cards@[u]@.contains(c.id) {
                        let m = choose|m: int| 0 <= m < self.dealt_cards@[u]@.len() && self.dealt_cards@[u]@[m] == c.id;
                        assert(crate::game::dealt_id_ok(self.dealt_cards@[u]@[m], u));
                        let x = initial_cards@[u]@[m];
                        assert(x.id == c.id);
                        assert(x == c);
                        assert(initial_cards@[u]@.contains(c));
                    }
                }
                if self.reserved_by_someone(c.id) {
                    let p = choose|p: int| 0 <= p < self.players@.len() && (#[trigger] self.players@[p]).reserved@.contains(c.id);
                }
            }
            assert forall|i: int, x: CardId| 0 <= i < self.players@.len()
                && (#[trigger] self.players@[i].reserved@.contains(x)) implies !self.on_board(x) by {
                assert(self.players@[i].reserved@.len() == 0);
            }
        }
    }
}

/// Whether `card` is one of `cards`.
fn contains_card(cards: &Vec<Card>, card: Card) -> (r: bool)
    ensures
        r == cards@.contains(card),
{
    let mut i: usize = 0;
    while i < cards.len()
        invariant
            i <= cards@.len(),
            forall|j: int| 0 <= j < i ==> cards@[j] != card,
        decreases cards@.len() - i,
    {
        if cards[i] == card {
            proof {
                assert(cards@[i as int] == card);
            }
            return true;
        }
        i = i + 1;
    }
    proof {
        if cards@.contains(card) {
            let j = choose|j: int| 0 <= j < cards@.len() && cards@[j] == card;
            assert(cards@[j] != card);
        }
    }
    false
}

} // verus!
