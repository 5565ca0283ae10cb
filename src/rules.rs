use crate::action::{Action, Phase};
use crate::card::{Card, CardId, NUM_CARDS};
use crate::game::{lookup_ok, Game};
use crate::gem::Gem;
use crate::gems::Gems;
use crate::nobles::meets;
use crate::player::{Player, MAX_RESERVED};
use vstd::prelude::*;

verus! {

/// `s` is a legal choice of distinct colours from `bank`: one token each of
/// card colours whose piles are non-empty, three of them, or as many as there
/// are non-empty piles when that is fewer.
pub open spec fn take_distinct_ok(bank: Gems, s: Gems) -> bool {
    s.gold == 0 && (s.onyx == 0 || (s.onyx == 1 && bank.onyx >= 1)) && (s.sapphire == 0 || (
    s.sapphire == 1 && bank.sapphire >= 1)) && (s.emerald == 0 || (s.emerald == 1 && bank.emerald
        >= 1)) && (s.ruby == 0 || (s.ruby == 1 && bank.ruby >= 1)) && (s.diamond == 0 || (s.diamond
        == 1 && bank.diamond >= 1)) && s.total_spec() >= 1 && s.total_spec() == (if bank.distinct_spec()
        < 3 {
        bank.distinct_spec()
    } else {
        3
    })
}

/// A discard of `n` tokens out of `gems`, taken colour by colour in canonical order.
pub open spec fn least_discard(gems: Gems, n: int) -> Gems {
    let o = if gems.onyx <= n { gems.onyx as int } else { n };
    let s = if gems.sapphire <= n - o { gems.sapphire as int } else { n - o };
    let e = if gems.emerald <= n - o - s { gems.emerald as int } else { n - o - s };
    let r = if gems.ruby <= n - o - s - e { gems.ruby as int } else { n - o - s - e };
    let d = if gems.diamond <= n - o - s - e - r { gems.diamond as int } else { n - o - s - e - r };
    let g = if gems.gold <= n - o - s - e - r - d { gems.gold as int } else { n - o - s - e - r - d };
    Gems { onyx: o as i8, sapphire: s as i8, emerald: e as i8, ruby: r as i8, diamond: d as i8, gold: g as i8 }
}

/// `d` takes a player holding `gems` down to exactly ten tokens.
pub open spec fn discard_ok(gems: Gems, d: Gems) -> bool {
    d.is_legal() && d.le(gems) && d.total_spec() == gems.total_spec() - 10
}

impl Game {
    /// The card with id `id`.
    pub open spec fn card(&self, id: CardId) -> Card {
        self.card_lookup@[id as int]
    }


    /// `a` is one of the moves open at the start of a turn.
    pub open spec fn legal_in_start(&self, a: Action) -> bool {
        let me = self.me();
        match a {
            Action::TakeDouble(c) => c != Gem::Gold && self.bank.count(c) >= 4,
            Action::TakeDistinct(s) => take_distinct_ok(self.bank, s),
            Action::Reserve(id) => me.reserved@.len() < MAX_RESERVED && self.on_board(id),
            Action::ReserveHidden(t) => me.reserved@.len() < MAX_RESERVED && t < 3
                && self.decks@[t as int]@.len() > 0,
            Action::Purchase(id, p) => id < NUM_CARDS && (self.on_board(id)
                || me.reserved@.contains(id)) && me.can_pay_with(self.card(id), p),
            _ => false,
        }
    }

    /// Some noble on the board would visit the current player.
    pub open spec fn noble_available(&self) -> bool {
        exists|i: int|
            0 <= i < self.nobles@.len() && meets(
                self.me().developments,
                (#[trigger] self.nobles@[i]).requirements,
            )
    }

    /// `a` may be played now.
    pub open spec fn legal_action(&self, a: Action) -> bool {
        !self.over() && match self.current_phase {
            Phase::PlayerStart => self.legal_in_start(a) || (a == Action::Pass && !exists|b: Action|
                #[trigger] self.legal_in_start(b)),
            Phase::PlayerGemCapExceeded => match a {
                Action::Discard(d) => discard_ok(self.me().gems, d),
                _ => false,
            },
            Phase::NobleAction => match a {
                Action::AttractNoble(nid) => exists|i: int|
                    0 <= i < self.nobles@.len() && (#[trigger] self.nobles@[i]).id == nid && meets(
                        self.me().developments,
                        self.nobles@[i].requirements,
                    ),
                Action::Pass => !self.noble_available(),
                _ => false,
            },
            Phase::PlayerActionEnd => a == Action::Continue,
        }
    }
}

/// `a` reserves one of `ids`.
pub open spec fn reserves_one_of(a: Action, ids: Seq<CardId>) -> bool {
    match a {
        Action::Reserve(id) => ids.contains(id),
        _ => false,
    }
}

/// `a` buys one of `ids` with a payment that `player` can make.
pub open spec fn buys_one_of(a: Action, ids: Seq<CardId>, player: Player, lookup: Seq<Card>) -> bool {
    match a {
        Action::Purchase(id, p) => ids.contains(id) && id < NUM_CARDS && player.can_pay_with(
            lookup[id as int],
            p,
        ),
        _ => false,
    }
}

/// What a sequence holds after a push.
pub proof fn lemma_push_contains<T>(s: Seq<T>, x: T, a: T)
    ensures
        s.push(x).contains(a) <==> s.contains(a) || a == x,
{
    if s.contains(a) {
        let j = choose|j: int| 0 <= j < s.len() && s[j] == a;
        assert(s.push(x)[j] == a);
    }
    if a == x {
        assert(s.push(x)[s.len() as int] == a);
    }
    if s.push(x).contains(a) && a != x {
        let j = choose|j: int| 0 <= j < s.len() + 1 && s.push(x)[j] == a;
        assert(s[j] == a);
    }
}

/// `p` is among the first `k` items of `s`.
pub open spec fn among(s: Seq<Gems>, k: int, p: Gems) -> bool {
    exists|j: int| 0 <= j < k && #[trigger] s[j] == p
}

/// `a` buys card `id` with a payment that `player` can make.
pub open spec fn buys_card(a: Action, id: CardId, player: Player, lookup: Seq<Card>) -> bool {
    match a {
        Action::Purchase(x, p) => x == id && id < NUM_CARDS && player.can_pay_with(lookup[id as int], p),
        _ => false,
    }
}

/// Appends `Reserve(id)` for each of `ids`.
fn append_reserves(out: &mut Vec<Action>, ids: &Vec<CardId>)
    ensures
        forall|a: Action| #[trigger]
            final(out)@.contains(a) <==> old(out)@.contains(a) || reserves_one_of(a, ids@),
{
    let mut i: usize = 0;
    while i < ids.len()
        invariant
            i <= ids@.len(),
            forall|a: Action| #[trigger]
                out@.contains(a) <==> old(out)@.contains(a) || reserves_one_of(
                    a,
                    ids@.subrange(0, i as int),
                ),
        decreases ids@.len() - i,
    {
        let ghost before = out@;
        out.push(Action::Reserve(ids[i]));
        proof {
            assert forall|a: Action| #[trigger]
                out@.contains(a) <==> old(out)@.contains(a) || reserves_one_of(
                    a,
                    ids@.subrange(0, i + 1),
                ) by {
                assert(ids@.subrange(0, i + 1) =~= ids@.subrange(0, i as int).push(ids@[i as int]));
                assert(out@ == before.push(Action::Reserve(ids@[i as int])));
                lemma_push_contains(before, Action::Reserve(ids@[i as int]), a);
                match a {
                    Action::Reserve(x) => {
                        lemma_push_contains(ids@.subrange(0, i as int), ids@[i as int], x);
                    },
                    _ => {},
                }
            }
        }
        i = i + 1;
    }
    assert(ids@.subrange(0, i as int) =~= ids@);
}

/// Appends `Purchase(id, p)` for each of `ids` and each way `player` can pay for it.
fn append_purchases(out: &mut Vec<Action>, ids: &Vec<CardId>, player: &Player, lookup: &Vec<Card>)
    requires
        player.wf(),
        lookup_ok(lookup@),
    ensures
        forall|a: Action| #[trigger]
            final(out)@.contains(a) <==> old(out)@.contains(a) || buys_one_of(a, ids@, *player, lookup@),
{
    let mut i: usize = 0;
    while i < ids.len()
        invariant
            i <= ids@.len(),
            player.wf(),
            lookup_ok(lookup@),
            forall|a: Action| #[trigger]
                out@.contains(a) <==> old(out)@.contains(a) || buys_one_of(
                    a,
                    ids@.subrange(0, i as int),
                    *player,
                    lookup@,
                ),
        decreases ids@.len() - i,
    {
        let id = ids[i];
        proof {
            assert(ids@.subrange(0, i + 1) =~= ids@.subrange(0, i as int).push(id));
        }
        let ghost at_start = out@;
        if (id as usize) < lookup.len() {
            let card = lookup[id as usize];
            match player.payment_options_for(&card) {
                Some(payments) => {
                    let ghost mid = out@;
                    let mut k: usize = 0;
                    while k < payments.len()
                        invariant
                            k <= payments@.len(),
                            i < ids@.len(),
                            id == ids@[i as int],
                            (id as int) < NUM_CARDS,
                            card == lookup@[id as int],
                            forall|a: Action| #[trigger]
                                out@.contains(a) <==> mid.contains(a) || (match a {
                                    Action::Purchase(x, p) => x == id && among(payments@, k as int, p),
                                    _ => false,
                                }),
                        decreases payments@.len() - k,
                    {
                        let ghost before = out@;
                        out.push(Action::Purchase(id, payments[k]));
                        proof {
                            assert forall|a: Action| #[trigger]
                                out@.contains(a) <==> mid.contains(a) || (match a {
                                    Action::Purchase(x, p) => x == id && among(payments@, k + 1, p),
                                    _ => false,
                                }) by {
                                if out@.contains(a) && !before.contains(a) {
                                    let j = choose|j: int| 0 <= j < out@.len() && out@[j] == a;
                                    assert(j == before.len());
                                }
                                if before.contains(a) {
                                    let j = choose|j: int| 0 <= j < before.len() && before[j] == a;
                                    assert(out@[j] == a);
                                }
                                assert(out@[before.len() as int] == Action::Purchase(id, payments@[k as int]));
                                match a {
                                    Action::Purchase(x, p) => {
                                        if x == id && p == payments@[k as int] {
                                            assert(among(payments@, k + 1, p));
                                        }
                                        if among(payments@, k + 1, p) && !among(payments@, k as int, p) {
                                            let j = choose|j: int| 0 <= j < k + 1 && #[trigger] payments@[j] == p;
                                            assert(j == k);
                                        }
                                        if among(payments@, k as int, p) {
                                            let j = choose|j: int| 0 <= j < k && #[trigger] payments@[j] == p;
                                            assert(among(payments@, k + 1, p));
                                        }
                                    },
                                    _ => {},
                                }
                            }
                        }
                        k = k + 1;
                    }
                    proof {
                        assert forall|p: Gems| among(payments@, k as int, p) <==> #[trigger] payments@.contains(p) by {
                            if payments@.contains(p) {
                                let j = choose|j: int| 0 <= j < payments@.len() && payments@[j] == p;
                                assert(among(payments@, k as int, p));
                            }
                        }
                        assert forall|a: Action| #[trigger]
                            out@.contains(a) <==> at_start.contains(a) || buys_card(a, id, *player, lookup@) by {
                            match a {
                                Action::Purchase(x, p) => {
                                    if x == id {
                                        assert(payments@.contains(p) <==> player.can_pay_with(card, p));
                                    }
                                },
                                _ => {},
                            }
                        }
                    }
                },
                None => {
                    proof {
                        assert forall|a: Action| #[trigger]
                            out@.contains(a) <==> at_start.contains(a) || buys_card(a, id, *player, lookup@) by {
                            match a {
                                Action::Purchase(x, p) => {
                                    if x == id {
                                        assert(!player.can_pay_with(card, p));
                                    }
                                },
                                _ => {},
                            }
                        }
                    }
                },
            }
        }
        proof {
            assert forall|a: Action| #[trigger]
                out@.contains(a) <==> at_start.contains(a) || buys_card(a, id, *player, lookup@) by {}
            assert forall|a: Action| #[trigger]
                out@.contains(a) <==> old(out)@.contains(a) || buys_one_of(
                    a,
                    ids@.subrange(0, i + 1),
                    *player,
                    lookup@,
                ) by {
                match a {
                    Action::Purchase(x, p) => {
                        lemma_push_contains(ids@.subrange(0, i as int), id, x);
                    },
                    _ => {},
                }
            }
        }
        i = i + 1;
    }
    assert(ids@.subrange(0, i as int) =~= ids@);
}

/// The actions of `actions`, each once, in order of first appearance.
pub fn without_repeats(actions: &Vec<Action>) -> (r: Vec<Action>)
    ensures
        r@.no_duplicates(),
        forall|a: Action| #[trigger] r@.contains(a) <==> actions@.contains(a),
{
    let mut out: Vec<Action> = Vec::new();
    let mut i: usize = 0;
    while i < actions.len()
        invariant
            i <= actions@.len(),
            out@.no_duplicates(),
            forall|a: Action| #[trigger] out@.contains(a) <==> actions@.subrange(0, i as int).contains(a),
        decreases actions@.len() - i,
    {
        let a = actions[i];
        proof {
            assert(actions@.subrange(0, i + 1) =~= actions@.subrange(0, i as int).push(a));
            assert forall|x: Action| #[trigger] actions@.subrange(0, i + 1).contains(x) <==> actions@.subrange(0, i as int).contains(x) || x == a by {
                lemma_push_contains(actions@.subrange(0, i as int), a, x);
            }
        }
        let mut seen = false;
        let mut k: usize = 0;
        while k < out.len()
            invariant
                k <= out@.len(),
                seen <==> exists|j: int| 0 <= j < k && out@[j] == a,
            decreases out@.len() - k,
        {
            if out[k] == a {
                seen = true;
            }
            k = k + 1;
        }
        if !seen {
            let ghost before = out@;
            push_action(&mut out, a);
            proof {
                assert forall|p: int, q: int| 0 <= p < q < out@.len() implies out@[p] != out@[q] by {
                    if q == before.len() {
                        assert(out@[p] == before[p]);
                    }
                }
            }
        }
        i = i + 1;
    }
    assert(actions@.subrange(0, i as int) =~= actions@);
    out
}

/// Appends one action.
fn push_action(out: &mut Vec<Action>, a: Action)
    ensures
        final(out)@ == old(out)@.push(a),
        forall|x: Action| #[trigger] final(out)@.contains(x) <==> old(out)@.contains(x) || x == a,
{
    out.push(a);
    proof {
        assert forall|x: Action| #[trigger] out@.contains(x) <==> old(out)@.contains(x) || x == a by {
            lemma_push_contains(old(out)@, a, x);
        }
    }
}

/// `a` wraps one of `xs`: as `TakeDistinct` when `discard` is false, as `Discard` otherwise.
pub open spec fn wraps_one_of(a: Action, xs: Seq<Gems>, discard: bool) -> bool {
    match a {
        Action::TakeDistinct(x) => !discard && xs.contains(x),
        Action::Discard(x) => discard && xs.contains(x),
        _ => false,
    }
}

/// Appends `TakeDistinct(x)` (or `Discard(x)` when `discard`) for each of `xs`.
fn append_wrapped(out: &mut Vec<Action>, xs: &Vec<Gems>, discard: bool)
    ensures
        forall|a: Action| #[trigger]
            final(out)@.contains(a) <==> old(out)@.contains(a) || wraps_one_of(a, xs@, discard),
{
    let mut i: usize = 0;
    while i < xs.len()
        invariant
            i <= xs@.len(),
            forall|a: Action| #[trigger]
                out@.contains(a) <==> old(out)@.contains(a) || wraps_one_of(
                    a,
                    xs@.subrange(0, i as int),
                    discard,
                ),
        decreases xs@.len() - i,
    {
        let ghost before = out@;
        let x = xs[i];
        if discard {
            push_action(out, Action::Discard(x));
        } else {
            push_action(out, Action::TakeDistinct(x));
        }
        proof {
            assert(xs@.subrange(0, i + 1) =~= xs@.subrange(0, i as int).push(x));
            assert forall|a: Action| #[trigger]
                out@.contains(a) <==> old(out)@.contains(a) || wraps_one_of(
                    a,
                    xs@.subrange(0, i + 1),
                    discard,
                ) by {
                match a {
                    Action::TakeDistinct(y) => {
                        lemma_push_contains(xs@.subrange(0, i as int), x, y);
                    },
                    Action::Discard(y) => {
                        lemma_push_contains(xs@.subrange(0, i as int), x, y);
                    },
                    _ => {},
                }
            }
        }
        i = i + 1;
    }
    assert(xs@.subrange(0, i as int) =~= xs@);
}

impl Game {
    /// `a` reserves a card, face up or from a deck, while the player has room.
    pub open spec fn reserve_move(&self, a: Action) -> bool {
        self.me().reserved@.len() < MAX_RESERVED && match a {
            Action::ReserveHidden(t) => t < 3 && self.decks@[t as int]@.len() > 0,
            Action::Reserve(id) => self.on_board(id),
            _ => false,
        }
    }

    /// `a` buys a face-up or reserved card with a payment the player can make.
    pub open spec fn purchase_move(&self, a: Action) -> bool {
        match a {
            Action::Purchase(id, p) => id < NUM_CARDS && (self.on_board(id)
                || self.me().reserved@.contains(id)) && self.me().can_pay_with(self.card(id), p),
            _ => false,
        }
    }

    /// Every move open at the start of the current player's turn.
    pub fn start_actions(&self) -> (r: Vec<Action>)
        requires
            self.wf(),
        ensures
            forall|a: Action| #[trigger] r@.contains(a) <==> self.legal_in_start(a),
    {
        let mut actions: Vec<Action> = Vec::new();
        let player = &self.players[self.current_player];
        let ghost me = self.me();
        if player.num_reserved_cards() < MAX_RESERVED {
            if self.decks[0].len() > 0 {
                push_action(&mut actions, Action::ReserveHidden(0));
            }
            append_reserves(&mut actions, &self.dealt_cards[0]);
            if self.decks[1].len() > 0 {
                push_action(&mut actions, Action::ReserveHidden(1));
            }
            append_reserves(&mut actions, &self.dealt_cards[1]);
            if self.decks[2].len() > 0 {
                push_action(&mut actions, Action::ReserveHidden(2));
            }
            append_reserves(&mut actions, &self.dealt_cards[2]);
        }
        proof {
            assert forall|a: Action| #[trigger] actions@.contains(a) <==> self.reserve_move(a) by {
                match a {
                    Action::ReserveHidden(t) => {
                        if self.reserve_move(a) {
                            assert(t == 0 || t == 1 || t == 2);
                        }
                    },
                    _ => {},
                }
            }
        }
        let ghost after_reserves = actions@;
        let lookup: &Vec<Card> = &self.card_lookup;
        append_purchases(&mut actions, &self.dealt_cards[0], player, lookup);
        append_purchases(&mut actions, &self.dealt_cards[1], player, lookup);
        append_purchases(&mut actions, &self.dealt_cards[2], player, lookup);
        append_purchases(&mut actions, &player.reserved, player, lookup);
        proof {
            assert forall|a: Action| #[trigger]
                actions@.contains(a) <==> self.reserve_move(a) || self.purchase_move(a) by {
                match a {
                    Action::Purchase(id, p) => {},
                    _ => {},
                }
            }
        }
        let distinct_tokens = self.bank.distinct();
        let take_max: u32 = if distinct_tokens < 3 { distinct_tokens as u32 } else { 3 };
        proof {
            self.lemma_token_bounds();
        }
        if take_max > 0 {
            let mut bank = self.bank;
            let mut running = Gems::empty();
            let choices = crate::action::choose_distinct_gems(&mut bank, &mut running, take_max);
            append_wrapped(&mut actions, &choices, false);
            proof {
                assert forall|x: Gems| #[trigger] choices@.contains(x) <==> take_distinct_ok(self.bank, x) by {}
            }
        }
        proof {
            assert forall|a: Action| #[trigger]
                actions@.contains(a) <==> self.reserve_move(a) || self.purchase_move(a) || match a {
                    Action::TakeDistinct(x) => take_distinct_ok(self.bank, x),
                    _ => false,
                } by {
                match a {
                    Action::TakeDistinct(x) => {},
                    _ => {},
                }
            }
        }
        if self.bank.onyx >= 4 {
            push_action(&mut actions, Action::TakeDouble(Gem::Onyx));
        }
        if self.bank.sapphire >= 4 {
            push_action(&mut actions, Action::TakeDouble(Gem::Sapphire));
        }
        if self.bank.emerald >= 4 {
            push_action(&mut actions, Action::TakeDouble(Gem::Emerald));
        }
        if self.bank.ruby >= 4 {
            push_action(&mut actions, Action::TakeDouble(Gem::Ruby));
        }
        if self.bank.diamond >= 4 {
            push_action(&mut actions, Action::TakeDouble(Gem::Diamond));
        }
        proof {
            assert forall|a: Action| #[trigger] actions@.contains(a) <==> self.legal_in_start(a) by {
                match a {
                    Action::TakeDouble(c) => {},
                    Action::TakeDistinct(x) => {},
                    Action::Reserve(id) => {},
                    Action::ReserveHidden(t) => {},
                    Action::Purchase(id, p) => {},
                    _ => {},
                }
            }
        }
        actions
    }

    /// Whether some player has reached the winning score.
    fn any_winner_points(&self) -> (r: bool)
        ensures
            r == self.someone_won(),
    {
        let mut i: usize = 0;
        while i < self.players.len()
            invariant
                i <= self.players@.len(),
                forall|j: int| 0 <= j < i ==> (#[trigger] self.players@[j]).points < crate::game::WINNING_POINTS,
            decreases self.players@.len() - i,
        {
            if self.players[i].total_points() >= crate::game::WINNING_POINTS {
                return true;
            }
            i = i + 1;
        }
        false
    }

    /// Every action that may be played now, or `None` once the game is over.
    pub fn get_legal_actions(&self) -> (r: Option<Vec<Action>>)
        requires
            self.wf(),
        ensures
            r.is_none() <==> self.over(),
            r.is_some() ==> forall|a: Action| #[trigger]
                r.unwrap()@.contains(a) <==> self.legal_action(a),
            r.is_some() ==> r.unwrap()@.len() > 0,
            r.is_some() ==> r.unwrap()@.no_duplicates(),
    {
        match self.collect_legal_actions() {
            None => None,
            Some(actions) => {
                let unique = without_repeats(&actions);
                proof {
                    assert(actions@.contains(actions@[0]));
                    assert(unique@.contains(actions@[0]));
                }
                Some(unique)
            },
        }
    }

    /// Every action that may be played now, or `None` once the game is over;
    /// the list may repeat an action.
    fn collect_legal_actions(&self) -> (r: Option<Vec<Action>>)
        requires
            self.wf(),
        ensures
            r.is_none() <==> self.over(),
            r.is_some() ==> forall|a: Action| #[trigger]
                r.unwrap()@.contains(a) <==> self.legal_action(a),
            r.is_some() ==> r.unwrap()@.len() > 0,
    {
        if self.deadlock_count as usize == 2 * self.players.len() {
            return None;
        }
        match self.current_phase {
            Phase::NobleAction => {
                let mut nobles: Vec<Action> = Vec::new();
                let player = &self.players[self.current_player];
                let mut i: usize = 0;
                while i < self.nobles.len()
                    invariant
                        i <= self.nobles@.len(),
                        *player == self.me(),
                        forall|a: Action| #[trigger] nobles@.contains(a) <==> match a {
                            Action::AttractNoble(nid) => exists|j: int|
                                0 <= j < i && (#[trigger] self.nobles@[j]).id == nid && meets(
                                    self.me().developments,
                                    self.nobles@[j].requirements,
                                ),
                            _ => false,
                        },
                    decreases self.nobles@.len() - i,
                {
                    let ghost before = nobles@;
                    if self.nobles[i].is_attracted_to(player.developments()) {
                        push_action(&mut nobles, Action::AttractNoble(self.nobles[i].id()));
                    }
                    proof {
                        assert forall|a: Action| #[trigger] nobles@.contains(a) <==> match a {
                            Action::AttractNoble(nid) => exists|j: int|
                                0 <= j < i + 1 && (#[trigger] self.nobles@[j]).id == nid && meets(
                                    self.me().developments,
                                    self.nobles@[j].requirements,
                                ),
                            _ => false,
                        } by {
                            match a {
                                Action::AttractNoble(nid) => {
                                    if exists|j: int|
                                        0 <= j < i + 1 && (#[trigger] self.nobles@[j]).id == nid && meets(
                                            self.me().developments,
                                            self.nobles@[j].requirements,
                                        ) {
                                        let j = choose|j: int|
                                            0 <= j < i + 1 && (#[trigger] self.nobles@[j]).id == nid && meets(
                                                self.me().developments,
                                                self.nobles@[j].requirements,
                                            );
                                        if j < i {
                                            assert(before.contains(a));
                                        }
                                    }
                                },
                                _ => {},
                            }
                        }
                    }
                    i = i + 1;
                }
                if nobles.len() == 0 {
                    proof {
                        assert forall|j: int| 0 <= j < self.nobles@.len() implies !meets(
                            self.me().developments,
                            (#[trigger] self.nobles@[j]).requirements,
                        ) by {
                            let a = Action::AttractNoble(self.nobles@[j].id);
                            if meets(self.me().developments, self.nobles@[j].requirements) {
                                assert(nobles@.contains(a));
                            }
                        }
                    }
                    let mut pass: Vec<Action> = Vec::new();
                    push_action(&mut pass, Action::Pass);
                    proof {
                        assert forall|a: Action| #[trigger] pass@.contains(a) <==> self.legal_action(a) by {
                            lemma_push_contains(Seq::<Action>::empty(), Action::Pass, a);
                        }
                    }
                    Some(pass)
                } else {
                    proof {
                        let a0 = nobles@[0];
                        assert(nobles@.contains(a0));
                        assert(self.noble_available());
                    }
                    Some(nobles)
                }
            },
            Phase::PlayerActionEnd => {
                if self.current_player == self.players.len() - 1 && self.any_winner_points() {
                    None
                } else {
                    let mut cont: Vec<Action> = Vec::new();
                    push_action(&mut cont, Action::Continue);
                    proof {
                        assert forall|a: Action| #[trigger] cont@.contains(a) <==> self.legal_action(a) by {
                            lemma_push_contains(Seq::<Action>::empty(), Action::Continue, a);
                        }
                    }
                    Some(cont)
                }
            },
            Phase::PlayerGemCapExceeded => {
                let player = &self.players[self.current_player];
                proof {
                    self.lemma_token_bounds();
                    assert(player.wf());
                }
                let mut gems = player.gems;
                let mut running = Gems::empty();
                let total = player.gems.total();
                let discard_num: u32 = if total > crate::game::GEM_CAP { total - crate::game::GEM_CAP } else { 0 };
                let choices = crate::action::choose_gems(&mut gems, &mut running, discard_num);
                let mut discards: Vec<Action> = Vec::new();
                append_wrapped(&mut discards, &choices, true);
                proof {
                    let w = least_discard(player.gems, discard_num as int);
                    assert(discard_ok(player.gems, w));
                    assert(crate::action::is_choice(player.gems, Gems::zero(), discard_num as int, w)) by {
                        assert(player.gems.is_sum(Gems::zero(), player.gems));
                    }
                    assert(discards@.contains(Action::Discard(w)));
                }
                proof {
                    assert forall|a: Action| #[trigger] discards@.contains(a) <==> self.legal_action(a) by {
                        match a {
                            Action::Discard(d) => {
                                let top = player.gems;
                                assert(top.is_sum(Gems::zero(), player.gems));
                                if discard_ok(player.gems, d) {
                                    assert(crate::action::is_choice(player.gems, Gems::zero(), discard_num as int, d));
                                }
                                if choices@.contains(d) {
                                    assert(crate::action::is_choice(player.gems, Gems::zero(), discard_num as int, d));
                                    let t = choose|t: Gems| t.is_sum(Gems::zero(), player.gems) && crate::selection::box_member(Gems::zero(), t, discard_num as int, d);
                                    assert(t == player.gems);
                                }
                            },
                            _ => {},
                        }
                    }
                }
                Some(discards)
            },
            Phase::PlayerStart => {
                let actions = self.start_actions();
                if actions.len() == 0 {
                    proof {
                        assert forall|b: Action| !self.legal_in_start(b) by {
                            if self.legal_in_start(b) {
                                assert(actions@.contains(b));
                            }
                        }
                    }
                    let mut pass: Vec<Action> = Vec::new();
                    push_action(&mut pass, Action::Pass);
                    proof {
                        assert forall|a: Action| #[trigger] pass@.contains(a) <==> self.legal_action(a) by {
                            lemma_push_contains(Seq::<Action>::empty(), Action::Pass, a);
                        }
                    }
                    Some(pass)
                } else {
                    proof {
                        let a0 = actions@[0];
                        assert(actions@.contains(a0));
                        assert(self.legal_in_start(a0));
                    }
                    Some(actions)
                }
            },
        }
    }

    /// The game has ended: no action is left.
    pub fn game_over(&self) -> (r: bool)
        requires
            self.wf(),
        ensures
            r == self.over(),
    {
        self.get_legal_actions().is_none()
    }

    /// Whether `action` may be played now.
    pub fn is_legal_action(&self, action: Action) -> (r: bool)
        requires
            self.wf(),
        ensures
            r == self.legal_action(action),
    {
        let r = self.get_legal_actions();
        if r.is_none() {
            return false;
        }
        let actions = r.unwrap();
        {
            {
                let mut i: usize = 0;
                while i < actions.len()
                    invariant
                        i <= actions@.len(),
                        forall|j: int| 0 <= j < i ==> actions@[j] != action,
                        forall|a: Action| #[trigger] actions@.contains(a) <==> self.legal_action(a),
                    decreases actions@.len() - i,
                {
                    if actions[i] == action {
                        proof {
                            assert(actions@[i as int] == action);
                            assert(actions@.contains(action));
                        }
                        return true;
                    }
                    i = i + 1;
                }
                proof {
                    if actions@.contains(action) {
                        let j = choose|j: int| 0 <= j < actions@.len() && actions@[j] == action;
                        assert(actions@[j] != action);
                    }
                }
                false
            }
        }
    }

    /// Whether the current phase accepts an action of this kind.
    pub fn is_phase_correct_for(&self, action: Action) -> (r: bool)
        ensures
            r == phase_accepts(self.current_phase, action),
    {
        match self.current_phase {
            Phase::PlayerStart => match action {
                Action::TakeDouble(_) => true,
                Action::TakeDistinct(_) => true,
                Action::Reserve(_) => true,
                Action::ReserveHidden(_) => true,
                Action::Purchase(_, _) => true,
                Action::Pass => true,
                _ => false,
            },
            Phase::PlayerGemCapExceeded => match action {
                Action::Discard(_) => true,
                _ => false,
            },
            Phase::NobleAction => match action {
                Action::AttractNoble(_) => true,
                Action::Pass => true,
                _ => false,
            },
            Phase::PlayerActionEnd => match action {
                Action::Continue => true,
                _ => false,
            },
        }
    }

    /// Seat `i` wins: it has reached the winning score, and every other seat has
    /// fewer points, or as many points and more developments.
    pub open spec fn wins(&self, i: int) -> bool {
        0 <= i < self.num_players() && self.players@[i].points >= crate::game::WINNING_POINTS
            && forall|j: int|
            0 <= j < self.num_players() && j != i ==> (#[trigger] self.players@[j]).points
                < self.players@[i].points || (self.players@[j].points == self.players@[i].points
                && self.players@[j].developments.total_spec()
                > self.players@[i].developments.total_spec())
    }

    /// The winner of a finished game: the player with the most points, fewest
    /// developments breaking a tie; nobody on a remaining tie, on a deadlock, or
    /// when nobody reached the winning score.
    pub fn get_winner(&self) -> (r: Option<usize>)
        requires
            self.wf(),
        ensures
            r.is_some() ==> !self.deadlocked() && self.wins(r.unwrap() as int),
            r.is_none() ==> self.deadlocked() || forall|i: int| !self.wins(i),
    {
        if self.deadlock_count as usize == 2 * self.players.len() {
            return None;
        }
        let mut best: usize = 0;
        let mut tied = false;
        let mut i: usize = 1;
        proof {
            assert(self.players@[0].wf());
        }
        while i < self.players.len()
            invariant
                self.wf(),
                1 <= i <= self.players@.len(),
                best < i,
                forall|j: int| 0 <= j < i && j != best ==> !((#[trigger] self.players@[j]).points
                    > self.players@[best as int].points) && !(self.players@[j].points == self.players@[best as int].points
                    && self.players@[j].developments.total_spec() < self.players@[best as int].developments.total_spec()),
                tied <==> exists|j: int| 0 <= j < i && j != best && (#[trigger] self.players@[j]).points
                    == self.players@[best as int].points && self.players@[j].developments.total_spec()
                    == self.players@[best as int].developments.total_spec(),
            decreases self.players@.len() - i,
        {
            let p = &self.players[i];
            let b = &self.players[best];
            proof {
                assert(self.players@[i as int].wf());
                assert(self.players@[best as int].wf());
            }
            let pd = p.developments().total();
            let bd = b.developments().total();
            if p.total_points() > b.total_points() || (p.total_points() == b.total_points() && pd < bd) {
                let ghost old_best = best;
                best = i;
                tied = false;
                proof {
                    assert forall|j: int| 0 <= j < i + 1 && j != best implies !((#[trigger] self.players@[j]).points
                        > self.players@[best as int].points) && !(self.players@[j].points == self.players@[best as int].points
                        && self.players@[j].developments.total_spec() < self.players@[best as int].developments.total_spec()) by {
                        if j != old_best {
                            assert(self.players@[j].wf());
                        }
                    }
                    assert forall|j: int| 0 <= j < i + 1 && j != best implies !((#[trigger] self.players@[j]).points
                        == self.players@[best as int].points && self.players@[j].developments.total_spec()
                        == self.players@[best as int].developments.total_spec()) by {
                        if j != old_best {
                            assert(self.players@[j].wf());
                        }
                    }
                }
            } else if p.total_points() == b.total_points() && pd == bd {
                tied = true;
                proof {
                    assert(self.players@[i as int].points == self.players@[best as int].points);
                }
            }
            i = i + 1;
        }
        if tied || self.players[best].total_points() < crate::game::WINNING_POINTS {
            proof {
                assert forall|k: int| !self.wins(k) by {
                    if self.wins(k) {
                        if k != best {
                            assert(self.players@[best as int].points < self.players@[k].points || (
                            self.players@[best as int].points == self.players@[k].points
                                && self.players@[best as int].developments.total_spec()
                                > self.players@[k].developments.total_spec()));
                            assert(false);
                        } else {
                            let j = choose|j: int| 0 <= j < i && j != best && (#[trigger] self.players@[j]).points
                                == self.players@[best as int].points && self.players@[j].developments.total_spec()
                                == self.players@[best as int].developments.total_spec();
                            assert(false);
                        }
                    }
                }
            }
            None
        } else {
            proof {
                assert forall|j: int| 0 <= j < self.num_players() && j != best implies (#[trigger] self.players@[j]).points
                    < self.players@[best as int].points || (self.players@[j].points == self.players@[best as int].points
                    && self.players@[j].developments.total_spec()
                    > self.players@[best as int].developments.total_spec()) by {
                    if self.players@[j].points == self.players@[best as int].points
                        && self.players@[j].developments.total_spec() == self.players@[best as int].developments.total_spec() {
                        assert(tied);
                    }
                }
            }
            Some(best)
        }
    }
}

/// The phase machine's table of which action kinds each phase takes.
pub open spec fn phase_accepts(phase: Phase, a: Action) -> bool {
    match phase {
        Phase::PlayerStart => a is TakeDouble || a is TakeDistinct || a is Reserve || a is ReserveHidden
            || a is Purchase || a is Pass,
        Phase::PlayerGemCapExceeded => a is Discard,
        Phase::NobleAction => a is AttractNoble || a is Pass,
        Phase::PlayerActionEnd => a is Continue,
    }
}

} // verus!
