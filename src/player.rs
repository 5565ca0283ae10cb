use crate::card::{Card, CardId, Cost};
use crate::gem::Gem;
use crate::gems::Gems;
use crate::payment::{affordable, is_payment, is_price, is_wallet, payments_for};
use vstd::prelude::*;

verus! {

/// What every player may see of a player.
#[derive(Clone, Debug)]
pub struct PlayerPublicInfo {
    pub points: u8,
    pub num_reserved: usize,
    pub developments: Cost,
    pub gems: Gems,
}

/// A seat at the table: score, tokens, developments and reserved cards.
#[derive(Clone, Debug)]
pub struct Player {
    pub points: u8,
    pub noble_points: u8,
    pub reserved: Vec<CardId>,
    pub gems: Gems,
    pub developments: Gems,
    pub blind_reserved: Vec<CardId>,
}

/// Most cards a player may hold in reserve.
pub const MAX_RESERVED: usize = 3;

/// `a + b`, stopping at `u8::MAX`.
pub open spec fn sat_add_u8(a: int, b: int) -> int {
    if a + b > 255 {
        255
    } else {
        a + b
    }
}

/// Removes every occurrence of `id` from `s`.
pub open spec fn without(s: Seq<CardId>, id: CardId) -> Seq<CardId> {
    s.filter(differs_from(id))
}

/// Removing a card from a list without repeats leaves a list without repeats,
/// whose cards were all in the list before.
pub proof fn lemma_without_no_dup(s: Seq<CardId>, id: CardId)
    requires
        s.no_duplicates(),
    ensures
        without(s, id).no_duplicates(),
        forall|x: CardId| #[trigger] without(s, id).contains(x) ==> s.contains(x) && x != id,
    decreases s.len(),
{
    if s.len() > 0 {
        let t = s.drop_last();
        let x = s.last();
        assert(t.push(x) =~= s);
        assert(t.no_duplicates()) by {
            assert forall|a: int, b: int| 0 <= a < b < t.len() implies t[a] != t[b] by {
                assert(t[a] == s[a] && t[b] == s[b]);
            }
        }
        lemma_without_no_dup(t, id);
        t.lemma_filter_push(x, differs_from(id));
        assert(!t.contains(x)) by {
            if t.contains(x) {
                let j = choose|j: int| 0 <= j < t.len() && t[j] == x;
                assert(s[j] == s[s.len() - 1]);
            }
        }
        assert forall|y: CardId| #[trigger] without(s, id).contains(y) implies s.contains(y) && y != id by {
            if x != id {
                crate::rules::lemma_push_contains(without(t, id), x, y);
            }
            if without(t, id).contains(y) {
                let j = choose|j: int| 0 <= j < t.len() && t[j] == y;
                assert(s[j] == y);
            } else {
                assert(s[s.len() - 1] == y);
            }
        }
        if x != id {
            let w = without(t, id);
            assert forall|a: int, b: int| 0 <= a < b < w.push(x).len() implies w.push(x)[a] != w.push(x)[b] by {
                if b == w.len() {
                    assert(w.contains(w[a]));
                }
            }
        }
    } else {
        assert(without(s, id) =~= Seq::<CardId>::empty()) by {
            s.lemma_filter_len(differs_from(id));
        }
    }
}

/// The predicate "is not `id`".
pub open spec fn differs_from(id: CardId) -> spec_fn(CardId) -> bool {
    |x: CardId| x != id
}

/// The development discount of a player: a development count per colour, never gold.
pub open spec fn is_development(d: Gems) -> bool {
    d.is_legal() && d.gold == 0
}

/// `x + 1`, stopping at `i8::MAX`.
pub open spec fn bump(x: int) -> int {
    if x < 127 {
        x + 1
    } else {
        127
    }
}

impl Player {
    /// The player's invariant: non-negative tokens, gold-free developments, at most
    /// three reserved cards, and blind reservations among the reserved cards.
    pub open spec fn wf(&self) -> bool {
        is_wallet(self.gems) && is_development(self.developments) && self.reserved@.len()
            <= MAX_RESERVED && forall|i: int|
            0 <= i < self.blind_reserved@.len() ==> self.reserved@.contains(
                #[trigger] self.blind_reserved@[i],
            )
    }

    /// The gold-free price of `card` for this player, after the development discount.
    pub open spec fn price_of(&self, card: Card) -> Gems {
        Gems {
            onyx: crate::card::sat_sub(card.cost.onyx as int, self.developments.onyx as int) as i8,
            sapphire: crate::card::sat_sub(
                card.cost.sapphire as int,
                self.developments.sapphire as int,
            ) as i8,
            emerald: crate::card::sat_sub(card.cost.emerald as int, self.developments.emerald as int) as i8,
            ruby: crate::card::sat_sub(card.cost.ruby as int, self.developments.ruby as int) as i8,
            diamond: crate::card::sat_sub(card.cost.diamond as int, self.developments.diamond as int) as i8,
            gold: 0,
        }
    }

    /// `p` is one of the ways this player can pay for `card`.
    pub open spec fn can_pay_with(&self, card: Card, p: Gems) -> bool {
        is_payment(self.price_of(card), self.gems, p)
    }

    /// The player can pay for `card`.
    pub open spec fn can_afford(&self, card: Card) -> bool {
        affordable(self.price_of(card), self.gems)
    }

    pub fn new() -> (r: Player)
        ensures
            r.wf(),
            r.points == 0,
            r.noble_points == 0,
            r.reserved@.len() == 0,
            r.blind_reserved@.len() == 0,
            r.gems == Gems::zero(),
            r.developments == Gems::zero(),
    {
        Player {
            points: 0,
            noble_points: 0,
            reserved: Vec::new(),
            gems: Gems::empty(),
            developments: Gems::empty(),
            blind_reserved: Vec::new(),
        }
    }

    pub fn to_public(&self) -> (r: PlayerPublicInfo)
        requires
            self.developments.gold == 0,
        ensures
            r.points == self.points,
            r.num_reserved == self.reserved@.len(),
            r.developments.as_gems() == self.developments,
            r.gems == self.gems,
    {
        PlayerPublicInfo {
            points: self.points,
            num_reserved: self.reserved.len(),
            developments: Cost::from_gems(&self.developments),
            gems: self.gems,
        }
    }

    pub fn total_points(&self) -> (r: u8)
        ensures
            r == self.points,
    {
        self.points
    }

    pub fn noble_points(&self) -> (r: u8)
        ensures
            r == self.noble_points,
    {
        self.noble_points
    }

    /// Adds `points` to the score; the score stops at `u8::MAX`.
    pub fn add_points(&mut self, points: u8)
        ensures
            final(self).points == sat_add_u8(old(self).points as int, points as int),
            final(self).noble_points == old(self).noble_points,
            final(self).reserved == old(self).reserved,
            final(self).blind_reserved == old(self).blind_reserved,
            final(self).gems == old(self).gems,
            final(self).developments == old(self).developments,
    {
        self.points = self.points.saturating_add(points);
    }

    /// Credits a noble's three points, both to the score and to the noble score.
    pub fn add_noble_points(&mut self)
        ensures
            final(self).points == sat_add_u8(old(self).points as int, 3),
            final(self).noble_points == sat_add_u8(old(self).noble_points as int, 3),
            final(self).reserved == old(self).reserved,
            final(self).blind_reserved == old(self).blind_reserved,
            final(self).gems == old(self).gems,
            final(self).developments == old(self).developments,
    {
        self.points = self.points.saturating_add(3);
        self.noble_points = self.noble_points.saturating_add(3);
    }

    /// Number of cards held in reserve, blind or not.
    pub fn num_reserved_cards(&self) -> (r: usize)
        ensures
            r == self.reserved@.len(),
    {
        self.reserved.len()
    }

    /// The reserved cards that every player knows of: those not drawn blind.
    pub fn public_reserved(&self) -> (r: Vec<CardId>)
        ensures
            r@ == self.reserved@.filter(|x: CardId| !self.blind_reserved@.contains(x)),
    {
        let ghost pred = |x: CardId| !self.blind_reserved@.contains(x);
        let mut out: Vec<CardId> = Vec::new();
        let mut i: usize = 0;
        while i < self.reserved.len()
            invariant
                i <= self.reserved@.len(),
                pred == (|x: CardId| !self.blind_reserved@.contains(x)),
                out@ == self.reserved@.subrange(0, i as int).filter(pred),
            decreases self.reserved@.len() - i,
        {
            let id = self.reserved[i];
            let hidden = contains_id(&self.blind_reserved, id);
            proof {
                assert(self.reserved@.subrange(0, i + 1) =~= self.reserved@.subrange(
                    0,
                    i as int,
                ).push(id));
                self.reserved@.subrange(0, i as int).lemma_filter_push(id, pred);
            }
            if !hidden {
                out.push(id);
            }
            i = i + 1;
        }
        assert(self.reserved@.subrange(0, i as int) =~= self.reserved@);
        out
    }

    /// Every reserved card, blind or not, in order of reservation.
    pub fn all_reserved(&self) -> (r: Vec<CardId>)
        ensures
            r@ == self.reserved@,
    {
        self.reserved.clone()
    }

    /// The cards that were reserved blind from a deck.
    pub fn blind_reserved(&self) -> (r: Vec<CardId>)
        ensures
            r@ == self.blind_reserved@,
    {
        self.blind_reserved.clone()
    }

    pub fn gems(&self) -> (r: &Gems)
        ensures
            *r == self.gems,
    {
        &self.gems
    }

    pub fn developments(&self) -> (r: &Gems)
        ensures
            *r == self.developments,
    {
        &self.developments
    }

    /// Takes `gems` out of the player's tokens.
    pub fn remove_gems(&mut self, gems: Gems)
        requires
            Gems::diff_fits(old(self).gems, gems),
        ensures
            old(self).gems.is_sum(final(self).gems, gems),
            final(self).points == old(self).points,
            final(self).noble_points == old(self).noble_points,
            final(self).reserved == old(self).reserved,
            final(self).blind_reserved == old(self).blind_reserved,
            final(self).developments == old(self).developments,
    {
        self.gems = self.gems.minus(&gems);
    }

    /// Adds `gems` to the player's tokens.
    pub fn add_gems(&mut self, gems: Gems)
        requires
            Gems::sum_fits(old(self).gems, gems),
        ensures
            final(self).gems.is_sum(old(self).gems, gems),
            final(self).points == old(self).points,
            final(self).noble_points == old(self).noble_points,
            final(self).reserved == old(self).reserved,
            final(self).blind_reserved == old(self).blind_reserved,
            final(self).developments == old(self).developments,
    {
        self.gems = self.gems.plus(&gems);
    }

    /// Adds one development of colour `color`; a count stops at `i8::MAX`.
    pub fn add_development(&mut self, color: Gem)
        ensures
            final(self).developments == old(self).developments.with(
                color,
                bump(old(self).developments.count(color)) as i8,
            ),
            final(self).points == old(self).points,
            final(self).noble_points == old(self).noble_points,
            final(self).reserved == old(self).reserved,
            final(self).blind_reserved == old(self).blind_reserved,
            final(self).gems == old(self).gems,
    {
        let d = self.developments.get(color);
        let next: i8 = if d < 127 { d + 1 } else { 127 };
        self.developments.set(color, next);
    }

    pub fn has_reserved_card(&self, card_id: CardId) -> (r: bool)
        ensures
            r == self.reserved@.contains(card_id),
    {
        contains_id(&self.reserved, card_id)
    }

    /// Pays `payment` for `card`: the tokens leave, the card's colour becomes a
    /// development, its points are scored and it leaves the reserve.
    pub fn purchase_card(&mut self, card: &Card, payment: &Gems)
        requires
            old(self).wf(),
            card.wf(),
            old(self).can_pay_with(*card, *payment),
        ensures
            final(self).wf(),
            old(self).gems.is_sum(final(self).gems, *payment),
            final(self).developments == old(self).developments.with(
                card.gem,
                bump(old(self).developments.count(card.gem)) as i8,
            ),
            final(self).points == sat_add_u8(old(self).points as int, card.points as int),
            final(self).noble_points == old(self).noble_points,
            final(self).reserved@ == without(old(self).reserved@, card.id),
            final(self).blind_reserved@ == without(old(self).blind_reserved@, card.id),
    {
        self.gems = self.gems.minus(payment);
        self.add_development(card.gem());
        self.add_points(card.points());
        let id = card.id();
        let ghost old_reserved = self.reserved@;
        let ghost old_blind = self.blind_reserved@;
        self.reserved = remove_id(&self.reserved, id);
        self.blind_reserved = remove_id(&self.blind_reserved, id);
        proof {
            assert forall|i: int| 0 <= i < self.blind_reserved@.len() implies self.reserved@.contains(
                #[trigger] self.blind_reserved@[i],
            ) by {
                let x = self.blind_reserved@[i];
                assert(without(old_blind, id).contains(x));
                old_blind.lemma_filter_contains_rev(differs_from(id), x);
                assert(old_reserved.contains(x));
                let k = choose|k: int| 0 <= k < old_reserved.len() && old_reserved[k] == x;
                old_reserved.lemma_filter_contains(differs_from(id), k);
            }
            old_reserved.lemma_filter_len(differs_from(id));
        }
    }

    /// Puts a face-up card in reserve.
    pub fn reserve_card(&mut self, card_id: CardId)
        requires
            old(self).wf(),
            old(self).reserved@.len() < MAX_RESERVED,
        ensures
            final(self).wf(),
            final(self).reserved@ == old(self).reserved@.push(card_id),
            final(self).blind_reserved == old(self).blind_reserved,
            final(self).gems == old(self).gems,
            final(self).developments == old(self).developments,
            final(self).points == old(self).points,
            final(self).noble_points == old(self).noble_points,
    {
        let ghost before = self.reserved@;
        self.reserved.push(card_id);
        proof {
            assert forall|i: int| 0 <= i < self.blind_reserved@.len() implies self.reserved@.contains(
                #[trigger] self.blind_reserved@[i],
            ) by {
                let x = self.blind_reserved@[i];
                let k = choose|k: int| 0 <= k < before.len() && before[k] == x;
                assert(self.reserved@[k] == x);
            }
        }
    }

    /// Puts a card drawn from a deck in reserve, hidden from the other players.
    pub fn blind_reserve_card(&mut self, card_id: CardId)
        requires
            old(self).wf(),
            old(self).reserved@.len() < MAX_RESERVED,
        ensures
            final(self).wf(),
            final(self).reserved@ == old(self).reserved@.push(card_id),
            final(self).blind_reserved@ == old(self).blind_reserved@.push(card_id),
            final(self).gems == old(self).gems,
            final(self).developments == old(self).developments,
            final(self).points == old(self).points,
            final(self).noble_points == old(self).noble_points,
    {
        let ghost before = self.reserved@;
        self.reserved.push(card_id);
        self.blind_reserved.push(card_id);
        proof {
            assert forall|i: int| 0 <= i < self.blind_reserved@.len() implies self.reserved@.contains(
                #[trigger] self.blind_reserved@[i],
            ) by {
                let x = self.blind_reserved@[i];
                if i == self.blind_reserved@.len() - 1 {
                    assert(self.reserved@[before.len() as int] == x);
                } else {
                    let k = choose|k: int| 0 <= k < before.len() && before[k] == x;
                    assert(self.reserved@[k] == x);
                }
            }
        }
    }

    /// Every distinct way of paying for `card`, or `None` when the player cannot
    /// afford it.
    pub fn payment_options_for(&self, card: &Card) -> (r: Option<Vec<Gems>>)
        requires
            self.wf(),
            card.wf(),
        ensures
            r.is_none() <==> !self.can_afford(*card),
            r.is_none() ==> forall|x: Gems| !self.can_pay_with(*card, x),
            r.is_some() ==> r.unwrap()@.len() > 0 && r.unwrap()@.no_duplicates() && forall|x: Gems|
                #[trigger] r.unwrap()@.contains(x) <==> self.can_pay_with(*card, x),
    {
        let cost = card.cost().discounted_with(&self.developments).to_gems();
        assert(cost == self.price_of(*card));
        let mut total_deficit: i8 = 0;
        if cost.onyx > self.gems.onyx {
            total_deficit += cost.onyx - self.gems.onyx;
        }
        if cost.sapphire > self.gems.sapphire {
            total_deficit += cost.sapphire - self.gems.sapphire;
        }
        if cost.emerald > self.gems.emerald {
            total_deficit += cost.emerald - self.gems.emerald;
        }
        if cost.ruby > self.gems.ruby {
            total_deficit += cost.ruby - self.gems.ruby;
        }
        if cost.diamond > self.gems.diamond {
            total_deficit += cost.diamond - self.gems.diamond;
        }
        assert(total_deficit == crate::payment::deficit(cost, self.gems));
        if total_deficit > self.gems.gold {
            proof {
                crate::payment::lemma_affordable_iff_payment(cost, self.gems);
                assert forall|x: Gems| !self.can_pay_with(*card, x) by {
                    if self.can_pay_with(*card, x) {
                        assert(exists|p: Gems| is_payment(cost, self.gems, p));
                    }
                }
            }
            return None;
        }
        let payments = payments_for(&cost, &self.gems);
        proof {
            crate::payment::lemma_affordable_iff_payment(cost, self.gems);
            let g = crate::payment::greedy_payment(cost, self.gems);
            assert(payments@.contains(g));
        }
        if payments.len() == 0 {
            return None;
        }
        Some(payments)
    }
}

/// Whether `id` occurs in `ids`.
pub fn contains_id(ids: &Vec<CardId>, id: CardId) -> (r: bool)
    ensures
        r == ids@.contains(id),
{
    let mut i: usize = 0;
    while i < ids.len()
        invariant
            i <= ids@.len(),
            forall|j: int| 0 <= j < i ==> ids@[j] != id,
        decreases ids@.len() - i,
    {
        if ids[i] == id {
            return true;
        }
        i = i + 1;
    }
    false
}

/// `ids` without any occurrence of `id`, order kept.
pub fn remove_id(ids: &Vec<CardId>, id: CardId) -> (r: Vec<CardId>)
    ensures
        r@ == without(ids@, id),
{
    let ghost pred = differs_from(id);
    let mut out: Vec<CardId> = Vec::new();
    let mut i: usize = 0;
    while i < ids.len()
        invariant
            i <= ids@.len(),
            pred == differs_from(id),
            out@ == ids@.subrange(0, i as int).filter(pred),
        decreases ids@.len() - i,
    {
        let x = ids[i];
        proof {
            assert(ids@.subrange(0, i + 1) =~= ids@.subrange(0, i as int).push(x));
            ids@.subrange(0, i as int).lemma_filter_push(x, pred);
        }
        if x != id {
            out.push(x);
        }
        i = i + 1;
    }
    assert(ids@.subrange(0, i as int) =~= ids@);
    out
}

} // verus!
