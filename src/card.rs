use crate::gem::Gem;
use crate::gems::Gems;
use vstd::prelude::*;

verus! {

/// Identifier of a card: its index in the catalogue.
pub type CardId = u8;

/// Number of cards in the catalogue.
pub const NUM_CARDS: usize = 90;

/// The price of a card: a count for each of the five card colours.
#[derive(PartialEq, Eq, Structural, Copy, Clone, Debug)]
pub struct Cost {
    pub onyx: i8,
    pub sapphire: i8,
    pub emerald: i8,
    pub ruby: i8,
    pub diamond: i8,
}

/// `max(0, a - b)` over integers.
pub open spec fn sat_sub(a: int, b: int) -> int {
    if a - b > 0 {
        a - b
    } else {
        0
    }
}

impl Cost {
    /// Every count lies in `0..=7`.
    pub open spec fn wf(self) -> bool {
        0 <= self.onyx <= 7 && 0 <= self.sapphire <= 7 && 0 <= self.emerald <= 7 && 0 <= self.ruby
            <= 7 && 0 <= self.diamond <= 7
    }

    /// The cost as a token vector with no gold.
    pub open spec fn as_gems(self) -> Gems {
        Gems {
            onyx: self.onyx,
            sapphire: self.sapphire,
            emerald: self.emerald,
            ruby: self.ruby,
            diamond: self.diamond,
            gold: 0,
        }
    }

    /// Removes the given discount from each count, stopping at zero.
    pub fn discounted_with(&self, gems: &Gems) -> (r: Cost)
        requires
            self.wf(),
            gems.is_legal(),
        ensures
            r.wf(),
            r.onyx == sat_sub(self.onyx as int, gems.onyx as int),
            r.sapphire == sat_sub(self.sapphire as int, gems.sapphire as int),
            r.emerald == sat_sub(self.emerald as int, gems.emerald as int),
            r.ruby == sat_sub(self.ruby as int, gems.ruby as int),
            r.diamond == sat_sub(self.diamond as int, gems.diamond as int),
    {
        Cost {
            onyx: if self.onyx > gems.onyx { self.onyx - gems.onyx } else { 0 },
            sapphire: if self.sapphire > gems.sapphire { self.sapphire - gems.sapphire } else { 0 },
            emerald: if self.emerald > gems.emerald { self.emerald - gems.emerald } else { 0 },
            ruby: if self.ruby > gems.ruby { self.ruby - gems.ruby } else { 0 },
            diamond: if self.diamond > gems.diamond { self.diamond - gems.diamond } else { 0 },
        }
    }

    /// The cost as a token vector with no gold.
    pub fn to_gems(&self) -> (r: Gems)
        ensures
            r == self.as_gems(),
    {
        Gems {
            onyx: self.onyx,
            sapphire: self.sapphire,
            emerald: self.emerald,
            ruby: self.ruby,
            diamond: self.diamond,
            gold: 0,
        }
    }

    /// The five card-colour counts of a token vector that holds no gold.
    pub fn from_gems(gems: &Gems) -> (r: Cost)
        requires
            gems.gold == 0,
        ensures
            r.as_gems() == *gems,
    {
        Cost {
            onyx: gems.onyx,
            sapphire: gems.sapphire,
            emerald: gems.emerald,
            ruby: gems.ruby,
            diamond: gems.diamond,
        }
    }
}

/// A development card.
#[derive(PartialEq, Eq, Structural, Copy, Clone, Debug)]
pub struct Card {
    pub points: u8,
    pub cost: Cost,
    pub gem: Gem,
    pub id: CardId,
    pub tier: u8,
}

/// The tier of the card with a given id: ids are grouped by tier.
pub open spec fn tier_of(id: int) -> int {
    if id < 40 {
        1
    } else if id < 70 {
        2
    } else {
        3
    }
}

/// The catalogue entry with id `id` (ids past the end read as the last entry).
pub open spec fn card_table(id: CardId) -> Card {
    match id {
        0 => Card { id: 0, tier: 1, gem: Gem::Onyx, points: 0, cost: Cost { onyx: 0, sapphire: 1, emerald: 1, ruby: 1, diamond: 1 } },
        1 => Card { id: 1, tier: 1, gem: Gem::Onyx, points: 0, cost: Cost { onyx: 0, sapphire: 2, emerald: 1, ruby: 1, diamond: 1 } },
        2 => Card { id: 2, tier: 1, gem: Gem::Onyx, points: 0, cost: Cost { onyx: 0, sapphire: 2, emerald: 0, ruby: 1, diamond: 2 } },
        3 => Card { id: 3, tier: 1, gem: Gem::Onyx, points: 0, cost: Cost { onyx: 1, sapphire: 0, emerald: 1, ruby: 3, diamond: 0 } },
        4 => Card { id: 4, tier: 1, gem: Gem::Onyx, points: 0, cost: Cost { onyx: 0, sapphire: 0, emerald: 2, ruby: 1, diamond: 0 } },
        5 => Card { id: 5, tier: 1, gem: Gem::Onyx, points: 0, cost: Cost { onyx: 0, sapphire: 0, emerald: 2, ruby: 0, diamond: 2 } },
        6 => Card { id: 6, tier: 1, gem: Gem::Onyx, points: 0, cost: Cost { onyx: 0, sapphire: 0, emerald: 3, ruby: 0, diamond: 0 } },
        7 => Card { id: 7, tier: 1, gem: Gem::Onyx, points: 1, cost: Cost { onyx: 0, sapphire: 4, emerald: 0, ruby: 0, diamond: 0 } },
        8 => Card { id: 8, tier: 1, gem: Gem::Sapphire, points: 0, cost: Cost { onyx: 1, sapphire: 0, emerald: 1, ruby: 1, diamond: 1 } },
        9 => Card { id: 9, tier: 1, gem: Gem::Sapphire, points: 0, cost: Cost { onyx: 1, sapphire: 0, emerald: 1, ruby: 2, diamond: 1 } },
        10 => Card { id: 10, tier: 1, gem: Gem::Sapphire, points: 0, cost: Cost { onyx: 0, sapphire: 0, emerald: 2, ruby: 2, diamond: 1 } },
        11 => Card { id: 11, tier: 1, gem: Gem::Sapphire, points: 0, cost: Cost { onyx: 0, sapphire: 1, emerald: 3, ruby: 1, diamond: 0 } },
        12 => Card { id: 12, tier: 1, gem: Gem::Sapphire, points: 0, cost: Cost { onyx: 2, sapphire: 0, emerald: 0, ruby: 0, diamond: 1 } },
        13 => Card { id: 13, tier: 1, gem: Gem::Sapphire, points: 0, cost: Cost { onyx: 2, sapphire: 0, emerald: 2, ruby: 0, diamond: 0 } },
        14 => Card { id: 14, tier: 1, gem: Gem::Sapphire, points: 0, cost: Cost { onyx: 3, sapphire: 0, emerald: 0, ruby: 0, diamond: 0 } },
        15 => Card { id: 15, tier: 1, gem: Gem::Sapphire, points: 1, cost: Cost { onyx: 0, sapphire: 0, emerald: 0, ruby: 4, diamond: 0 } },
        16 => Card { id: 16, tier: 1, gem: Gem::Diamond, points: 0, cost: Cost { onyx: 1, sapphire: 1, emerald: 1, ruby: 1, diamond: 0 } },
        17 => Card { id: 17, tier: 1, gem: Gem::Diamond, points: 0, cost: Cost { onyx: 1, sapphire: 1, emerald: 2, ruby: 1, diamond: 0 } },
        18 => Card { id: 18, tier: 1, gem: Gem::Diamond, points: 0, cost: Cost { onyx: 1, sapphire: 2, emerald: 2, ruby: 0, diamond: 0 } },
        19 => Card { id: 19, tier: 1, gem: Gem::Diamond, points: 0, cost: Cost { onyx: 1, sapphire: 1, emerald: 0, ruby: 0, diamond: 3 } },
        20 => Card { id: 20, tier: 1, gem: Gem::Diamond, points: 0, cost: Cost { onyx: 1, sapphire: 0, emerald: 0, ruby: 2, diamond: 0 } },
        21 => Card { id: 21, tier: 1, gem: Gem::Diamond, points: 0, cost: Cost { onyx: 2, sapphire: 2, emerald: 0, ruby: 0, diamond: 0 } },
        22 => Card { id: 22, tier: 1, gem: Gem::Diamond, points: 0, cost: Cost { onyx: 0, sapphire: 3, emerald: 0, ruby: 0, diamond: 0 } },
        23 => Card { id: 23, tier: 1, gem: Gem::Diamond, points: 1, cost: Cost { onyx: 0, sapphire: 0, emerald: 4, ruby: 0, diamond: 0 } },
        24 => Card { id: 24, tier: 1, gem: Gem::Emerald, points: 0, cost: Cost { onyx: 1, sapphire: 1, emerald: 0, ruby: 1, diamond: 1 } },
        25 => Card { id: 25, tier: 1, gem: Gem::Emerald, points: 0, cost: Cost { onyx: 2, sapphire: 1, emerald: 0, ruby: 1, diamond: 1 } },
        26 => Card { id: 26, tier: 1, gem: Gem::Emerald, points: 0, cost: Cost { onyx: 2, sapphire: 1, emerald: 0, ruby: 2, diamond: 0 } },
        27 => Card { id: 27, tier: 1, gem: Gem::Emerald, points: 0, cost: Cost { onyx: 0, sapphire: 3, emerald: 1, ruby: 0, diamond: 1 } },
        28 => Card { id: 28, tier: 1, gem: Gem::Emerald, points: 0, cost: Cost { onyx: 0, sapphire: 1, emerald: 0, ruby: 0, diamond: 2 } },
        29 => Card { id: 29, tier: 1, gem: Gem::Emerald, points: 0, cost: Cost { onyx: 0, sapphire: 2, emerald: 0, ruby: 2, diamond: 0 } },
        30 => Card { id: 30, tier: 1, gem: Gem::Emerald, points: 0, cost: Cost { onyx: 0, sapphire: 0, emerald: 0, ruby: 3, diamond: 0 } },
        31 => Card { id: 31, tier: 1, gem: Gem::Emerald, points: 1, cost: Cost { onyx: 4, sapphire: 0, emerald: 0, ruby: 0, diamond: 0 } },
        32 => Card { id: 32, tier: 1, gem: Gem::Ruby, points: 0, cost: Cost { onyx: 1, sapphire: 1, emerald: 1, ruby: 0, diamond: 1 } },
        33 => Card { id: 33, tier: 1, gem: Gem::Ruby, points: 0, cost: Cost { onyx: 1, sapphire: 1, emerald: 1, ruby: 0, diamond: 2 } },
        34 => Card { id: 34, tier: 1, gem: Gem::Ruby, points: 0, cost: Cost { onyx: 2, sapphire: 0, emerald: 1, ruby: 0, diamond: 2 } },
        35 => Card { id: 35, tier: 1, gem: Gem::Ruby, points: 0, cost: Cost { onyx: 3, sapphire: 0, emerald: 0, ruby: 1, diamond: 1 } },
        36 => Card { id: 36, tier: 1, gem: Gem::Ruby, points: 0, cost: Cost { onyx: 0, sapphire: 2, emerald: 1, ruby: 0, diamond: 0 } },
        37 => Card { id: 37, tier: 1, gem: Gem::Ruby, points: 0, cost: Cost { onyx: 0, sapphire: 0, emerald: 0, ruby: 2, diamond: 2 } },
        38 => Card { id: 38, tier: 1, gem: Gem::Ruby, points: 0, cost: Cost { onyx: 0, sapphire: 0, emerald: 0, ruby: 0, diamond: 3 } },
        39 => Card { id: 39, tier: 1, gem: Gem::Ruby, points: 1, cost: Cost { onyx: 0, sapphire: 0, emerald: 0, ruby: 0, diamond: 4 } },
        40 => Card { id: 40, tier: 2, gem: Gem::Onyx, points: 1, cost: Cost { onyx: 0, sapphire: 2, emerald: 2, ruby: 0, diamond: 3 } },
        41 => Card { id: 41, tier: 2, gem: Gem::Onyx, points: 1, cost: Cost { onyx: 2, sapphire: 0, emerald: 3, ruby: 0, diamond: 3 } },
        42 => Card { id: 42, tier: 2, gem: Gem::Onyx, points: 2, cost: Cost { onyx: 0, sapphire: 1, emerald: 4, ruby: 2, diamond: 0 } },
        43 => Card { id: 43, tier: 2, gem: Gem::Onyx, points: 2, cost: Cost { onyx: 0, sapphire: 0, emerald: 5, ruby: 3, diamond: 0 } },
        44 => Card { id: 44, tier: 2, gem: Gem::Onyx, points: 2, cost: Cost { onyx: 0, sapphire: 0, emerald: 0, ruby: 0, diamond: 5 } },
        45 => Card { id: 45, tier: 2, gem: Gem::Onyx, points: 3, cost: Cost { onyx: 6, sapphire: 0, emerald: 0, ruby: 0, diamond: 0 } },
        46 => Card { id: 46, tier: 2, gem: Gem::Sapphire, points: 1, cost: Cost { onyx: 0, sapphire: 2, emerald: 2, ruby: 3, diamond: 0 } },
        47 => Card { id: 47, tier: 2, gem: Gem::Sapphire, points: 1, cost: Cost { onyx: 3, sapphire: 2, emerald: 3, ruby: 0, diamond: 0 } },
        48 => Card { id: 48, tier: 2, gem: Gem::Sapphire, points: 2, cost: Cost { onyx: 0, sapphire: 3, emerald: 0, ruby: 0, diamond: 5 } },
        49 => Card { id: 49, tier: 2, gem: Gem::Sapphire, points: 2, cost: Cost { onyx: 4, sapphire: 0, emerald: 0, ruby: 1, diamond: 2 } },
        50 => Card { id: 50, tier: 2, gem: Gem::Sapphire, points: 2, cost: Cost { onyx: 0, sapphire: 5, emerald: 0, ruby: 0, diamond: 0 } },
        51 => Card { id: 51, tier: 2, gem: Gem::Sapphire, points: 3, cost: Cost { onyx: 0, sapphire: 6, emerald: 0, ruby: 0, diamond: 0 } },
        52 => Card { id: 52, tier: 2, gem: Gem::Diamond, points: 1, cost: Cost { onyx: 2, sapphire: 0, emerald: 3, ruby: 2, diamond: 0 } },
        53 => Card { id: 53, tier: 2, gem: Gem::Diamond, points: 1, cost: Cost { onyx: 0, sapphire: 3, emerald: 0, ruby: 3, diamond: 2 } },
        54 => Card { id: 54, tier: 2, gem: Gem::Diamond, points: 2, cost: Cost { onyx: 2, sapphire: 0, emerald: 1, ruby: 4, diamond: 0 } },
        55 => Card { id: 55, tier: 2, gem: Gem::Diamond, points: 2, cost: Cost { onyx: 3, sapphire: 0, emerald: 0, ruby: 5, diamond: 0 } },
        56 => Card { id: 56, tier: 2, gem: Gem::Diamond, points: 2, cost: Cost { onyx: 0, sapphire: 0, emerald: 0, ruby: 5, diamond: 0 } },
        57 => Card { id: 57, tier: 2, gem: Gem::Diamond, points: 3, cost: Cost { onyx: 0, sapphire: 0, emerald: 0, ruby: 0, diamond: 6 } },
        58 => Card { id: 58, tier: 2, gem: Gem::Emerald, points: 1, cost: Cost { onyx: 0, sapphire: 0, emerald: 2, ruby: 3, diamond: 3 } },
        59 => Card { id: 59, tier: 2, gem: Gem::Emerald, points: 1, cost: Cost { onyx: 2, sapphire: 3, emerald: 0, ruby: 0, diamond: 2 } },
        60 => Card { id: 60, tier: 2, gem: Gem::Emerald, points: 2, cost: Cost { onyx: 1, sapphire: 2, emerald: 0, ruby: 0, diamond: 4 } },
        61 => Card { id: 61, tier: 2, gem: Gem::Emerald, points: 2, cost: Cost { onyx: 0, sapphire: 5, emerald: 3, ruby: 0, diamond: 0 } },
        62 => Card { id: 62, tier: 2, gem: Gem::Emerald, points: 2, cost: Cost { onyx: 0, sapphire: 0, emerald: 5, ruby: 0, diamond: 0 } },
        63 => Card { id: 63, tier: 2, gem: Gem::Emerald, points: 3, cost: Cost { onyx: 0, sapphire: 0, emerald: 6, ruby: 0, diamond: 0 } },
        64 => Card { id: 64, tier: 2, gem: Gem::Ruby, points: 1, cost: Cost { onyx: 3, sapphire: 0, emerald: 0, ruby: 2, diamond: 2 } },
        65 => Card { id: 65, tier: 2, gem: Gem::Ruby, points: 1, cost: Cost { onyx: 3, sapphire: 3, emerald: 0, ruby: 2, diamond: 0 } },
        66 => Card { id: 66, tier: 2, gem: Gem::Ruby, points: 2, cost: Cost { onyx: 0, sapphire: 4, emerald: 2, ruby: 0, diamond: 1 } },
        67 => Card { id: 67, tier: 2, gem: Gem::Ruby, points: 2, cost: Cost { onyx: 5, sapphire: 0, emerald: 0, ruby: 0, diamond: 3 } },
        68 => Card { id: 68, tier: 2, gem: Gem::Ruby, points: 2, cost: Cost { onyx: 5, sapphire: 0, emerald: 0, ruby: 0, diamond: 0 } },
        69 => Card { id: 69, tier: 2, gem: Gem::Ruby, points: 3, cost: Cost { onyx: 0, sapphire: 0, emerald: 0, ruby: 6, diamond: 0 } },
        70 => Card { id: 70, tier: 3, gem: Gem::Onyx, points: 3, cost: Cost { onyx: 0, sapphire: 3, emerald: 5, ruby: 3, diamond: 3 } },
        71 => Card { id: 71, tier: 3, gem: Gem::Onyx, points: 4, cost: Cost { onyx: 0, sapphire: 0, emerald: 0, ruby: 7, diamond: 0 } },
        72 => Card { id: 72, tier: 3, gem: Gem::Onyx, points: 4, cost: Cost { onyx: 3, sapphire: 0, emerald: 3, ruby: 6, diamond: 0 } },
        73 => Card { id: 73, tier: 3, gem: Gem::Onyx, points: 5, cost: Cost { onyx: 3, sapphire: 0, emerald: 0, ruby: 7, diamond: 0 } },
        74 => Card { id: 74, tier: 3, gem: Gem::Sapphire, points: 3, cost: Cost { onyx: 5, sapphire: 0, emerald: 3, ruby: 3, diamond: 3 } },
        75 => Card { id: 75, tier: 3, gem: Gem::Sapphire, points: 4, cost: Cost { onyx: 0, sapphire: 0, emerald: 0, ruby: 0, diamond: 7 } },
        76 => Card { id: 76, tier: 3, gem: Gem::Sapphire, points: 4, cost: Cost { onyx: 3, sapphire: 3, emerald: 0, ruby: 0, diamond: 6 } },
        77 => Card { id: 77, tier: 3, gem: Gem::Sapphire, points: 5, cost: Cost { onyx: 0, sapphire: 3, emerald: 0, ruby: 0, diamond: 7 } },
        78 => Card { id: 78, tier: 3, gem: Gem::Diamond, points: 3, cost: Cost { onyx: 3, sapphire: 3, emerald: 3, ruby: 5, diamond: 0 } },
        79 => Card { id: 79, tier: 3, gem: Gem::Diamond, points: 4, cost: Cost { onyx: 7, sapphire: 0, emerald: 0, ruby: 0, diamond: 0 } },
        80 => Card { id: 80, tier: 3, gem: Gem::Diamond, points: 4, cost: Cost { onyx: 6, sapphire: 0, emerald: 0, ruby: 3, diamond: 3 } },
        81 => Card { id: 81, tier: 3, gem: Gem::Diamond, points: 5, cost: Cost { onyx: 7, sapphire: 0, emerald: 0, ruby: 0, diamond: 3 } },
        82 => Card { id: 82, tier: 3, gem: Gem::Emerald, points: 3, cost: Cost { onyx: 3, sapphire: 3, emerald: 0, ruby: 3, diamond: 5 } },
        83 => Card { id: 83, tier: 3, gem: Gem::Emerald, points: 4, cost: Cost { onyx: 0, sapphire: 7, emerald: 0, ruby: 0, diamond: 0 } },
        84 => Card { id: 84, tier: 3, gem: Gem::Emerald, points: 4, cost: Cost { onyx: 0, sapphire: 6, emerald: 3, ruby: 0, diamond: 3 } },
        85 => Card { id: 85, tier: 3, gem: Gem::Emerald, points: 5, cost: Cost { onyx: 0, sapphire: 7, emerald: 3, ruby: 0, diamond: 0 } },
        86 => Card { id: 86, tier: 3, gem: Gem::Ruby, points: 3, cost: Cost { onyx: 3, sapphire: 5, emerald: 3, ruby: 0, diamond: 3 } },
        87 => Card { id: 87, tier: 3, gem: Gem::Ruby, points: 4, cost: Cost { onyx: 0, sapphire: 0, emerald: 7, ruby: 0, diamond: 0 } },
        88 => Card { id: 88, tier: 3, gem: Gem::Ruby, points: 4, cost: Cost { onyx: 0, sapphire: 3, emerald: 6, ruby: 3, diamond: 0 } },
        _ => Card { id: 89, tier: 3, gem: Gem::Ruby, points: 5, cost: Cost { onyx: 0, sapphire: 0, emerald: 7, ruby: 3, diamond: 0 } },
    }
}

impl Card {
    /// The shape that every card of the catalogue has.
    pub open spec fn wf(self) -> bool {
        self.id < NUM_CARDS && self.tier == tier_of(self.id as int) && self.gem != Gem::Gold
            && self.points <= 5 && self.cost.wf()
    }

    pub fn cost(&self) -> (r: Cost)
        ensures
            r == self.cost,
    {
        self.cost
    }

    pub fn points(&self) -> (r: u8)
        ensures
            r == self.points,
    {
        self.points
    }

    pub fn gem(&self) -> (r: Gem)
        ensures
            r == self.gem,
    {
        self.gem
    }

    pub fn id(&self) -> (r: u8)
        ensures
            r == self.id,
    {
        self.id
    }

    pub fn tier(&self) -> (r: u8)
        ensures
            r == self.tier,
    {
        self.tier
    }

    /// The catalogue entry with the given id.
    pub fn from_id(id: CardId) -> (c: Card)
        requires
            id < NUM_CARDS,
        ensures
            c == card_table(id),
            c.id == id,
            c.wf(),
    {
        match id {
            0 => Card { id: 0, tier: 1, gem: Gem::Onyx, points: 0, cost: Cost { onyx: 0, sapphire: 1, emerald: 1, ruby: 1, diamond: 1 } },
            1 => Card { id: 1, tier: 1, gem: Gem::Onyx, points: 0, cost: Cost { onyx: 0, sapphire: 2, emerald: 1, ruby: 1, diamond: 1 } },
            2 => Card { id: 2, tier: 1, gem: Gem::Onyx, points: 0, cost: Cost { onyx: 0, sapphire: 2, emerald: 0, ruby: 1, diamond: 2 } },
            3 => Card { id: 3, tier: 1, gem: Gem::Onyx, points: 0, cost: Cost { onyx: 1, sapphire: 0, emerald: 1, ruby: 3, diamond: 0 } },
            4 => Card { id: 4, tier: 1, gem: Gem::Onyx, points: 0, cost: Cost { onyx: 0, sapphire: 0, emerald: 2, ruby: 1, diamond: 0 } },
            5 => Card { id: 5, tier: 1, gem: Gem::Onyx, points: 0, cost: Cost { onyx: 0, sapphire: 0, emerald: 2, ruby: 0, diamond: 2 } },
            6 => Card { id: 6, tier: 1, gem: Gem::Onyx, points: 0, cost: Cost { onyx: 0, sapphire: 0, emerald: 3, ruby: 0, diamond: 0 } },
            7 => Card { id: 7, tier: 1, gem: Gem::Onyx, points: 1, cost: Cost { onyx: 0, sapphire: 4, emerald: 0, ruby: 0, diamond: 0 } },
            8 => Card { id: 8, tier: 1, gem: Gem::Sapphire, points: 0, cost: Cost { onyx: 1, sapphire: 0, emerald: 1, ruby: 1, diamond: 1 } },
            9 => Card { id: 9, tier: 1, gem: Gem::Sapphire, points: 0, cost: Cost { onyx: 1, sapphire: 0, emerald: 1, ruby: 2, diamond: 1 } },
            10 => Card { id: 10, tier: 1, gem: Gem::Sapphire, points: 0, cost: Cost { onyx: 0, sapphire: 0, emerald: 2, ruby: 2, diamond: 1 } },
            11 => Card { id: 11, tier: 1, gem: Gem::Sapphire, points: 0, cost: Cost { onyx: 0, sapphire: 1, emerald: 3, ruby: 1, diamond: 0 } },
            12 => Card { id: 12, tier: 1, gem: Gem::Sapphire, points: 0, cost: Cost { onyx: 2, sapphire: 0, emerald: 0, ruby: 0, diamond: 1 } },
            13 => Card { id: 13, tier: 1, gem: Gem::Sapphire, points: 0, cost: Cost { onyx: 2, sapphire: 0, emerald: 2, ruby: 0, diamond: 0 } },
            14 => Card { id: 14, tier: 1, gem: Gem::Sapphire, points: 0, cost: Cost { onyx: 3, sapphire: 0, emerald: 0, ruby: 0, diamond: 0 } },
            15 => Card { id: 15, tier: 1, gem: Gem::Sapphire, points: 1, cost: Cost { onyx: 0, sapphire: 0, emerald: 0, ruby: 4, diamond: 0 } },
            16 => Card { id: 16, tier: 1, gem: Gem::Diamond, points: 0, cost: Cost { onyx: 1, sapphire: 1, emerald: 1, ruby: 1, diamond: 0 } },
            17 => Card { id: 17, tier: 1, gem: Gem::Diamond, points: 0, cost: Cost { onyx: 1, sapphire: 1, emerald: 2, ruby: 1, diamond: 0 } },
            18 => Card { id: 18, tier: 1, gem: Gem::Diamond, points: 0, cost: Cost { onyx: 1, sapphire: 2, emerald: 2, ruby: 0, diamond: 0 } },
            19 => Card { id: 19, tier: 1, gem: Gem::Diamond, points: 0, cost: Cost { onyx: 1, sapphire: 1, emerald: 0, ruby: 0, diamond: 3 } },
            20 => Card { id: 20, tier: 1, gem: Gem::Diamond, points: 0, cost: Cost { onyx: 1, sapphire: 0, emerald: 0, ruby: 2, diamond: 0 } },
            21 => Card { id: 21, tier: 1, gem: Gem::Diamond, points: 0, cost: Cost { onyx: 2, sapphire: 2, emerald: 0, ruby: 0, diamond: 0 } },
            22 => Card { id: 22, tier: 1, gem: Gem::Diamond, points: 0, cost: Cost { onyx: 0, sapphire: 3, emerald: 0, ruby: 0, diamond: 0 } },
            23 => Card { id: 23, tier: 1, gem: Gem::Diamond, points: 1, cost: Cost { onyx: 0, sapphire: 0, emerald: 4, ruby: 0, diamond: 0 } },
            24 => Card { id: 24, tier: 1, gem: Gem::Emerald, points: 0, cost: Cost { onyx: 1, sapphire: 1, emerald: 0, ruby: 1, diamond: 1 } },
            25 => Card { id: 25, tier: 1, gem: Gem::Emerald, points: 0, cost: Cost { onyx: 2, sapphire: 1, emerald: 0, ruby: 1, diamond: 1 } },
            26 => Card { id: 26, tier: 1, gem: Gem::Emerald, points: 0, cost: Cost { onyx: 2, sapphire: 1, emerald: 0, ruby: 2, diamond: 0 } },
            27 => Card { id: 27, tier: 1, gem: Gem::Emerald, points: 0, cost: Cost { onyx: 0, sapphire: 3, emerald: 1, ruby: 0, diamond: 1 } },
            28 => Card { id: 28, tier: 1, gem: Gem::Emerald, points: 0, cost: Cost { onyx: 0, sapphire: 1, emerald: 0, ruby: 0, diamond: 2 } },
            29 => Card { id: 29, tier: 1, gem: Gem::Emerald, points: 0, cost: Cost { onyx: 0, sapphire: 2, emerald: 0, ruby: 2, diamond: 0 } },
            30 => Card { id: 30, tier: 1, gem: Gem::Emerald, points: 0, cost: Cost { onyx: 0, sapphire: 0, emerald: 0, ruby: 3, diamond: 0 } },
            31 => Card { id: 31, tier: 1, gem: Gem::Emerald, points: 1, cost: Cost { onyx: 4, sapphire: 0, emerald: 0, ruby: 0, diamond: 0 } },
            32 => Card { id: 32, tier: 1, gem: Gem::Ruby, points: 0, cost: Cost { onyx: 1, sapphire: 1, emerald: 1, ruby: 0, diamond: 1 } },
            33 => Card { id: 33, tier: 1, gem: Gem::Ruby, points: 0, cost: Cost { onyx: 1, sapphire: 1, emerald: 1, ruby: 0, diamond: 2 } },
            34 => Card { id: 34, tier: 1, gem: Gem::Ruby, points: 0, cost: Cost { onyx: 2, sapphire: 0, emerald: 1, ruby: 0, diamond: 2 } },
            35 => Card { id: 35, tier: 1, gem: Gem::Ruby, points: 0, cost: Cost { onyx: 3, sapphire: 0, emerald: 0, ruby: 1, diamond: 1 } },
            36 => Card { id: 36, tier: 1, gem: Gem::Ruby, points: 0, cost: Cost { onyx: 0, sapphire: 2, emerald: 1, ruby: 0, diamond: 0 } },
            37 => Card { id: 37, tier: 1, gem: Gem::Ruby, points: 0, cost: Cost { onyx: 0, sapphire: 0, emerald: 0, ruby: 2, diamond: 2 } },
            38 => Card { id: 38, tier: 1, gem: Gem::Ruby, points: 0, cost: Cost { onyx: 0, sapphire: 0, emerald: 0, ruby: 0, diamond: 3 } },
            39 => Card { id: 39, tier: 1, gem: Gem::Ruby, points: 1, cost: Cost { onyx: 0, sapphire: 0, emerald: 0, ruby: 0, diamond: 4 } },
            40 => Card { id: 40, tier: 2, gem: Gem::Onyx, points: 1, cost: Cost { onyx: 0, sapphire: 2, emerald: 2, ruby: 0, diamond: 3 } },
            41 => Card { id: 41, tier: 2, gem: Gem::Onyx, points: 1, cost: Cost { onyx: 2, sapphire: 0, emerald: 3, ruby: 0, diamond: 3 } },
            42 => Card { id: 42, tier: 2, gem: Gem::Onyx, points: 2, cost: Cost { onyx: 0, sapphire: 1, emerald: 4, ruby: 2, diamond: 0 } },
            43 => Card { id: 43, tier: 2, gem: Gem::Onyx, points: 2, cost: Cost { onyx: 0, sapphire: 0, emerald: 5, ruby: 3, diamond: 0 } },
            44 => Card { id: 44, tier: 2, gem: Gem::Onyx, points: 2, cost: Cost { onyx: 0, sapphire: 0, emerald: 0, ruby: 0, diamond: 5 } },
            45 => Card { id: 45, tier: 2, gem: Gem::Onyx, points: 3, cost: Cost { onyx: 6, sapphire: 0, emerald: 0, ruby: 0, diamond: 0 } },
            46 => Card { id: 46, tier: 2, gem: Gem::Sapphire, points: 1, cost: Cost { onyx: 0, sapphire: 2, emerald: 2, ruby: 3, diamond: 0 } },
            47 => Card { id: 47, tier: 2, gem: Gem::Sapphire, points: 1, cost: Cost { onyx: 3, sapphire: 2, emerald: 3, ruby: 0, diamond: 0 } },
            48 => Card { id: 48, tier: 2, gem: Gem::Sapphire, points: 2, cost: Cost { onyx: 0, sapphire: 3, emerald: 0, ruby: 0, diamond: 5 } },
            49 => Card { id: 49, tier: 2, gem: Gem::Sapphire, points: 2, cost: Cost { onyx: 4, sapphire: 0, emerald: 0, ruby: 1, diamond: 2 } },
            50 => Card { id: 50, tier: 2, gem: Gem::Sapphire, points: 2, cost: Cost { onyx: 0, sapphire: 5, emerald: 0, ruby: 0, diamond: 0 } },
            51 => Card { id: 51, tier: 2, gem: Gem::Sapphire, points: 3, cost: Cost { onyx: 0, sapphire: 6, emerald: 0, ruby: 0, diamond: 0 } },
            52 => Card { id: 52, tier: 2, gem: Gem::Diamond, points: 1, cost: Cost { onyx: 2, sapphire: 0, emerald: 3, ruby: 2, diamond: 0 } },
            53 => Card { id: 53, tier: 2, gem: Gem::Diamond, points: 1, cost: Cost { onyx: 0, sapphire: 3, emerald: 0, ruby: 3, diamond: 2 } },
            54 => Card { id: 54, tier: 2, gem: Gem::Diamond, points: 2, cost: Cost { onyx: 2, sapphire: 0, emerald: 1, ruby: 4, diamond: 0 } },
            55 => Card { id: 55, tier: 2, gem: Gem::Diamond, points: 2, cost: Cost { onyx: 3, sapphire: 0, emerald: 0, ruby: 5, diamond: 0 } },
            56 => Card { id: 56, tier: 2, gem: Gem::Diamond, points: 2, cost: Cost { onyx: 0, sapphire: 0, emerald: 0, ruby: 5, diamond: 0 } },
            57 => Card { id: 57, tier: 2, gem: Gem::Diamond, points: 3, cost: Cost { onyx: 0, sapphire: 0, emerald: 0, ruby: 0, diamond: 6 } },
            58 => Card { id: 58, tier: 2, gem: Gem::Emerald, points: 1, cost: Cost { onyx: 0, sapphire: 0, emerald: 2, ruby: 3, diamond: 3 } },
            59 => Card { id: 59, tier: 2, gem: Gem::Emerald, points: 1, cost: Cost { onyx: 2, sapphire: 3, emerald: 0, ruby: 0, diamond: 2 } },
            60 => Card { id: 60, tier: 2, gem: Gem::Emerald, points: 2, cost: Cost { onyx: 1, sapphire: 2, emerald: 0, ruby: 0, diamond: 4 } },
            61 => Card { id: 61, tier: 2, gem: Gem::Emerald, points: 2, cost: Cost { onyx: 0, sapphire: 5, emerald: 3, ruby: 0, diamond: 0 } },
            62 => Card { id: 62, tier: 2, gem: Gem::Emerald, points: 2, cost: Cost { onyx: 0, sapphire: 0, emerald: 5, ruby: 0, diamond: 0 } },
            63 => Card { id: 63, tier: 2, gem: Gem::Emerald, points: 3, cost: Cost { onyx: 0, sapphire: 0, emerald: 6, ruby: 0, diamond: 0 } },
            64 => Card { id: 64, tier: 2, gem: Gem::Ruby, points: 1, cost: Cost { onyx: 3, sapphire: 0, emerald: 0, ruby: 2, diamond: 2 } },
            65 => Card { id: 65, tier: 2, gem: Gem::Ruby, points: 1, cost: Cost { onyx: 3, sapphire: 3, emerald: 0, ruby: 2, diamond: 0 } },
            66 => Card { id: 66, tier: 2, gem: Gem::Ruby, points: 2, cost: Cost { onyx: 0, sapphire: 4, emerald: 2, ruby: 0, diamond: 1 } },
            67 => Card { id: 67, tier: 2, gem: Gem::Ruby, points: 2, cost: Cost { onyx: 5, sapphire: 0, emerald: 0, ruby: 0, diamond: 3 } },
            68 => Card { id: 68, tier: 2, gem: Gem::Ruby, points: 2, cost: Cost { onyx: 5, sapphire: 0, emerald: 0, ruby: 0, diamond: 0 } },
            69 => Card { id: 69, tier: 2, gem: Gem::Ruby, points: 3, cost: Cost { onyx: 0, sapphire: 0, emerald: 0, ruby: 6, diamond: 0 } },
            70 => Card { id: 70, tier: 3, gem: Gem::Onyx, points: 3, cost: Cost { onyx: 0, sapphire: 3, emerald: 5, ruby: 3, diamond: 3 } },
            71 => Card { id: 71, tier: 3, gem: Gem::Onyx, points: 4, cost: Cost { onyx: 0, sapphire: 0, emerald: 0, ruby: 7, diamond: 0 } },
            72 => Card { id: 72, tier: 3, gem: Gem::Onyx, points: 4, cost: Cost { onyx: 3, sapphire: 0, emerald: 3, ruby: 6, diamond: 0 } },
            73 => Card { id: 73, tier: 3, gem: Gem::Onyx, points: 5, cost: Cost { onyx: 3, sapphire: 0, emerald: 0, ruby: 7, diamond: 0 } },
            74 => Card { id: 74, tier: 3, gem: Gem::Sapphire, points: 3, cost: Cost { onyx: 5, sapphire: 0, emerald: 3, ruby: 3, diamond: 3 } },
            75 => Card { id: 75, tier: 3, gem: Gem::Sapphire, points: 4, cost: Cost { onyx: 0, sapphire: 0, emerald: 0, ruby: 0, diamond: 7 } },
            76 => Card { id: 76, tier: 3, gem: Gem::Sapphire, points: 4, cost: Cost { onyx: 3, sapphire: 3, emerald: 0, ruby: 0, diamond: 6 } },
            77 => Card { id: 77, tier: 3, gem: Gem::Sapphire, points: 5, cost: Cost { onyx: 0, sapphire: 3, emerald: 0, ruby: 0, diamond: 7 } },
            78 => Card { id: 78, tier: 3, gem: Gem::Diamond, points: 3, cost: Cost { onyx: 3, sapphire: 3, emerald: 3, ruby: 5, diamond: 0 } },
            79 => Card { id: 79, tier: 3, gem: Gem::Diamond, points: 4, cost: Cost { onyx: 7, sapphire: 0, emerald: 0, ruby: 0, diamond: 0 } },
            80 => Card { id: 80, tier: 3, gem: Gem::Diamond, points: 4, cost: Cost { onyx: 6, sapphire: 0, emerald: 0, ruby: 3, diamond: 3 } },
            81 => Card { id: 81, tier: 3, gem: Gem::Diamond, points: 5, cost: Cost { onyx: 7, sapphire: 0, emerald: 0, ruby: 0, diamond: 3 } },
            82 => Card { id: 82, tier: 3, gem: Gem::Emerald, points: 3, cost: Cost { onyx: 3, sapphire: 3, emerald: 0, ruby: 3, diamond: 5 } },
            83 => Card { id: 83, tier: 3, gem: Gem::Emerald, points: 4, cost: Cost { onyx: 0, sapphire: 7, emerald: 0, ruby: 0, diamond: 0 } },
            84 => Card { id: 84, tier: 3, gem: Gem::Emerald, points: 4, cost: Cost { onyx: 0, sapphire: 6, emerald: 3, ruby: 0, diamond: 3 } },
            85 => Card { id: 85, tier: 3, gem: Gem::Emerald, points: 5, cost: Cost { onyx: 0, sapphire: 7, emerald: 3, ruby: 0, diamond: 0 } },
            86 => Card { id: 86, tier: 3, gem: Gem::Ruby, points: 3, cost: Cost { onyx: 3, sapphire: 5, emerald: 3, ruby: 0, diamond: 3 } },
            87 => Card { id: 87, tier: 3, gem: Gem::Ruby, points: 4, cost: Cost { onyx: 0, sapphire: 0, emerald: 7, ruby: 0, diamond: 0 } },
            88 => Card { id: 88, tier: 3, gem: Gem::Ruby, points: 4, cost: Cost { onyx: 0, sapphire: 3, emerald: 6, ruby: 3, diamond: 0 } },
            _ => Card { id: 89, tier: 3, gem: Gem::Ruby, points: 5, cost: Cost { onyx: 0, sapphire: 0, emerald: 7, ruby: 3, diamond: 0 } },
        }
    }

    /// The whole catalogue, indexed by card id.
    pub fn all_const() -> (r: Vec<Card>)
        ensures
            r@.len() == NUM_CARDS,
            forall|i: int| 0 <= i < NUM_CARDS ==> (#[trigger] r@[i]).id == i && r@[i].wf(),
            forall|i: int| 0 <= i < NUM_CARDS ==> #[trigger] r@[i] == card_table(i as u8),
    {
        let mut cards: Vec<Card> = Vec::new();
        let mut i: u8 = 0;
        while (i as usize) < NUM_CARDS
            invariant
                i <= NUM_CARDS,
                cards@.len() == i,
                forall|j: int| 0 <= j < i ==> (#[trigger] cards@[j]).id == j && cards@[j].wf(),
                forall|j: int| 0 <= j < i ==> #[trigger] cards@[j] == card_table(j as u8),
            decreases NUM_CARDS - i,
        {
            cards.push(Card::from_id(i));
            i = i + 1;
        }
        cards
    }

    /// The whole catalogue, indexed by card id.
    pub fn all() -> (r: Vec<Card>)
        ensures
            r@.len() == NUM_CARDS,
            forall|i: int| 0 <= i < NUM_CARDS ==> (#[trigger] r@[i]).id == i && r@[i].wf(),
            forall|i: int| 0 <= i < NUM_CARDS ==> #[trigger] r@[i] == card_table(i as u8),
    {
        Card::all_const()
    }
}

} // verus!
