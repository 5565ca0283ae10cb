use crate::gem::Gem;
use vstd::prelude::*;

verus! {

/// Number of times `g` occurs in `s`.
pub open spec fn occurrences(s: Seq<Gem>, g: Gem) -> int
    decreases s.len(),
{
    if s.len() == 0 {
        0
    } else {
        occurrences(s.drop_last(), g) + (if s.last() == g {
            1int
        } else {
            0int
        })
    }
}

pub proof fn lemma_occurrences_bounds(s: Seq<Gem>, g: Gem)
    ensures
        0 <= occurrences(s, g) <= s.len(),
    decreases s.len(),
{
    if s.len() > 0 {
        lemma_occurrences_bounds(s.drop_last(), g);
    }
}

/// A count of tokens for each of the six colours.
#[derive(PartialEq, Eq, Structural, Copy, Clone, Debug, Hash)]
pub struct Gems {
    pub onyx: i8,
    pub sapphire: i8,
    pub emerald: i8,
    pub ruby: i8,
    pub diamond: i8,
    pub gold: i8,
}

/// Whether `x` fits in an `i8`.
pub open spec fn fits_i8(x: int) -> bool {
    -128 <= x <= 127
}

impl Gems {
    /// The count held for one colour.
    pub open spec fn count(self, g: Gem) -> int {
        match g {
            Gem::Onyx => self.onyx as int,
            Gem::Sapphire => self.sapphire as int,
            Gem::Emerald => self.emerald as int,
            Gem::Ruby => self.ruby as int,
            Gem::Diamond => self.diamond as int,
            Gem::Gold => self.gold as int,
        }
    }

    /// No count is negative.
    pub open spec fn is_legal(self) -> bool {
        self.onyx >= 0 && self.sapphire >= 0 && self.emerald >= 0 && self.ruby >= 0
            && self.diamond >= 0 && self.gold >= 0
    }

    /// Sum of the counts of the five card colours.
    pub open spec fn colored_total(self) -> int {
        self.onyx + self.sapphire + self.emerald + self.ruby + self.diamond
    }

    /// Sum of all six counts.
    pub open spec fn total_spec(self) -> int {
        self.colored_total() + self.gold
    }

    /// Number of card colours with a positive count.
    pub open spec fn distinct_spec(self) -> int {
        (if self.onyx > 0 { 1int } else { 0int }) + (if self.sapphire > 0 { 1int } else { 0int })
            + (if self.emerald > 0 { 1int } else { 0int }) + (if self.ruby > 0 { 1int } else { 0int })
            + (if self.diamond > 0 { 1int } else { 0int })
    }

    /// Every count of `self` is at most the matching count of `o`.
    pub open spec fn le(self, o: Gems) -> bool {
        self.onyx <= o.onyx && self.sapphire <= o.sapphire && self.emerald <= o.emerald
            && self.ruby <= o.ruby && self.diamond <= o.diamond && self.gold <= o.gold
    }

    /// Elementwise sum, stated over unbounded integers.
    pub open spec fn is_sum(self, a: Gems, b: Gems) -> bool {
        self.onyx == a.onyx + b.onyx && self.sapphire == a.sapphire + b.sapphire && self.emerald
            == a.emerald + b.emerald && self.ruby == a.ruby + b.ruby && self.diamond == a.diamond
            + b.diamond && self.gold == a.gold + b.gold
    }

    /// Whether the elementwise sum of `a` and `b` fits in `i8` counts.
    pub open spec fn sum_fits(a: Gems, b: Gems) -> bool {
        fits_i8(a.onyx + b.onyx) && fits_i8(a.sapphire + b.sapphire) && fits_i8(
            a.emerald + b.emerald,
        ) && fits_i8(a.ruby + b.ruby) && fits_i8(a.diamond + b.diamond) && fits_i8(
            a.gold + b.gold,
        )
    }

    /// Whether the elementwise difference `a - b` fits in `i8` counts.
    pub open spec fn diff_fits(a: Gems, b: Gems) -> bool {
        fits_i8(a.onyx - b.onyx) && fits_i8(a.sapphire - b.sapphire) && fits_i8(
            a.emerald - b.emerald,
        ) && fits_i8(a.ruby - b.ruby) && fits_i8(a.diamond - b.diamond) && fits_i8(
            a.gold - b.gold,
        )
    }

    /// The vector with a single token of colour `c`.
    pub open spec fn unit(c: Gem) -> Gems {
        Gems {
            onyx: if c == Gem::Onyx { 1 } else { 0 },
            sapphire: if c == Gem::Sapphire { 1 } else { 0 },
            emerald: if c == Gem::Emerald { 1 } else { 0 },
            ruby: if c == Gem::Ruby { 1 } else { 0 },
            diamond: if c == Gem::Diamond { 1 } else { 0 },
            gold: if c == Gem::Gold { 1 } else { 0 },
        }
    }

    /// The empty vector.
    pub open spec fn zero() -> Gems {
        Gems { onyx: 0, sapphire: 0, emerald: 0, ruby: 0, diamond: 0, gold: 0 }
    }

    /// The starting bank for a game of `players` players.
    pub open spec fn start_spec(players: int) -> Gems {
        if players == 2 {
            Gems { onyx: 4, sapphire: 4, emerald: 4, ruby: 4, diamond: 4, gold: 5 }
        } else if players == 3 {
            Gems { onyx: 5, sapphire: 5, emerald: 5, ruby: 5, diamond: 5, gold: 5 }
        } else {
            Gems { onyx: 7, sapphire: 7, emerald: 7, ruby: 7, diamond: 7, gold: 5 }
        }
    }

    /// The card colours with a positive count, in canonical order.
    pub open spec fn present(self) -> Seq<Gem> {
        (if self.onyx > 0 { seq![Gem::Onyx] } else { Seq::empty() }) + (if self.sapphire > 0 {
            seq![Gem::Sapphire]
        } else {
            Seq::empty()
        }) + (if self.emerald > 0 { seq![Gem::Emerald] } else { Seq::empty() }) + (
        if self.ruby > 0 {
            seq![Gem::Ruby]
        } else {
            Seq::empty()
        }) + (if self.diamond > 0 { seq![Gem::Diamond] } else { Seq::empty() })
    }

    /// All six token colours, in canonical order.
    pub fn all() -> (r: Vec<Gem>)
        ensures
            r@.len() == 6,
            forall|i: int| 0 <= i < 6 ==> r@[i] == Gem::from_index(i),
    {
        Gem::all()
    }

    /// The five card colours, in canonical order.
    pub fn all_expect_gold() -> (r: Vec<Gem>)
        ensures
            r@.len() == 5,
            forall|i: int| 0 <= i < 5 ==> r@[i] == Gem::from_index(i),
    {
        Gem::all_expect_gold()
    }

    /// The count held for one colour.
    pub fn get(&self, g: Gem) -> (r: i8)
        ensures
            r == self.count(g),
    {
        match g {
            Gem::Onyx => self.onyx,
            Gem::Sapphire => self.sapphire,
            Gem::Emerald => self.emerald,
            Gem::Ruby => self.ruby,
            Gem::Diamond => self.diamond,
            Gem::Gold => self.gold,
        }
    }

    /// The vector with the count of `g` replaced by `v`.
    pub open spec fn with(self, g: Gem, v: i8) -> Gems {
        match g {
            Gem::Onyx => Gems { onyx: v, ..self },
            Gem::Sapphire => Gems { sapphire: v, ..self },
            Gem::Emerald => Gems { emerald: v, ..self },
            Gem::Ruby => Gems { ruby: v, ..self },
            Gem::Diamond => Gems { diamond: v, ..self },
            Gem::Gold => Gems { gold: v, ..self },
        }
    }

    /// Replaces the count held for one colour.
    pub fn set(&mut self, g: Gem, v: i8)
        ensures
            *final(self) == old(self).with(g, v),
            final(self).count(g) == v,
            forall|h: Gem| h != g ==> #[trigger] final(self).count(h) == old(self).count(h),
    {
        match g {
            Gem::Onyx => self.onyx = v,
            Gem::Sapphire => self.sapphire = v,
            Gem::Emerald => self.emerald = v,
            Gem::Ruby => self.ruby = v,
            Gem::Diamond => self.diamond = v,
            Gem::Gold => self.gold = v,
        }
    }

    /// The card colours with a positive count, in canonical order.
    pub fn to_set(&self) -> (r: Vec<Gem>)
        ensures
            r@ == self.present(),
    {
        let mut set: Vec<Gem> = Vec::new();
        if self.onyx > 0 {
            set.push(Gem::Onyx);
        }
        if self.sapphire > 0 {
            set.push(Gem::Sapphire);
        }
        if self.emerald > 0 {
            set.push(Gem::Emerald);
        }
        if self.ruby > 0 {
            set.push(Gem::Ruby);
        }
        if self.diamond > 0 {
            set.push(Gem::Diamond);
        }
        assert(set@ =~= self.present());
        set
    }

    /// Counts how often each colour occurs in `vec`.
    pub fn from_vec(vec: &Vec<Gem>) -> (r: Gems)
        requires
            vec@.len() <= 127,
        ensures
            r.is_legal(),
            forall|g: Gem| #[trigger] r.count(g) == occurrences(vec@, g),
    {
        let mut gems = Gems::empty();
        let mut i: usize = 0;
        while i < vec.len()
            invariant
                i <= vec@.len() <= 127,
                forall|g: Gem| #[trigger]
                    gems.count(g) == occurrences(vec@.subrange(0, i as int), g),
            decreases vec@.len() - i,
        {
            let color = vec[i];
            proof {
                assert(vec@.subrange(0, i + 1).drop_last() =~= vec@.subrange(0, i as int));
                lemma_occurrences_bounds(vec@.subrange(0, i as int), color);
            }
            let c = gems.get(color);
            gems.set(color, c + 1);
            i = i + 1;
        }
        assert(vec@.subrange(0, vec@.len() as int) =~= vec@);
        proof {
            assert forall|g: Gem| #[trigger] gems.count(g) >= 0 by {
                lemma_occurrences_bounds(vec@, g);
            }
            assert(gems.count(Gem::Onyx) >= 0);
            assert(gems.count(Gem::Sapphire) >= 0);
            assert(gems.count(Gem::Emerald) >= 0);
            assert(gems.count(Gem::Ruby) >= 0);
            assert(gems.count(Gem::Diamond) >= 0);
            assert(gems.count(Gem::Gold) >= 0);
        }
        gems
    }

    /// Counts how often each colour occurs in `set`.
    pub fn from_set(set: &Vec<Gem>) -> (r: Gems)
        requires
            set@.len() <= 127,
        ensures
            r.is_legal(),
            forall|g: Gem| #[trigger] r.count(g) == occurrences(set@, g),
    {
        Gems::from_vec(set)
    }

    /// Sum of all six counts.
    pub fn total(&self) -> (r: u32)
        requires
            self.is_legal(),
        ensures
            r == self.total_spec(),
    {
        self.onyx as u32 + self.sapphire as u32 + self.emerald as u32 + self.ruby as u32
            + self.diamond as u32 + self.gold as u32
    }

    /// No count is negative.
    pub fn legal(&self) -> (r: bool)
        ensures
            r == self.is_legal(),
    {
        self.onyx >= 0 && self.sapphire >= 0 && self.emerald >= 0 && self.ruby >= 0
            && self.diamond >= 0 && self.gold >= 0
    }

    /// The empty vector.
    pub fn empty() -> (r: Gems)
        ensures
            r == Gems::zero(),
    {
        Gems { onyx: 0, sapphire: 0, emerald: 0, ruby: 0, diamond: 0, gold: 0 }
    }

    /// The starting bank for a game of `players` players.
    pub fn start(players: u8) -> (r: Gems)
        requires
            2 <= players <= 4,
        ensures
            r == Gems::start_spec(players as int),
    {
        if players == 2 {
            Gems { onyx: 4, sapphire: 4, emerald: 4, ruby: 4, diamond: 4, gold: 5 }
        } else if players == 3 {
            Gems { onyx: 5, sapphire: 5, emerald: 5, ruby: 5, diamond: 5, gold: 5 }
        } else {
            Gems { onyx: 7, sapphire: 7, emerald: 7, ruby: 7, diamond: 7, gold: 5 }
        }
    }

    /// Elementwise maximum.
    pub fn max(&self, other: &Gems) -> (r: Gems)
        ensures
            forall|g: Gem| #[trigger]
                r.count(g) == if self.count(g) >= other.count(g) {
                    self.count(g)
                } else {
                    other.count(g)
                },
    {
        Gems {
            onyx: if self.onyx >= other.onyx { self.onyx } else { other.onyx },
            sapphire: if self.sapphire >= other.sapphire { self.sapphire } else { other.sapphire },
            emerald: if self.emerald >= other.emerald { self.emerald } else { other.emerald },
            ruby: if self.ruby >= other.ruby { self.ruby } else { other.ruby },
            diamond: if self.diamond >= other.diamond { self.diamond } else { other.diamond },
            gold: if self.gold >= other.gold { self.gold } else { other.gold },
        }
    }

    /// A single token of colour `color`.
    pub fn one(color: Gem) -> (r: Gems)
        ensures
            r == Gems::unit(color),
    {
        let mut gems = Gems::empty();
        gems.set(color, 1);
        assert(gems == Gems::unit(color)) by {
            assert(gems.count(Gem::Onyx) == Gems::unit(color).count(Gem::Onyx));
            assert(gems.count(Gem::Sapphire) == Gems::unit(color).count(Gem::Sapphire));
            assert(gems.count(Gem::Emerald) == Gems::unit(color).count(Gem::Emerald));
            assert(gems.count(Gem::Ruby) == Gems::unit(color).count(Gem::Ruby));
            assert(gems.count(Gem::Diamond) == Gems::unit(color).count(Gem::Diamond));
            assert(gems.count(Gem::Gold) == Gems::unit(color).count(Gem::Gold));
        }
        gems
    }

    /// Number of card colours with a positive count.
    pub fn distinct(&self) -> (r: usize)
        ensures
            r == self.distinct_spec(),
    {
        let mut count: usize = 0;
        if self.onyx > 0 {
            count += 1;
        }
        if self.sapphire > 0 {
            count += 1;
        }
        if self.emerald > 0 {
            count += 1;
        }
        if self.ruby > 0 {
            count += 1;
        }
        if self.diamond > 0 {
            count += 1;
        }
        count
    }

    /// Whether `self` holds at least `other` of every colour.
    pub fn can_buy(&self, other: &Gems) -> (r: bool)
        ensures
            r == other.le(*self),
    {
        other.onyx <= self.onyx && other.sapphire <= self.sapphire && other.emerald
            <= self.emerald && other.ruby <= self.ruby && other.diamond <= self.diamond
            && other.gold <= self.gold
    }

    /// Elementwise sum.
    pub fn plus(&self, other: &Gems) -> (r: Gems)
        requires
            Gems::sum_fits(*self, *other),
        ensures
            r.is_sum(*self, *other),
    {
        Gems {
            onyx: self.onyx + other.onyx,
            sapphire: self.sapphire + other.sapphire,
            emerald: self.emerald + other.emerald,
            ruby: self.ruby + other.ruby,
            diamond: self.diamond + other.diamond,
            gold: self.gold + other.gold,
        }
    }

    /// Elementwise difference.
    pub fn minus(&self, other: &Gems) -> (r: Gems)
        requires
            Gems::diff_fits(*self, *other),
        ensures
            self.is_sum(r, *other),
    {
        Gems {
            onyx: self.onyx - other.onyx,
            sapphire: self.sapphire - other.sapphire,
            emerald: self.emerald - other.emerald,
            ruby: self.ruby - other.ruby,
            diamond: self.diamond - other.diamond,
            gold: self.gold - other.gold,
        }
    }
}

} // verus!
