use vstd::prelude::*;

verus! {

/// A token colour. `Gold` is the wild token.
#[derive(PartialEq, Eq, Structural, Copy, Clone, Debug, Hash)]
pub enum Gem {
    Onyx,
    Sapphire,
    Emerald,
    Ruby,
    Diamond,
    Gold,
}

impl Gem {
    /// Position of the colour in the canonical order.
    pub open spec fn index(self) -> int {
        match self {
            Gem::Onyx => 0,
            Gem::Sapphire => 1,
            Gem::Emerald => 2,
            Gem::Ruby => 3,
            Gem::Diamond => 4,
            Gem::Gold => 5,
        }
    }

    /// The colour at a position of the canonical order.
    pub open spec fn from_index(i: int) -> Gem {
        if i == 0 {
            Gem::Onyx
        } else if i == 1 {
            Gem::Sapphire
        } else if i == 2 {
            Gem::Emerald
        } else if i == 3 {
            Gem::Ruby
        } else if i == 4 {
            Gem::Diamond
        } else {
            Gem::Gold
        }
    }

    /// The five colours that cards can have, in canonical order.
    pub fn all_expect_gold() -> (r: Vec<Gem>)
        ensures
            r@.len() == 5,
            forall|i: int| 0 <= i < 5 ==> r@[i] == Gem::from_index(i),
    {
        vec![Gem::Onyx, Gem::Sapphire, Gem::Emerald, Gem::Ruby, Gem::Diamond]
    }

    /// All six token colours, in canonical order.
    pub fn all() -> (r: Vec<Gem>)
        ensures
            r@.len() == 6,
            forall|i: int| 0 <= i < 6 ==> r@[i] == Gem::from_index(i),
    {
        vec![Gem::Onyx, Gem::Sapphire, Gem::Emerald, Gem::Ruby, Gem::Diamond, Gem::Gold]
    }
}

} // verus!
