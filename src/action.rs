use crate::card::CardId;
use crate::gem::Gem;
use crate::gems::Gems;
use crate::nobles::NobleId;
use crate::selection::{box_member, members_of_box, small};
use vstd::prelude::*;

verus! {

/// Where the current player stands within a turn.
#[derive(PartialEq, Eq, Structural, Copy, Clone, Debug)]
pub enum Phase {
    /// Take tokens, reserve or purchase.
    PlayerStart,
    /// The player holds more than ten tokens and must discard.
    PlayerGemCapExceeded,
    /// A noble may visit.
    NobleAction,
    /// The turn is over; the next player is up.
    PlayerActionEnd,
}

/// A move of the current player. `TakeDistinct` holds the chosen colours as a
/// vector with one token of each.
#[derive(PartialEq, Eq, Structural, Copy, Clone, Debug)]
pub enum Action {
    TakeDouble(Gem),
    TakeDistinct(Gems),
    Reserve(CardId),
    ReserveHidden(usize),
    Purchase(CardId, Gems),
    Discard(Gems),
    AttractNoble(NobleId),
    /// Marker for the rare case when a player is unable to take
    /// an action, but the game isn't yet over
    Pass,
    /// Marker for passing the turn to the next player
    Continue,
}

/// `x` holds `running` plus `num_chosen` tokens taken from `gems`, one colour at most once,
/// gold never, and no colour that `running` already holds.
pub open spec fn is_distinct_choice(gems: Gems, running: Gems, num_chosen: int, x: Gems) -> bool {
    box_member(running, distinct_ceiling(gems, running), num_chosen, x)
}

/// The most that a distinct choice can reach in each colour.
pub open spec fn distinct_ceiling(gems: Gems, running: Gems) -> Gems {
    Gems {
        onyx: if gems.onyx > 0 && running.onyx == 0 { 1 } else { running.onyx },
        sapphire: if gems.sapphire > 0 && running.sapphire == 0 { 1 } else { running.sapphire },
        emerald: if gems.emerald > 0 && running.emerald == 0 { 1 } else { running.emerald },
        ruby: if gems.ruby > 0 && running.ruby == 0 { 1 } else { running.ruby },
        diamond: if gems.diamond > 0 && running.diamond == 0 { 1 } else { running.diamond },
        gold: running.gold,
    }
}

/// `x` holds `running` plus `num_chosen` tokens taken from `gems`.
pub open spec fn is_choice(gems: Gems, running: Gems, num_chosen: int, x: Gems) -> bool {
    exists|top: Gems| top.is_sum(running, gems) && box_member(running, top, num_chosen, x)
}

/// Every way of adding `num_chosen` tokens of distinct card colours from `gems`
/// to `running`, each once.
pub fn choose_distinct_gems(gems: &mut Gems, running: &mut Gems, num_chosen: u32) -> (r: Vec<Gems>)
    requires
        crate::selection::tiny(*old(gems)),
        crate::selection::tiny(*old(running)),
        num_chosen <= 120,
    ensures
        *final(gems) == *old(gems),
        *final(running) == *old(running),
        r@.no_duplicates(),
        forall|x: Gems| #[trigger]
            r@.contains(x) <==> is_distinct_choice(*old(gems), *old(running), num_chosen as int, x),
{
    let top = Gems {
        onyx: if gems.onyx > 0 && running.onyx == 0 { 1 } else { running.onyx },
        sapphire: if gems.sapphire > 0 && running.sapphire == 0 { 1 } else { running.sapphire },
        emerald: if gems.emerald > 0 && running.emerald == 0 { 1 } else { running.emerald },
        ruby: if gems.ruby > 0 && running.ruby == 0 { 1 } else { running.ruby },
        diamond: if gems.diamond > 0 && running.diamond == 0 { 1 } else { running.diamond },
        gold: running.gold,
    };
    members_of_box(running, &top, num_chosen as i8)
}

/// Every way of adding `num_chosen` tokens from `gems` to `running`, each once.
pub fn choose_gems(gems: &mut Gems, running: &mut Gems, num_chosen: u32) -> (r: Vec<Gems>)
    requires
        crate::selection::tiny(*old(gems)),
        crate::selection::tiny(*old(running)),
        num_chosen <= 120,
    ensures
        *final(gems) == *old(gems),
        *final(running) == *old(running),
        r@.no_duplicates(),
        forall|x: Gems| #[trigger]
            r@.contains(x) <==> is_choice(*old(gems), *old(running), num_chosen as int, x),
{
    let top = running.plus(gems);
    let r = members_of_box(running, &top, num_chosen as i8);
    proof {
        assert forall|x: Gems| #[trigger]
            r@.contains(x) <==> is_choice(*old(gems), *old(running), num_chosen as int, x) by {
            if is_choice(*old(gems), *old(running), num_chosen as int, x) {
                let t = choose|t: Gems| t.is_sum(*old(running), *old(gems)) && box_member(*old(running), t, num_chosen as int, x);
                assert(t == top);
            }
        }
    }
    r
}

} // verus!
