use crate::card::CardId;
use crate::game::Game;
use crate::gems::Gems;
use crate::nobles::NobleId;
use vstd::prelude::*;

verus! {

/// What every player sees of the board: deck sizes, face-up cards, nobles and
/// the bank, but not the order of the decks.
#[derive(Clone, Debug)]
pub struct Board {
    pub deck_counts: [usize; 3],
    pub available_cards: Vec<Vec<CardId>>,
    pub nobles: Vec<NobleId>,
    pub gems: Gems,
}

impl Board {
    pub fn from_game(game: &Game) -> (r: Board)
        requires
            game.wf(),
        ensures
            forall|t: int| 0 <= t < 3 ==> r.deck_counts@[t] == (#[trigger] game.decks@[t])@.len(),
            r.available_cards@.len() == 3,
            forall|t: int| 0 <= t < 3 ==> (#[trigger] r.available_cards@[t])@ == game.dealt_cards@[t]@,
            r.nobles@.len() == game.nobles@.len(),
            forall|i: int| 0 <= i < r.nobles@.len() ==> (#[trigger] r.nobles@[i]) == game.nobles@[i].id,
            r.gems == game.bank,
    {
        let mut nobles: Vec<NobleId> = Vec::new();
        let mut i: usize = 0;
        while i < game.nobles.len()
            invariant
                i <= game.nobles@.len(),
                nobles@.len() == i,
                forall|j: int| 0 <= j < i ==> (#[trigger] nobles@[j]) == game.nobles@[j].id,
            decreases game.nobles@.len() - i,
        {
            nobles.push(game.nobles[i].id());
            i = i + 1;
        }
        let counts = game.deck_counts();
        proof {
            assert forall|t: int| 0 <= t < 3 implies counts@[t] == (#[trigger] game.decks@[t])@.len() by {
                if t == 0 {
                } else if t == 1 {
                } else {
                }
            }
        }
        Board { deck_counts: counts, available_cards: game.cards(), nobles, gems: *game.bank() }
    }
}

} // verus!
