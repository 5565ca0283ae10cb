use splendor_arena::action::{choose_distinct_gems, choose_gems, Action};
use splendor_arena::card::Card;
use splendor_arena::game::Game;
use splendor_arena::gem::Gem;
use splendor_arena::gems::Gems;
use std::collections::HashSet;
use std::sync::Arc;

#[test]
fn test_choose_tokens_1() {
    let mut gems = Gems::from_vec(&vec![
        Gem::Ruby,
        Gem::Sapphire,
        Gem::Sapphire,
        Gem::Sapphire,
        Gem::Sapphire,
        Gem::Sapphire,
        Gem::Sapphire,
        Gem::Sapphire,
        Gem::Sapphire,
        Gem::Sapphire,
        Gem::Emerald,
    ]);
    let mut running = Gems::empty();
    let choices = choose_gems(&mut gems, &mut running, 1);
    assert_eq!(
        choices.into_iter().collect::<HashSet<_>>(),
        HashSet::from_iter(vec![
            Gems::from_vec(&vec![Gem::Ruby]),
            Gems::from_vec(&vec![Gem::Sapphire]),
            Gems::from_vec(&vec![Gem::Emerald]),
        ])
    );
}

#[test]
fn test_choose_tokens_2() {
    let mut gems = Gems::from_vec(&vec![
        Gem::Ruby,
        Gem::Ruby,
        Gem::Sapphire,
        Gem::Sapphire,
        Gem::Sapphire,
        Gem::Sapphire,
        Gem::Sapphire,
        Gem::Sapphire,
        Gem::Sapphire,
        Gem::Sapphire,
        Gem::Sapphire,
        Gem::Emerald,
    ]);
    let mut running = Gems::empty();
    let choices = choose_gems(&mut gems, &mut running, 2);
    assert_eq!(
        choices.into_iter().collect::<HashSet<_>>(),
        HashSet::from_iter(vec![
            Gems::from_vec(&vec![Gem::Ruby, Gem::Ruby]),
            Gems::from_vec(&vec![Gem::Sapphire, Gem::Sapphire]),
            Gems::from_vec(&vec![Gem::Emerald, Gem::Sapphire]),
            Gems::from_vec(&vec![Gem::Ruby, Gem::Sapphire]),
            Gems::from_vec(&vec![Gem::Ruby, Gem::Emerald]),
        ])
    );
}

#[test]
fn test_choose_3_distinct_tokens() {
    let mut gems = Gems::start(2);
    let mut running = Gems::empty();
    let choices = choose_distinct_gems(&mut gems, &mut running, 3);
    assert_eq!(
        choices.into_iter().collect::<HashSet<_>>(),
        HashSet::from_iter(vec![
            Gems::from_vec(&vec![Gem::Ruby, Gem::Sapphire, Gem::Emerald]),
            Gems::from_vec(&vec![Gem::Ruby, Gem::Sapphire, Gem::Diamond]),
            Gems::from_vec(&vec![Gem::Ruby, Gem::Sapphire, Gem::Onyx]),
            Gems::from_vec(&vec![Gem::Ruby, Gem::Emerald, Gem::Diamond]),
            Gems::from_vec(&vec![Gem::Ruby, Gem::Emerald, Gem::Onyx]),
            Gems::from_vec(&vec![Gem::Ruby, Gem::Diamond, Gem::Onyx]),
            Gems::from_vec(&vec![Gem::Sapphire, Gem::Emerald, Gem::Diamond]),
            Gems::from_vec(&vec![Gem::Sapphire, Gem::Emerald, Gem::Onyx]),
            Gems::from_vec(&vec![Gem::Sapphire, Gem::Diamond, Gem::Onyx]),
            Gems::from_vec(&vec![Gem::Emerald, Gem::Diamond, Gem::Onyx]),
        ])
    );
}

#[test]
fn test_choose_distinct_tokens() {
    let mut gems = Gems::from_vec(&vec![
        Gem::Ruby,
        Gem::Ruby,
        Gem::Sapphire,
        Gem::Sapphire,
        Gem::Sapphire,
        Gem::Sapphire,
        Gem::Sapphire,
        Gem::Sapphire,
        Gem::Sapphire,
        Gem::Sapphire,
        Gem::Sapphire,
        Gem::Emerald,
    ]);
    let mut running = Gems::empty();
    let choices = choose_distinct_gems(&mut gems, &mut running, 2);
    assert_eq!(
        choices.into_iter().collect::<HashSet<_>>(),
        HashSet::from_iter(vec![
            Gems::from_vec(&vec![Gem::Emerald, Gem::Sapphire]),
            Gems::from_vec(&vec![Gem::Ruby, Gem::Sapphire]),
            Gems::from_vec(&vec![Gem::Ruby, Gem::Emerald]),
        ])
    );
}

#[test]
fn test_init_legal_actions() {
    let card_lookup = Arc::new(Card::all());
    let game = Game::new(2, card_lookup);
    let actions = game.get_legal_actions().unwrap();

    // 3 hiddens decks to choose from (ReserveHidden)
    // 12 cards to choose from (Reserve)
    // 5 colors to choose from (TakeDouble)
    // 5 choose 3 = 10 colors to choose from (TakeDistinct)
    // 0 cards able to be purchased
    // sum = 30
    assert_eq!(actions.len(), 30);
}

#[test]
fn test_init_winners() {
    let game = Game::new(2, Arc::new(Card::all()));
    assert_eq!(game.get_winner(), None);
}

#[test]
fn test_init_legal_rounds_specific_board_state() {
    let mut game = Game::new(3, Arc::new(Card::all()));
    let cards = Card::all();
    game.with_nobles(vec![2, 3, 0, 9]);
    game.with_initial_cards(vec![
        vec![cards[31], cards[10], cards[8], cards[17]],
        vec![cards[43], cards[66], cards[47], cards[67]],
        vec![cards[89], cards[80], cards[86], cards[74]],
    ]);
    game.play_action(Action::TakeDouble(Gem::Onyx));
    game.play_action(Action::Pass);
    game.play_action(Action::Continue);

    let actions = game.get_legal_actions().unwrap();
    assert_eq!(actions.len(), 29);
    assert_eq!(!actions.contains(&Action::TakeDouble(Gem::Onyx)), true);

    game.play_action(Action::TakeDistinct(Gems::from_vec(&vec![
        Gem::Diamond,
        Gem::Emerald,
        Gem::Ruby,
    ])));
    game.play_action(Action::Pass);
    game.play_action(Action::Continue);

    let actions = game.get_legal_actions().unwrap();
    assert_eq!(actions.len(), 29);
    assert_eq!(!actions.contains(&Action::TakeDouble(Gem::Onyx)), true);

    game.play_action(Action::TakeDouble(Gem::Diamond));
    game.play_action(Action::Pass);
    game.play_action(Action::Continue);

    let actions = game.get_legal_actions().unwrap();
    assert_eq!(actions.len(), 28);

    game.play_action(Action::TakeDistinct(Gems::from_vec(&vec![
        Gem::Diamond,
        Gem::Emerald,
        Gem::Ruby,
    ])));
    game.play_action(Action::Pass);
    game.play_action(Action::Continue);

    let actions = game.get_legal_actions().unwrap();
    assert_eq!(actions.len(), 26);

    game.play_action(Action::TakeDistinct(Gems::from_vec(&vec![
        Gem::Diamond,
        Gem::Emerald,
        Gem::Ruby,
    ])));
    game.play_action(Action::Pass);
    game.play_action(Action::Continue);

    let actions = game.get_legal_actions().unwrap();
    assert_eq!(actions.len(), 30 - 4 - 6);

    game.play_action(Action::TakeDouble(Gem::Sapphire));
    game.play_action(Action::Pass);
    game.play_action(Action::Continue);

    let actions = game.get_legal_actions().unwrap();
    assert_eq!(actions.len(), 30 - 5 - 6 + 1);

    game.play_action(Action::Purchase(
        8,
        Gems::from_vec(&vec![Gem::Diamond, Gem::Emerald, Gem::Ruby, Gem::Onyx]),
    ));
    game.play_action(Action::Pass);
    game.play_action(Action::Continue);

    let actions = game.get_legal_actions().unwrap();
    assert!((actions.len() == 30 - 4 + 1) || (actions.len() == 30 - 4 + 2));
}

#[test]
fn test_init_legal_round() {
    let card_lookup = Arc::new(Card::all());
    let mut game = Game::new(4, card_lookup);
    let actions = game.get_legal_actions().unwrap();

    assert_eq!(actions.len(), 30);
    game.play_action(Action::ReserveHidden(0));
    game.play_action(Action::Pass);
    let actions = game.get_legal_actions().unwrap();
    assert_eq!(Action::Continue, actions[0].clone());

    game.play_action(Action::Continue);
    let actions = game.get_legal_actions().unwrap();
    assert_eq!(actions.len(), 30);
}
