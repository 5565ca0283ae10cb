use splendor_arena::action::{Action, Phase};
use splendor_arena::card::Card;
use splendor_arena::game::Game;
use splendor_arena::gem::Gem;
use splendor_arena::gems::Gems;
use splendor_arena::player::Player;
use std::collections::HashSet;
use std::sync::Arc;

fn count(actions: &[Action], pred: fn(&Action) -> bool) -> usize {
    actions.iter().filter(|a| pred(a)).count()
}

fn finish_turn(game: &mut Game) {
    game.play_action(Action::Pass);
    game.play_action(Action::Continue);
}

#[test]
fn two_player_opening_has_thirty_actions() {
    let game = Game::new(2, Arc::new(Card::all()));
    let actions = game.get_legal_actions().unwrap();
    assert_eq!(actions.len(), 30);
    assert_eq!(count(&actions, |a| matches!(a, Action::ReserveHidden(_))), 3);
    assert_eq!(count(&actions, |a| matches!(a, Action::Reserve(_))), 12);
    assert_eq!(count(&actions, |a| matches!(a, Action::TakeDouble(_))), 5);
    assert_eq!(count(&actions, |a| matches!(a, Action::TakeDistinct(_))), 10);
    assert_eq!(count(&actions, |a| matches!(a, Action::Purchase(_, _))), 0);
    for a in actions.iter() {
        if let Action::TakeDistinct(s) = a {
            assert_eq!(s.total(), 3);
            assert_eq!(s.gold, 0);
        }
    }
}

#[test]
fn double_take_then_noble_pass() {
    let mut game = Game::new(2, Arc::new(Card::all()));
    game.play_action(Action::TakeDouble(Gem::Onyx));
    assert_eq!(game.phase(), Phase::NobleAction);
    assert_eq!(game.get_legal_actions().unwrap(), vec![Action::Pass]);
    assert_eq!(game.players()[0].gems().onyx, 2);
    assert_eq!(game.bank().onyx, 2);
    game.play_action(Action::Pass);
    assert_eq!(game.phase(), Phase::PlayerActionEnd);
    assert_eq!(game.get_legal_actions().unwrap(), vec![Action::Continue]);
    game.play_action(Action::Continue);
    assert_eq!(game.current_player_num(), 1);
    assert_eq!(game.phase(), Phase::PlayerStart);
    // The onyx pile is down to two, so taking two onyx is no longer open.
    let actions = game.get_legal_actions().unwrap();
    assert_eq!(actions.len(), 29);
    assert!(!actions.contains(&Action::TakeDouble(Gem::Onyx)));
}

#[test]
fn exhausting_a_pile_removes_double_take() {
    let mut game = Game::new(4, Arc::new(Card::all()));
    assert_eq!(*game.bank(), Gems { onyx: 7, sapphire: 7, emerald: 7, ruby: 7, diamond: 7, gold: 5 });
    for k in 1..=2 {
        assert!(game.play_action(Action::TakeDouble(Gem::Ruby)));
        assert_eq!(game.bank().ruby, 7 - 2 * k);
        finish_turn(&mut game);
    }
    assert_eq!(game.bank().ruby, 3);
    let actions = game.get_legal_actions().unwrap();
    assert!(!actions.contains(&Action::TakeDouble(Gem::Ruby)));
    // A third double take would leave one ruby, but a pile under four is closed to it.
    assert!(!game.play_action(Action::TakeDouble(Gem::Ruby)));
    assert_eq!(game.bank().ruby, 3);
    assert!(actions.contains(&Action::TakeDouble(Gem::Onyx)));
}

#[test]
fn purchase_with_gold_has_one_payment() {
    let mut player = Player::new();
    player.add_gems(Gems { onyx: 0, sapphire: 0, emerald: 1, ruby: 1, diamond: 0, gold: 1 });
    let card = Card::all()[4];
    assert_eq!(card.cost().ruby, 1);
    assert_eq!(card.cost().emerald, 2);
    let options = player.payment_options_for(&card).unwrap();
    assert_eq!(options, vec![Gems { onyx: 0, sapphire: 0, emerald: 1, ruby: 1, diamond: 0, gold: 1 }]);
}

#[test]
fn ambiguous_payment_has_three_choices() {
    let mut player = Player::new();
    player.add_gems(Gems { onyx: 1, sapphire: 0, emerald: 2, ruby: 1, diamond: 0, gold: 1 });
    let card = Card::all()[4];
    let options: HashSet<Gems> = player.payment_options_for(&card).unwrap().into_iter().collect();
    assert_eq!(options.len(), 3);
    assert!(options.contains(&Gems { onyx: 0, sapphire: 0, emerald: 2, ruby: 1, diamond: 0, gold: 0 }));
    assert!(options.contains(&Gems { onyx: 0, sapphire: 0, emerald: 1, ruby: 1, diamond: 0, gold: 1 }));
    assert!(options.contains(&Gems { onyx: 0, sapphire: 0, emerald: 2, ruby: 0, diamond: 0, gold: 1 }));
}

#[test]
fn deadlocked_game_ends_without_winner() {
    let mut game = Game::new(2, Arc::new(Card::all()));
    game.decks = vec![Vec::new(), Vec::new(), Vec::new()];
    game.dealt_cards = vec![Vec::new(), Vec::new(), Vec::new()];
    game.bank = Gems::empty();
    game.players[0].gems = Gems { onyx: 2, sapphire: 2, emerald: 2, ruby: 2, diamond: 1, gold: 0 };
    game.players[1].gems = Gems { onyx: 2, sapphire: 2, emerald: 2, ruby: 2, diamond: 1, gold: 0 };
    for seat in 0..2 {
        assert_eq!(game.current_player_num(), seat);
        assert_eq!(game.get_legal_actions().unwrap(), vec![Action::Pass]);
        game.play_action(Action::Pass);
        assert_eq!(game.get_legal_actions().unwrap(), vec![Action::Pass]);
        game.play_action(Action::Pass);
        if seat == 0 {
            assert_eq!(game.get_legal_actions().unwrap(), vec![Action::Continue]);
            game.play_action(Action::Continue);
        }
    }
    assert_eq!(game.deadlock_count, 4);
    assert_eq!(game.get_legal_actions(), None);
    assert_eq!(game.get_winner(), None);
    let mut game = Game::new(2, Arc::new(Card::all()));
    game.decks = vec![Vec::new(), Vec::new(), Vec::new()];
    game.dealt_cards = vec![Vec::new(), Vec::new(), Vec::new()];
    game.bank = Gems::empty();
    game.play_action(Action::Pass);
    game.play_action(Action::Pass);
    game.play_action(Action::Continue);
    game.play_action(Action::Pass);
    game.play_action(Action::Pass);
    assert_eq!(game.get_legal_actions(), None);
    assert!(game.game_over());
    assert_eq!(game.get_winner(), None);
}

#[test]
fn too_many_tokens_forces_a_discard_to_ten() {
    let mut game = Game::new(2, Arc::new(Card::all()));
    let held = Gems { onyx: 2, sapphire: 2, emerald: 2, ruby: 2, diamond: 1, gold: 0 };
    game.players[0].gems = held;
    game.bank = Gems::start(2).minus(&held);
    let take = Gems::from_vec(&vec![Gem::Onyx, Gem::Ruby, Gem::Emerald]);
    assert!(game.play_action(Action::TakeDistinct(take)));
    assert_eq!(game.phase(), Phase::PlayerGemCapExceeded);
    assert_eq!(game.players()[0].gems().total(), 12);
    let discards = game.get_legal_actions().unwrap();
    assert!(!discards.is_empty());
    for a in discards.iter() {
        match a {
            Action::Discard(d) => assert_eq!(d.total(), 2),
            _ => panic!("only discards are open"),
        }
    }
    assert!(!game.play_action(Action::Discard(Gems::one(Gem::Ruby))));
    assert!(game.play_action(discards[0]));
    assert_eq!(game.players()[0].gems().total(), 10);
    assert_eq!(game.phase(), Phase::NobleAction);
    let total: u32 = game.players().iter().map(|p| p.gems().total()).sum::<u32>() + game.bank().total();
    assert_eq!(total, 25);
}

#[test]
fn reserving_hands_out_gold_and_caps_at_three() {
    let mut game = Game::new(2, Arc::new(Card::all()));
    let face_up = game.cards()[0][0];
    game.play_action(Action::Reserve(face_up));
    assert_eq!(game.players()[0].gems().gold, 1);
    assert_eq!(game.bank().gold, 4);
    assert_eq!(game.players()[0].all_reserved(), vec![face_up]);
    assert_eq!(game.cards()[0].len(), 4);
    assert!(!game.cards()[0].contains(&face_up));
    assert_eq!(game.deck_counts(), [35, 26, 16]);
    finish_turn(&mut game);
    finish_turn_for_other(&mut game);
    game.play_action(Action::ReserveHidden(2));
    finish_turn(&mut game);
    finish_turn_for_other(&mut game);
    game.play_action(Action::ReserveHidden(1));
    finish_turn(&mut game);
    finish_turn_for_other(&mut game);
    assert_eq!(game.players()[0].num_reserved_cards(), 3);
    assert_eq!(game.players()[0].blind_reserved().len(), 2);
    assert_eq!(game.players()[0].public_reserved(), vec![face_up]);
    let actions = game.get_legal_actions().unwrap();
    assert!(!actions.iter().any(|a| matches!(a, Action::Reserve(_) | Action::ReserveHidden(_))));
}

fn finish_turn_for_other(game: &mut Game) {
    let actions = game.get_legal_actions().unwrap();
    let take = actions
        .iter()
        .find(|a| matches!(a, Action::TakeDistinct(_)))
        .cloned()
        .unwrap_or(Action::Pass);
    assert!(game.play_action(take));
    finish_turn(game);
}

#[test]
fn winner_has_most_points_then_fewest_developments() {
    let mut game = Game::new(3, Arc::new(Card::all()));
    game.players[0].points = 16;
    game.players[1].points = 16;
    game.players[2].points = 12;
    game.players[0].developments = Gems { onyx: 3, sapphire: 3, emerald: 0, ruby: 0, diamond: 0, gold: 0 };
    game.players[1].developments = Gems { onyx: 2, sapphire: 3, emerald: 0, ruby: 0, diamond: 0, gold: 0 };
    assert_eq!(game.get_winner(), Some(1));
    game.players[1].developments = game.players[0].developments;
    assert_eq!(game.get_winner(), None);
    game.players[2].points = 17;
    assert_eq!(game.get_winner(), Some(2));
    game.players[2].points = 14;
    game.players[0].points = 14;
    game.players[1].points = 13;
    assert_eq!(game.get_winner(), None);
}

#[test]
fn game_ends_after_last_seat_once_someone_reaches_fifteen() {
    let mut game = Game::new(2, Arc::new(Card::all()));
    game.players[0].points = 15;
    game.play_action(Action::TakeDouble(Gem::Onyx));
    game.play_action(Action::Pass);
    assert_eq!(game.get_legal_actions().unwrap(), vec![Action::Continue]);
    game.play_action(Action::Continue);
    game.play_action(Action::TakeDouble(Gem::Ruby));
    game.play_action(Action::Pass);
    assert_eq!(game.get_legal_actions(), None);
    assert!(game.game_over());
    assert_eq!(game.get_winner(), Some(0));
}

#[test]
fn purchase_moves_payment_to_bank_and_scores() {
    let mut game = Game::new(2, Arc::new(Card::all()));
    let cards = Card::all();
    game.with_initial_cards(vec![
        vec![cards[4], cards[10], cards[8], cards[17]],
        vec![cards[43], cards[66], cards[47], cards[67]],
        vec![cards[89], cards[80], cards[86], cards[74]],
    ]);
    game.players[0].gems = Gems { onyx: 0, sapphire: 0, emerald: 2, ruby: 1, diamond: 0, gold: 0 };
    game.bank = Gems { onyx: 4, sapphire: 4, emerald: 2, ruby: 3, diamond: 4, gold: 5 };
    let pay = Gems { onyx: 0, sapphire: 0, emerald: 2, ruby: 1, diamond: 0, gold: 0 };
    let actions = game.get_legal_actions().unwrap();
    assert!(actions.contains(&Action::Purchase(4, pay)));
    game.play_action(Action::Purchase(4, pay));
    assert_eq!(*game.players()[0].gems(), Gems::empty());
    assert_eq!(game.players()[0].developments().onyx, 1);
    assert_eq!(*game.bank(), Gems::start(2));
    assert!(!game.cards()[0].contains(&4));
    assert_eq!(game.cards()[0].len(), 4);
    assert_eq!(game.phase(), Phase::NobleAction);
}

#[test]
fn noble_visits_when_developments_suffice() {
    let mut game = Game::new(2, Arc::new(Card::all()));
    game.with_nobles(vec![0, 3, 5]);
    game.players[0].developments = Gems { onyx: 0, sapphire: 0, emerald: 4, ruby: 4, diamond: 0, gold: 0 };
    game.play_action(Action::TakeDouble(Gem::Onyx));
    assert_eq!(game.get_legal_actions().unwrap(), vec![Action::AttractNoble(0)]);
    assert!(!game.is_legal_action(Action::Pass));
    game.play_action(Action::AttractNoble(0));
    assert_eq!(game.players()[0].total_points(), 3);
    assert_eq!(game.players()[0].noble_points(), 3);
    assert_eq!(game.nobles().len(), 2);
    assert_eq!(game.phase(), Phase::PlayerActionEnd);
}

#[test]
fn illegal_actions_are_refused_and_change_nothing() {
    let mut game = Game::new(2, Arc::new(Card::all()));
    let bank = *game.bank();
    assert!(!game.play_action(Action::TakeDouble(Gem::Gold)));
    assert!(!game.play_action(Action::Continue));
    assert!(!game.play_action(Action::Discard(Gems::one(Gem::Ruby))));
    assert_eq!(*game.bank(), bank);
    assert_eq!(game.history().history.len(), 0);
    assert_eq!(game.phase(), Phase::PlayerStart);
    assert!(game.play_action(Action::TakeDouble(Gem::Ruby)));
    game.play_action(Action::Pass);
    game.play_action(Action::Continue);
    assert!(!game.play_action(Action::TakeDouble(Gem::Ruby)));
    assert_eq!(game.bank().ruby, 2);
}

#[test]
fn new_game_deals_distinct_cards_from_each_tier() {
    let game = Game::new(3, Arc::new(Card::all()));
    let cards = Card::all();
    for tier in 0..3 {
        let face_up = &game.cards()[tier];
        let mut ids: Vec<u8> = face_up.clone();
        ids.sort();
        ids.dedup();
        assert_eq!(ids.len(), 4);
        let mut all: Vec<u8> = game.decks[tier].iter().map(|c| c.id()).chain(face_up.iter().cloned()).collect();
        all.sort();
        let expected: Vec<u8> = cards.iter().filter(|c| c.tier() as usize == tier + 1).map(|c| c.id()).collect();
        assert_eq!(all, expected);
    }
    let mut nobles: Vec<u8> = game.nobles().iter().map(|n| n.id()).collect();
    nobles.sort();
    nobles.dedup();
    assert_eq!(nobles.len(), 4);
}

#[test]
fn take_distinct_with_two_piles_left_takes_two() {
    let mut game = Game::new(2, Arc::new(Card::all()));
    game.bank = Gems { onyx: 0, sapphire: 1, emerald: 0, ruby: 2, diamond: 0, gold: 5 };
    game.decks = vec![Vec::new(), Vec::new(), Vec::new()];
    game.dealt_cards = vec![Vec::new(), Vec::new(), Vec::new()];
    let actions = game.get_legal_actions().unwrap();
    assert_eq!(
        actions,
        vec![Action::TakeDistinct(Gems { onyx: 0, sapphire: 1, emerald: 0, ruby: 1, diamond: 0, gold: 0 })]
    );
    assert!(!game.is_legal_action(Action::TakeDistinct(Gems::one(Gem::Ruby))));
}

#[test]
fn replaying_a_log_reproduces_the_moves() {
    let mut game = Game::new(2, Arc::new(Card::all()));
    let start = game.clone();
    game.play_action(Action::TakeDouble(Gem::Onyx));
    finish_turn(&mut game);
    game.play_action(Action::TakeDouble(Gem::Ruby));
    finish_turn(&mut game);
    let mut replay = start.clone();
    let played = replay.advance_history_with(game.history());
    assert_eq!(played, 6);
    assert_eq!(replay.history().history, game.history().history);
    assert_eq!(*replay.bank(), *game.bank());
    assert_eq!(replay.current_player_num(), game.current_player_num());
    let mut partial = start.clone();
    let mut log = game.history();
    log.history.insert(1, (0, Action::Continue));
    assert_eq!(partial.advance_history_with(log), 1);
}
