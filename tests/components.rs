use splendor_arena::action::Action;
use splendor_arena::arena::{ArenaBuilder, ClientId};
use splendor_arena::card::{Card, Cost};
use splendor_arena::clock::Clock;
use splendor_arena::gem::Gem;
use splendor_arena::gems::Gems;
use splendor_arena::history::GameHistory;
use splendor_arena::models::GameUpdate;
use splendor_arena::nobles::Noble;
use splendor_arena::protocol::Refusal;

#[test]
fn starting_banks_by_player_count() {
    assert_eq!(Gems::start(2), Gems { onyx: 4, sapphire: 4, emerald: 4, ruby: 4, diamond: 4, gold: 5 });
    assert_eq!(Gems::start(3), Gems { onyx: 5, sapphire: 5, emerald: 5, ruby: 5, diamond: 5, gold: 5 });
    assert_eq!(Gems::start(4), Gems { onyx: 7, sapphire: 7, emerald: 7, ruby: 7, diamond: 7, gold: 5 });
    assert_eq!(Gems::start(4).total(), 40);
    assert_eq!(Gems::start(2).distinct(), 5);
}

#[test]
fn gem_vector_arithmetic() {
    let a = Gems { onyx: 1, sapphire: 0, emerald: 2, ruby: 0, diamond: 3, gold: 1 };
    let b = Gems { onyx: 2, sapphire: 1, emerald: 0, ruby: 0, diamond: 1, gold: 0 };
    assert_eq!(a.plus(&b), Gems { onyx: 3, sapphire: 1, emerald: 2, ruby: 0, diamond: 4, gold: 1 });
    assert_eq!(a.plus(&b).minus(&b), a);
    assert_eq!(a.max(&b), Gems { onyx: 2, sapphire: 1, emerald: 2, ruby: 0, diamond: 3, gold: 1 });
    assert_eq!(a.distinct(), 3);
    assert_eq!(a.total(), 7);
    assert!(a.legal());
    assert!(!Gems { onyx: -1, sapphire: 0, emerald: 0, ruby: 0, diamond: 0, gold: 0 }.legal());
    assert!(a.plus(&b).can_buy(&b));
    assert!(!a.can_buy(&b));
    assert_eq!(a.to_set(), vec![Gem::Onyx, Gem::Emerald, Gem::Diamond]);
    assert_eq!(Gems::from_set(&vec![Gem::Ruby, Gem::Gold]), Gems { onyx: 0, sapphire: 0, emerald: 0, ruby: 1, diamond: 0, gold: 1 });
    assert_eq!(Gems::one(Gem::Gold).gold, 1);
    assert_eq!(Gems::all().len(), 6);
    assert_eq!(Gems::all_expect_gold(), vec![Gem::Onyx, Gem::Sapphire, Gem::Emerald, Gem::Ruby, Gem::Diamond]);
    let mut c = a;
    c.set(Gem::Ruby, 4);
    assert_eq!(c.get(Gem::Ruby), 4);
}

#[test]
fn discount_stops_at_zero() {
    let cost = Cost { onyx: 3, sapphire: 0, emerald: 2, ruby: 1, diamond: 0 };
    let dev = Gems { onyx: 1, sapphire: 2, emerald: 5, ruby: 1, diamond: 0, gold: 0 };
    assert_eq!(cost.discounted_with(&dev), Cost { onyx: 2, sapphire: 0, emerald: 0, ruby: 0, diamond: 0 });
    assert_eq!(cost.to_gems(), Gems { onyx: 3, sapphire: 0, emerald: 2, ruby: 1, diamond: 0, gold: 0 });
    assert_eq!(Cost::from_gems(&cost.to_gems()), cost);
}

#[test]
fn catalogues_are_indexed_by_id() {
    let cards = Card::all();
    assert_eq!(cards.len(), 90);
    for (i, card) in cards.iter().enumerate() {
        assert_eq!(card.id() as usize, i);
        assert_ne!(card.gem(), Gem::Gold);
        assert!(card.points() <= 5);
    }
    assert_eq!(cards.iter().filter(|c| c.tier() == 1).count(), 40);
    assert_eq!(cards.iter().filter(|c| c.tier() == 2).count(), 30);
    assert_eq!(cards.iter().filter(|c| c.tier() == 3).count(), 20);
    assert_eq!(Card::all_const(), cards);
    let nobles = Noble::all();
    assert_eq!(nobles.len(), 10);
    assert_eq!(Noble::from_id(3), nobles[3]);
    assert_eq!(nobles[0].points(), 3);
    assert_eq!(nobles[0].requirements().emerald, 4);
    let dev = Gems { onyx: 0, sapphire: 0, emerald: 4, ruby: 4, diamond: 0, gold: 0 };
    assert!(nobles[0].is_attracted_to(&dev));
    assert!(!nobles[1].is_attracted_to(&dev));
}

#[test]
fn clock_charges_time_and_times_out() {
    let mut clock = Clock::new(2, 1000, 100);
    assert_eq!(clock.time_remaining(0), 0);
    clock.start(5000);
    assert_eq!(clock.current_player, Some(0));
    assert_eq!(clock.time_remaining(5400), 700);
    clock.end(5400);
    assert_eq!(clock.total_time, vec![700, 1000]);
    clock.next_player();
    clock.start(6000);
    assert_eq!(clock.current_player, Some(1));
    assert_eq!(clock.total_time, vec![700, 1100]);
    clock.end(8000);
    assert_eq!(clock.timed_out, vec![false, true]);
    assert_eq!(clock.total_time, vec![700, 0]);
    assert_eq!(clock.time_remaining(8000), 0);
    clock.next_player();
    assert_eq!(clock.current_player, Some(0));
}

fn entry(p: usize, a: Action) -> (usize, Action) {
    (p, a)
}

#[test]
fn history_groups_turns() {
    let mut h = GameHistory::new();
    h.add(0, Action::TakeDouble(Gem::Ruby));
    h.add(0, Action::Pass);
    h.add(0, Action::Continue);
    h.add(1, Action::Pass);
    h.add(1, Action::Pass);
    h.add(1, Action::Continue);
    h.add(0, Action::Pass);
    assert_eq!(h.num_moves(), 2);
    let turns = h.group_by_player();
    assert_eq!(turns.len(), 3);
    assert_eq!(turns[0].len(), 3);
    assert_eq!(turns[1], vec![entry(1, Action::Pass), entry(1, Action::Pass), entry(1, Action::Continue)]);
    assert_eq!(turns[2], vec![entry(0, Action::Pass)]);
    assert_eq!(h.take_until_move(0).history.len(), 3);
    assert_eq!(h.take_until_move(1).history.len(), 6);
    assert_eq!(h.take_until_move(5).history.len(), 7);
    assert_eq!(h.take_until_move(-1).history.len(), 0);
    assert_eq!(h.history_since_player(0).history, vec![entry(0, Action::Pass)]);
    assert_eq!(h.history_since_player(1).history.len(), 0);
    h.undo();
    assert_eq!(h.history_since_player(1).history.len(), 3);
    assert_eq!(GameHistory::from(h.history.clone()).history, h.history);
}

#[test]
fn arena_admits_only_its_seats_once() {
    let arena = ArenaBuilder::new().num_players(2).port(4040).build();
    let seats = arena.allowed_clients();
    assert_eq!(seats.len(), 2);
    assert_eq!(arena.port(), 4040);
    assert_eq!(arena.num_players(), 2);
    assert_eq!(arena.check_connection(seats[0], &vec![]), Ok(()));
    assert_eq!(arena.check_connection(seats[0], &vec![seats[0]]), Err(Refusal::AlreadyConnected));
    let stranger = ClientId(seats[0].0 ^ seats[1].0 ^ 1);
    if !seats.contains(&stranger) {
        assert_eq!(arena.check_connection(stranger, &vec![]), Err(Refusal::NotAllowed));
    }
}

#[test]
fn arena_turns_follow_the_clock() {
    let mut arena = ArenaBuilder::new().num_players(2).initial_time(1000).increment(0).build();
    assert_eq!(arena.initial_time(), 1000);
    assert_eq!(arena.increment(), 0);
    assert_eq!(arena.current_player_id(), None);
    assert_eq!(arena.current_player_num(), None);
    arena.start_game(10);
    let seats = arena.allowed_clients();
    assert_eq!(arena.current_player_id(), Some(seats[0]));
    assert_eq!(arena.time_remaining(210), 800);
    assert!(!arena.is_timed_out(210));
    assert!(arena.validate_action(Action::TakeDouble(Gem::Ruby), seats[0], 210));
    assert!(!arena.validate_action(Action::TakeDouble(Gem::Ruby), seats[1], 210));
    assert!(!arena.validate_action(Action::Continue, seats[0], 210));
    assert!(!arena.validate_action(Action::TakeDouble(Gem::Ruby), seats[0], 5000));
    let first = arena.default_action().unwrap();
    assert_eq!(Some(first), arena.get_legal_actions().map(|a| a[0]));
    let info = arena.client_info();
    assert_eq!(info.port, 3030);
    assert_eq!(info.legal_actions.len(), 30);
    assert_eq!(arena.small_client_info().current_player_num, 0);
    assert!(!arena.play_action(Action::Continue, 300));
    assert!(arena.play_action(Action::TakeDouble(Gem::Ruby), 300));
    assert!(arena.play_action(Action::Pass, 300));
    assert_eq!(arena.clock.total_time, vec![1000, 1000]);
    assert!(arena.play_action(Action::Continue, 400));
    assert_eq!(arena.current_player_id(), Some(seats[1]));
    assert_eq!(arena.clock.total_time, vec![610, 1000]);
    assert_eq!(arena.num_moves(), 0);
    assert_eq!(arena.board().gems.ruby, 2);
    assert!(!arena.is_game_over());
    assert_eq!(arena.get_winner(), None);
    assert_eq!(arena.players().len(), 2);
}

#[test]
fn updates_are_numbered_from_one() {
    let arena = ArenaBuilder::new().num_players(3).build();
    let info = arena.client_info();
    let first = GameUpdate::after(info.clone(), 0).unwrap();
    assert_eq!(first.update_num, 1);
    let next = GameUpdate::after(info, 1).unwrap();
    assert_eq!(next.update_num, 2);
}
