use splendor_arena::card::Card;
use splendor_arena::gem::Gem;
use splendor_arena::gems::Gems;
use splendor_arena::player::Player;
use std::collections::HashSet;

#[test]
fn test_cannot_afford_1_wild() {
    let mut player = Player::new();
    player.add_gems(Gems::one(Gem::Ruby));
    player.add_gems(Gems::one(Gem::Gold));
    player.add_gems(Gems::one(Gem::Onyx));

    let card = Card::all()[4];
    let payment = player.payment_options_for(&card);
    assert_eq!(payment, None);
}

#[test]
fn test_cannot_afford_0_wild() {
    let mut player = Player::new();
    player.add_gems(Gems::one(Gem::Ruby));
    player.add_gems(Gems::one(Gem::Emerald));

    let card = Card::all()[4];
    let payment = player.payment_options_for(&card);
    assert_eq!(payment, None);
}

#[test]
fn test_payment_specific_0_wild_discount_exact() {
    let mut player = Player::new();
    player.add_development(Gem::Ruby);
    player.add_development(Gem::Emerald);
    player.add_development(Gem::Emerald);

    let card = Card::all()[4];
    let payment = player.payment_options_for(&card).unwrap();
    assert_eq!(payment.len(), 1);
    assert_eq!(
        *payment.into_iter().take(1).collect::<Vec<_>>().first().unwrap(),
        Gems { ruby: 0, emerald: 0, sapphire: 0, diamond: 0, onyx: 0, gold: 0 }
    );
}

#[test]
fn test_payment_specific_0_wild_discount_less() {
    let mut player = Player::new();
    player.add_development(Gem::Ruby);
    player.add_gems(Gems::one(Gem::Emerald));
    player.add_gems(Gems::one(Gem::Emerald));

    let card = Card::all()[4];
    let payment = player.payment_options_for(&card).unwrap();
    assert_eq!(payment.len(), 1);
    assert_eq!(
        *payment.into_iter().take(1).collect::<Vec<_>>().first().unwrap(),
        Gems { ruby: 0, emerald: 2, sapphire: 0, diamond: 0, onyx: 0, gold: 0 }
    );
}

#[test]
fn test_payment_specific_1_wild_discount_less() {
    let mut player = Player::new();
    player.add_gems(Gems::one(Gem::Onyx));
    player.add_development(Gem::Ruby);
    player.add_gems(Gems::one(Gem::Gold));
    player.add_gems(Gems::one(Gem::Emerald));

    let card = Card::all()[4];
    let payment = player.payment_options_for(&card).unwrap();
    assert_eq!(payment.len(), 1, "payment not unique: {:?}", payment);
    assert_eq!(
        *payment.into_iter().take(1).collect::<Vec<_>>().first().unwrap(),
        Gems { ruby: 0, emerald: 1, sapphire: 0, diamond: 0, onyx: 0, gold: 1 }
    );
}

#[test]
fn test_payment_ambiguous_1_wild() {
    let mut player = Player::new();
    player.add_gems(Gems::one(Gem::Ruby));
    player.add_gems(Gems::one(Gem::Onyx));
    player.add_gems(Gems::one(Gem::Gold));
    player.add_gems(Gems::one(Gem::Emerald));
    player.add_gems(Gems::one(Gem::Emerald));

    let card = Card::all()[4];
    let payment = player.payment_options_for(&card).unwrap();
    assert_eq!(payment.len(), 3);

    let set = payment.into_iter().collect::<HashSet<_>>();
    let target = vec![
        Gems { ruby: 1, emerald: 1, sapphire: 0, diamond: 0, onyx: 0, gold: 1 },
        Gems { ruby: 0, emerald: 2, sapphire: 0, diamond: 0, onyx: 0, gold: 1 },
        Gems { ruby: 1, emerald: 2, sapphire: 0, diamond: 0, onyx: 0, gold: 0 },
    ];
    let target = target.into_iter().collect::<HashSet<_>>();
    assert_eq!(set, target);
}

#[test]
fn test_payment_specific_2_wild_discount_more() {
    let mut player = Player::new();
    player.add_gems(Gems::one(Gem::Ruby));
    player.add_gems(Gems::one(Gem::Ruby));
    player.add_gems(Gems::one(Gem::Onyx));
    player.add_gems(Gems::one(Gem::Onyx));
    player.add_gems(Gems::one(Gem::Gold));
    player.add_gems(Gems::one(Gem::Gold));
    player.add_gems(Gems::one(Gem::Emerald));

    player.add_development(Gem::Ruby);
    player.add_development(Gem::Emerald);
    player.add_development(Gem::Emerald);
    player.add_development(Gem::Emerald);
    player.add_development(Gem::Emerald);

    let card = Card::all()[6];
    let payment = player.payment_options_for(&card).unwrap();
    assert_eq!(payment.len(), 1);
    assert_eq!(
        *payment.into_iter().take(1).collect::<Vec<_>>().first().unwrap(),
        Gems { ruby: 0, emerald: 0, sapphire: 0, diamond: 0, onyx: 0, gold: 0 }
    )
}

#[test]
fn test_payment_specific_2_wild() {
    let mut player = Player::new();
    player.add_gems(Gems::one(Gem::Ruby));
    player.add_gems(Gems::one(Gem::Ruby));
    player.add_gems(Gems::one(Gem::Onyx));
    player.add_gems(Gems::one(Gem::Onyx));
    player.add_gems(Gems::one(Gem::Gold));
    player.add_gems(Gems::one(Gem::Gold));
    player.add_gems(Gems::one(Gem::Emerald));

    let card = Card::all()[6];
    let payment = player.payment_options_for(&card).unwrap();
    assert_eq!(payment.len(), 1);
    assert_eq!(
        *payment.into_iter().take(1).collect::<Vec<_>>().first().unwrap(),
        Gems { ruby: 0, emerald: 1, sapphire: 0, diamond: 0, onyx: 0, gold: 2 }
    )
}

#[test]
fn test_payment_ambiguous_3_wild() {
    let mut player = Player::new();
    player.add_gems(Gems::one(Gem::Emerald));
    player.add_gems(Gems::one(Gem::Emerald));
    player.add_gems(Gems::one(Gem::Onyx));
    player.add_gems(Gems::one(Gem::Gold));
    player.add_gems(Gems::one(Gem::Gold));
    player.add_gems(Gems::one(Gem::Gold));

    let card = Card::all()[13];

    let payment = player.payment_options_for(&card).unwrap();

    //             = 0 ways to pay with 0 golds
    // ee.o        = 1 way to pay with 1 gold
    // .e.o | ee.. = 2 ways to pay with 2 golds
    // .e.. | ..o. = 2 ways to pay with 3 golds

    assert_eq!(payment.len(), 5);
}
