use dcfr::game::skulls::{Action, Card, GameState, Skulls};
use dcfr::game::{Game, Player};

fn value(reward: Option<u32>) -> Option<f32> {
    reward.map(f32::from_bits)
}

fn wins_game_flipping(player: Player) -> Option<f32> {
    let mut game = Skulls::manual_new(player);

    //prestack
    game.take_turn(player, &Action::Stack { card: Card::Flower });
    game.take_turn(player.other(), &Action::Stack { card: Card::Flower });
    assert_eq!(game.game_state, GameState::Stack { player });

    //stack
    let (_, actions) = game.get_turn();
    assert!(actions.contains(&Action::Stack { card: Card::Flower }));
    assert!(actions.contains(&Action::Stack { card: Card::Skull }));
    for i in 1..=2 {
        assert!(actions.contains(&Action::Bid { amount: i }));
    }
    assert_eq!(actions.len(), 4);

    //bid
    game.take_turn(player, &Action::Bid { amount: 2 });
    let (p, actions) = game.get_turn();
    assert_eq!(p, player.other());
    assert_eq!(actions.len(), 1);
    assert_eq!(actions[0], Action::Pass);
    game.take_turn(player.other(), &Action::Pass);

    let (p, actions) = game.get_turn();
    assert_eq!(p, player);
    assert_eq!(actions.len(), 1);
    assert_eq!(actions[0], Action::Pass);
    game.take_turn(player, &Action::Pass);

    //check result of bid
    assert_eq!(player.lens(&game.has_flipped), &true);
    assert_eq!(player.other().lens(&game.has_flipped), &false);

    //prestack
    game.take_turn(player, &Action::Stack { card: Card::Flower });
    game.take_turn(player.other(), &Action::Stack { card: Card::Flower });
    assert_eq!(game.game_state, GameState::Stack { player: player });

    //stack
    let (_, actions) = game.get_turn();
    assert!(actions.contains(&Action::Stack { card: Card::Flower }));
    assert!(actions.contains(&Action::Stack { card: Card::Skull }));
    for i in 1..=2 {
        assert!(actions.contains(&Action::Bid { amount: i }));
    }
    assert_eq!(actions.len(), 4);

    //bid
    game.take_turn(player, &Action::Bid { amount: 2 });
    let (p, actions) = game.get_turn();
    assert_eq!(p, player.other());
    assert_eq!(actions.len(), 1);
    assert_eq!(actions[0], Action::Pass);
    game.take_turn(player.other(), &Action::Pass);

    let (p, actions) = game.get_turn();
    assert_eq!(p, player);
    assert_eq!(actions.len(), 1);
    assert_eq!(actions[0], Action::Pass);
    game.take_turn(player, &Action::Pass);

    value(game.get_reward())
}

//this is less assert-heavy, as the other function has a lot of calls to assert
fn loses_game_self_elimination(player: Player) -> Option<f32> {
    let mut game = Skulls::manual_new(player);

    for i in 0..3 {
        //prestack
        game.take_turn(player, &Action::Stack { card: Card::Flower });
        game.take_turn(player.other(), &Action::Stack { card: Card::Flower });

        //stack flowers while we can
        while player.lens(&game.hands).flowers > 0 {
            game.take_turn(player, &Action::Stack { card: Card::Flower });
            game.take_turn(player.other(), &Action::Stack { card: Card::Flower });
        }
        //then play a skull
        game.take_turn(player, &Action::Stack { card: Card::Skull });
        game.take_turn(player.other(), &Action::Stack { card: Card::Skull });

        //bid
        game.take_turn(player, &Action::Bid { amount: 2 });
        game.take_turn(player.other(), &Action::Pass);
        game.take_turn(player, &Action::Pass);

        assert_eq!(player.lens(&game.hands).flowers, 3 - i - 1);
    }

    game.take_turn(player, &Action::Stack { card: Card::Skull });
    game.take_turn(player.other(), &Action::Stack { card: Card::Flower });
    game.take_turn(player, &Action::Bid { amount: 2 });
    game.take_turn(player.other(), &Action::Pass);
    game.take_turn(player, &Action::Pass);

    value(game.get_reward())
}

#[test]
fn reward_flipping_p1() {
    let reward = wins_game_flipping(Player::P1);
    assert_eq!(Some(1.0), reward);
}

#[test]
fn reward_flipping_p2() {
    let reward = wins_game_flipping(Player::P2);
    assert_eq!(Some(-1.0), reward);
}

#[test]
fn reward_self_elimination_p1() {
    let reward = loses_game_self_elimination(Player::P1);
    assert_eq!(Some(-1.0), reward);
}

#[test]
fn reward_self_elimination_p2() {
    let reward = loses_game_self_elimination(Player::P2);
    assert_eq!(Some(1.0), reward);
}

#[test]
fn extended_bidding() {
    for player in [Player::P1, Player::P2].iter() {
        let player = *player;
        let mut game = Skulls::manual_new(player);
        //prestack
        game.take_turn(player, &Action::Stack { card: Card::Skull });
        game.take_turn(player.other(), &Action::Stack { card: Card::Skull });

        //stack flowers while we can
        for _ in 0..3 {
            game.take_turn(player, &Action::Stack { card: Card::Flower });
            game.take_turn(player.other(), &Action::Stack { card: Card::Flower });
        }

        game.take_turn(player, &Action::Bid { amount: 1 });
        game.take_turn(player.other(), &Action::Bid { amount: 2 });
        game.take_turn(player, &Action::Bid { amount: 3 });
        game.take_turn(player.other(), &Action::Bid { amount: 4 });
        game.take_turn(player, &Action::Pass);
        game.take_turn(player.other(), &Action::Pass);

        //other player just barely flipped over their own skull
        assert_eq!(player.other().lens(&game.hands).flowers, 2);
    }
}

#[test]
fn skulls_opening_position() {
    let game = Skulls::manual_new(Player::P2);
    assert_eq!(game.game_state, GameState::PreStack { player: Player::P2 });
    assert_eq!(game.hands.0.skulls, 1);
    assert_eq!(game.hands.0.flowers, 3);
    assert_eq!(game.hands.1.skulls, 1);
    assert_eq!(game.hands.1.flowers, 3);
    assert!(game.stacks.0.is_empty() && game.stacks.1.is_empty());
    assert_eq!(game.get_reward(), None);
    let (player, actions) = game.get_turn();
    assert_eq!(player, Player::P2);
    assert_eq!(
        actions,
        vec![Action::Stack { card: Card::Flower }, Action::Stack { card: Card::Skull }]
    );
}

#[test]
fn skulls_random_start_is_an_opening() {
    let game = Skulls::new();
    let (player, _) = game.get_turn();
    assert_eq!(game.game_state, GameState::PreStack { player });
    assert!(game.history.is_empty());
}

#[test]
fn skulls_bids_rise_to_the_number_of_cards() {
    let mut game = Skulls::manual_new(Player::P1);
    game.take_turn(Player::P1, &Action::Stack { card: Card::Flower });
    game.take_turn(Player::P2, &Action::Stack { card: Card::Flower });
    game.take_turn(Player::P1, &Action::Stack { card: Card::Flower });
    game.take_turn(Player::P2, &Action::Bid { amount: 1 });
    let (player, actions) = game.get_turn();
    assert_eq!(player, Player::P1);
    assert_eq!(
        actions,
        vec![Action::Pass, Action::Bid { amount: 2 }, Action::Bid { amount: 3 }]
    );
}

#[test]
fn skulls_infoset_hides_the_opponents_cards() {
    let mut game = Skulls::manual_new(Player::P1);
    game.take_turn(Player::P1, &Action::Stack { card: Card::Skull });
    game.take_turn(Player::P2, &Action::Stack { card: Card::Flower });
    game.take_turn(Player::P1, &Action::Bid { amount: 2 });
    // kind 3 is a stacked card, kind 1 a bid; the own card is 1 + its number
    let own = game.get_infoset(Player::P1).infoset;
    assert_eq!(own, vec![(3 << 16) | (1 << 24), 1 | (1 << 8) | (3 << 16), (1 << 16) | (2 << 24)]);
    let other = game.get_infoset(Player::P2).infoset;
    assert_eq!(
        other,
        vec![1 | (1 << 8) | (3 << 16), (3 << 16) | (2 << 24), 1 | (1 << 8) | (1 << 16) | (2 << 24)]
    );
}

#[test]
fn skulls_symmetric_positions_share_an_infoset() {
    let mut first = Skulls::manual_new(Player::P1);
    first.take_turn(Player::P1, &Action::Stack { card: Card::Flower });
    let mut second = Skulls::manual_new(Player::P2);
    second.take_turn(Player::P2, &Action::Stack { card: Card::Flower });
    assert_eq!(
        first.get_infoset(Player::P1).hash,
        second.get_infoset(Player::P2).hash
    );
    assert_eq!(
        first.get_infoset(Player::P2).hash,
        second.get_infoset(Player::P1).hash
    );
    assert_ne!(
        first.get_infoset(Player::P1).hash,
        first.get_infoset(Player::P2).hash
    );
}

#[test]
fn skulls_flipping_a_skull_is_recorded() {
    let mut game = Skulls::manual_new(Player::P1);
    game.take_turn(Player::P1, &Action::Stack { card: Card::Skull });
    game.take_turn(Player::P2, &Action::Stack { card: Card::Flower });
    game.take_turn(Player::P1, &Action::Bid { amount: 1 });
    game.take_turn(Player::P2, &Action::Pass);
    let before = game.history.len();
    game.take_turn(Player::P1, &Action::Pass);
    // the pass, the flip and the lost card
    assert_eq!(game.history.len(), before + 3);
    assert_eq!(game.hands.0.flowers, 2);
    assert_eq!(game.hands.0.skulls, 1);
    assert_eq!(game.hands.1.flowers, 3);
    assert_eq!(game.game_state, GameState::PreStack { player: Player::P1 });
    assert_eq!(game.has_flipped, (false, false));
}
