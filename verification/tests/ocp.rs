use dcfr::game::ocp::{state_to_actions, Action, OneCardPoker, PokerState, NUM_CARDS};
use dcfr::game::{Game, Player};

fn value(reward: Option<u32>) -> Option<f32> {
    reward.map(f32::from_bits)
}

#[test]
fn early_showdown() {
    let mut game = OneCardPoker::manual_new((3, 5), Player::P1);

    game.take_turn(Player::P2, &Action::Call);

    let infoset = game.get_infoset(Player::P2);
    assert_eq!(infoset.infoset.len(), 2);
    let infoset = game.get_infoset(Player::P1);
    assert_eq!(infoset.infoset.len(), 2);

    game.take_turn(Player::P1, &Action::Call);
    let reward = value(game.get_reward());
    assert_eq!(reward, Some(-0.5));
}

#[test]
fn early_p2_fold() {
    let mut game = OneCardPoker::manual_new((3, 5), Player::P2);

    game.take_turn(Player::P1, &Action::Bet);

    let infoset = game.get_infoset(Player::P2);
    assert_eq!(infoset.infoset.len(), 2);
    let infoset = game.get_infoset(Player::P1);
    assert_eq!(infoset.infoset.len(), 2);

    game.take_turn(Player::P2, &Action::Fold);
    let reward = value(game.get_reward());
    assert_eq!(reward, Some(0.5));
}

#[test]
fn late_p2_fold() {
    let mut game = OneCardPoker::manual_new((3, 5), Player::P1);

    game.take_turn(Player::P2, &Action::Call);
    game.take_turn(Player::P1, &Action::Bet);

    let infoset = game.get_infoset(Player::P2);
    assert_eq!(infoset.infoset.len(), 3);
    let infoset = game.get_infoset(Player::P1);
    assert_eq!(infoset.infoset.len(), 3);

    game.take_turn(Player::P2, &Action::Fold);
    let reward = value(game.get_reward());
    assert_eq!(reward, Some(0.5));
}

#[test]
fn late_p1_fold() {
    let mut game = OneCardPoker::manual_new((3, 5), Player::P2);

    game.take_turn(Player::P1, &Action::Call);
    game.take_turn(Player::P2, &Action::Bet);

    let infoset = game.get_infoset(Player::P1);
    assert_eq!(infoset.infoset.len(), 3);
    let infoset = game.get_infoset(Player::P2);
    assert_eq!(infoset.infoset.len(), 3);

    game.take_turn(Player::P1, &Action::Fold);
    let reward = value(game.get_reward());
    assert_eq!(reward, Some(-0.5));
}

#[test]
fn late_showdown() {
    let mut game = OneCardPoker::manual_new((5, 3), Player::P1);

    game.take_turn(Player::P2, &Action::Call);
    game.take_turn(Player::P1, &Action::Bet);

    let infoset = game.get_infoset(Player::P2);
    assert_eq!(infoset.infoset.len(), 3);
    let infoset = game.get_infoset(Player::P1);
    assert_eq!(infoset.infoset.len(), 3);

    game.take_turn(Player::P2, &Action::Call);
    let reward = value(game.get_reward());
    assert_eq!(reward, Some(1.0));
}

#[test]
fn ocp_called_bet_loses_two_chips() {
    let mut game = OneCardPoker::manual_new((2, 9), Player::P2);
    game.take_turn(Player::P1, &Action::Bet);
    game.take_turn(Player::P2, &Action::Call);
    assert_eq!(value(game.get_reward()), Some(-1.0));
}

#[test]
fn ocp_first_to_act_is_not_the_dealer() {
    let game = OneCardPoker::manual_new((0, 1), Player::P1);
    let (player, actions) = game.get_turn();
    assert_eq!(player, Player::P2);
    assert_eq!(actions, vec![Action::Call, Action::Bet]);
    assert_eq!(game.get_reward(), None);
    assert_eq!(game.pot, (1, 1));
}

#[test]
fn ocp_actions_of_each_state() {
    assert_eq!(state_to_actions(PokerState::P1Deal), vec![Action::Call, Action::Bet]);
    assert_eq!(state_to_actions(PokerState::P2Check), vec![Action::Call, Action::Bet]);
    assert_eq!(state_to_actions(PokerState::P1Raise), vec![Action::Fold, Action::Call]);
    assert_eq!(state_to_actions(PokerState::P2Bet), vec![Action::Fold, Action::Call]);
    assert_eq!(state_to_actions(PokerState::FoldEnd), vec![]);
    assert_eq!(state_to_actions(PokerState::ShowdownEnd), vec![]);
}

#[test]
fn ocp_infoset_is_the_own_card_and_the_betting() {
    let mut game = OneCardPoker::manual_new((7, 11), Player::P2);
    game.take_turn(Player::P1, &Action::Call);
    game.take_turn(Player::P2, &Action::Bet);
    // call by player 1 is 2 * 1 + 0, bet by player 2 is 2 * 2 + 1
    assert_eq!(game.get_infoset(Player::P1).infoset, vec![7, 2, 5]);
    assert_eq!(game.get_infoset(Player::P2).infoset, vec![11, 2, 5]);
    assert_ne!(
        game.get_infoset(Player::P1).hash,
        game.get_infoset(Player::P2).hash
    );
}

#[test]
fn ocp_the_opponents_card_does_not_show() {
    let a = OneCardPoker::manual_new((4, 1), Player::P2);
    let b = OneCardPoker::manual_new((4, 12), Player::P2);
    assert_eq!(a.get_infoset(Player::P1).hash, b.get_infoset(Player::P1).hash);
    assert_ne!(a.get_infoset(Player::P2).hash, b.get_infoset(Player::P2).hash);
}

#[test]
fn ocp_random_deal_gives_two_cards_of_the_deck() {
    for _ in 0..200 {
        let game = OneCardPoker::new();
        assert!(game.hands.0 < NUM_CARDS);
        assert!(game.hands.1 < NUM_CARDS);
        assert_ne!(game.hands.0, game.hands.1);
        assert_eq!(game.current_player, game.dealer.other());
        assert_eq!(game.pot, (1, 1));
    }
}

#[test]
fn ocp_a_finished_game_has_no_actions() {
    let mut game = OneCardPoker::manual_new((3, 5), Player::P2);
    game.take_turn(Player::P1, &Action::Bet);
    game.take_turn(Player::P2, &Action::Fold);
    let (_, actions) = game.get_turn();
    assert!(actions.is_empty());
}
