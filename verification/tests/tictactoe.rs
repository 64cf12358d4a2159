use dcfr::game::tictactoe::{
    check_cols, check_diagonals, check_rows, check_three, space_to_string, TicTacToe,
};
use dcfr::game::{Game, Player};

fn value(reward: Option<u32>) -> Option<f32> {
    reward.map(f32::from_bits)
}

#[test]
fn tictactoe_has_col() {
    let board = [
        Some(Player::P1), Some(Player::P2), None,
        Some(Player::P1), Some(Player::P1), None,
        Some(Player::P1), Some(Player::P2), Some(Player::P2),
    ];
    let game = TicTacToe {
        history: vec![],
        board: board,
        current_player: Player::P2,
    };
    assert_eq!(check_cols(&game), Some(Player::P1));
}

#[test]
fn tictactoe_has_no_col() {
    let board = [
        Some(Player::P1), Some(Player::P2), None,
        Some(Player::P2), Some(Player::P1), None,
        Some(Player::P1), Some(Player::P2), Some(Player::P2),
    ];
    let game = TicTacToe {
        history: vec![],
        board: board,
        current_player: Player::P2,
    };
    assert_eq!(check_cols(&game), None);
}

#[test]
fn tictactoe_has_row() {
    let board = [
        None, Some(Player::P2), None,
        Some(Player::P2), Some(Player::P2), Some(Player::P1),
        Some(Player::P1), Some(Player::P1), Some(Player::P1),
    ];
    let game = TicTacToe {
        history: vec![],
        board: board,
        current_player: Player::P2,
    };
    assert_eq!(check_rows(&game), Some(Player::P1));
}

#[test]
fn tictactoe_has_no_row() {
    let board = [
        None, Some(Player::P2), None,
        Some(Player::P1), None, Some(Player::P1),
        Some(Player::P2), Some(Player::P2), Some(Player::P1),
    ];
    let game = TicTacToe {
        history: vec![],
        board: board,
        current_player: Player::P1,
    };
    assert_eq!(check_rows(&game), None);
}

#[test]
fn tictactoe_has_diagonals() {
    let board = [
        None, Some(Player::P2), Some(Player::P2),
        Some(Player::P1), Some(Player::P2), Some(Player::P1),
        Some(Player::P2), Some(Player::P1), Some(Player::P1),
    ];
    let game = TicTacToe {
        history: vec![],
        board: board,
        current_player: Player::P1,
    };
    assert_eq!(check_diagonals(&game), Some(Player::P2));
}

#[test]
fn tictactoe_has_no_diagonals() {
    let board = [
        None, Some(Player::P2), Some(Player::P2),
        Some(Player::P1), Some(Player::P1), Some(Player::P2),
        Some(Player::P2), Some(Player::P1), Some(Player::P1),
    ];
    let game = TicTacToe {
        history: vec![],
        board: board,
        current_player: Player::P1,
    };
    assert_eq!(check_diagonals(&game), None);
}

#[test]
fn tictactoe_plays_game() {
    let mut game = TicTacToe::new();
    game.take_turn(Player::P1, &0);
    game.take_turn(Player::P2, &1);
    game.take_turn(Player::P1, &4);
    game.take_turn(Player::P2, &3);
    game.take_turn(Player::P1, &8);
    assert_eq!(value(game.get_reward()), Some(1.0));
    assert_eq!(game.history.len(), 5);
    assert_eq!(game.get_infoset(Player::P1).infoset.len(), 5);
    assert_eq!(game.get_infoset(Player::P2).infoset.len(), 5);
    assert_eq!(game.get_infoset(Player::P1).hash, game.get_infoset(Player::P2).hash);
}

#[test]
fn tictactoe_plays_game_tie() {
    let mut game = TicTacToe::new();
    game.take_turn(Player::P1, &0);
    game.take_turn(Player::P2, &4);
    game.take_turn(Player::P1, &1);
    game.take_turn(Player::P2, &2);
    game.take_turn(Player::P1, &6);
    game.take_turn(Player::P2, &3);
    game.take_turn(Player::P1, &5);
    game.take_turn(Player::P2, &7);
    game.take_turn(Player::P1, &8);
    assert_eq!(value(game.get_reward()), Some(0.0));
    assert_eq!(game.history.len(), 9);
    assert_eq!(game.get_infoset(Player::P1).infoset.len(), 9);
    assert_eq!(game.get_infoset(Player::P2).infoset.len(), 9);
    assert_eq!(game.get_infoset(Player::P1).hash, game.get_infoset(Player::P2).hash);
}

#[test]
fn tictactoe_p2_wins_a_column() {
    let mut game = TicTacToe::new();
    game.take_turn(Player::P1, &0);
    game.take_turn(Player::P2, &1);
    game.take_turn(Player::P1, &2);
    game.take_turn(Player::P2, &4);
    game.take_turn(Player::P1, &3);
    assert_eq!(game.get_reward(), None);
    game.take_turn(Player::P2, &7);
    assert_eq!(value(game.get_reward()), Some(-1.0));
    assert_eq!(check_cols(&game), Some(Player::P2));
}

#[test]
fn tictactoe_turns_list_the_empty_cells_in_order() {
    let mut game = TicTacToe::new();
    let (player, actions) = game.get_turn();
    assert_eq!(player, Player::P1);
    assert_eq!(actions, vec![0, 1, 2, 3, 4, 5, 6, 7, 8]);
    game.take_turn(Player::P1, &4);
    game.take_turn(Player::P2, &0);
    let (player, actions) = game.get_turn();
    assert_eq!(player, Player::P1);
    assert_eq!(actions, vec![1, 2, 3, 5, 6, 7, 8]);
}

#[test]
fn tictactoe_a_finished_game_has_no_actions() {
    let mut game = TicTacToe::new();
    game.take_turn(Player::P1, &0);
    game.take_turn(Player::P2, &3);
    game.take_turn(Player::P1, &1);
    game.take_turn(Player::P2, &4);
    game.take_turn(Player::P1, &2);
    assert_eq!(value(game.get_reward()), Some(1.0));
    let (_, actions) = game.get_turn();
    assert!(actions.is_empty());
}

#[test]
fn tictactoe_infoset_words_hold_cell_and_player() {
    let mut game = TicTacToe::new();
    game.take_turn(Player::P1, &8);
    game.take_turn(Player::P2, &2);
    let infoset = game.get_infoset(Player::P1);
    assert_eq!(infoset.infoset, vec![8, 18]);
}

#[test]
fn tictactoe_duplicate_is_independent() {
    let mut game = TicTacToe::new();
    game.take_turn(Player::P1, &4);
    let mut copy = game.duplicate();
    copy.take_turn(Player::P2, &0);
    assert_eq!(game.history.len(), 1);
    assert_eq!(copy.history.len(), 2);
    assert_eq!(game.board[0], None);
    assert_eq!(copy.board[0], Some(Player::P2));
}

#[test]
fn tictactoe_check_three_needs_marks() {
    let board = [
        None, None, None,
        Some(Player::P1), Some(Player::P1), Some(Player::P2),
        Some(Player::P2), Some(Player::P2), Some(Player::P2),
    ];
    assert!(!check_three(&board, 0, 1, 2));
    assert!(!check_three(&board, 3, 4, 5));
    assert!(check_three(&board, 6, 7, 8));
}

#[test]
fn tictactoe_space_to_string_marks() {
    assert_eq!(space_to_string(Some(Player::P1)), "X");
    assert_eq!(space_to_string(Some(Player::P2)), "O");
    assert_eq!(space_to_string(None), "_");
}
