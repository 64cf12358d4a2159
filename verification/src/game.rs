//! The two-player zero-sum game interface and the sample games.

pub mod double_matrix_game;
pub mod infoset;
pub mod matrix_game;
pub mod ocp;
pub mod player;
pub mod rps;
pub mod rules;
pub mod skulls;
pub mod tictactoe;

pub use double_matrix_game::DoubleMatrixGame;
pub use infoset::Infoset;
pub use matrix_game::MatrixGame;
pub use ocp::Action as OneCardPokerAction;
pub use ocp::OneCardPoker;
pub use player::Player;
pub use rps::RockPaperScissors;
pub use rules::Game;
pub use skulls::Skulls;
pub use tictactoe::TicTacToe;
