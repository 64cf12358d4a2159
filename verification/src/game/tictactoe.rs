//! Tic-tac-toe on a 3x3 board, player 1 moving first.

use crate::game::infoset::Infoset;
use crate::game::player::Player;
use crate::game::rules::Game;
use crate::numeric::{MINUS_ONE, ONE, ZERO};
use vstd::prelude::*;

verus! {

#[derive(Debug)]
pub struct TicTacToe {
    pub current_player: Player,
    /// 3x3 grid as a 1d row-major array
    pub board: [Option<Player>; 9],
    /// Player actions in the order they were made
    pub history: Vec<(Player, usize)>,
}

/// A board as a mathematical value: nine cells, row by row.
pub type Cells = Seq<Option<Player>>;

/// Whether three cells hold marks of one player.
pub open spec fn three(cells: Cells, a: int, b: int, c: int) -> bool {
    cells[a] is Some && cells[a] == cells[b] && cells[b] == cells[c]
}

/// The owner of the topmost complete row, if there is one.
pub open spec fn row_winner(cells: Cells) -> Option<Player> {
    if three(cells, 0, 1, 2) {
        cells[0]
    } else if three(cells, 3, 4, 5) {
        cells[3]
    } else if three(cells, 6, 7, 8) {
        cells[6]
    } else {
        None
    }
}

/// The owner of the leftmost complete column, if there is one.
pub open spec fn col_winner(cells: Cells) -> Option<Player> {
    if three(cells, 0, 3, 6) {
        cells[0]
    } else if three(cells, 1, 4, 7) {
        cells[1]
    } else if three(cells, 2, 5, 8) {
        cells[2]
    } else {
        None
    }
}

/// The owner of a complete diagonal, the one from the top left first.
pub open spec fn diagonal_winner(cells: Cells) -> Option<Player> {
    if three(cells, 0, 4, 8) {
        cells[0]
    } else if three(cells, 2, 4, 6) {
        cells[2]
    } else {
        None
    }
}

/// The owner of a complete line: rows are looked at first, then columns,
/// then diagonals.
pub open spec fn winner(cells: Cells) -> Option<Player> {
    if row_winner(cells) is Some {
        row_winner(cells)
    } else if col_winner(cells) is Some {
        col_winner(cells)
    } else {
        diagonal_winner(cells)
    }
}

/// 1 where a cell is empty, 0 where it is taken.
pub open spec fn vacancy(cells: Cells, i: int) -> nat {
    if cells[i] is None {
        1
    } else {
        0
    }
}

/// The number of empty cells.
pub open spec fn vacancies(cells: Cells) -> nat {
    vacancy(cells, 0) + vacancy(cells, 1) + vacancy(cells, 2) + vacancy(cells, 3) + vacancy(
        cells,
        4,
    ) + vacancy(cells, 5) + vacancy(cells, 6) + vacancy(cells, 7) + vacancy(cells, 8)
}

/// The empty cells among the first `n`, in rising order.
pub open spec fn empty_below(cells: Cells, n: nat) -> Seq<usize>
    decreases n,
{
    if n == 0 {
        Seq::<usize>::empty()
    } else if cells[n - 1] is None {
        empty_below(cells, (n - 1) as nat).push((n - 1) as usize)
    } else {
        empty_below(cells, (n - 1) as nat)
    }
}

/// Player 1's payoff where the game is over: 1 or -1 with a complete line, 0
/// on a full board without one.
pub open spec fn outcome(cells: Cells) -> Option<u32> {
    match winner(cells) {
        Some(Player::P1) => Some(ONE),
        Some(Player::P2) => Some(MINUS_ONE),
        None => if vacancies(cells) > 0 {
            None
        } else {
            Some(ZERO)
        },
    }
}

/// The legal moves: the empty cells while the game goes on.
pub open spec fn open_cells(cells: Cells) -> Seq<usize> {
    if outcome(cells) is Some {
        Seq::<usize>::empty()
    } else {
        empty_below(cells, 9)
    }
}

/// The word that stands for a move in the history: the cell, plus 16 where
/// player 2 made it.
pub open spec fn move_word(entry: (Player, usize)) -> u64 {
    (entry.1 + 16 * entry.0.spec_index()) as u64
}

/// A cell is listed among the empty ones exactly if it is empty.
pub proof fn lemma_empty_below(cells: Cells, n: nat, cell: usize)
    requires
        n <= 9,
        cells.len() == 9,
    ensures
        empty_below(cells, n).contains(cell) <==> (cell < n && cells[cell as int] is None),
    decreases n,
{
    if n > 0 {
        let rest = empty_below(cells, (n - 1) as nat);
        lemma_empty_below(cells, (n - 1) as nat, cell);
        if cells[n - 1] is None {
            let all = rest.push((n - 1) as usize);
            if rest.contains(cell) {
                let i = choose|i: int| 0 <= i < rest.len() && rest[i] == cell;
                assert(all[i] == cell);
            }
            if cell == n - 1 {
                assert(all[rest.len() as int] == cell);
            }
            if all.contains(cell) {
                let i = choose|i: int| 0 <= i < all.len() && all[i] == cell;
                if i < rest.len() {
                    assert(rest[i] == cell);
                }
            }
        }
    }
}

/// While a cell is empty, the list of empty cells is not.
pub proof fn lemma_vacancy_is_listed(cells: Cells)
    requires
        cells.len() == 9,
    ensures
        (vacancies(cells) > 0) == (empty_below(cells, 9).len() > 0),
{
    let list = empty_below(cells, 9);
    if vacancies(cells) > 0 {
        let cell: usize = if cells[0] is None {
            0
        } else if cells[1] is None {
            1
        } else if cells[2] is None {
            2
        } else if cells[3] is None {
            3
        } else if cells[4] is None {
            4
        } else if cells[5] is None {
            5
        } else if cells[6] is None {
            6
        } else if cells[7] is None {
            7
        } else {
            8
        };
        lemma_empty_below(cells, 9, cell);
    }
    if list.len() > 0 {
        let cell = list[0];
        assert(list.contains(cell));
        lemma_empty_below(cells, 9, cell);
    }
}

/// Whether two cells hold the same.
fn same(x: Option<Player>, y: Option<Player>) -> (r: bool)
    ensures
        r == (x == y),
{
    match (x, y) {
        (None, None) => true,
        (Some(p), Some(q)) => p == q,
        _ => false,
    }
}

/// Tells whether the three given cells hold marks of one player.
pub fn check_three(board: &[Option<Player>; 9], a: usize, b: usize, c: usize) -> (r: bool)
    requires
        a < 9,
        b < 9,
        c < 9,
    ensures
        r == three(board@, a as int, b as int, c as int),
{
    board[a].is_some() && same(board[a], board[b]) && same(board[b], board[c])
}

/// Returns the owner of the topmost complete row.
pub fn check_rows(game: &TicTacToe) -> (r: Option<Player>)
    ensures
        r == row_winner(game.board@),
{
    let mut row: usize = 0;
    while row < 3
        invariant
            row <= 3,
            row > 0 ==> !three(game.board@, 0, 1, 2),
            row > 1 ==> !three(game.board@, 3, 4, 5),
            row > 2 ==> !three(game.board@, 6, 7, 8),
        decreases 3 - row,
    {
        if check_three(&game.board, 3 * row, 3 * row + 1, 3 * row + 2) {
            return game.board[3 * row];
        }
        row += 1;
    }
    None
}

/// Returns the owner of the leftmost complete column.
pub fn check_cols(game: &TicTacToe) -> (r: Option<Player>)
    ensures
        r == col_winner(game.board@),
{
    let mut col: usize = 0;
    while col < 3
        invariant
            col <= 3,
            col > 0 ==> !three(game.board@, 0, 3, 6),
            col > 1 ==> !three(game.board@, 1, 4, 7),
            col > 2 ==> !three(game.board@, 2, 5, 8),
        decreases 3 - col,
    {
        if check_three(&game.board, col, col + 3, col + 6) {
            return game.board[col];
        }
        col += 1;
    }
    None
}

/// Returns the owner of a complete diagonal.
pub fn check_diagonals(game: &TicTacToe) -> (r: Option<Player>)
    ensures
        r == diagonal_winner(game.board@),
{
    if check_three(&game.board, 0, 4, 8) {
        game.board[0]
    } else if check_three(&game.board, 2, 4, 6) {
        game.board[2]
    } else {
        None
    }
}

/// The mark of a cell: `X` for player 1, `O` for player 2, `_` for none.
pub fn space_to_string(space: Option<Player>) -> (s: String)
    ensures
        s@ == (match space {
            Some(Player::P1) => "X"@,
            Some(Player::P2) => "O"@,
            None => "_"@,
        }),
{
    match space {
        Some(Player::P1) => "X".to_string(),
        Some(Player::P2) => "O".to_string(),
        None => "_".to_string(),
    }
}

/// Copies a history of moves.
fn copy_moves(history: &Vec<(Player, usize)>) -> (copy: Vec<(Player, usize)>)
    ensures
        copy@ == history@,
{
    let mut copy: Vec<(Player, usize)> = Vec::new();
    let mut i: usize = 0;
    while i < history.len()
        invariant
            i <= history@.len(),
            copy@ == history@.take(i as int),
        decreases history@.len() - i,
    {
        let entry = history[i];
        copy.push((entry.0, entry.1));
        i += 1;
        assert(copy@ =~= history@.take(i as int));
    }
    assert(history@.take(i as int) =~= history@);
    copy
}

impl TicTacToe {
    /// An empty board with player 1 to move.
    pub fn new() -> (game: TicTacToe)
        ensures
            game.current_player == Player::P1,
            game.board@ == Seq::new(9, |i: int| None::<Player>),
            game.history@ == Seq::<(Player, usize)>::empty(),
            game.inv(),
    {
        let game = TicTacToe {
            current_player: Player::P1,
            board: [None, None, None, None, None, None, None, None, None],
            history: Vec::new(),
        };
        assert(game.board@ =~= Seq::new(9, |i: int| None::<Player>));
        game
    }

    /// Whether any cell is empty.
    fn has_vacancy(&self) -> (r: bool)
        ensures
            r == (vacancies(self.board@) > 0),
    {
        self.board[0].is_none() || self.board[1].is_none() || self.board[2].is_none()
            || self.board[3].is_none() || self.board[4].is_none() || self.board[5].is_none()
            || self.board[6].is_none() || self.board[7].is_none() || self.board[8].is_none()
    }
}

impl Clone for TicTacToe {
    fn clone(&self) -> (copy: Self)
        ensures
            copy.current_player == self.current_player,
            copy.board@ == self.board@,
            copy.history@ == self.history@,
    {
        let b = &self.board;
        let copy = TicTacToe {
            current_player: self.current_player,
            board: [b[0], b[1], b[2], b[3], b[4], b[5], b[6], b[7], b[8]],
            history: copy_moves(&self.history),
        };
        assert(copy.board@ =~= self.board@);
        copy
    }
}

impl Game for TicTacToe {
    type Action = usize;

    /// Every recorded move names a cell of the board.
    open spec fn inv(&self) -> bool {
        forall|i: int| 0 <= i < self.history@.len() ==> (#[trigger] self.history@[i]).1 < 9
    }

    open spec fn spec_turn(&self) -> (Player, Seq<usize>) {
        (self.current_player, open_cells(self.board@))
    }

    open spec fn spec_reward(&self) -> Option<u32> {
        outcome(self.board@)
    }

    open spec fn rank(&self) -> nat {
        vacancies(self.board@)
    }

    open spec fn spec_infoset(&self, player: Player) -> Seq<u64> {
        self.history@.map_values(|entry: (Player, usize)| move_word(entry))
    }

    /// The player to move marks the cell, the turn passes, and the move is
    /// recorded.
    open spec fn steps(&self, action: usize, after: Self) -> bool {
        &&& after.board@ == self.board@.update(action as int, Some(self.current_player))
        &&& after.current_player == self.current_player.other()
        &&& after.history@ == self.history@.push((self.current_player, action))
    }

    open spec fn copies(&self, copy: Self) -> bool {
        &&& copy.current_player == self.current_player
        &&& copy.board@ == self.board@
        &&& copy.history@ == self.history@
    }

    fn get_turn(&self) -> (turn: (Player, Vec<usize>)) {
        let mut spaces: Vec<usize> = Vec::new();
        if self.get_reward().is_some() {
            assert(spaces@ =~= open_cells(self.board@));
            return (self.current_player, spaces);
        }
        let mut ind: usize = 0;
        while ind < 9
            invariant
                ind <= 9,
                spaces@ == empty_below(self.board@, ind as nat),
            decreases 9 - ind,
        {
            if self.board[ind].is_none() {
                spaces.push(ind);
            }
            ind += 1;
        }
        proof {
            lemma_vacancy_is_listed(self.board@);
        }
        (self.current_player, spaces)
    }

    fn take_turn(&mut self, player: Player, action: &usize)
        ensures
            final(self).board@ == old(self).board@.update(*action as int, Some(player)),
            final(self).current_player == player.other(),
            final(self).history@ == old(self).history@.push((player, *action)),
    {
        proof {
            lemma_empty_below(self.board@, 9, *action);
        }
        self.board[*action] = Some(player);
        self.current_player = player.other();
        self.history.push((player, *action));
    }

    fn get_reward(&self) -> (reward: Option<u32>) {
        let rows = check_rows(self);
        let line = if rows.is_some() {
            rows
        } else {
            let cols = check_cols(self);
            if cols.is_some() {
                cols
            } else {
                check_diagonals(self)
            }
        };
        match line {
            Some(Player::P1) => Some(ONE),
            Some(Player::P2) => Some(MINUS_ONE),
            None => {
                if self.has_vacancy() {
                    None
                } else {
                    Some(ZERO)
                }
            },
        }
    }

    fn get_infoset(&self, _player: Player) -> (infoset: Infoset)
        ensures
            infoset.infoset@ == self.history@.map_values(|entry: (Player, usize)| move_word(entry)),
    {
        let mut words: Vec<u64> = Vec::new();
        let mut i: usize = 0;
        while i < self.history.len()
            invariant
                i <= self.history@.len(),
                self.inv(),
                words@ == self.history@.take(i as int).map_values(
                    |entry: (Player, usize)| move_word(entry),
                ),
            decreases self.history@.len() - i,
        {
            let entry = self.history[i];
            let word: u64 = entry.1 as u64 + 16 * entry.0.index();
            words.push(word);
            i += 1;
            assert(words@ =~= self.history@.take(i as int).map_values(
                |entry: (Player, usize)| move_word(entry),
            ));
        }
        assert(self.history@.take(i as int) =~= self.history@);
        Infoset::new(words)
    }

    fn duplicate(&self) -> (copy: Self)
        ensures
            copy.current_player == self.current_player,
            copy.board@ == self.board@,
            copy.history@ == self.history@,
    {
        self.clone()
    }
}

} // verus!
