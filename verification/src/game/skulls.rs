//! Skulls for two players: both stack cards face down, bid on how many they
//! can flip without meeting a skull, and the higher bidder flips.

use crate::game::infoset::Infoset;
use crate::game::player::Player;
use crate::game::rules::Game;
use crate::numeric::{MINUS_ONE, ONE};
use crate::rng::random_bool;
use vstd::prelude::*;

verus! {

#[derive(Copy, Clone, Debug, PartialEq, Eq, Structural)]
pub enum Card {
    Skull,
    Flower,
}

#[derive(Copy, Clone, Debug, PartialEq, Eq, Structural)]
pub enum Action {
    Stack { card: Card },
    Bid { amount: u8 },
    Pass,
}

/// Where a round stands.
#[derive(Copy, Clone, Debug, PartialEq, Eq, Structural)]
pub enum GameState {
    /// `player` may add a card to their stack or open the bidding.
    Stack { player: Player },
    /// `player` has to put down their first card of the round.
    PreStack { player: Player },
    /// `leader` holds the bid of `amount`; `player` must raise or pass.
    Bid { amount: u8, leader: Player, player: Player, has_passed: bool },
    /// The game is over.
    End { winner: Player },
}

/// One observable event of a game.
#[derive(Copy, Clone, Debug, PartialEq, Eq, Structural)]
pub enum HistoryEntry {
    PlayerAction(Player, Action),
    Flip(Player, Player, Card),
    LoseCard(Player, Card),
    GetPoint(Player),
}

/// The cards that a player holds in hand.
#[derive(Copy, Clone, Debug, PartialEq, Eq, Structural)]
pub struct Hand {
    pub skulls: u8,
    pub flowers: u8,
}

#[derive(Debug)]
pub struct Skulls {
    pub hands: (Hand, Hand),
    pub game_state: GameState,
    pub stacks: (Vec<Card>, Vec<Card>),
    pub has_flipped: (bool, bool),
    pub history: Vec<HistoryEntry>,
}

/// The most cards that a player can own.
pub const MAX_CARDS: u8 = 4;

/// A position of Skulls as a mathematical value.
pub struct Table {
    pub hands: (Hand, Hand),
    pub state: GameState,
    pub stacks: (Seq<Card>, Seq<Card>),
    pub has_flipped: (bool, bool),
    pub history: Seq<HistoryEntry>,
}

impl Hand {
    /// The number of cards in the hand.
    pub open spec fn size(self) -> int {
        self.skulls + self.flowers
    }

    /// Whether the hand holds a card of the given kind.
    pub open spec fn holds(self, card: Card) -> bool {
        match card {
            Card::Skull => self.skulls > 0,
            Card::Flower => self.flowers > 0,
        }
    }

    /// The hand without one card of the given kind.
    pub open spec fn without(self, card: Card) -> Hand {
        match card {
            Card::Skull => Hand { skulls: (self.skulls - 1) as u8, flowers: self.flowers },
            Card::Flower => Hand { skulls: self.skulls, flowers: (self.flowers - 1) as u8 },
        }
    }

    /// The hand with one more card of the given kind.
    pub open spec fn with(self, card: Card) -> Hand {
        match card {
            Card::Skull => Hand { skulls: (self.skulls + 1) as u8, flowers: self.flowers },
            Card::Flower => Hand { skulls: self.skulls, flowers: (self.flowers + 1) as u8 },
        }
    }

    /// The card that the owner gives up after flipping a skull: a flower
    /// while there is one, the skull otherwise.
    pub open spec fn forfeit(self) -> Card {
        if self.flowers > 0 {
            Card::Flower
        } else {
            Card::Skull
        }
    }
}

/// The hand after all cards of a stack have gone back into it.
pub open spec fn restored(hand: Hand, stack: Seq<Card>) -> Hand
    decreases stack.len(),
{
    if stack.len() == 0 {
        hand
    } else {
        restored(hand, stack.drop_last()).with(stack.last())
    }
}

/// The actions that stack a card from the given hand: the flower first.
pub open spec fn stack_actions(hand: Hand) -> Seq<Action> {
    (if hand.flowers > 0 {
        seq![Action::Stack { card: Card::Flower }]
    } else {
        Seq::<Action>::empty()
    }) + (if hand.skulls > 0 {
        seq![Action::Stack { card: Card::Skull }]
    } else {
        Seq::<Action>::empty()
    })
}

/// The actions open to a bidder who faces a bid of `current_bid` with
/// `num_cards` cards on the table: to pass, unless no bid was made yet, and
/// every higher bid up to the number of cards, lowest first.
pub open spec fn bid_actions(current_bid: u8, num_cards: int) -> Seq<Action> {
    (if current_bid == 0 {
        Seq::<Action>::empty()
    } else {
        seq![Action::Pass]
    }) + Seq::new(
        if num_cards > current_bid {
            (num_cards - current_bid) as nat
        } else {
            0
        },
        |i: int| Action::Bid { amount: (current_bid + 1 + i) as u8 },
    )
}

impl Table {
    /// The number of cards that a player owns, in hand and on the table.
    pub open spec fn owned(self, p: Player) -> int {
        p.pick(self.hands).size() + p.pick(self.stacks).len()
    }

    /// The number of cards on the table.
    pub open spec fn on_table(self) -> int {
        (self.stacks.0.len() + self.stacks.1.len()) as int
    }

    /// What holds of every position that play reaches from the start.
    pub open spec fn inv(self) -> bool {
        &&& self.owned(Player::P1) <= MAX_CARDS
        &&& self.owned(Player::P2) <= MAX_CARDS
        &&& !(self.state is End) ==> self.owned(Player::P1) >= 1 && self.owned(Player::P2) >= 1
        &&& match self.state {
            GameState::PreStack { player } => player.pick(self.stacks).len() == 0,
            GameState::Stack { .. } => self.stacks.0.len() >= 1 && self.stacks.1.len() >= 1,
            GameState::Bid { amount, leader, player, has_passed } => {
                &&& 1 <= amount <= self.on_table()
                &&& has_passed == (leader == player)
            },
            GameState::End { .. } => true,
        }
    }

    /// The player to move.
    pub open spec fn mover(self) -> Player {
        match self.state {
            GameState::PreStack { player } => player,
            GameState::Stack { player } => player,
            GameState::Bid { player, .. } => player,
            GameState::End { winner } => winner,
        }
    }

    /// The legal actions in their order.
    pub open spec fn actions(self) -> Seq<Action> {
        match self.state {
            GameState::PreStack { player } => stack_actions(player.pick(self.hands)),
            GameState::Stack { player } => stack_actions(player.pick(self.hands)) + bid_actions(
                0,
                self.on_table(),
            ),
            GameState::Bid { amount, leader, player, .. } => if leader != player {
                bid_actions(amount, self.on_table())
            } else {
                seq![Action::Pass]
            },
            GameState::End { .. } => Seq::<Action>::empty(),
        }
    }

    /// Whether an action is legal, stated directly.
    pub open spec fn permits(self, action: Action) -> bool {
        match (self.state, action) {
            (GameState::PreStack { player }, Action::Stack { card }) => player.pick(
                self.hands,
            ).holds(card),
            (GameState::Stack { player }, Action::Stack { card }) => player.pick(self.hands).holds(
                card,
            ),
            (GameState::Stack { .. }, Action::Bid { amount }) => 1 <= amount <= self.on_table(),
            (GameState::Bid { amount: bid, leader, player, .. }, Action::Bid { amount }) => leader
                != player && bid < amount <= self.on_table(),
            (GameState::Bid { amount: bid, leader, player, .. }, Action::Pass) => leader == player
                || bid != 0,
            _ => false,
        }
    }

    /// The cards in the order in which the leader flips them: the leader's
    /// own stack from the top, then the other stack from the top.
    pub open spec fn flip_order(self, leader: Player) -> Seq<Card> {
        leader.pick(self.stacks).reverse() + leader.other().pick(self.stacks).reverse()
    }

    /// Whether a skull is among the first `amount` cards that the leader
    /// flips.
    pub open spec fn meets_skull(self, leader: Player, amount: u8) -> bool {
        exists|i: int|
            0 <= i < amount && i < self.flip_order(leader).len() && #[trigger] self.flip_order(
                leader,
            )[i] == Card::Skull
    }

    /// The position after the player to move has stacked a card.
    pub open spec fn after_stack(self, player: Player, card: Card) -> Table {
        let hands = player.put(self.hands, player.pick(self.hands).without(card));
        let stacks = player.put(self.stacks, player.pick(self.stacks).push(card));
        let state = if self.state is PreStack && player.other().pick(self.stacks).len() == 0 {
            GameState::PreStack { player: player.other() }
        } else {
            GameState::Stack { player: player.other() }
        };
        Table {
            hands,
            state,
            stacks,
            has_flipped: self.has_flipped,
            history: self.history.push(
                HistoryEntry::PlayerAction(player, Action::Stack { card }),
            ),
        }
    }

    /// The position after both players have passed on the leader's bid: all
    /// cards go back to the hands, and the leader flips. A skull costs the
    /// leader a card, and the game where it was the last one. A clean flip
    /// earns a point, and the game where it is the second.
    pub open spec fn after_flip(self, player: Player, leader: Player, amount: u8) -> Table {
        let base = self.history.push(HistoryEntry::PlayerAction(player, Action::Pass));
        let hand1 = restored(self.hands.0, self.stacks.0);
        let hand2 = restored(self.hands.1, self.stacks.1);
        let hands = (hand1, hand2);
        let empty = (Seq::<Card>::empty(), Seq::<Card>::empty());
        if self.meets_skull(leader, amount) {
            let lost = leader.pick(hands).forfeit();
            let left = leader.pick(hands).without(lost);
            Table {
                hands: leader.put(hands, left),
                state: if left.size() == 0 {
                    GameState::End { winner: leader.other() }
                } else {
                    GameState::PreStack { player: leader }
                },
                stacks: empty,
                has_flipped: self.has_flipped,
                history: base.push(HistoryEntry::Flip(leader, leader, Card::Skull)).push(
                    HistoryEntry::LoseCard(leader, lost),
                ),
            }
        } else if leader.pick(self.has_flipped) {
            Table {
                hands,
                state: GameState::End { winner: leader },
                stacks: empty,
                has_flipped: self.has_flipped,
                history: base,
            }
        } else {
            Table {
                hands,
                state: GameState::PreStack { player: leader },
                stacks: empty,
                has_flipped: leader.put(self.has_flipped, true),
                history: base.push(HistoryEntry::GetPoint(leader)),
            }
        }
    }

    /// The position after the player to move has taken a legal action.
    pub open spec fn after(self, action: Action) -> Table {
        let player = self.mover();
        match (self.state, action) {
            (_, Action::Stack { card }) => self.after_stack(player, card),
            (GameState::Bid { amount, leader, has_passed, .. }, Action::Pass) => if has_passed {
                self.after_flip(player, leader, amount)
            } else {
                Table {
                    state: GameState::Bid {
                        amount,
                        leader,
                        player: player.other(),
                        has_passed: true,
                    },
                    history: self.history.push(HistoryEntry::PlayerAction(player, action)),
                    ..self
                }
            },
            (_, Action::Bid { amount }) => Table {
                state: GameState::Bid {
                    amount,
                    leader: player,
                    player: player.other(),
                    has_passed: false,
                },
                history: self.history.push(HistoryEntry::PlayerAction(player, action)),
                ..self
            },
            _ => self,
        }
    }

    /// Player 1's payoff where the game is over: 1 for a win, -1 for a loss.
    pub open spec fn reward(self) -> Option<u32> {
        match self.state {
            GameState::End { winner } => Some(winner.pick((ONE, MINUS_ONE))),
            _ => None,
        }
    }

    /// A number that every legal action makes smaller. The first part counts
    /// what can still be lost or won over the rounds to come, the second what
    /// is left of the current round.
    pub open spec fn rank(self) -> nat {
        if self.state is End {
            0
        } else {
            let rounds = self.owned(Player::P1) + self.owned(Player::P2) + (if self.has_flipped.0 {
                0int
            } else {
                1int
            }) + (if self.has_flipped.1 {
                0int
            } else {
                1int
            });
            let round = match self.state {
                GameState::Bid { amount, has_passed, .. } => 2 * (9 - amount) + (if has_passed {
                    0int
                } else {
                    1int
                }),
                _ => 100 + self.hands.0.size() + self.hands.1.size(),
            };
            (1000 * rounds + round) as nat
        }
    }
}

impl View for Skulls {
    type V = Table;

    open spec fn view(&self) -> Table {
        Table {
            hands: self.hands,
            state: self.game_state,
            stacks: (self.stacks.0@, self.stacks.1@),
            has_flipped: self.has_flipped,
            history: self.history@,
        }
    }
}

impl Clone for Skulls {
    fn clone(&self) -> (copy: Self)
        ensures
            copy@ == self@,
    {
        let copy = Skulls {
            hands: (self.hands.0, self.hands.1),
            game_state: self.game_state,
            stacks: (self.stacks.0.clone(), self.stacks.1.clone()),
            has_flipped: (self.has_flipped.0, self.has_flipped.1),
            history: self.history.clone(),
        };
        assert(copy.stacks.0@ =~= self.stacks.0@);
        assert(copy.stacks.1@ =~= self.stacks.1@);
        assert(copy.history@ =~= self.history@);
        copy
    }
}

/// An action is among the stacking actions of a hand exactly if it stacks a
/// card that the hand holds.
pub proof fn lemma_stack_actions(hand: Hand, action: Action)
    ensures
        stack_actions(hand).contains(action) <==> (action matches Action::Stack { card }
            && hand.holds(card)),
{
    let s = stack_actions(hand);
    if s.contains(action) {
        let i = choose|i: int| 0 <= i < s.len() && s[i] == action;
        assert(s[i] == action);
    }
    if let Action::Stack { card } = action {
        if hand.holds(card) {
            if card == Card::Flower {
                assert(s[0] == action);
            } else {
                assert(s[s.len() - 1] == action);
            }
        }
    }
}

/// An action is among the bidding actions exactly if it passes on a standing
/// bid or raises it by no more than the table allows.
pub proof fn lemma_bid_actions(current_bid: u8, num_cards: int, action: Action)
    requires
        0 <= num_cards <= 255,
    ensures
        bid_actions(current_bid, num_cards).contains(action) <==> ((action is Pass && current_bid
            != 0) || (action matches Action::Bid { amount } && current_bid < amount
            <= num_cards)),
{
    let s = bid_actions(current_bid, num_cards);
    let shift: int = if current_bid == 0 {
        0
    } else {
        1
    };
    if s.contains(action) {
        let i = choose|i: int| 0 <= i < s.len() && s[i] == action;
        assert(s[i] == action);
    }
    if action is Pass && current_bid != 0 {
        assert(s[0] == action);
    }
    if let Action::Bid { amount } = action {
        if current_bid < amount && amount <= num_cards {
            assert(s[shift + amount - current_bid - 1] == action);
        }
    }
}

/// The listed actions of a position are the permitted ones.
pub proof fn lemma_actions_are_permitted(t: Table, action: Action)
    requires
        t.inv(),
    ensures
        t.actions().contains(action) <==> t.permits(action),
{
    match t.state {
        GameState::PreStack { player } => {
            lemma_stack_actions(player.pick(t.hands), action);
        },
        GameState::Stack { player } => {
            let a = stack_actions(player.pick(t.hands));
            let b = bid_actions(0, t.on_table());
            lemma_stack_actions(player.pick(t.hands), action);
            lemma_bid_actions(0, t.on_table(), action);
            if a.contains(action) {
                let i = choose|i: int| 0 <= i < a.len() && a[i] == action;
                assert((a + b)[i] == action);
            }
            if b.contains(action) {
                let i = choose|i: int| 0 <= i < b.len() && b[i] == action;
                assert((a + b)[a.len() + i] == action);
            }
            if (a + b).contains(action) {
                let i = choose|i: int| 0 <= i < (a + b).len() && (a + b)[i] == action;
                if i < a.len() {
                    assert(a[i] == action);
                } else {
                    assert(b[i - a.len()] == action);
                }
            }
        },
        GameState::Bid { amount, leader, player, .. } => {
            if leader != player {
                lemma_bid_actions(amount, t.on_table(), action);
            } else {
                let s = seq![Action::Pass];
                if action is Pass {
                    assert(s[0] == action);
                }
            }
        },
        GameState::End { .. } => {},
    }
}

/// Putting a stack back raises the hand by the size of the stack.
pub proof fn lemma_restored_size(hand: Hand, stack: Seq<Card>)
    requires
        hand.size() + stack.len() <= 255,
    ensures
        restored(hand, stack).size() == hand.size() + stack.len(),
        restored(hand, stack).skulls >= hand.skulls,
        restored(hand, stack).flowers >= hand.flowers,
    decreases stack.len(),
{
    if stack.len() > 0 {
        lemma_restored_size(hand, stack.drop_last());
    }
}

/// Lists the actions that stack a card from the hand.
pub fn hand_to_stack_actions(hand: &Hand) -> (actions: Vec<Action>)
    ensures
        actions@ == stack_actions(*hand),
{
    let mut actions: Vec<Action> = Vec::new();
    if hand.flowers > 0 {
        actions.push(Action::Stack { card: Card::Flower });
    }
    if hand.skulls > 0 {
        actions.push(Action::Stack { card: Card::Skull });
    }
    assert(actions@ =~= stack_actions(*hand));
    actions
}

/// Lists the actions of a bidder who faces `current_bid`, with the given
/// stacks on the table. A bid is a `u8`, so the stacks may hold 255 cards at
/// most.
pub fn board_to_bid_actions(current_bid: u8, stacks: &(Vec<Card>, Vec<Card>)) -> (actions: Vec<
    Action,
>)
    requires
        stacks.0@.len() + stacks.1@.len() <= 255,
    ensures
        actions@ == bid_actions(current_bid, (stacks.0@.len() + stacks.1@.len()) as int),
{
    let num_cards: usize = stacks.0.len() + stacks.1.len();
    let mut actions: Vec<Action> = Vec::new();
    if current_bid != 0 {
        actions.push(Action::Pass);
    }
    let ghost head = actions@;
    let first: usize = current_bid as usize + 1;
    let mut next: usize = first;
    while next <= num_cards
        invariant
            first == current_bid + 1,
            num_cards <= 255,
            first <= next,
            next <= num_cards + 1 || next == first,
            actions@ == head + Seq::new(
                (next - first) as nat,
                |i: int| Action::Bid { amount: (current_bid + 1 + i) as u8 },
            ),
        decreases num_cards + 1 - next,
    {
        actions.push(Action::Bid { amount: next as u8 });
        next += 1;
        assert(actions@ =~= head + Seq::new(
            (next - first) as nat,
            |i: int| Action::Bid { amount: (current_bid + 1 + i) as u8 },
        ));
    }
    assert(actions@ =~= bid_actions(current_bid, num_cards as int));
    actions
}

/// Moves a card from the hand to the top of the stack.
pub fn play_card(card: Card, stack: &mut Vec<Card>, hand: &mut Hand)
    requires
        old(hand).holds(card),
    ensures
        final(stack)@ == old(stack)@.push(card),
        *final(hand) == old(hand).without(card),
{
    stack.push(card);
    if card == Card::Skull {
        hand.skulls -= 1;
    } else {
        hand.flowers -= 1;
    }
}

/// Puts the cards of a stack back into the hand.
fn take_back(hand: &mut Hand, stack: &Vec<Card>)
    requires
        old(hand).size() + stack@.len() <= 255,
    ensures
        *final(hand) == restored(*old(hand), stack@),
{
    let mut i: usize = 0;
    while i < stack.len()
        invariant
            i <= stack@.len(),
            old(hand).size() + stack@.len() <= 255,
            *hand == restored(*old(hand), stack@.take(i as int)),
        decreases stack@.len() - i,
    {
        proof {
            lemma_restored_size(*old(hand), stack@.take(i as int));
            assert(stack@.take(i + 1).drop_last() =~= stack@.take(i as int));
        }
        match stack[i] {
            Card::Flower => {
                hand.flowers += 1;
            },
            Card::Skull => {
                hand.skulls += 1;
            },
        }
        i += 1;
    }
    assert(stack@.take(i as int) =~= stack@);
}

impl Skulls {
    /// A new game in which a random player starts.
    pub fn new() -> (game: Skulls)
        ensures
            game@ == Skulls::opening(game@.mover()),
            game@.inv(),
    {
        let mut rng = rand::thread_rng();
        let player = if random_bool(&mut rng) {
            Player::P1
        } else {
            Player::P2
        };
        Skulls::manual_new(player)
    }

    /// The position at the start of a game in which `player` goes first: each
    /// side holds one skull and three flowers, and nothing is on the table.
    pub open spec fn opening(player: Player) -> Table {
        Table {
            hands: (Hand { skulls: 1, flowers: 3 }, Hand { skulls: 1, flowers: 3 }),
            state: GameState::PreStack { player },
            stacks: (Seq::<Card>::empty(), Seq::<Card>::empty()),
            has_flipped: (false, false),
            history: Seq::<HistoryEntry>::empty(),
        }
    }

    /// A new game in which the given player starts.
    pub fn manual_new(player: Player) -> (game: Skulls)
        ensures
            game@ == Skulls::opening(player),
            game@.inv(),
    {
        let game = Skulls {
            hands: (Hand { skulls: 1, flowers: 3 }, Hand { skulls: 1, flowers: 3 }),
            game_state: GameState::PreStack { player },
            stacks: (Vec::new(), Vec::new()),
            has_flipped: (false, false),
            history: Vec::new(),
        };
        assert(game@.stacks.0 =~= Seq::<Card>::empty());
        assert(game@.stacks.1 =~= Seq::<Card>::empty());
        assert(game@.history =~= Seq::<HistoryEntry>::empty());
        game
    }

    /// The hand of a player.
    pub fn hand_of(&self, player: Player) -> (hand: Hand)
        ensures
            hand == player.pick(self@.hands),
    {
        match player {
            Player::P1 => self.hands.0,
            Player::P2 => self.hands.1,
        }
    }

    /// The number of cards in a player's stack.
    pub fn stack_len(&self, player: Player) -> (n: usize)
        ensures
            n == player.pick(self@.stacks).len(),
    {
        match player {
            Player::P1 => self.stacks.0.len(),
            Player::P2 => self.stacks.1.len(),
        }
    }

    /// Whether a player has already flipped cleanly once.
    pub fn has_point(&self, player: Player) -> (b: bool)
        ensures
            b == player.pick(self@.has_flipped),
    {
        match player {
            Player::P1 => self.has_flipped.0,
            Player::P2 => self.has_flipped.1,
        }
    }

    /// The card at the given place of the order in which `leader` flips.
    fn flipped_card(&self, leader: Player, i: usize) -> (card: Card)
        requires
            i < self@.flip_order(leader).len(),
        ensures
            card == self@.flip_order(leader)[i as int],
    {
        let (own, other) = match leader {
            Player::P1 => (&self.stacks.0, &self.stacks.1),
            Player::P2 => (&self.stacks.1, &self.stacks.0),
        };
        if i < own.len() {
            own[own.len() - 1 - i]
        } else {
            other[other.len() - 1 - (i - own.len())]
        }
    }

    /// Tells whether `leader` meets a skull among the first `amount` cards.
    fn flips_skull(&self, leader: Player, amount: u8) -> (found: bool)
        requires
            self@.on_table() <= 255,
        ensures
            found == self@.meets_skull(leader, amount),
    {
        let total: usize = self.stacks.0.len() + self.stacks.1.len();
        let ghost order = self@.flip_order(leader);
        let mut i: usize = 0;
        while i < amount as usize && i < total
            invariant
                order == self@.flip_order(leader),
                total == order.len(),
                forall|j: int| 0 <= j < i ==> order[j] != Card::Skull,
            decreases total - i,
        {
            if self.flipped_card(leader, i) == Card::Skull {
                return true;
            }
            i += 1;
        }
        false
    }

    /// Stacks a card of the player to move.
    fn stack_card(&mut self, player: Player, card: Card)
        requires
            player.pick(old(self)@.hands).holds(card),
        ensures
            final(self)@.hands == player.put(
                old(self)@.hands,
                player.pick(old(self)@.hands).without(card),
            ),
            final(self)@.stacks == player.put(
                old(self)@.stacks,
                player.pick(old(self)@.stacks).push(card),
            ),
            final(self).game_state == old(self).game_state,
            final(self).has_flipped == old(self).has_flipped,
            final(self).history == old(self).history,
    {
        match player {
            Player::P1 => play_card(card, &mut self.stacks.0, &mut self.hands.0),
            Player::P2 => play_card(card, &mut self.stacks.1, &mut self.hands.1),
        }
    }

    /// Ends the round after the second pass: the cards go back, the leader
    /// flips, and loses a card or scores.
    fn flip(&mut self, leader: Player, amount: u8)
        requires
            old(self)@.owned(Player::P1) <= MAX_CARDS,
            old(self)@.owned(Player::P2) <= MAX_CARDS,
            old(self)@.owned(leader) >= 1,
            old(self).history@.len() > 0,
            old(self).history@.last() == HistoryEntry::PlayerAction(leader, Action::Pass),
        ensures
            final(self)@ == (Table {
                history: old(self).history@.drop_last(),
                ..old(self)@
            }).after_flip(leader, leader, amount),
    {
        let ghost before = Table { history: old(self).history@.drop_last(), ..old(self)@ };
        assert(before.history.push(HistoryEntry::PlayerAction(leader, Action::Pass))
            =~= self.history@);
        let found_skull = self.flips_skull(leader, amount);
        assert(found_skull == before.meets_skull(leader, amount));
        proof {
            lemma_restored_size(self.hands.0, self.stacks.0@);
            lemma_restored_size(self.hands.1, self.stacks.1@);
        }
        take_back(&mut self.hands.0, &self.stacks.0);
        take_back(&mut self.hands.1, &self.stacks.1);
        self.stacks.0.clear();
        self.stacks.1.clear();
        if found_skull {
            self.history.push(HistoryEntry::Flip(leader, leader, Card::Skull));
            let hand = self.hand_of(leader);
            let lost = if hand.flowers > 0 {
                Card::Flower
            } else {
                Card::Skull
            };
            let left = match lost {
                Card::Flower => Hand { skulls: hand.skulls, flowers: hand.flowers - 1 },
                Card::Skull => Hand { skulls: hand.skulls - 1, flowers: hand.flowers },
            };
            match leader {
                Player::P1 => {
                    self.hands.0 = left;
                },
                Player::P2 => {
                    self.hands.1 = left;
                },
            }
            self.history.push(HistoryEntry::LoseCard(leader, lost));
            if left.skulls == 0 && left.flowers == 0 {
                self.game_state = GameState::End { winner: leader.other() };
            } else {
                self.game_state = GameState::PreStack { player: leader };
            }
        } else if self.has_point(leader) {
            self.game_state = GameState::End { winner: leader };
        } else {
            match leader {
                Player::P1 => {
                    self.has_flipped.0 = true;
                },
                Player::P2 => {
                    self.has_flipped.1 = true;
                },
            }
            self.history.push(HistoryEntry::GetPoint(leader));
            self.game_state = GameState::PreStack { player: leader };
        }
        assert(self@.stacks.0 =~= Seq::<Card>::empty());
        assert(self@.stacks.1 =~= Seq::<Card>::empty());
    }
}

/// The number that stands for a player in another player's observations: 0
/// for the observer, 1 for the opponent. Both sides so see themselves as the
/// first player.
pub open spec fn relabel(observer: Player, p: Player) -> u64 {
    if p == observer {
        0
    } else {
        1
    }
}

/// The number of a card in observations: 0 for a skull, 1 for a flower.
pub open spec fn card_code(card: Card) -> u64 {
    match card {
        Card::Skull => 0,
        Card::Flower => 1,
    }
}

/// One observation as a word: the two players it concerns, its kind and its
/// detail, one byte each, the first in the lowest byte.
pub open spec fn pack(p1: u64, p2: u64, kind: u64, detail: u64) -> u64 {
    (p1 + 256 * p2 + 65536 * kind + 16777216 * detail) as u64
}

/// What `observer` sees of one event. Bids, passes, flips and points are
/// public. Which card was stacked or lost is known to its owner alone; to
/// the other side the detail is 0.
pub open spec fn observed(observer: Player, entry: HistoryEntry) -> u64 {
    match entry {
        HistoryEntry::GetPoint(p) => pack(relabel(observer, p), relabel(observer, p), 0, 0),
        HistoryEntry::PlayerAction(p, action) => {
            let who = relabel(observer, p);
            match action {
                Action::Bid { amount } => pack(who, who, 1, amount as u64),
                Action::Pass => pack(who, who, 2, 0),
                Action::Stack { card } => pack(
                    who,
                    who,
                    3,
                    if p == observer {
                        (1 + card_code(card)) as u64
                    } else {
                        0
                    },
                ),
            }
        },
        HistoryEntry::Flip(flipper, target, card) => pack(
            relabel(observer, flipper),
            relabel(observer, target),
            4,
            card_code(card),
        ),
        HistoryEntry::LoseCard(flipper, card) => pack(
            relabel(observer, flipper),
            relabel(observer, flipper),
            5,
            if flipper == observer {
                (1 + card_code(card)) as u64
            } else {
                0
            },
        ),
    }
}

/// What `observer` sees of a whole history.
pub open spec fn observations(observer: Player, history: Seq<HistoryEntry>) -> Seq<u64> {
    history.map_values(|entry: HistoryEntry| observed(observer, entry))
}

fn relabelled(observer: Player, p: Player) -> (r: u64)
    ensures
        r == relabel(observer, p),
{
    if p == observer {
        0
    } else {
        1
    }
}

fn code_of(card: Card) -> (r: u64)
    ensures
        r == card_code(card),
{
    match card {
        Card::Skull => 0,
        Card::Flower => 1,
    }
}

fn packed(p1: u64, p2: u64, kind: u64, detail: u64) -> (r: u64)
    requires
        p1 <= 1,
        p2 <= 1,
        kind <= 5,
        detail <= 255,
    ensures
        r == pack(p1, p2, kind, detail),
{
    p1 + 256 * p2 + 65536 * kind + 16777216 * detail
}

/// Encodes what `observer` sees of one event.
pub fn observe(observer: Player, entry: &HistoryEntry) -> (word: u64)
    ensures
        word == observed(observer, *entry),
{
    match *entry {
        HistoryEntry::GetPoint(p) => {
            let who = relabelled(observer, p);
            packed(who, who, 0, 0)
        },
        HistoryEntry::PlayerAction(p, action) => {
            let who = relabelled(observer, p);
            match action {
                Action::Bid { amount } => packed(who, who, 1, amount as u64),
                Action::Pass => packed(who, who, 2, 0),
                Action::Stack { card } => {
                    let detail = if p == observer {
                        1 + code_of(card)
                    } else {
                        0
                    };
                    packed(who, who, 3, detail)
                },
            }
        },
        HistoryEntry::Flip(flipper, target, card) => packed(
            relabelled(observer, flipper),
            relabelled(observer, target),
            4,
            code_of(card),
        ),
        HistoryEntry::LoseCard(flipper, card) => {
            let who = relabelled(observer, flipper);
            let detail = if flipper == observer {
                1 + code_of(card)
            } else {
                0
            };
            packed(who, who, 5, detail)
        },
    }
}

/// Every legal action keeps the invariant and lowers the rank.
pub proof fn lemma_step(t: Table, action: Action)
    requires
        t.inv(),
        t.permits(action),
    ensures
        t.after(action).inv(),
        t.after(action).rank() < t.rank(),
{
    match (t.state, action) {
        (_, Action::Stack { card }) => {
            lemma_step_stack(t, card);
        },
        (GameState::Bid { amount, leader, has_passed, .. }, Action::Pass) => {
            if has_passed {
                lemma_step_flip(t, leader, amount);
            }
        },
        _ => {},
    }
}

/// Stacking a card keeps the invariant and lowers the rank.
proof fn lemma_step_stack(t: Table, card: Card)
    requires
        t.inv(),
        t.permits(Action::Stack { card }),
    ensures
        t.after_stack(t.mover(), card).inv(),
        t.after_stack(t.mover(), card).rank() < t.rank(),
{
    let player = t.mover();
    let next = t.after_stack(player, card);
    let hand = player.pick(t.hands);
    assert(hand.holds(card));
    assert(hand.without(card).size() == hand.size() - 1);
    assert(player.pick(next.stacks).len() == player.pick(t.stacks).len() + 1);
    assert(player.other().pick(next.stacks) == player.other().pick(t.stacks));
    assert(player.other().pick(next.hands) == player.other().pick(t.hands));
    assert(next.owned(Player::P1) == t.owned(Player::P1));
    assert(next.owned(Player::P2) == t.owned(Player::P2));
    assert(next.hands.0.size() + next.hands.1.size() == t.hands.0.size() + t.hands.1.size() - 1);
}

/// Flipping after the second pass keeps the invariant and lowers the rank.
proof fn lemma_step_flip(t: Table, leader: Player, amount: u8)
    requires
        t.inv(),
        t.state == (GameState::Bid { amount, leader, player: leader, has_passed: true }),
    ensures
        t.after_flip(leader, leader, amount).inv(),
        t.after_flip(leader, leader, amount).rank() < t.rank(),
{
    lemma_restored_size(t.hands.0, t.stacks.0);
    lemma_restored_size(t.hands.1, t.stacks.1);
    let next = t.after_flip(leader, leader, amount);
    let hand1 = restored(t.hands.0, t.stacks.0);
    let hand2 = restored(t.hands.1, t.stacks.1);
    let hands = (hand1, hand2);
    assert(hand1.size() == t.owned(Player::P1));
    assert(hand2.size() == t.owned(Player::P2));
    assert(next.stacks.0.len() == 0 && next.stacks.1.len() == 0);
    if t.meets_skull(leader, amount) {
        let lost = leader.pick(hands).forfeit();
        let left = leader.pick(hands).without(lost);
        assert(leader.pick(hands).size() >= 1);
        assert(leader.pick(hands).holds(lost));
        assert(left.size() == leader.pick(hands).size() - 1);
        assert(leader.pick(next.hands) == left);
        assert(leader.other().pick(next.hands) == leader.other().pick(hands));
        assert(next.owned(leader) == t.owned(leader) - 1);
        assert(next.owned(leader.other()) == t.owned(leader.other()));
        assert(next.owned(Player::P1) + next.owned(Player::P2) == t.owned(Player::P1) + t.owned(
            Player::P2,
        ) - 1);
    } else if leader.pick(t.has_flipped) {
    } else {
        assert(next.owned(Player::P1) == t.owned(Player::P1));
        assert(next.owned(Player::P2) == t.owned(Player::P2));
        assert(next.hands.0.size() + next.hands.1.size() <= 8);
    }
}

impl Game for Skulls {
    type Action = Action;

    open spec fn inv(&self) -> bool {
        self@.inv()
    }

    open spec fn spec_turn(&self) -> (Player, Seq<Action>) {
        (self@.mover(), self@.actions())
    }

    open spec fn spec_reward(&self) -> Option<u32> {
        self@.reward()
    }

    open spec fn rank(&self) -> nat {
        self@.rank()
    }

    open spec fn spec_infoset(&self, player: Player) -> Seq<u64> {
        observations(player, self@.history)
    }

    open spec fn steps(&self, action: Action, after: Self) -> bool {
        after@ == self@.after(action)
    }

    open spec fn copies(&self, copy: Self) -> bool {
        copy@ == self@
    }

    fn get_turn(&self) -> (turn: (Player, Vec<Action>)) {
        match self.game_state {
            GameState::PreStack { player } => {
                let hand = self.hand_of(player);
                let actions = hand_to_stack_actions(&hand);
                proof {
                    lemma_stack_actions(hand, Action::Stack { card: Card::Flower });
                    lemma_stack_actions(hand, Action::Stack { card: Card::Skull });
                }
                (player, actions)
            },
            GameState::Stack { player } => {
                let hand = self.hand_of(player);
                let mut actions = hand_to_stack_actions(&hand);
                let mut bids = board_to_bid_actions(0, &self.stacks);
                proof {
                    lemma_bid_actions(0, self@.on_table(), Action::Bid { amount: 1 });
                }
                let ghost a = actions@;
                let ghost b = bids@;
                actions.append(&mut bids);
                assert(actions@ =~= a + b);
                (player, actions)
            },
            GameState::Bid { amount, leader, player, .. } => {
                if leader != player {
                    let actions = board_to_bid_actions(amount, &self.stacks);
                    proof {
                        lemma_bid_actions(amount, self@.on_table(), Action::Pass);
                    }
                    (player, actions)
                } else {
                    let mut actions: Vec<Action> = Vec::new();
                    actions.push(Action::Pass);
                    assert(actions@ =~= seq![Action::Pass]);
                    (player, actions)
                }
            },
            GameState::End { winner } => {
                let actions: Vec<Action> = Vec::new();
                assert(actions@ =~= Seq::<Action>::empty());
                (winner, actions)
            },
        }
    }

    fn take_turn(&mut self, player: Player, action: &Action)
        ensures
            final(self)@ == old(self)@.after(*action),
    {
        let ghost before = self@;
        proof {
            lemma_actions_are_permitted(before, *action);
            lemma_step(before, *action);
        }
        self.history.push(HistoryEntry::PlayerAction(player, *action));
        match (self.game_state, *action) {
            (GameState::PreStack { .. }, Action::Stack { card }) => {
                self.stack_card(player, card);
                if self.stack_len(player.other()) == 0 {
                    self.game_state = GameState::PreStack { player: player.other() };
                } else {
                    self.game_state = GameState::Stack { player: player.other() };
                }
            },
            (GameState::Stack { .. }, Action::Stack { card }) => {
                self.stack_card(player, card);
                self.game_state = GameState::Stack { player: player.other() };
            },
            (GameState::Stack { .. }, Action::Bid { amount }) => {
                self.game_state =
                GameState::Bid { amount, leader: player, player: player.other(), has_passed: false };
            },
            (GameState::Bid { .. }, Action::Bid { amount }) => {
                self.game_state =
                GameState::Bid { amount, leader: player, player: player.other(), has_passed: false };
            },
            (GameState::Bid { amount, leader, has_passed: false, .. }, Action::Pass) => {
                self.game_state =
                GameState::Bid { amount, leader, player: player.other(), has_passed: true };
            },
            (GameState::Bid { amount, leader, has_passed: true, .. }, Action::Pass) => {
                assert(self.history@.drop_last() =~= before.history);
                self.flip(leader, amount);
            },
            _ => {
                assert(false);
            },
        }
        assert(self@.history =~= before.after(*action).history);
        assert(self@.stacks.0 =~= before.after(*action).stacks.0);
        assert(self@.stacks.1 =~= before.after(*action).stacks.1);
    }

    fn get_reward(&self) -> (reward: Option<u32>) {
        match self.game_state {
            GameState::End { winner } => match winner {
                Player::P1 => Some(ONE),
                Player::P2 => Some(MINUS_ONE),
            },
            _ => None,
        }
    }

    fn get_infoset(&self, player: Player) -> (infoset: Infoset)
        ensures
            infoset.infoset@ == observations(player, self@.history),
    {
        let mut words: Vec<u64> = Vec::new();
        let mut i: usize = 0;
        while i < self.history.len()
            invariant
                i <= self.history@.len(),
                words@ == observations(player, self.history@.take(i as int)),
            decreases self.history@.len() - i,
        {
            words.push(observe(player, &self.history[i]));
            i += 1;
            assert(words@ =~= observations(player, self.history@.take(i as int)));
        }
        assert(self.history@.take(i as int) =~= self.history@);
        Infoset::new(words)
    }

    fn duplicate(&self) -> (copy: Self)
        ensures
            copy@ == self@,
    {
        self.clone()
    }
}

} // verus!
