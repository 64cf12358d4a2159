//! One-card poker: each player antes one chip and is dealt one card; a single
//! round of betting follows, and the higher card wins a showdown.

use crate::game::infoset::Infoset;
use crate::game::player::Player;
use crate::game::rules::Game;
use crate::numeric::{HALF, MINUS_HALF, MINUS_ONE, ONE};
use crate::rng::{random_below, random_bool};
use vstd::prelude::*;

verus! {

/// The number of cards in the deck. Cards are numbered from 0.
pub const NUM_CARDS: u32 = 13;

#[derive(Copy, Clone, Debug, PartialEq, Eq, Structural)]
pub enum Action {
    Fold,
    Call,
    Bet,
}

/// Where the betting stands. The names take the dealer to be the second
/// player to act.
#[derive(Copy, Clone, Debug, PartialEq, Eq, Structural)]
pub enum PokerState {
    /// Just dealt: the first to act can check or bet.
    P1Deal,
    /// The first checked: the dealer can check or bet.
    P2Check,
    /// The dealer bet after a check: the first can call or fold.
    P1Raise,
    /// The first bet: the dealer can call or fold.
    P2Bet,
    /// Somebody folded.
    FoldEnd,
    /// The cards are compared.
    ShowdownEnd,
}

#[derive(Debug)]
pub struct OneCardPoker {
    pub dealer: Player,
    pub pot: (u32, u32),
    pub hands: (u32, u32),
    pub history: Vec<(Player, Action)>,
    pub state: PokerState,
    pub current_player: Player,
    pub current_actions: Vec<Action>,
}

/// A position of one-card poker as a mathematical value.
pub struct Deal {
    pub dealer: Player,
    pub pot: (u32, u32),
    pub hands: (u32, u32),
    pub history: Seq<(Player, Action)>,
    pub state: PokerState,
    pub current_player: Player,
    pub current_actions: Seq<Action>,
}

/// The actions that are legal in a state, in their order.
pub open spec fn actions_of(state: PokerState) -> Seq<Action> {
    match state {
        PokerState::P1Deal => seq![Action::Call, Action::Bet],
        PokerState::P2Check => seq![Action::Call, Action::Bet],
        PokerState::P1Raise => seq![Action::Fold, Action::Call],
        PokerState::P2Bet => seq![Action::Fold, Action::Call],
        _ => Seq::<Action>::empty(),
    }
}

/// Whether an action is legal in a state, stated directly.
pub open spec fn allows(state: PokerState, action: Action) -> bool {
    match state {
        PokerState::P1Deal | PokerState::P2Check => action == Action::Call || action
            == Action::Bet,
        PokerState::P1Raise | PokerState::P2Bet => action == Action::Fold || action
            == Action::Call,
        _ => false,
    }
}

/// The state that a legal action leads to.
pub open spec fn next_state(state: PokerState, action: Action) -> PokerState {
    match (state, action) {
        (PokerState::P1Deal, Action::Call) => PokerState::P2Check,
        (PokerState::P1Deal, Action::Bet) => PokerState::P2Bet,
        (PokerState::P2Check, Action::Call) => PokerState::ShowdownEnd,
        (PokerState::P2Check, Action::Bet) => PokerState::P1Raise,
        (PokerState::P2Bet, Action::Fold) => PokerState::FoldEnd,
        (PokerState::P2Bet, Action::Call) => PokerState::ShowdownEnd,
        (PokerState::P1Raise, Action::Fold) => PokerState::FoldEnd,
        (PokerState::P1Raise, Action::Call) => PokerState::ShowdownEnd,
        _ => state,
    }
}

/// Whether the action puts a chip of the player who takes it into the pot: a
/// bet does, and so does the call of a bet.
pub open spec fn pays(state: PokerState, action: Action) -> bool {
    match (state, action) {
        (PokerState::P1Deal, Action::Bet) => true,
        (PokerState::P2Check, Action::Bet) => true,
        (PokerState::P2Bet, Action::Call) => true,
        (PokerState::P1Raise, Action::Call) => true,
        _ => false,
    }
}

/// Whether the dealer is to act in a state.
pub open spec fn dealer_acts(state: PokerState) -> bool {
    state == PokerState::P2Check || state == PokerState::P2Bet
}

/// The number of actions that can follow at most.
pub open spec fn plies_left(state: PokerState) -> nat {
    match state {
        PokerState::P1Deal => 3,
        PokerState::P2Check => 2,
        PokerState::P1Raise => 1,
        PokerState::P2Bet => 1,
        _ => 0,
    }
}

/// The payoff of winning `chips` chips of the opponent: half a unit a chip,
/// so that payoffs stay between -1 and 1.
pub open spec fn gain(chips: u32) -> u32 {
    if chips == 1 {
        HALF
    } else {
        ONE
    }
}

/// The payoff of losing `chips` chips of one's own.
pub open spec fn loss(chips: u32) -> u32 {
    if chips == 1 {
        MINUS_HALF
    } else {
        MINUS_ONE
    }
}

/// The word that stands for an action of a player in the betting history:
/// twice the action's number (fold 0, call 1, bet 2) plus the player's.
pub open spec fn bet_word(entry: (Player, Action)) -> u64 {
    (2 * (match entry.1 {
        Action::Fold => 0int,
        Action::Call => 1int,
        Action::Bet => 2int,
    }) + entry.0.spec_index()) as u64
}

impl Deal {
    /// What holds of every position that play reaches from a deal: both
    /// antes are in, nobody has put in more than one further chip, and a
    /// player who can still pay has not paid yet.
    pub open spec fn inv(self) -> bool {
        &&& self.current_actions == actions_of(self.state)
        &&& 1 <= self.pot.0 <= 2
        &&& 1 <= self.pot.1 <= 2
        &&& match self.state {
            PokerState::P1Deal => self.current_player == self.dealer.other(),
            PokerState::P1Raise => self.current_player == self.dealer.other(),
            PokerState::P2Check => self.current_player == self.dealer,
            PokerState::P2Bet => self.current_player == self.dealer,
            _ => true,
        }
        &&& allows(self.state, Action::Bet) ==> self.pot == (1u32, 1u32)
        &&& allows(self.state, Action::Fold) ==> self.current_player.pick(self.pot) == 1
    }

    /// The position after the player to move has taken a legal action.
    pub open spec fn after(self, action: Action) -> Deal {
        let player = self.current_player;
        let state = next_state(self.state, action);
        Deal {
            pot: if pays(self.state, action) {
                player.put(self.pot, (player.pick(self.pot) + 1) as u32)
            } else {
                self.pot
            },
            history: self.history.push((player, action)),
            state,
            current_player: if dealer_acts(self.state) {
                self.dealer.other()
            } else {
                self.dealer
            },
            current_actions: actions_of(state),
            ..self
        }
    }

    /// Player 1's payoff where the game is over. After a fold the player who
    /// did not fold is the one left to move and wins the other's chips; at a
    /// showdown the higher card does.
    pub open spec fn reward(self) -> Option<u32> {
        match self.state {
            PokerState::FoldEnd => Some(
                if self.current_player == Player::P1 {
                    gain(self.pot.1)
                } else {
                    loss(self.pot.0)
                },
            ),
            PokerState::ShowdownEnd => Some(
                if self.hands.0 > self.hands.1 {
                    gain(self.pot.1)
                } else {
                    loss(self.pot.0)
                },
            ),
            _ => None,
        }
    }

    /// What a player has observed: the own card, then the public betting.
    pub open spec fn observations(self, player: Player) -> Seq<u64> {
        seq![player.pick(self.hands) as u64] + self.history.map_values(
            |entry: (Player, Action)| bet_word(entry),
        )
    }
}

/// The position right after the deal: the antes are in and the player who
/// does not deal acts first.
pub open spec fn opening(hands: (u32, u32), dealer: Player) -> Deal {
    Deal {
        dealer,
        pot: (1, 1),
        hands,
        history: Seq::<(Player, Action)>::empty(),
        state: PokerState::P1Deal,
        current_player: dealer.other(),
        current_actions: actions_of(PokerState::P1Deal),
    }
}

impl View for OneCardPoker {
    type V = Deal;

    open spec fn view(&self) -> Deal {
        Deal {
            dealer: self.dealer,
            pot: self.pot,
            hands: self.hands,
            history: self.history@,
            state: self.state,
            current_player: self.current_player,
            current_actions: self.current_actions@,
        }
    }
}

/// The listed actions of a state are the allowed ones.
pub proof fn lemma_actions_are_allowed(state: PokerState, action: Action)
    ensures
        actions_of(state).contains(action) <==> allows(state, action),
{
    let s = actions_of(state);
    if s.contains(action) {
        let i = choose|i: int| 0 <= i < s.len() && s[i] == action;
        assert(s[i] == action);
    }
    if allows(state, action) {
        if s[0] != action {
            assert(s[1] == action);
        }
    }
}

/// Every legal action keeps the invariant and brings the end nearer.
pub proof fn lemma_step(d: Deal, action: Action)
    requires
        d.inv(),
        allows(d.state, action),
    ensures
        d.after(action).inv(),
        plies_left(d.after(action).state) < plies_left(d.state),
{
}

/// Lists the legal actions of a state.
pub fn state_to_actions(state: PokerState) -> (actions: Vec<Action>)
    ensures
        actions@ == actions_of(state),
{
    let mut actions: Vec<Action> = Vec::new();
    match state {
        PokerState::P1Deal | PokerState::P2Check => {
            actions.push(Action::Call);
            actions.push(Action::Bet);
        },
        PokerState::P1Raise | PokerState::P2Bet => {
            actions.push(Action::Fold);
            actions.push(Action::Call);
        },
        _ => {},
    }
    assert(actions@ =~= actions_of(state));
    actions
}

/// The payoff of player 1 for winning the given chips of the opponent.
fn gain_of(chips: u32) -> (r: u32)
    ensures
        r == gain(chips),
{
    if chips == 1 {
        HALF
    } else {
        ONE
    }
}

/// The payoff of player 1 for losing the given chips.
fn loss_of(chips: u32) -> (r: u32)
    ensures
        r == loss(chips),
{
    if chips == 1 {
        MINUS_HALF
    } else {
        MINUS_ONE
    }
}

/// Encodes one action of the betting history.
fn word_of(player: Player, action: Action) -> (r: u64)
    ensures
        r == bet_word((player, action)),
{
    let a: u64 = match action {
        Action::Fold => 0,
        Action::Call => 1,
        Action::Bet => 2,
    };
    2 * a + player.index()
}

impl OneCardPoker {
    /// Deals two different cards of the deck at random and lets a random
    /// player deal.
    pub fn new() -> (game: OneCardPoker)
        ensures
            game@ == opening(game@.hands, game@.dealer),
            game@.hands.0 < NUM_CARDS,
            game@.hands.1 < NUM_CARDS,
            game@.hands.0 != game@.hands.1,
            game@.inv(),
    {
        let mut rng = rand::thread_rng();
        let hand1: u32 = random_below(&mut rng, NUM_CARDS);
        let mut hand2: u32 = random_below(&mut rng, NUM_CARDS - 1);
        if hand2 >= hand1 {
            hand2 += 1;
        }
        let dealer = if random_bool(&mut rng) {
            Player::P1
        } else {
            Player::P2
        };
        OneCardPoker::manual_new((hand1, hand2), dealer)
    }

    /// Starts a game with the given cards and dealer.
    pub fn manual_new(hands: (u32, u32), dealer: Player) -> (game: OneCardPoker)
        ensures
            game@ == opening(hands, dealer),
            game@.inv(),
    {
        let game = OneCardPoker {
            dealer,
            hands,
            pot: (1, 1),
            history: Vec::new(),
            state: PokerState::P1Deal,
            current_player: dealer.other(),
            current_actions: state_to_actions(PokerState::P1Deal),
        };
        assert(game@.history =~= Seq::<(Player, Action)>::empty());
        game
    }

    /// Puts one more chip of a player into the pot.
    fn pay(&mut self, player: Player)
        requires
            player.pick(old(self).pot) < u32::MAX,
        ensures
            final(self).pot == player.put(old(self).pot, (player.pick(old(self).pot) + 1) as u32),
            final(self).dealer == old(self).dealer,
            final(self).hands == old(self).hands,
            final(self).history == old(self).history,
            final(self).state == old(self).state,
            final(self).current_player == old(self).current_player,
            final(self).current_actions == old(self).current_actions,
    {
        match player {
            Player::P1 => {
                self.pot.0 += 1;
            },
            Player::P2 => {
                self.pot.1 += 1;
            },
        }
    }
}

/// Copies a betting history.
fn copy_history(history: &Vec<(Player, Action)>) -> (copy: Vec<(Player, Action)>)
    ensures
        copy@ == history@,
{
    let mut copy: Vec<(Player, Action)> = Vec::new();
    let mut i: usize = 0;
    while i < history.len()
        invariant
            i <= history@.len(),
            copy@ == history@.take(i as int),
        decreases history@.len() - i,
    {
        let entry = history[i];
        copy.push((entry.0, entry.1));
        i += 1;
        assert(copy@ =~= history@.take(i as int));
    }
    assert(history@.take(i as int) =~= history@);
    copy
}

impl Clone for OneCardPoker {
    fn clone(&self) -> (copy: Self)
        ensures
            copy@ == self@,
    {
        let copy = OneCardPoker {
            dealer: self.dealer,
            pot: (self.pot.0, self.pot.1),
            hands: (self.hands.0, self.hands.1),
            history: copy_history(&self.history),
            state: self.state,
            current_player: self.current_player,
            current_actions: self.current_actions.clone(),
        };
        assert(copy.current_actions@ =~= self.current_actions@);
        copy
    }
}

impl Game for OneCardPoker {
    type Action = Action;

    open spec fn inv(&self) -> bool {
        self@.inv()
    }

    open spec fn spec_turn(&self) -> (Player, Seq<Action>) {
        (self@.current_player, self@.current_actions)
    }

    open spec fn spec_reward(&self) -> Option<u32> {
        self@.reward()
    }

    open spec fn rank(&self) -> nat {
        plies_left(self@.state)
    }

    open spec fn spec_infoset(&self, player: Player) -> Seq<u64> {
        self@.observations(player)
    }

    open spec fn steps(&self, action: Action, after: Self) -> bool {
        after@ == self@.after(action)
    }

    open spec fn copies(&self, copy: Self) -> bool {
        copy@ == self@
    }

    fn get_turn(&self) -> (turn: (Player, Vec<Action>)) {
        let actions = self.current_actions.clone();
        assert(actions@ =~= self.current_actions@);
        (self.current_player, actions)
    }

    fn take_turn(&mut self, player: Player, action: &Action)
        ensures
            final(self)@ == old(self)@.after(*action),
    {
        let ghost before = self@;
        proof {
            lemma_actions_are_allowed(before.state, *action);
            lemma_step(before, *action);
        }
        let p2 = self.dealer;
        let p1 = p2.other();
        let (current_player, state) = match (self.state, *action) {
            (PokerState::P1Deal, Action::Call) => (p2, PokerState::P2Check),
            (PokerState::P1Deal, Action::Bet) => {
                self.pay(p1);
                (p2, PokerState::P2Bet)
            },
            (PokerState::P2Check, Action::Call) => (p1, PokerState::ShowdownEnd),
            (PokerState::P2Check, Action::Bet) => {
                self.pay(p2);
                (p1, PokerState::P1Raise)
            },
            (PokerState::P2Bet, Action::Fold) => (p1, PokerState::FoldEnd),
            (PokerState::P2Bet, Action::Call) => {
                self.pay(p2);
                (p1, PokerState::ShowdownEnd)
            },
            (PokerState::P1Raise, Action::Fold) => (p2, PokerState::FoldEnd),
            (PokerState::P1Raise, Action::Call) => {
                self.pay(p1);
                (p2, PokerState::ShowdownEnd)
            },
            _ => {
                assert(false);
                (self.current_player, self.state)
            },
        };
        self.current_player = current_player;
        self.state = state;
        self.current_actions = state_to_actions(state);
        self.history.push((player, *action));
        assert(self@.history =~= before.after(*action).history);
    }

    fn get_reward(&self) -> (reward: Option<u32>) {
        match self.state {
            PokerState::FoldEnd => {
                if self.current_player == Player::P1 {
                    Some(gain_of(self.pot.1))
                } else {
                    Some(loss_of(self.pot.0))
                }
            },
            PokerState::ShowdownEnd => {
                if self.hands.0 > self.hands.1 {
                    Some(gain_of(self.pot.1))
                } else {
                    Some(loss_of(self.pot.0))
                }
            },
            _ => None,
        }
    }

    fn get_infoset(&self, player: Player) -> (infoset: Infoset)
        ensures
            infoset.infoset@ == self@.observations(player),
    {
        let own: u32 = match player {
            Player::P1 => self.hands.0,
            Player::P2 => self.hands.1,
        };
        let mut words: Vec<u64> = Vec::new();
        words.push(own as u64);
        let ghost head = words@;
        let mut i: usize = 0;
        while i < self.history.len()
            invariant
                i <= self.history@.len(),
                head == seq![player.pick(self@.hands) as u64],
                words@ == head + self.history@.take(i as int).map_values(
                    |entry: (Player, Action)| bet_word(entry),
                ),
            decreases self.history@.len() - i,
        {
            let entry = self.history[i];
            words.push(word_of(entry.0, entry.1));
            i += 1;
            assert(words@ =~= head + self.history@.take(i as int).map_values(
                |entry: (Player, Action)| bet_word(entry),
            ));
        }
        assert(self.history@.take(i as int) =~= self.history@);
        Infoset::new(words)
    }

    fn duplicate(&self) -> (copy: Self)
        ensures
            copy@ == self@,
    {
        self.clone()
    }
}

} // verus!
