//! External-sampling counterfactual regret minimisation: the traversal of a
//! game tree that turns the regrets of one player into deltas for the regret
//! table and the play of the other into deltas for the strategy table.

use crate::game::infoset::{hash_of, Infoset};
use crate::game::player::Player;
use crate::game::rules::Game;
use crate::numeric::{
    is_positive, negated, positive_part, positive_parts, spec_is_positive, spec_negated,
    unit_is_total, yields, zero_vector, zeros, FloatOp, ONE, ZERO,
};
use crate::regret::regret_provider::{HandlerError, RegretHandler, Response};
use vstd::prelude::*;

verus! {

/// An agent: the handlers through which it reaches the two tables, the
/// iteration it is at, and the player whose regrets that iteration updates.
pub struct CounterFactualRegret<H> {
    /// The regret table. An agent that only reads strategies has none.
    pub regret_handler: Option<H>,
    /// The strategy table.
    pub strat_handler: H,
    pub on_player: Player,
    pub iteration: i32,
}

/// The player whose regrets an iteration updates: player 1 on even
/// iterations, player 2 on odd ones.
pub open spec fn player_at(iteration: i32) -> Player {
    if iteration % 2 == 0 {
        Player::P1
    } else {
        Player::P2
    }
}

/// The number that weighs a regret delta of an iteration: each player is
/// updated every other iteration, so it is half the iteration, rounded toward
/// zero, plus one.
pub open spec fn regret_iteration(iteration: i32) -> i32 {
    if iteration >= 0 {
        (iteration / 2 + 1) as i32
    } else {
        (1 - (-iteration) / 2) as i32
    }
}

/// The value of a finished game to the player that is updated: player 1's
/// payoff, negated for player 2.
pub open spec fn spec_terminal_value(on_player: Player, reward: u32) -> u32 {
    match on_player {
        Player::P1 => reward,
        Player::P2 => spec_negated(reward),
    }
}

/// Whether `total` is a result that the unit may give for adding up `terms`
/// from the left, starting from zero.
pub open spec fn sums<F: Fn(FloatOp, u32, u32) -> u32>(fpu: &F, terms: Seq<u32>, total: u32) -> bool
    decreases terms.len(),
{
    if terms.len() == 0 {
        total == ZERO
    } else {
        exists|prev: u32|
            #![trigger yields(fpu, FloatOp::Add, prev, terms.last(), total)]
            sums(fpu, terms.drop_last(), prev) && yields(
                fpu,
                FloatOp::Add,
                prev,
                terms.last(),
                total,
            )
    }
}

/// Whether each of `out` is a result of the operation on the elements of `a`
/// and `b` in the same place, as far as both reach.
pub open spec fn pairwise<F: Fn(FloatOp, u32, u32) -> u32>(
    fpu: &F,
    op: FloatOp,
    a: Seq<u32>,
    b: Seq<u32>,
    out: Seq<u32>,
) -> bool {
    &&& out.len() == (if a.len() <= b.len() {
        a.len()
    } else {
        b.len()
    })
    &&& forall|i: int| 0 <= i < out.len() ==> yields(fpu, op, a[i], b[i], #[trigger] out[i])
}

/// Whether each of `out` is a result of the operation on the element of `a`
/// in the same place and `b`.
pub open spec fn elementwise<F: Fn(FloatOp, u32, u32) -> u32>(
    fpu: &F,
    op: FloatOp,
    a: Seq<u32>,
    b: u32,
    out: Seq<u32>,
) -> bool {
    &&& out.len() == a.len()
    &&& forall|i: int| 0 <= i < out.len() ==> yields(fpu, op, a[i], b, #[trigger] out[i])
}

/// Whether `share` is a result of dividing one by the count `k`.
pub open spec fn even_share<F: Fn(FloatOp, u32, u32) -> u32>(fpu: &F, k: usize, share: u32) -> bool {
    exists|n: u32| #[trigger]
        yields(fpu, FloatOp::FromCount(k as u64), 0, 0, n) && yields(
            fpu,
            FloatOp::Div,
            ONE,
            n,
            share,
        )
}

/// Whether `probs` is a strategy that regret matching may give for a regret
/// vector: with the positive parts of the regrets and their sum, each
/// positive part divided by the sum where the sum is above zero, and `k`
/// times the `k`-th part elsewhere.
pub open spec fn matched<F: Fn(FloatOp, u32, u32) -> u32>(
    fpu: &F,
    regrets: Seq<u32>,
    k: usize,
    probs: Seq<u32>,
) -> bool {
    exists|total: u32| #[trigger]
        sums(fpu, positive_parts(regrets), total) && (if spec_is_positive(total) {
            elementwise(fpu, FloatOp::Div, positive_parts(regrets), total, probs)
        } else {
            exists|share: u32| #[trigger]
                even_share(fpu, k, share) && probs == Seq::new(k as nat, |i: int| share)
        })
}

/// Whether `value` is an expected value that the unit may give: the
/// products of probabilities and rewards, added up from the left.
pub open spec fn expects<F: Fn(FloatOp, u32, u32) -> u32>(
    fpu: &F,
    probs: Seq<u32>,
    rewards: Seq<u32>,
    value: u32,
) -> bool {
    exists|terms: Seq<u32>| #[trigger]
        pairwise(fpu, FloatOp::Mul, probs, rewards, terms) && sums(fpu, terms, value)
}

/// The strategy that an answer of a table stands for: none where the table
/// is closed, else what regret matching gives for the entry, or for zeros
/// where there is no entry.
pub open spec fn answers<F: Fn(FloatOp, u32, u32) -> u32>(
    fpu: &F,
    response: Response,
    k: usize,
    probs: Option<Vec<u32>>,
) -> bool {
    match response {
        Response::Closed => probs is None,
        Response::Regret(found) => probs matches Some(p) && matched(
            fpu,
            match found.regret {
                Some(v) => v@,
                None => zeros(k as nat),
            },
            k,
            p@,
        ),
    }
}

/// The strategy that follows from a call to a table: none where the call
/// failed, else what the answer stands for.
pub open spec fn follows<F: Fn(FloatOp, u32, u32) -> u32>(
    fpu: &F,
    r: Result<Response, HandlerError>,
    k: usize,
    probs: Option<Vec<u32>>,
) -> bool {
    match r {
        Ok(response) => answers(fpu, response, k, probs),
        Err(_) => probs is None,
    }
}

/// Whether looking a strategy over `k` actions up in a table may give
/// `probs` and leave the handler as `after`: for a single action the
/// strategy is to take it and the table is left alone; else the table is
/// asked, and the strategy follows from what the call returns.
pub open spec fn looks_up<H: RegretHandler, F: Fn(FloatOp, u32, u32) -> u32>(
    before: H,
    player: Player,
    infoset_hash: u64,
    k: usize,
    fpu: &F,
    probs: Option<Vec<u32>>,
    after: H,
) -> bool {
    if k == 1 {
        after == before && (probs matches Some(p) && p@ == seq![ONE])
    } else {
        exists|r: Result<Response, HandlerError>|
            #![trigger before.gets(player, infoset_hash, r, after)]
            before.gets(player, infoset_hash, r, after) && follows(fpu, r, k, probs)
    }
}

/// What a walk returns once the regrets of a node were handed in: the
/// expected value where the delta was taken, nothing where it was not.
pub open spec fn spec_walk_result(sent: Result<(), HandlerError>, expected: u32) -> Option<u32> {
    match sent {
        Ok(_) => Some(expected),
        Err(_) => None,
    }
}

/// The action that a sampled index names among `num_actions` actions, if it
/// names one.
pub open spec fn spec_picked(action_index: usize, num_actions: nat) -> Option<usize> {
    if action_index < num_actions {
        Some(action_index)
    } else {
        None
    }
}

/// The rewards of walks that all returned a value.
pub open spec fn rewards_of(values: Seq<Option<u32>>) -> Seq<u32> {
    values.map_values(
        |v: Option<u32>|
            match v {
                Some(reward) => reward,
                None => ZERO,
            },
    )
}

/// Whether `child` is a position that an action leads to from a copy of the
/// position.
pub open spec fn child_of<G: Game>(game: G, action: G::Action, child: G) -> bool {
    exists|copy: G| #![trigger game.copies(copy)] game.copies(copy) && copy.steps(action, child)
}

/// The hash under which the tables file what the player to move has observed.
pub open spec fn node_hash<G: Game>(game: G) -> u64 {
    hash_of(game.spec_infoset(game.spec_turn().0))
}

/// Whether a node of the updated player may be concluded with `value`,
/// leaving the agent as `after`: `e` is the expected reward under the
/// strategy, `regrets` are the rewards less `e`, and they were handed to the
/// regret table with the weight of the iteration, which ended as `sent`.
pub open spec fn concluded<H: RegretHandler, F: Fn(FloatOp, u32, u32) -> u32>(
    last: CounterFactualRegret<H>,
    player: Player,
    infoset_hash: u64,
    fpu: &F,
    p: Seq<u32>,
    rewards: Seq<u32>,
    e: u32,
    regrets: Seq<u32>,
    sent: Result<(), HandlerError>,
    value: Option<u32>,
    after: CounterFactualRegret<H>,
) -> bool {
    &&& expects(fpu, p, rewards, e)
    &&& elementwise(fpu, FloatOp::Sub, rewards, e, regrets)
    &&& last.regret_handler is Some
    &&& after.regret_handler is Some
    &&& last.regret_handler->0.sends(
        player,
        infoset_hash,
        regrets,
        regret_iteration(last.iteration),
        sent,
        after.regret_handler->0,
    )
    &&& after == last.with_regret(after.regret_handler->0)
    &&& value == spec_walk_result(sent, e)
}

/// Whether a walk from `game` by an agent that starts as `before` may return
/// `value` and leave the agent as `after`.
///
/// A finished game is worth its payoff to the updated player and changes
/// nothing. Else the strategy of the player to move is looked up in the
/// regret table, and the walk proceeds from there.
pub open spec fn walks<
    G: Game,
    H: RegretHandler,
    F: Fn(FloatOp, u32, u32) -> u32,
    S: Fn(&Vec<u32>) -> usize,
>(
    before: CounterFactualRegret<H>,
    game: G,
    fpu: &F,
    sampler: &S,
    value: Option<u32>,
    after: CounterFactualRegret<H>,
) -> bool
    decreases game.rank(), 3nat,
{
    &&& after.on_player == before.on_player
    &&& after.iteration == before.iteration
    &&& match game.spec_reward() {
        Some(reward) => after == before && value == Some(
            spec_terminal_value(before.on_player, reward),
        ),
        None => {
            &&& before.regret_handler is Some
            &&& exists|probs: Option<Vec<u32>>, asked: H|
                #![trigger looks_up(before.regret_handler->0, game.spec_turn().0, node_hash(game), game.spec_turn().1.len() as usize, fpu, probs, asked)]
                looks_up(
                    before.regret_handler->0,
                    game.spec_turn().0,
                    node_hash(game),
                    game.spec_turn().1.len() as usize,
                    fpu,
                    probs,
                    asked,
                ) && proceeds(before.with_regret(asked), game, fpu, sampler, probs, value, after)
        },
    }
}

/// Whether a walk with the strategy `probs` at hand may return `value` and
/// leave the agent as `after`.
///
/// Without a strategy the walk ends with nothing, and so it does where the
/// strategy has another length than there are actions. Else the actions are
/// explored where the updated player moves, and one is sampled elsewhere.
pub open spec fn proceeds<
    G: Game,
    H: RegretHandler,
    F: Fn(FloatOp, u32, u32) -> u32,
    S: Fn(&Vec<u32>) -> usize,
>(
    mid: CounterFactualRegret<H>,
    game: G,
    fpu: &F,
    sampler: &S,
    probs: Option<Vec<u32>>,
    value: Option<u32>,
    after: CounterFactualRegret<H>,
) -> bool
    decreases game.rank(), 2nat,
{
    match probs {
        None => value is None && after == mid,
        Some(p) => if p@.len() != game.spec_turn().1.len() {
            value is None && after == mid
        } else if game.spec_turn().0 == mid.on_player {
            exists|
                states: Seq<CounterFactualRegret<H>>,
                children: Seq<G>,
                values: Seq<Option<u32>>,
            |
                #![trigger lined_up(mid, game, states, children, values)]
                explored(mid, game, fpu, sampler, p@, states, children, values, value, after)
        } else {
            exists|j: usize, sent: Result<(), HandlerError>, told: H, child: G|
                #![trigger took(mid, game, sampler, p, j, sent, told, child)]
                sampled(mid, game, fpu, sampler, p, j, sent, told, child, value, after)
        },
    }
}

/// Whether `children` are positions that the actions of a node lead to, one
/// for each action in turn from the first, with a state of the agent before
/// and after each, all at the same iteration, and a result for each, of
/// which only the last may be nothing.
pub open spec fn lined_up<G: Game, H: RegretHandler>(
    mid: CounterFactualRegret<H>,
    game: G,
    states: Seq<CounterFactualRegret<H>>,
    children: Seq<G>,
    values: Seq<Option<u32>>,
) -> bool {
    let actions = game.spec_turn().1;
    let n = children.len() as int;
    &&& 0 < n <= actions.len()
    &&& values.len() == n
    &&& states.len() == n + 1
    &&& states[0] == mid
    &&& forall|i: int|
        0 <= i < n ==> (#[trigger] children[i]).rank() < game.rank() && child_of(
            game,
            actions[i],
            children[i],
        )
    &&& forall|i: int| 0 <= i < n - 1 ==> (#[trigger] values[i]) is Some
    &&& forall|i: int|
        0 <= i <= n ==> (#[trigger] states[i]).iteration == mid.iteration && states[i].on_player
            == mid.on_player
}

/// Whether the sampler may name the index `j` for the strategy `p`, the
/// strategy table may end the delta as `sent` and be left as `told`, and the
/// action that `j` names may lead to `child`, as far as the walk gets.
pub open spec fn took<G: Game, H: RegretHandler, S: Fn(&Vec<u32>) -> usize>(
    mid: CounterFactualRegret<H>,
    game: G,
    sampler: &S,
    p: Vec<u32>,
    j: usize,
    sent: Result<(), HandlerError>,
    told: H,
    child: G,
) -> bool {
    &&& call_ensures(*sampler, (&p,), j)
    &&& spec_picked(j, game.spec_turn().1.len()) matches Some(i) ==> {
        &&& mid.strat_handler.sends(
            game.spec_turn().0,
            node_hash(game),
            p@,
            mid.iteration,
            sent,
            told,
        )
        &&& sent is Ok ==> game.steps(game.spec_turn().1[i as int], child) && child.rank()
            < game.rank()
    }
}

/// Whether a walk at a node of the updated player may return `value` and
/// leave the agent as `after`, having explored `children`, one for each
/// action in turn, with the agent in `states` before and after each and the
/// walks from them returning `values`.
///
/// The first walk that returns nothing ends the walk with nothing. If all
/// return a reward, the value is the expected reward under the strategy `p`,
/// and the regrets go to the regret table, as `concluded` says.
pub open spec fn explored<
    G: Game,
    H: RegretHandler,
    F: Fn(FloatOp, u32, u32) -> u32,
    S: Fn(&Vec<u32>) -> usize,
>(
    mid: CounterFactualRegret<H>,
    game: G,
    fpu: &F,
    sampler: &S,
    p: Seq<u32>,
    states: Seq<CounterFactualRegret<H>>,
    children: Seq<G>,
    values: Seq<Option<u32>>,
    value: Option<u32>,
    after: CounterFactualRegret<H>,
) -> bool
    decreases game.rank(), 1nat,
{
    let actions = game.spec_turn().1;
    let n = children.len() as int;
    &&& lined_up(mid, game, states, children, values)
    &&& forall|i: int|
        0 <= i < n ==> (#[trigger] children[i]).rank() < game.rank() && walks(
            states[i],
            children[i],
            fpu,
            sampler,
            values[i],
            states[i + 1],
        )
    &&& if values[n - 1] is None {
        value is None && after == states[n]
    } else {
        n == actions.len() && exists|e: u32, regrets: Seq<u32>, sent: Result<(), HandlerError>|
            #[trigger] concluded(
                states[n],
                game.spec_turn().0,
                node_hash(game),
                fpu,
                p,
                rewards_of(values),
                e,
                regrets,
                sent,
                value,
                after,
            )
    }
}

/// Whether a walk at a node of the other player may return `value` and
/// leave the agent as `after`, the sampler having named the index `j`.
///
/// Where `j` names no action, the walk ends with nothing and nothing is
/// sent. Else the strategy `p` goes to the strategy table with the raw
/// iteration, which ends as `sent` and leaves that handler as `told`. Where
/// it was not taken the walk ends with nothing; else the action is taken and
/// the value is that of the walk from `child`.
pub open spec fn sampled<
    G: Game,
    H: RegretHandler,
    F: Fn(FloatOp, u32, u32) -> u32,
    S: Fn(&Vec<u32>) -> usize,
>(
    mid: CounterFactualRegret<H>,
    game: G,
    fpu: &F,
    sampler: &S,
    p: Vec<u32>,
    j: usize,
    sent: Result<(), HandlerError>,
    told: H,
    child: G,
    value: Option<u32>,
    after: CounterFactualRegret<H>,
) -> bool
    decreases game.rank(), 1nat,
{
    &&& took(mid, game, sampler, p, j, sent, told, child)
    &&& match spec_picked(j, game.spec_turn().1.len()) {
        None => value is None && after == mid,
        Some(i) => match sent {
            Err(_) => value is None && after == mid.with_strategy(told),
            Ok(_) => child.rank() < game.rank() && walks(
                mid.with_strategy(told),
                child,
                fpu,
                sampler,
                value,
                after,
            ),
        },
    }
}

/// Turns the end of handing in the regrets of a node into the result of the
/// walk.
pub fn walk_result(sent: Result<(), HandlerError>, expected: u32) -> (value: Option<u32>)
    ensures
        value == spec_walk_result(sent, expected),
{
    match sent {
        Ok(()) => Some(expected),
        Err(_) => None,
    }
}

/// Tells which action a sampled index names, if it names one.
pub fn picked(action_index: usize, num_actions: usize) -> (i: Option<usize>)
    ensures
        i == spec_picked(action_index, num_actions as nat),
{
    if action_index < num_actions {
        Some(action_index)
    } else {
        None
    }
}

/// The value of a finished game to the player that is updated.
#[verifier::when_used_as_spec(spec_terminal_value)]
pub fn terminal_value(on_player: Player, reward: u32) -> (value: u32)
    ensures
        value == spec_terminal_value(on_player, reward),
{
    match on_player {
        Player::P1 => reward,
        Player::P2 => negated(reward),
    }
}

/// A finished game is worth to player 2 the negation of what it is worth to
/// player 1.
pub proof fn lemma_zero_sum(reward: u32)
    ensures
        terminal_value(Player::P2, reward) == negated(terminal_value(Player::P1, reward)),
        terminal_value(Player::P1, reward) == negated(terminal_value(Player::P2, reward)),
{
}

/// Adds up numbers from the left, starting from zero.
pub fn sum_of<F: Fn(FloatOp, u32, u32) -> u32>(terms: &Vec<u32>, fpu: &F) -> (total: u32)
    requires
        unit_is_total(fpu),
    ensures
        sums(fpu, terms@, total),
{
    let mut total: u32 = ZERO;
    let mut i: usize = 0;
    assert(terms@.take(0) =~= Seq::<u32>::empty());
    while i < terms.len()
        invariant
            unit_is_total(fpu),
            i <= terms@.len(),
            sums(fpu, terms@.take(i as int), total),
        decreases terms@.len() - i,
    {
        let next = fpu(FloatOp::Add, total, terms[i]);
        proof {
            let longer = terms@.take(i + 1);
            assert(longer.drop_last() =~= terms@.take(i as int));
            assert(longer.last() == terms@[i as int]);
            assert(sums(fpu, longer.drop_last(), total));
            assert(yields(fpu, FloatOp::Add, total, longer.last(), next));
            assert(sums(fpu, longer, next));
        }
        total = next;
        i += 1;
    }
    assert(terms@.take(i as int) =~= terms@);
    total
}

/// Turns a regret vector into a strategy: in proportion to the positive
/// regrets where there are any, uniform over `num_actions` elsewhere.
pub fn match_regrets<F: Fn(FloatOp, u32, u32) -> u32>(
    regrets: &Vec<u32>,
    num_actions: usize,
    fpu: &F,
) -> (probs: Vec<u32>)
    requires
        unit_is_total(fpu),
    ensures
        matched(fpu, regrets@, num_actions, probs@),
{
    let mut pos_regrets: Vec<u32> = Vec::new();
    let mut i: usize = 0;
    while i < regrets.len()
        invariant
            i <= regrets@.len(),
            pos_regrets@ == positive_parts(regrets@.take(i as int)),
        decreases regrets@.len() - i,
    {
        pos_regrets.push(positive_part(regrets[i]));
        i += 1;
        assert(pos_regrets@ =~= positive_parts(regrets@.take(i as int)));
    }
    assert(regrets@.take(i as int) =~= regrets@);
    let regret_sum = sum_of(&pos_regrets, fpu);
    let mut probs: Vec<u32> = Vec::new();
    if is_positive(regret_sum) {
        let mut j: usize = 0;
        while j < pos_regrets.len()
            invariant
                unit_is_total(fpu),
                j <= pos_regrets@.len(),
                probs@.len() == j,
                forall|n: int|
                    0 <= n < j ==> yields(
                        fpu,
                        FloatOp::Div,
                        pos_regrets@[n],
                        regret_sum,
                        #[trigger] probs@[n],
                    ),
            decreases pos_regrets@.len() - j,
        {
            probs.push(fpu(FloatOp::Div, pos_regrets[j], regret_sum));
            j += 1;
        }
        assert(elementwise(fpu, FloatOp::Div, positive_parts(regrets@), regret_sum, probs@));
    } else {
        let num = fpu(FloatOp::FromCount(num_actions as u64), 0, 0);
        let share = fpu(FloatOp::Div, ONE, num);
        let mut j: usize = 0;
        while j < num_actions
            invariant
                j <= num_actions,
                probs@ == Seq::new(j as nat, |i: int| share),
            decreases num_actions - j,
        {
            probs.push(share);
            j += 1;
            assert(probs@ =~= Seq::new(j as nat, |i: int| share));
        }
        assert(yields(fpu, FloatOp::FromCount(num_actions as u64), 0, 0, num));
        assert(even_share(fpu, num_actions, share));
    }
    assert(sums(fpu, positive_parts(regrets@), regret_sum));
    probs
}

/// Turns the answer of a table into a strategy over `num_actions` actions.
pub fn strategy_from<F: Fn(FloatOp, u32, u32) -> u32>(
    response: Response,
    num_actions: usize,
    fpu: &F,
) -> (probs: Option<Vec<u32>>)
    requires
        unit_is_total(fpu),
    ensures
        answers(fpu, response, num_actions, probs),
{
    let regrets = match response {
        Response::Regret(regret_response) => regret_response.regret,
        Response::Closed => {
            return None;
        },
    };
    let regrets = match regrets {
        Some(regret) => regret,
        None => zero_vector(num_actions),
    };
    Some(match_regrets(&regrets, num_actions, fpu))
}

/// The expected reward of a strategy: the products of probabilities and
/// rewards, added up from the left.
pub fn expected_value<F: Fn(FloatOp, u32, u32) -> u32>(
    probs: &Vec<u32>,
    rewards: &Vec<u32>,
    fpu: &F,
) -> (value: u32)
    requires
        unit_is_total(fpu),
    ensures
        expects(fpu, probs@, rewards@, value),
{
    let n: usize = if probs.len() <= rewards.len() {
        probs.len()
    } else {
        rewards.len()
    };
    let mut terms: Vec<u32> = Vec::new();
    let mut i: usize = 0;
    while i < n
        invariant
            unit_is_total(fpu),
            i <= n,
            n <= probs@.len(),
            n <= rewards@.len(),
            terms@.len() == i,
            forall|j: int|
                0 <= j < i ==> yields(
                    fpu,
                    FloatOp::Mul,
                    probs@[j],
                    rewards@[j],
                    #[trigger] terms@[j],
                ),
        decreases n - i,
    {
        terms.push(fpu(FloatOp::Mul, probs[i], rewards[i]));
        i += 1;
    }
    let value = sum_of(&terms, fpu);
    assert(pairwise(fpu, FloatOp::Mul, probs@, rewards@, terms@));
    value
}

/// The regret of each action: its reward less the expected value.
pub fn advantages<F: Fn(FloatOp, u32, u32) -> u32>(
    rewards: &Vec<u32>,
    expected: u32,
    fpu: &F,
) -> (regrets: Vec<u32>)
    requires
        unit_is_total(fpu),
    ensures
        elementwise(fpu, FloatOp::Sub, rewards@, expected, regrets@),
{
    let mut regrets: Vec<u32> = Vec::new();
    let mut i: usize = 0;
    while i < rewards.len()
        invariant
            unit_is_total(fpu),
            i <= rewards@.len(),
            regrets@.len() == i,
            forall|j: int|
                0 <= j < i ==> yields(
                    fpu,
                    FloatOp::Sub,
                    rewards@[j],
                    expected,
                    #[trigger] regrets@[j],
                ),
        decreases rewards@.len() - i,
    {
        regrets.push(fpu(FloatOp::Sub, rewards[i], expected));
        i += 1;
    }
    regrets
}

/// Regret matching never changes the number of actions: where the entry of
/// a table has as many elements as there are actions, so has the strategy.
pub proof fn lemma_matched_length<F: Fn(FloatOp, u32, u32) -> u32>(
    fpu: &F,
    regrets: Seq<u32>,
    k: usize,
    probs: Seq<u32>,
)
    requires
        matched(fpu, regrets, k, probs),
        regrets.len() == k,
    ensures
        probs.len() == k,
{
}

/// Gets the strategy for an infoset from a table: the entry is asked for
/// and matched. For a single action the strategy is to take it, and the
/// table is left alone. `None` says that the table is shutting down.
pub fn regret_match<H: RegretHandler, F: Fn(FloatOp, u32, u32) -> u32>(
    regret_handler: &mut H,
    player: Player,
    infoset: &Infoset,
    num_actions: usize,
    fpu: &F,
) -> (probs: Option<Vec<u32>>)
    requires
        old(regret_handler).inv(),
        unit_is_total(fpu),
    ensures
        final(regret_handler).inv(),
        num_actions == 1 ==> *final(regret_handler) == *old(regret_handler),
        num_actions == 1 ==> (probs matches Some(p) && p@ == seq![ONE]),
        num_actions != 1 ==> exists|r: Result<Response, HandlerError>|
            #![trigger old(regret_handler).gets(player, infoset.hash, r, *final(regret_handler))]
            old(regret_handler).gets(player, infoset.hash, r, *final(regret_handler)) && follows(
                fpu,
                r,
                num_actions,
                probs,
            ),
        looks_up(
            *old(regret_handler),
            player,
            infoset.hash,
            num_actions,
            fpu,
            probs,
            *final(regret_handler),
        ),
{
    //no need to get the regrets if the probs is always 1
    if num_actions == 1 {
        let mut probs: Vec<u32> = Vec::new();
        probs.push(ONE);
        assert(probs@ =~= seq![ONE]);
        return Some(probs);
    }
    let got = regret_handler.get_regret(player, infoset.hash);
    let ghost seen = got;
    let probs = match got {
        Ok(response) => strategy_from(response, num_actions, fpu),
        Err(_) => None,
    };
    assert(follows(fpu, seen, num_actions, probs));
    probs
}

impl<H: RegretHandler> CounterFactualRegret<H> {
    /// An agent at iteration 0 that trains: it reads and writes both tables.
    pub fn new(regret_handler: H, strategy_handler: H) -> (cfr: CounterFactualRegret<H>)
        ensures
            cfr.regret_handler == Some(regret_handler),
            cfr.strat_handler == strategy_handler,
            cfr.on_player == Player::P1,
            cfr.iteration == 0,
    {
        CounterFactualRegret {
            regret_handler: Some(regret_handler),
            strat_handler: strategy_handler,
            on_player: Player::P1,
            iteration: 0,
        }
    }

    /// An agent that only reads the strategy table, for use after training.
    pub fn new_strat_only(strategy_sharder: H) -> (cfr: CounterFactualRegret<H>)
        ensures
            cfr.regret_handler is None,
            cfr.strat_handler == strategy_sharder,
            cfr.on_player == Player::P1,
            cfr.iteration == 0,
    {
        CounterFactualRegret {
            regret_handler: None,
            strat_handler: strategy_sharder,
            on_player: Player::P1,
            iteration: 0,
        }
    }

    /// Both handlers can work.
    pub open spec fn inv(&self) -> bool {
        &&& self.strat_handler.inv()
        &&& self.regret_handler matches Some(h) ==> h.inv()
    }

    /// The agent with another handler on the regret table.
    pub open spec fn with_regret(self, handler: H) -> Self {
        CounterFactualRegret { regret_handler: Some(handler), ..self }
    }

    /// The agent with another handler on the strategy table.
    pub open spec fn with_strategy(self, handler: H) -> Self {
        CounterFactualRegret { strat_handler: handler, ..self }
    }

    /// Moves the agent to an iteration, which also decides whose regrets
    /// are updated.
    pub fn set_iteration(&mut self, iteration: i32)
        ensures
            final(self).iteration == iteration,
            final(self).on_player == player_at(iteration),
            final(self).regret_handler == old(self).regret_handler,
            final(self).strat_handler == old(self).strat_handler,
    {
        self.iteration = iteration;
        self.on_player = if iteration % 2 == 0 {
            Player::P1
        } else {
            Player::P2
        };
    }

    /// The number that weighs the regret deltas of the current iteration.
    pub fn regret_weight(&self) -> (t: i32)
        ensures
            t == regret_iteration(self.iteration),
    {
        if self.iteration >= 0 {
            self.iteration / 2 + 1
        } else if self.iteration == i32::MIN {
            1 - 1073741824
        } else {
            1 - (-self.iteration) / 2
        }
    }

    /// The average strategy at an infoset: regret matching applied to the
    /// strategy table.
    pub fn get_avg_strategy<F: Fn(FloatOp, u32, u32) -> u32>(
        &mut self,
        player: Player,
        infoset: &Infoset,
        num_actions: usize,
        fpu: &F,
    ) -> (probs: Option<Vec<u32>>)
        requires
            old(self).inv(),
            unit_is_total(fpu),
        ensures
            final(self).inv(),
            final(self).regret_handler == old(self).regret_handler,
            final(self).on_player == old(self).on_player,
            final(self).iteration == old(self).iteration,
            num_actions == 1 ==> *final(self) == *old(self),
            num_actions == 1 ==> (probs matches Some(p) && p@ == seq![ONE]),
            num_actions != 1 ==> exists|r: Result<Response, HandlerError>|
                #![trigger old(self).strat_handler.gets(player, infoset.hash, r, final(self).strat_handler)]
                old(self).strat_handler.gets(player, infoset.hash, r, final(self).strat_handler)
                    && follows(fpu, r, num_actions, probs),
            looks_up(
                old(self).strat_handler,
                player,
                infoset.hash,
                num_actions,
                fpu,
                probs,
                final(self).strat_handler,
            ),
    {
        let ghost before = self.strat_handler;
        let probs = regret_match(&mut self.strat_handler, player, infoset, num_actions, fpu);
        proof {
            if num_actions != 1 {
                let r = choose|r: Result<Response, HandlerError>|
                    #![trigger before.gets(player, infoset.hash, r, self.strat_handler)]
                    before.gets(player, infoset.hash, r, self.strat_handler) && follows(
                        fpu,
                        r,
                        num_actions,
                        probs,
                    );
                assert(before.gets(player, infoset.hash, r, self.strat_handler));
            }
        }
        probs
    }

    /// The strategy of the current iteration at an infoset: regret matching
    /// applied to the regret table.
    pub fn get_iter_strategy<F: Fn(FloatOp, u32, u32) -> u32>(
        &mut self,
        player: Player,
        infoset: &Infoset,
        num_actions: usize,
        fpu: &F,
    ) -> (probs: Option<Vec<u32>>)
        requires
            old(self).inv(),
            old(self).regret_handler is Some,
            unit_is_total(fpu),
        ensures
            final(self).inv(),
            final(self).regret_handler is Some,
            final(self).strat_handler == old(self).strat_handler,
            final(self).on_player == old(self).on_player,
            final(self).iteration == old(self).iteration,
            num_actions == 1 ==> *final(self) == *old(self),
            num_actions == 1 ==> (probs matches Some(p) && p@ == seq![ONE]),
            num_actions != 1 ==> exists|r: Result<Response, HandlerError>|
                #![trigger old(self).regret_handler->0.gets(player, infoset.hash, r, final(self).regret_handler->0)]
                old(self).regret_handler->0.gets(
                    player,
                    infoset.hash,
                    r,
                    final(self).regret_handler->0,
                ) && follows(fpu, r, num_actions, probs),
            looks_up(
                old(self).regret_handler->0,
                player,
                infoset.hash,
                num_actions,
                fpu,
                probs,
                final(self).regret_handler->0,
            ),
    {
        let ghost before = self.regret_handler->0;
        let probs = match &mut self.regret_handler {
            Some(regret_handler) => regret_match(regret_handler, player, infoset, num_actions, fpu),
            None => None,
        };
        proof {
            if num_actions != 1 {
                let after = self.regret_handler->0;
                let r = choose|r: Result<Response, HandlerError>|
                    #![trigger before.gets(player, infoset.hash, r, after)]
                    before.gets(player, infoset.hash, r, after) && follows(
                        fpu,
                        r,
                        num_actions,
                        probs,
                    );
                assert(before.gets(player, infoset.hash, r, after));
            }
        }
        probs
    }

    /// Walks the game tree from a position and returns its value to the
    /// player that is updated, or `None` where a table is shutting down.
    ///
    /// A finished game is worth its payoff to player 1 and the negation to
    /// player 2. Where the updated player moves, every action is explored
    /// from a copy of the position; the value is the expected reward under
    /// the current strategy, and the regrets of the actions go to the regret
    /// table as a delta. Where the other player moves, the current strategy
    /// goes to the strategy table as a delta, one action is sampled from it
    /// and taken, and the walk goes on from there.
    ///
    /// The walk gives up with `None` where a call to a table fails or is
    /// answered `Closed`, where a strategy has another length than there are
    /// actions, and where the sampler names no action. `walks` says all of
    /// this.
    pub fn search<G: Game, F: Fn(FloatOp, u32, u32) -> u32, S: Fn(&Vec<u32>) -> usize>(
        &mut self,
        game: G,
        fpu: &F,
        sampler: &S,
    ) -> (value: Option<u32>)
        requires
            old(self).inv(),
            game.inv(),
            game.spec_reward() is None ==> old(self).regret_handler is Some,
            unit_is_total(fpu),
            sampler_is_total(sampler),
        ensures
            final(self).inv(),
            final(self).on_player == old(self).on_player,
            final(self).iteration == old(self).iteration,
            final(self).regret_handler is Some == old(self).regret_handler is Some,
            game.spec_reward() matches Some(reward) ==> *final(self) == *old(self) && value == Some(
                spec_terminal_value(old(self).on_player, reward),
            ),
            walks(*old(self), game, fpu, sampler, value, *final(self)),
            game.spec_reward() is None && game.spec_turn().0 == old(self).on_player ==> (
            value matches Some(v) ==> exists|probs: Seq<u32>, rewards: Seq<u32>|
                probs.len() == game.spec_turn().1.len() && rewards.len() == probs.len()
                    && #[trigger] expects(fpu, probs, rewards, v)),
        decreases game.rank(),
    {
        let mut position = game;
        if let Some(reward) = position.get_reward() {
            return Some(terminal_value(self.on_player, reward));
        }
        let (player, actions) = position.get_turn();
        let infoset = position.get_infoset(player);
        let ghost hash = node_hash(game);
        assert(infoset.hash == hash);
        let looked = self.get_iter_strategy(player, &infoset, actions.len(), fpu);
        let ghost mid = *self;
        let ghost found = looked;
        proof {
            assert(mid == old(self).with_regret(mid.regret_handler->0));
            assert(looks_up(
                old(self).regret_handler->0,
                game.spec_turn().0,
                node_hash(game),
                game.spec_turn().1.len() as usize,
                fpu,
                found,
                mid.regret_handler->0,
            ));
        }
        let probs = match looked {
            Some(probs) => probs,
            None => {
                assert(proceeds(mid, game, fpu, sampler, found, None, *self));
                return None;
            },
        };
        if probs.len() != actions.len() {
            assert(proceeds(mid, game, fpu, sampler, found, None, *self));
            return None;
        }
        if player == self.on_player {
            let mut rewards: Vec<u32> = Vec::new();
            let ghost mut states: Seq<CounterFactualRegret<H>> = seq![mid];
            let ghost mut children: Seq<G> = Seq::empty();
            let ghost mut values: Seq<Option<u32>> = Seq::empty();
            let mut i: usize = 0;
            while i < actions.len()
                invariant
                    self.inv(),
                    self.regret_handler is Some,
                    self.on_player == old(self).on_player,
                    self.iteration == old(self).iteration,
                    position.inv(),
                    position == game,
                    game.spec_reward() is None,
                    old(self).regret_handler is Some,
                    player == position.spec_turn().0,
                    actions@ == position.spec_turn().1,
                    unit_is_total(fpu),
                    sampler_is_total(sampler),
                    i <= actions@.len(),
                    rewards@.len() == i,
                    states.len() == i + 1,
                    children.len() == i,
                    values.len() == i,
                    states[0] == mid,
                    states[i as int] == *self,
                    mid.on_player == old(self).on_player,
                    player == mid.on_player,
                    found == Some(probs),
                    probs@.len() == actions@.len(),
                    mid == old(self).with_regret(mid.regret_handler->0),
                    looks_up(
                        old(self).regret_handler->0,
                        game.spec_turn().0,
                        node_hash(game),
                        game.spec_turn().1.len() as usize,
                        fpu,
                        found,
                        mid.regret_handler->0,
                    ),
                    forall|j: int|
                        0 <= j < i ==> (#[trigger] children[j]).rank() < game.rank() && child_of(
                            game,
                            actions@[j],
                            children[j],
                        ) && walks(states[j], children[j], fpu, sampler, values[j], states[j + 1]),
                    forall|j: int| 0 <= j < i ==> #[trigger] values[j] == Some(rewards@[j]),
                    forall|j: int|
                        0 <= j <= i ==> (#[trigger] states[j]).iteration == mid.iteration
                            && states[j].on_player == mid.on_player,
                    mid.iteration == old(self).iteration,
                decreases actions@.len() - i,
            {
                let mut subgame = position.duplicate();
                let ghost copy = subgame;
                assert(subgame.spec_turn().1.contains(actions@[i as int]));
                subgame.take_turn(player, &actions[i]);
                let ghost child = subgame;
                let ghost start = *self;
                let walked = self.search(subgame, fpu, sampler);
                proof {
                    assert(game.copies(copy) && copy.steps(actions@[i as int], child));
                    assert(child_of(game, actions@[i as int], child));
                    let longer_states = states.push(*self);
                    let longer_children = children.push(child);
                    let longer_values = values.push(walked);
                    assert forall|j: int| 0 <= j < i + 1 implies (#[trigger] longer_children[j]).rank()
                        < game.rank() && child_of(game, actions@[j], longer_children[j]) && walks(
                        longer_states[j],
                        longer_children[j],
                        fpu,
                        sampler,
                        longer_values[j],
                        longer_states[j + 1],
                    ) by {
                        if j < i {
                            assert(longer_children[j] == children[j]);
                            assert(longer_states[j] == states[j]);
                            assert(longer_states[j + 1] == states[j + 1]);
                            assert(longer_values[j] == values[j]);
                        } else {
                            assert(longer_states[j] == start);
                        }
                    }
                    assert forall|j: int| 0 <= j <= i + 1 implies (#[trigger] longer_states[j]).iteration
                        == mid.iteration && longer_states[j].on_player == mid.on_player by {
                        if j <= i {
                            assert(longer_states[j] == states[j]);
                        }
                    }
                    states = longer_states;
                    children = longer_children;
                    values = longer_values;
                }
                let reward = match walked {
                    Some(reward) => reward,
                    None => {
                        proof {
                            assert forall|j: int| 0 <= j < children.len() - 1 implies (
                            #[trigger] values[j]) is Some by {
                                assert(values[j] == Some(rewards@[j]));
                            }
                            assert(lined_up(mid, game, states, children, values));
                            assert(explored(
                                mid,
                                game,
                                fpu,
                                sampler,
                                probs@,
                                states,
                                children,
                                values,
                                None,
                                *self,
                            ));
                            assert(proceeds(mid, game, fpu, sampler, found, None, *self));
                        }
                        return None;
                    },
                };
                rewards.push(reward);
                i += 1;
            }
            let expected_value = expected_value(&probs, &rewards, fpu);
            let regrets = advantages(&rewards, expected_value, fpu);
            let ghost handed = regrets@;
            let ghost last = *self;
            let weight = self.regret_weight();
            let sent = match &mut self.regret_handler {
                Some(regret_handler) => regret_handler.send_delta(
                    player,
                    infoset.hash,
                    regrets,
                    weight,
                ),
                None => Ok(()),
            };
            let value = walk_result(sent, expected_value);
            proof {
                assert(rewards_of(values) =~= rewards@);
                assert(*self == last.with_regret(self.regret_handler->0));
                assert(concluded(
                    states[children.len() as int],
                    game.spec_turn().0,
                    node_hash(game),
                    fpu,
                    probs@,
                    rewards_of(values),
                    expected_value,
                    handed,
                    sent,
                    value,
                    *self,
                ));
                assert forall|j: int| 0 <= j < children.len() - 1 implies (#[trigger] values[j])
                    is Some by {
                    assert(values[j] == Some(rewards@[j]));
                }
                assert(values[children.len() - 1] == Some(rewards@[children.len() - 1]));
                assert(lined_up(mid, game, states, children, values));
                assert(explored(
                    mid,
                    game,
                    fpu,
                    sampler,
                    probs@,
                    states,
                    children,
                    values,
                    value,
                    *self,
                ));
                assert(proceeds(mid, game, fpu, sampler, found, value, *self));
                assert(probs@.len() == game.spec_turn().1.len() && rewards@.len() == probs@.len());
                assert(expects(fpu, probs@, rewards@, expected_value));
                assert(value matches Some(v) ==> v == expected_value);
            }
            value
        } else {
            let action_index = sampler(&probs);
            let ghost drawn = probs;
            let action_index = match picked(action_index, actions.len()) {
                Some(action_index) => action_index,
                None => {
                    proof {
                        assert(took(
                            mid,
                            game,
                            sampler,
                            drawn,
                            action_index,
                            Ok(()),
                            mid.strat_handler,
                            game,
                        ));
                        assert(sampled(
                            mid,
                            game,
                            fpu,
                            sampler,
                            drawn,
                            action_index,
                            Ok(()),
                            mid.strat_handler,
                            game,
                            None,
                            *self,
                        ));
                        assert(proceeds(mid, game, fpu, sampler, found, None, *self));
                    }
                    return None;
                },
            };
            let iteration = self.iteration;
            let sent = self.strat_handler.send_delta(player, infoset.hash, probs, iteration);
            let ghost told = self.strat_handler;
            assert(*self == mid.with_strategy(told));
            match sent {
                Ok(()) => {},
                Err(_) => {
                    proof {
                        assert(took(mid, game, sampler, drawn, action_index, sent, told, game));
                        assert(sampled(
                            mid,
                            game,
                            fpu,
                            sampler,
                            drawn,
                            action_index,
                            sent,
                            told,
                            game,
                            None,
                            *self,
                        ));
                        assert(proceeds(mid, game, fpu, sampler, found, None, *self));
                    }
                    return None;
                },
            }
            assert(position.spec_turn().1.contains(actions@[action_index as int]));
            position.take_turn(player, &actions[action_index]);
            let ghost child = position;
            let value = self.search(position, fpu, sampler);
            proof {
                assert(took(mid, game, sampler, drawn, action_index, sent, told, child));
                assert(sampled(
                    mid,
                    game,
                    fpu,
                    sampler,
                    drawn,
                    action_index,
                    sent,
                    told,
                    child,
                    value,
                    *self,
                ));
                assert(proceeds(mid, game, fpu, sampler, found, value, *self));
                assert(game.spec_turn().0 != old(self).on_player);
            }
            value
        }
    }
}

/// A walk from a game that is not over ends with nothing where the regret
/// table gives no strategy, as it does where it answers `Closed` or the call
/// fails. Nothing is sent then: the strategy handler is as it was, and the
/// regret handler as the request left it.
pub proof fn lemma_no_strategy_ends_walk<
    G: Game,
    H: RegretHandler,
    F: Fn(FloatOp, u32, u32) -> u32,
    S: Fn(&Vec<u32>) -> usize,
>(
    before: CounterFactualRegret<H>,
    game: G,
    fpu: &F,
    sampler: &S,
    value: Option<u32>,
    after: CounterFactualRegret<H>,
)
    requires
        walks(before, game, fpu, sampler, value, after),
        game.spec_reward() is None,
        forall|probs: Option<Vec<u32>>, asked: H| #[trigger]
            looks_up(
                before.regret_handler->0,
                game.spec_turn().0,
                node_hash(game),
                game.spec_turn().1.len() as usize,
                fpu,
                probs,
                asked,
            ) ==> probs is None,
    ensures
        value is None,
        after.strat_handler == before.strat_handler,
        after.regret_handler is Some,
        looks_up(
            before.regret_handler->0,
            game.spec_turn().0,
            node_hash(game),
            game.spec_turn().1.len() as usize,
            fpu,
            None,
            after.regret_handler->0,
        ),
{
    let (probs, asked) = choose|probs: Option<Vec<u32>>, asked: H|
        #![trigger looks_up(before.regret_handler->0, game.spec_turn().0, node_hash(game), game.spec_turn().1.len() as usize, fpu, probs, asked)]
        looks_up(
            before.regret_handler->0,
            game.spec_turn().0,
            node_hash(game),
            game.spec_turn().1.len() as usize,
            fpu,
            probs,
            asked,
        ) && proceeds(before.with_regret(asked), game, fpu, sampler, probs, value, after);
    assert(probs is None);
    assert(after == before.with_regret(asked));
}

/// Where the updated player moves and the walk returns a value, the value is
/// the expected reward of the children under the strategy that the regret
/// table gave, and the rewards less that value were handed to the regret
/// table, which took them, with the weight of the iteration: half of it,
/// plus one.
pub proof fn lemma_updated_node<
    G: Game,
    H: RegretHandler,
    F: Fn(FloatOp, u32, u32) -> u32,
    S: Fn(&Vec<u32>) -> usize,
>(
    before: CounterFactualRegret<H>,
    game: G,
    fpu: &F,
    sampler: &S,
    v: u32,
    after: CounterFactualRegret<H>,
)
    requires
        walks(before, game, fpu, sampler, Some(v), after),
        game.spec_reward() is None,
        game.spec_turn().0 == before.on_player,
    ensures
        exists|
            p: Vec<u32>,
            asked: H,
            rewards: Seq<u32>,
            regrets: Seq<u32>,
            last: H,
            sent: Result<(), HandlerError>,
        |
            #![trigger looks_up(before.regret_handler->0, game.spec_turn().0, node_hash(game), game.spec_turn().1.len() as usize, fpu, Some(p), asked), elementwise(fpu, FloatOp::Sub, rewards, v, regrets), last.sends(game.spec_turn().0, node_hash(game), regrets, regret_iteration(before.iteration), sent, after.regret_handler->0)]
            {
                &&& sent is Ok
                &&& looks_up(
                    before.regret_handler->0,
                    game.spec_turn().0,
                    node_hash(game),
                    game.spec_turn().1.len() as usize,
                    fpu,
                    Some(p),
                    asked,
                )
                &&& p@.len() == game.spec_turn().1.len()
                &&& rewards.len() == p@.len()
                &&& expects(fpu, p@, rewards, v)
                &&& elementwise(fpu, FloatOp::Sub, rewards, v, regrets)
                &&& last.sends(
                    game.spec_turn().0,
                    node_hash(game),
                    regrets,
                    regret_iteration(before.iteration),
                    sent,
                    after.regret_handler->0,
                )
            },
{
    let (probs, asked) = choose|probs: Option<Vec<u32>>, asked: H|
        #![trigger looks_up(before.regret_handler->0, game.spec_turn().0, node_hash(game), game.spec_turn().1.len() as usize, fpu, probs, asked)]
        looks_up(
            before.regret_handler->0,
            game.spec_turn().0,
            node_hash(game),
            game.spec_turn().1.len() as usize,
            fpu,
            probs,
            asked,
        ) && proceeds(before.with_regret(asked), game, fpu, sampler, probs, Some(v), after);
    let mid = before.with_regret(asked);
    let p = probs->0;
    let (states, children, values) = choose|
        states: Seq<CounterFactualRegret<H>>,
        children: Seq<G>,
        values: Seq<Option<u32>>,
    |
        #![trigger lined_up(mid, game, states, children, values)]
        explored(mid, game, fpu, sampler, p@, states, children, values, Some(v), after);
    let n = children.len() as int;
    let rewards = rewards_of(values);
    let (e, regrets, sent) = choose|e: u32, regrets: Seq<u32>, sent: Result<(), HandlerError>|
        #[trigger] concluded(
            states[n],
            game.spec_turn().0,
            node_hash(game),
            fpu,
            p@,
            rewards,
            e,
            regrets,
            sent,
            Some(v),
            after,
        );
    assert(e == v && sent is Ok);
    let last = states[n].regret_handler->0;
    assert(states[n].iteration == before.iteration);
    assert(last.sends(
        game.spec_turn().0,
        node_hash(game),
        regrets,
        regret_iteration(before.iteration),
        sent,
        after.regret_handler->0,
    ));
    assert(elementwise(fpu, FloatOp::Sub, rewards, v, regrets));
    assert(looks_up(
        before.regret_handler->0,
        game.spec_turn().0,
        node_hash(game),
        game.spec_turn().1.len() as usize,
        fpu,
        Some(p),
        asked,
    ));
}

/// Where the other player moves and the walk returns a value, the strategy
/// that the regret table gave was handed to the strategy table, which took
/// it, with the raw iteration; the sampler named one of the actions, and the
/// value is that of the walk from the position that this action leads to.
pub proof fn lemma_sampled_node<
    G: Game,
    H: RegretHandler,
    F: Fn(FloatOp, u32, u32) -> u32,
    S: Fn(&Vec<u32>) -> usize,
>(
    before: CounterFactualRegret<H>,
    game: G,
    fpu: &F,
    sampler: &S,
    v: u32,
    after: CounterFactualRegret<H>,
)
    requires
        walks(before, game, fpu, sampler, Some(v), after),
        game.spec_reward() is None,
        game.spec_turn().0 != before.on_player,
    ensures
        exists|p: Vec<u32>, asked: H, j: usize, sent: Result<(), HandlerError>, told: H, child: G|
            #![trigger took(before.with_regret(asked), game, sampler, p, j, sent, told, child)]
            {
                &&& sent is Ok
                &&& looks_up(
                    before.regret_handler->0,
                    game.spec_turn().0,
                    node_hash(game),
                    game.spec_turn().1.len() as usize,
                    fpu,
                    Some(p),
                    asked,
                )
                &&& p@.len() == game.spec_turn().1.len()
                &&& call_ensures(*sampler, (&p,), j)
                &&& j < game.spec_turn().1.len()
                &&& before.strat_handler.sends(
                    game.spec_turn().0,
                    node_hash(game),
                    p@,
                    before.iteration,
                    sent,
                    told,
                )
                &&& game.steps(game.spec_turn().1[j as int], child)
                &&& walks(
                    before.with_regret(asked).with_strategy(told),
                    child,
                    fpu,
                    sampler,
                    Some(v),
                    after,
                )
            },
{
    let (probs, asked) = choose|probs: Option<Vec<u32>>, asked: H|
        #![trigger looks_up(before.regret_handler->0, game.spec_turn().0, node_hash(game), game.spec_turn().1.len() as usize, fpu, probs, asked)]
        looks_up(
            before.regret_handler->0,
            game.spec_turn().0,
            node_hash(game),
            game.spec_turn().1.len() as usize,
            fpu,
            probs,
            asked,
        ) && proceeds(before.with_regret(asked), game, fpu, sampler, probs, Some(v), after);
    let mid = before.with_regret(asked);
    let p = probs->0;
    let (j, sent, told, child) = choose|
        j: usize,
        sent: Result<(), HandlerError>,
        told: H,
        child: G,
    |
        #![trigger took(mid, game, sampler, p, j, sent, told, child)]
        sampled(mid, game, fpu, sampler, p, j, sent, told, child, Some(v), after);
    assert(took(before.with_regret(asked), game, sampler, p, j, sent, told, child));
}

/// Whether the sampler accepts every strategy over at least one action.
pub open spec fn sampler_is_total<S: Fn(&Vec<u32>) -> usize>(sampler: &S) -> bool {
    forall|probs: &Vec<u32>| probs@.len() > 0 ==> call_requires(*sampler, (probs,))
}

} // verus!
