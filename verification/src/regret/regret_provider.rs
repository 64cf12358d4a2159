use crate::game::player::Player;
use crate::numeric::{
    positive_part, spec_is_negative, spec_positive_part, unit_is_total, yields, FloatOp, ONE,
};
use vstd::prelude::*;

verus! {

/// The answer to a request for an entry: the stored vector, or `None` where
/// nothing is stored yet.
#[derive(Debug)]
pub struct RegretResponse {
    pub regret: Option<Vec<u32>>,
}

/// A request for the entry of an infoset, with the number of the handler
/// that is to get the answer.
#[derive(Debug)]
pub struct RegretRequest {
    pub player: Player,
    pub infoset_hash: u64,
    pub handler: usize,
}

/// A vector to be weighed into the entry of an infoset.
#[derive(Debug)]
pub struct RegretDelta {
    pub player: Player,
    pub infoset_hash: u64,
    pub regret_delta: Vec<u32>,
    pub iteration: i32,
}

#[derive(Debug)]
pub enum Request {
    /// A request to get the entry of a particular infoset
    Regret(RegretRequest),
    /// A request to add regret
    Delta(RegretDelta),
    /// Closes the provider
    Close,
}

#[derive(Debug)]
pub enum Response {
    Regret(RegretResponse),
    Closed,
}

/// Why a handler could not serve a call. Either way the shard is taken to be
/// shutting down.
#[derive(Clone, Copy, Debug, PartialEq, Eq, Structural)]
pub enum HandlerError {
    /// The request could not be handed to the shard.
    SendFailed,
    /// No answer can come any more.
    ReceiveFailed,
    /// The shard refused the request: the delta has another length than the
    /// entry it is meant for.
    Rejected,
    /// The store behind the shard failed, or holds what is no vector.
    StoreFailed,
}

/// Interface for getting and updating entries of a table.
///
/// Each kind of handler says, by `gets` and `sends`, what a call may return
/// and how it may leave the handler. A handler that talks to another thread
/// says little; one that owns its table says everything.
pub trait RegretHandler: Sized {
    /// What the handler needs to work.
    spec fn inv(&self) -> bool;

    /// Whether a request for the entry of an infoset may return `r` and
    /// leave the handler as `after`.
    spec fn gets(
        &self,
        player: Player,
        infoset_hash: u64,
        r: Result<Response, HandlerError>,
        after: Self,
    ) -> bool;

    /// Whether handing in a delta may return `r` and leave the handler as
    /// `after`.
    spec fn sends(
        &self,
        player: Player,
        infoset_hash: u64,
        regret_delta: Seq<u32>,
        iteration: i32,
        r: Result<(), HandlerError>,
        after: Self,
    ) -> bool;

    /// Asks for the entry of an infoset and waits for the answer.
    fn get_regret(&mut self, player: Player, infoset_hash: u64) -> (r: Result<
        Response,
        HandlerError,
    >)
        requires
            old(self).inv(),
        ensures
            final(self).inv(),
            old(self).gets(player, infoset_hash, r, *final(self)),
    ;

    /// Hands in a vector to be weighed into the entry of an infoset, without
    /// waiting for it to happen.
    fn send_delta(
        &mut self,
        player: Player,
        infoset_hash: u64,
        regret_delta: Vec<u32>,
        iteration: i32,
    ) -> (r: Result<(), HandlerError>)
        requires
            old(self).inv(),
        ensures
            final(self).inv(),
            old(self).sends(player, infoset_hash, regret_delta@, iteration, r, *final(self)),
    ;
}

/// The exponents of discounted regret minimisation, as bit patterns, and what
/// kind of table they are applied to.
#[derive(Clone, Copy, Debug)]
pub struct RegretConfig {
    /// The exponent for entries that are not below zero.
    pub alpha: u32,
    /// The exponent for entries below zero.
    pub beta: u32,
    /// The exponent for the entries of a strategy table.
    pub gamma: u32,
    /// Whether the table holds strategies: `gamma` then weighs every entry.
    pub is_strategy: bool,
    /// Whether what is stored below zero is raised to zero on every write.
    pub clamp_negative: bool,
}

/// The bit pattern of 1.5.
pub const DEFAULT_ALPHA: u32 = 0x3FC0_0000;

/// The bit pattern of 0.0.
pub const DEFAULT_BETA: u32 = 0;

/// The bit pattern of 2.0.
pub const DEFAULT_GAMMA: u32 = 0x4000_0000;

impl Default for RegretConfig {
    /// The exponents 1.5, 0 and 2 for a regret table that keeps the sign of
    /// what it stores.
    fn default() -> (config: Self)
        ensures
            config.alpha == DEFAULT_ALPHA,
            config.beta == DEFAULT_BETA,
            config.gamma == DEFAULT_GAMMA,
            !config.is_strategy,
            !config.clamp_negative,
    {
        RegretConfig {
            alpha: DEFAULT_ALPHA,
            beta: DEFAULT_BETA,
            gamma: DEFAULT_GAMMA,
            is_strategy: false,
            clamp_negative: false,
        }
    }
}

/// Whether `w`, `num`, `den`, `q` and `sum` are the steps by which the unit
/// gets from the entry `regret`, the weight base `t`, the exponent `e` and
/// the delta to `regret * t^e / (t^e + 1) + delta`, in this order of
/// operations.
pub open spec fn law_steps<F: Fn(FloatOp, u32, u32) -> u32>(
    fpu: &F,
    e: u32,
    t: u32,
    regret: u32,
    delta: u32,
    w: u32,
    num: u32,
    den: u32,
    q: u32,
    sum: u32,
) -> bool {
    &&& yields(fpu, FloatOp::Pow, t, e, w)
    &&& yields(fpu, FloatOp::Mul, regret, w, num)
    &&& yields(fpu, FloatOp::Add, w, ONE, den)
    &&& yields(fpu, FloatOp::Div, num, den, q)
    &&& yields(fpu, FloatOp::Add, q, delta, sum)
}

impl RegretConfig {
    /// The exponent that weighs an entry: `gamma` in a strategy table, else
    /// `beta` for an entry below zero and `alpha` for any other.
    pub open spec fn spec_exponent(&self, regret: u32) -> u32 {
        if self.is_strategy {
            self.gamma
        } else if spec_is_negative(regret) {
            self.beta
        } else {
            self.alpha
        }
    }

    /// What is written for a computed value: its positive part where the
    /// table clamps, else the value.
    pub open spec fn spec_stored(&self, value: u32) -> u32 {
        if self.clamp_negative {
            spec_positive_part(value)
        } else {
            value
        }
    }

    /// Whether `r` is what the discount law, computed by the unit, may write
    /// for the entry `regret` and the delta `delta` at the iteration whose
    /// number as a floating-point pattern is `t`.
    pub open spec fn discounts<F: Fn(FloatOp, u32, u32) -> u32>(
        &self,
        fpu: &F,
        t: u32,
        regret: u32,
        delta: u32,
        r: u32,
    ) -> bool {
        exists|w: u32, num: u32, den: u32, q: u32, sum: u32| #[trigger]
            law_steps(fpu, self.spec_exponent(regret), t, regret, delta, w, num, den, q, sum) && r
                == self.spec_stored(sum)
    }

    /// Whether `out` is what the law may write for a whole entry: the
    /// iteration number is converted once, and every element is discounted
    /// on its own.
    pub open spec fn updates<F: Fn(FloatOp, u32, u32) -> u32>(
        &self,
        fpu: &F,
        iteration: i32,
        current: Seq<u32>,
        delta: Seq<u32>,
        out: Seq<u32>,
    ) -> bool {
        &&& out.len() == current.len()
        &&& exists|t: u32| #[trigger]
            yields(fpu, FloatOp::FromInt(iteration), 0, 0, t) && forall|i: int|
                0 <= i < current.len() ==> self.discounts(
                    fpu,
                    t,
                    current[i],
                    delta[i],
                    #[trigger] out[i],
                )
    }

    /// Selects the exponent that weighs an entry.
    #[verifier::when_used_as_spec(spec_exponent)]
    pub fn exponent(&self, regret: u32) -> (e: u32)
        ensures
            e == self.spec_exponent(regret),
    {
        if self.is_strategy {
            self.gamma
        } else if crate::numeric::is_negative(regret) {
            self.beta
        } else {
            self.alpha
        }
    }

    /// Applies the discount law to one element: with `w = iteration^e`, the
    /// new value is `regret * w / (w + 1) + delta`. `iteration` is the
    /// iteration number as a floating-point pattern.
    pub fn apply_delta<F: Fn(FloatOp, u32, u32) -> u32>(
        &self,
        iteration: u32,
        regret: u32,
        delta: u32,
        fpu: &F,
    ) -> (r: u32)
        requires
            unit_is_total(fpu),
        ensures
            self.discounts(fpu, iteration, regret, delta, r),
    {
        let e = self.exponent(regret);
        let w = fpu(FloatOp::Pow, iteration, e);
        let num = fpu(FloatOp::Mul, regret, w);
        let den = fpu(FloatOp::Add, w, ONE);
        let q = fpu(FloatOp::Div, num, den);
        let sum = fpu(FloatOp::Add, q, delta);
        assert(law_steps(fpu, self.spec_exponent(regret), iteration, regret, delta, w, num, den, q, sum));
        if self.clamp_negative {
            positive_part(sum)
        } else {
            sum
        }
    }

    /// Applies the discount law to every element of an entry. The delta must
    /// have the entry's length.
    pub fn update_entry<F: Fn(FloatOp, u32, u32) -> u32>(
        &self,
        current: &Vec<u32>,
        delta: &Vec<u32>,
        iteration: i32,
        fpu: &F,
    ) -> (out: Vec<u32>)
        requires
            unit_is_total(fpu),
            current@.len() == delta@.len(),
        ensures
            self.updates(fpu, iteration, current@, delta@, out@),
    {
        let t = fpu(FloatOp::FromInt(iteration), 0, 0);
        let mut out: Vec<u32> = Vec::new();
        let mut i: usize = 0;
        while i < current.len()
            invariant
                unit_is_total(fpu),
                current@.len() == delta@.len(),
                i <= current@.len(),
                out@.len() == i,
                forall|j: int|
                    0 <= j < i ==> self.discounts(fpu, t, current@[j], delta@[j], #[trigger] out@[j]),
            decreases current@.len() - i,
        {
            let r = self.apply_delta(t, current[i], delta[i], fpu);
            out.push(r);
            i += 1;
        }
        assert(yields(fpu, FloatOp::FromInt(iteration), 0, 0, t));
        out
    }
}

/// An update never changes the length of an entry.
pub proof fn lemma_update_keeps_length<F: Fn(FloatOp, u32, u32) -> u32>(
    config: RegretConfig,
    fpu: &F,
    iteration: i32,
    current: Seq<u32>,
    delta: Seq<u32>,
    out: Seq<u32>,
)
    requires
        config.updates(fpu, iteration, current, delta, out),
    ensures
        out.len() == current.len(),
{
}

/// In a table that clamps, nothing that is written is below zero.
pub proof fn lemma_clamped_is_not_negative<F: Fn(FloatOp, u32, u32) -> u32>(
    config: RegretConfig,
    fpu: &F,
    t: u32,
    regret: u32,
    delta: u32,
    r: u32,
)
    requires
        config.clamp_negative,
        config.discounts(fpu, t, regret, delta, r),
    ensures
        !spec_is_negative(r),
{
}

} // verus!
