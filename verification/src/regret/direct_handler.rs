use crate::game::player::Player;
use crate::numeric::{unit_is_total, FloatOp};
use crate::regret::hash_regret_provider::{base_entry, fits, Entries, HashRegretProvider};
use crate::regret::regret_provider::{
    HandlerError, RegretConfig, RegretDelta, RegretHandler, RegretRequest, Response,
};
use vstd::prelude::*;

verus! {

/// Regret handler that owns its provider and serves every call at once, on
/// the caller's thread. It holds the arithmetic unit that the provider
/// weighs deltas with.
pub struct DirectHandler<F> {
    pub provider: HashRegretProvider,
    pub fpu: F,
}

impl<F: Fn(FloatOp, u32, u32) -> u32> DirectHandler<F> {
    /// A handler for the given provider.
    pub fn new(provider: HashRegretProvider, fpu: F) -> (handler: DirectHandler<F>)
        ensures
            handler.provider == provider,
            handler.fpu == fpu,
    {
        DirectHandler { provider, fpu }
    }

    /// Closes the provider: from now on every request for an entry is
    /// answered with `Closed`, and deltas are dropped.
    pub fn close(&mut self)
        ensures
            final(self).provider.close_flag,
            final(self).provider.table(Player::P1) == old(self).provider.table(Player::P1),
            final(self).provider.table(Player::P2) == old(self).provider.table(Player::P2),
            final(self).provider.config == old(self).provider.config,
            final(self).provider.closed_senders == old(self).provider.closed_senders,
            final(self).provider.response_senders == old(self).provider.response_senders,
            final(self).provider.num_closed == old(self).provider.num_closed,
            final(self).fpu == old(self).fpu,
    {
        self.provider.close_flag = true;
    }
}

/// Whether `r` is the answer of a table that holds `entries` to a request
/// for the entry of an infoset: `Closed` where the table is closed, else the
/// entry, or none where there is none.
pub open spec fn answers_with(
    closed: bool,
    entries: Entries,
    infoset_hash: u64,
    r: Result<Response, HandlerError>,
) -> bool {
    r matches Ok(response) && if closed {
        response is Closed
    } else {
        &&& response matches Response::Regret(found)
        &&& found.regret is Some == entries.contains_key(infoset_hash)
        &&& found.regret matches Some(v) ==> v@ == entries[infoset_hash]
    }
}

/// Whether a table that holds `before` may end a delta with `r` and hold
/// `written` afterwards: a closed table and a delta of fewer than two
/// elements change nothing; a delta of another length than the stored entry
/// is refused and changes nothing; else the entry, or zeros where there is
/// none, is updated by the discount law.
pub open spec fn weighs_in<F: Fn(FloatOp, u32, u32) -> u32>(
    config: RegretConfig,
    fpu: &F,
    closed: bool,
    before: Entries,
    infoset_hash: u64,
    regret_delta: Seq<u32>,
    iteration: i32,
    r: Result<(), HandlerError>,
    written: Entries,
) -> bool {
    if closed || regret_delta.len() < 2 {
        r is Ok && written == before
    } else if !fits(before, infoset_hash, regret_delta) {
        r == Err::<(), HandlerError>(HandlerError::Rejected) && written == before
    } else {
        &&& r is Ok
        &&& written == before.insert(infoset_hash, written[infoset_hash])
        &&& config.updates(
            fpu,
            iteration,
            base_entry(before, infoset_hash, regret_delta.len()),
            regret_delta,
            written[infoset_hash],
        )
    }
}

impl<F: Fn(FloatOp, u32, u32) -> u32> RegretHandler for DirectHandler<F> {
    /// The unit computes every operation.
    open spec fn inv(&self) -> bool {
        unit_is_total(&self.fpu)
    }

    /// The answer is the stored entry, or `Closed` once the provider is
    /// closed. Nothing changes.
    open spec fn gets(
        &self,
        player: Player,
        infoset_hash: u64,
        r: Result<Response, HandlerError>,
        after: Self,
    ) -> bool {
        &&& after.provider == self.provider
        &&& after.fpu == self.fpu
        &&& answers_with(self.provider.close_flag, self.provider.table(player), infoset_hash, r)
    }

    /// The delta is weighed into the entry of its infoset by the discount
    /// law, unless the provider is closed or the delta has fewer than two
    /// elements. A delta of another length than the stored entry is refused
    /// and changes nothing.
    open spec fn sends(
        &self,
        player: Player,
        infoset_hash: u64,
        regret_delta: Seq<u32>,
        iteration: i32,
        r: Result<(), HandlerError>,
        after: Self,
    ) -> bool {
        &&& after.fpu == self.fpu
        &&& after.provider.close_flag == self.provider.close_flag
        &&& after.provider.config == self.provider.config
        &&& after.provider.table(player.other()) == self.provider.table(player.other())
        &&& weighs_in(
            self.provider.config,
            &self.fpu,
            self.provider.close_flag,
            self.provider.table(player),
            infoset_hash,
            regret_delta,
            iteration,
            r,
            after.provider.table(player),
        )
    }

    fn get_regret(&mut self, player: Player, infoset_hash: u64) -> (r: Result<
        Response,
        HandlerError,
    >) {
        if self.provider.close_flag {
            Ok(Response::Closed)
        } else {
            let request = RegretRequest { player, infoset_hash, handler: 0 };
            Ok(Response::Regret(self.provider.handle_regret_request(&request)))
        }
    }

    fn send_delta(
        &mut self,
        player: Player,
        infoset_hash: u64,
        regret_delta: Vec<u32>,
        iteration: i32,
    ) -> (r: Result<(), HandlerError>) {
        let delta = RegretDelta { player, infoset_hash, regret_delta, iteration };
        if self.provider.close_flag {
            Ok(())
        } else if !self.provider.accepts(&delta) {
            Err(HandlerError::Rejected)
        } else {
            self.provider.handle_regret_delta(delta, &self.fpu);
            Ok(())
        }
    }
}

} // verus!
