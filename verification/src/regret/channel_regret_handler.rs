use crate::game::player::Player;
use crate::regret::channel::{recv, try_send};
use crate::regret::regret_provider::{
    HandlerError, RegretDelta, RegretHandler, RegretRequest, Request, Response,
};
use vstd::prelude::*;

verus! {

/// Regret handler that talks to a provider over channels: requests go out on
/// the channel that all handlers of the provider share, answers come back on
/// the handler's own.
pub struct ChannelRegretHandler {
    pub requester: crossbeam_channel::Sender<Request>,
    pub receiver: crossbeam_channel::Receiver<Response>,
    pub handler: usize,
}

/// What a request for an entry ends with: a failure to send where the
/// request could not be put into the channel, else the answer that was
/// received, or a failure to receive where none can come any more.
pub open spec fn spec_regret_answer(sent: bool, received: Option<Response>) -> Result<
    Response,
    HandlerError,
> {
    if !sent {
        Err(HandlerError::SendFailed)
    } else {
        match received {
            Some(response) => Ok(response),
            None => Err(HandlerError::ReceiveFailed),
        }
    }
}

/// What handing in a delta ends with: success where the delta could be put
/// into the channel, a failure to send where it could not.
pub open spec fn spec_delta_answer(sent: bool) -> Result<(), HandlerError> {
    if sent {
        Ok(())
    } else {
        Err(HandlerError::SendFailed)
    }
}

/// Turns what the answering channel gave for a request that was sent into
/// the result of the request.
pub fn regret_answer(received: Option<Response>) -> (r: Result<Response, HandlerError>)
    ensures
        r == spec_regret_answer(true, received),
{
    match received {
        Some(response) => Ok(response),
        None => Err(HandlerError::ReceiveFailed),
    }
}

/// Turns whether a delta could be put into the channel into the result of
/// handing it in.
pub fn delta_answer(sent: bool) -> (r: Result<(), HandlerError>)
    ensures
        r == spec_delta_answer(sent),
{
    if sent {
        Ok(())
    } else {
        Err(HandlerError::SendFailed)
    }
}

impl RegretHandler for ChannelRegretHandler {
    open spec fn inv(&self) -> bool {
        true
    }

    /// The handler stays as it is. Whether the request reaches the provider
    /// and what the provider answers lies with the channels and the other
    /// threads: the result is what `spec_regret_answer` makes of what they
    /// give.
    open spec fn gets(
        &self,
        player: Player,
        infoset_hash: u64,
        r: Result<Response, HandlerError>,
        after: Self,
    ) -> bool {
        &&& after == *self
        &&& exists|sent: bool, received: Option<Response>|
            r == #[trigger] spec_regret_answer(sent, received)
    }

    /// The handler stays as it is. Whether the delta reaches the provider
    /// lies with the channel: the result is what `spec_delta_answer` makes
    /// of what it gives.
    open spec fn sends(
        &self,
        player: Player,
        infoset_hash: u64,
        regret_delta: Seq<u32>,
        iteration: i32,
        r: Result<(), HandlerError>,
        after: Self,
    ) -> bool {
        &&& after == *self
        &&& exists|sent: bool| r == #[trigger] spec_delta_answer(sent)
    }

    /// Sends the request that `regret_request` makes and waits for the
    /// answer. An error comes back where the request could not be sent or
    /// the answering channel is gone.
    fn get_regret(&mut self, player: Player, infoset_hash: u64) -> (r: Result<
        Response,
        HandlerError,
    >) {
        let request = self.regret_request(player, infoset_hash);
        if !try_send(&self.requester, request) {
            assert(spec_regret_answer(false, None) == Err::<Response, HandlerError>(
                HandlerError::SendFailed,
            ));
            return Err(HandlerError::SendFailed);
        }
        let received = recv(&self.receiver);
        let ghost seen = received;
        let r = regret_answer(received);
        assert(r == spec_regret_answer(true, seen));
        r
    }

    /// Sends the request that `delta_request` makes and returns at once. An
    /// error comes back where it could not be sent.
    fn send_delta(
        &mut self,
        player: Player,
        infoset_hash: u64,
        regret_delta: Vec<u32>,
        iteration: i32,
    ) -> (r: Result<(), HandlerError>) {
        let request = ChannelRegretHandler::delta_request(
            player,
            infoset_hash,
            regret_delta,
            iteration,
        );
        let sent = try_send(&self.requester, request);
        let r = delta_answer(sent);
        assert(r == spec_delta_answer(sent));
        r
    }
}

impl ChannelRegretHandler {
    /// The request for the entry of an infoset that this handler sends: it
    /// names the handler, so that the answer finds its way back.
    pub fn regret_request(&self, player: Player, infoset_hash: u64) -> (request: Request)
        ensures
            request == Request::Regret(
                RegretRequest { player, infoset_hash, handler: self.handler },
            ),
    {
        Request::Regret(RegretRequest { player, infoset_hash, handler: self.handler })
    }

    /// The request that hands in a delta.
    pub fn delta_request(
        player: Player,
        infoset_hash: u64,
        regret_delta: Vec<u32>,
        iteration: i32,
    ) -> (request: Request)
        ensures
            request == Request::Delta(
                RegretDelta { player, infoset_hash, regret_delta, iteration },
            ),
    {
        Request::Delta(RegretDelta { player, infoset_hash, regret_delta, iteration })
    }

    /// Tells the provider to shut down. Returns whether the message could be
    /// sent.
    pub fn send_close(&self) -> (sent: bool) {
        try_send(&self.requester, Request::Close)
    }
}

} // verus!
