use crate::game::player::Player;
use crate::numeric::{unit_is_total, zero_vector, zeros, FloatOp};
use crate::regret::channel::{another_sender, recv, send};
use crate::regret::channel_regret_handler::ChannelRegretHandler;
use crate::regret::regret_provider::{
    RegretConfig, RegretDelta, RegretRequest, RegretResponse, Request, Response, DEFAULT_ALPHA,
    DEFAULT_BETA, DEFAULT_GAMMA,
};
use std::collections::HashMap;
use vstd::prelude::*;

verus! {

/// Regret provider that uses an in-memory HashMap to store regrets
/// Uses ChannelRegretHandler for access
pub struct HashRegretProvider {
    /// The end on which the requests of all handlers arrive.
    pub request_receiver: crossbeam_channel::Receiver<Request>,
    /// The end of which each handler gets a copy.
    pub request_sender: crossbeam_channel::Sender<Request>,
    /// One end for each handler, on which its answers go out.
    pub response_senders: Vec<crossbeam_channel::Sender<Response>>,
    /// For each handler, whether it has been told that the provider closed.
    pub closed_senders: Vec<bool>,
    /// Whether a close was asked for.
    pub close_flag: bool,
    /// The number of handlers that have been told.
    pub num_closed: usize,
    pub p1_regrets: HashMap<u64, Vec<u32>>,
    pub p2_regrets: HashMap<u64, Vec<u32>>,
    pub config: RegretConfig,
}

/// What a table holds, as a mathematical value.
pub type Entries = Map<u64, Seq<u32>>;

/// Why a request could not be served. Each is fatal to the shard.
#[derive(Clone, Copy, Debug, PartialEq, Eq, Structural)]
pub enum Fault {
    /// The request names a handler that was never registered.
    UnknownHandler,
    /// The delta has another length than the entry it is meant for.
    ArityMismatch,
    /// No request can arrive any more.
    Disconnected,
    /// The answer could not be sent.
    ReplyFailed,
}

/// The entries of a map of vectors.
pub open spec fn entries_of(m: Map<u64, Vec<u32>>) -> Entries {
    m.map_values(|v: Vec<u32>| v@)
}

/// The entry that a delta of length `n` is weighed into: the stored one, or
/// `n` zeros where nothing is stored.
pub open spec fn base_entry(entries: Entries, hash: u64, n: nat) -> Seq<u32> {
    if entries.contains_key(hash) {
        entries[hash]
    } else {
        zeros(n)
    }
}

/// Whether a delta fits a table: it is too short to count, or nothing is
/// stored for its infoset, or what is stored has its length.
pub open spec fn fits(entries: Entries, hash: u64, delta: Seq<u32>) -> bool {
    delta.len() < 2 || !entries.contains_key(hash) || entries[hash].len() == delta.len()
}

/// The number of handlers that have been told.
pub open spec fn count_true(flags: Seq<bool>) -> nat
    decreases flags.len(),
{
    if flags.len() == 0 {
        0
    } else {
        count_true(flags.drop_last()) + (if flags.last() {
            1nat
        } else {
            0nat
        })
    }
}

/// Whether a close has been asked for once a request is served.
pub open spec fn closing_after(closing: bool, request: Request) -> bool {
    closing || request is Close
}

/// Whether a close has been asked for once a sequence of requests is
/// served.
pub open spec fn closing_after_all(closing: bool, requests: Seq<Request>) -> bool
    decreases requests.len(),
{
    if requests.len() == 0 {
        closing
    } else {
        closing_after(closing_after_all(closing, requests.drop_last()), requests.last())
    }
}

/// Marking one more handler raises the count by one, and the count never
/// exceeds the number of handlers.
pub proof fn lemma_count_true(flags: Seq<bool>, i: int)
    requires
        0 <= i < flags.len(),
    ensures
        count_true(flags) <= flags.len(),
        !flags[i] ==> count_true(flags.update(i, true)) == count_true(flags) + 1,
        flags[i] ==> count_true(flags) >= 1,
    decreases flags.len(),
{
    let rest = flags.drop_last();
    if i < flags.len() - 1 {
        lemma_count_true(rest, i);
        assert(flags.update(i, true).drop_last() =~= rest.update(i, true));
    } else {
        assert(flags.update(i, true).drop_last() =~= rest);
        lemma_count_bound(rest);
    }
}

/// The count never exceeds the number of handlers, and reaches it exactly
/// when every handler has been told.
pub proof fn lemma_count_bound(flags: Seq<bool>)
    ensures
        count_true(flags) <= flags.len(),
        (count_true(flags) == flags.len()) == (forall|i: int|
            0 <= i < flags.len() ==> #[trigger] flags[i]),
    decreases flags.len(),
{
    if flags.len() > 0 {
        let rest = flags.drop_last();
        lemma_count_bound(rest);
        if count_true(flags) == flags.len() {
            assert forall|i: int| 0 <= i < flags.len() implies #[trigger] flags[i] by {
                if i < flags.len() - 1 {
                    assert(rest[i]);
                }
            }
        }
        if forall|i: int| 0 <= i < flags.len() ==> #[trigger] flags[i] {
            assert forall|i: int| 0 <= i < rest.len() implies #[trigger] rest[i] by {
                assert(flags[i]);
            }
            assert(flags[flags.len() - 1]);
        }
    }
}

/// Once a close is asked for, it stays asked for: after any requests that
/// follow a close, the provider is closing.
pub proof fn lemma_close_is_final(closing: bool, requests: Seq<Request>, i: int)
    requires
        closing || (0 <= i < requests.len() && requests[i] is Close),
    ensures
        closing_after_all(closing, requests),
    decreases requests.len(),
{
    if requests.len() > 0 {
        if closing || i < requests.len() - 1 {
            lemma_close_is_final(closing, requests.drop_last(), i);
        }
    }
}

/// Weighing a delta in keeps what is stored: every infoset that had an entry
/// still has one of the same length, and the entry that was written has the
/// length of the delta.
pub proof fn lemma_delta_keeps_arity<F: Fn(FloatOp, u32, u32) -> u32>(
    config: RegretConfig,
    fpu: &F,
    iteration: i32,
    before: Entries,
    after: Entries,
    hash: u64,
    delta: Seq<u32>,
)
    requires
        fits(before, hash, delta),
        delta.len() >= 2,
        after == before.insert(hash, after[hash]),
        config.updates(fpu, iteration, base_entry(before, hash, delta.len()), delta, after[hash]),
    ensures
        after[hash].len() == delta.len(),
        forall|h: u64| #[trigger]
            before.contains_key(h) ==> after.contains_key(h) && after[h].len() == before[h].len(),
{
}

/// Looks an entry up in one table.
fn find(table: &HashMap<u64, Vec<u32>>, hash: u64) -> (regret: Option<Vec<u32>>)
    ensures
        regret is Some == entries_of(table@).contains_key(hash),
        regret matches Some(v) ==> v@ == entries_of(table@)[hash],
{
    match table.get(&hash) {
        Some(v) => {
            let copy = v.clone();
            assert(copy@ =~= v@);
            Some(copy)
        },
        None => None,
    }
}

/// Tells whether a delta fits one table.
fn fits_table(table: &HashMap<u64, Vec<u32>>, hash: u64, delta: &Vec<u32>) -> (ok: bool)
    ensures
        ok == fits(entries_of(table@), hash, delta@),
{
    if delta.len() < 2 {
        return true;
    }
    match table.get(&hash) {
        Some(v) => v.len() == delta.len(),
        None => true,
    }
}

/// Weighs a delta of two elements or more into one table.
fn weigh_in<F: Fn(FloatOp, u32, u32) -> u32>(
    table: &mut HashMap<u64, Vec<u32>>,
    config: &RegretConfig,
    hash: u64,
    delta: &Vec<u32>,
    iteration: i32,
    fpu: &F,
)
    requires
        unit_is_total(fpu),
        delta@.len() >= 2,
        fits(entries_of(old(table)@), hash, delta@),
    ensures
        entries_of(final(table)@) == entries_of(old(table)@).insert(
            hash,
            entries_of(final(table)@)[hash],
        ),
        config.updates(
            fpu,
            iteration,
            base_entry(entries_of(old(table)@), hash, delta@.len()),
            delta@,
            entries_of(final(table)@)[hash],
        ),
{
    let out = match table.get(&hash) {
        Some(current) => config.update_entry(current, delta, iteration, fpu),
        None => {
            let fresh = zero_vector(delta.len());
            config.update_entry(&fresh, delta, iteration, fpu)
        },
    };
    let ghost seq_out = out@;
    table.insert(hash, out);
    assert(entries_of(table@) =~= entries_of(old(table)@).insert(hash, seq_out));
}

impl HashRegretProvider {
    /// A provider with empty tables, no handlers and the default exponents:
    /// 1.5, 0 and 2, for a regret table that keeps the sign of what it stores.
    pub fn new() -> (provider: HashRegretProvider)
        ensures
            provider.wf(),
            provider.table(Player::P1) == Map::<u64, Seq<u32>>::empty(),
            provider.table(Player::P2) == Map::<u64, Seq<u32>>::empty(),
            provider.closed_senders@.len() == 0,
            !provider.close_flag,
            provider.config.alpha == DEFAULT_ALPHA,
            provider.config.beta == DEFAULT_BETA,
            provider.config.gamma == DEFAULT_GAMMA,
            !provider.config.is_strategy,
            !provider.config.clamp_negative,
    {
        let (request_sender, request_receiver) = crossbeam_channel::unbounded();
        let provider = HashRegretProvider {
            request_sender,
            request_receiver,
            response_senders: Vec::new(),
            closed_senders: Vec::new(),
            close_flag: false,
            num_closed: 0,
            p1_regrets: HashMap::new(),
            p2_regrets: HashMap::new(),
            config: RegretConfig::default(),
        };
        assert(provider.table(Player::P1) =~= Map::<u64, Seq<u32>>::empty());
        assert(provider.table(Player::P2) =~= Map::<u64, Seq<u32>>::empty());
        provider
    }

    /// What the table of a player holds.
    pub open spec fn table(&self, player: Player) -> Entries {
        match player {
            Player::P1 => entries_of(self.p1_regrets@),
            Player::P2 => entries_of(self.p2_regrets@),
        }
    }

    /// Every handler has its flag, and the count of the told is true.
    pub open spec fn wf(&self) -> bool {
        &&& self.closed_senders@.len() == self.response_senders@.len()
        &&& self.num_closed == count_true(self.closed_senders@)
    }

    /// Whether every handler has been told that the provider closed.
    pub open spec fn finished(&self) -> bool {
        forall|i: int| 0 <= i < self.closed_senders@.len() ==> #[trigger] self.closed_senders@[i]
    }

    /// Replaces the exponents.
    pub fn set_config(&mut self, config: &RegretConfig)
        ensures
            final(self).config == *config,
            final(self).table(Player::P1) == old(self).table(Player::P1),
            final(self).table(Player::P2) == old(self).table(Player::P2),
            final(self).closed_senders == old(self).closed_senders,
            final(self).response_senders == old(self).response_senders,
            final(self).close_flag == old(self).close_flag,
            final(self).num_closed == old(self).num_closed,
    {
        self.config = *config;
    }

    /// Registers one more handler and returns it. Handlers are numbered in
    /// the order in which they are made.
    pub fn get_handler(&mut self) -> (handler: ChannelRegretHandler)
        requires
            old(self).wf(),
        ensures
            final(self).wf(),
            handler.handler == old(self).closed_senders@.len(),
            final(self).closed_senders@ == old(self).closed_senders@.push(false),
            final(self).table(Player::P1) == old(self).table(Player::P1),
            final(self).table(Player::P2) == old(self).table(Player::P2),
            final(self).close_flag == old(self).close_flag,
            final(self).config == old(self).config,
    {
        let requester = another_sender(&self.request_sender);
        let (response_sender, response_receiver) = crossbeam_channel::unbounded();
        let handler: usize = self.response_senders.len();
        self.response_senders.push(response_sender);
        self.closed_senders.push(false);
        assert(self.closed_senders@.drop_last() =~= old(self).closed_senders@);
        ChannelRegretHandler { requester, receiver: response_receiver, handler }
    }

    /// Looks up the entry of an infoset.
    pub fn lookup(&self, player: Player, infoset_hash: u64) -> (regret: Option<Vec<u32>>)
        ensures
            regret is Some == self.table(player).contains_key(infoset_hash),
            regret matches Some(v) ==> v@ == self.table(player)[infoset_hash],
    {
        match player {
            Player::P1 => find(&self.p1_regrets, infoset_hash),
            Player::P2 => find(&self.p2_regrets, infoset_hash),
        }
    }

    /// Answers a request with the stored entry, or with `None` where nothing
    /// is stored.
    pub fn handle_regret_request(&self, request: &RegretRequest) -> (response: RegretResponse)
        ensures
            response.regret is Some == self.table(request.player).contains_key(
                request.infoset_hash,
            ),
            response.regret matches Some(v) ==> v@ == self.table(
                request.player,
            )[request.infoset_hash],
    {
        RegretResponse { regret: self.lookup(request.player, request.infoset_hash) }
    }

    /// Tells whether a delta can be weighed in: whether no entry of another
    /// length stands in its way.
    pub fn accepts(&self, delta: &RegretDelta) -> (ok: bool)
        ensures
            ok == fits(self.table(delta.player), delta.infoset_hash, delta.regret_delta@),
    {
        match delta.player {
            Player::P1 => fits_table(&self.p1_regrets, delta.infoset_hash, &delta.regret_delta),
            Player::P2 => fits_table(&self.p2_regrets, delta.infoset_hash, &delta.regret_delta),
        }
    }

    /// Weighs a delta into the entry of its infoset by the discount law. An
    /// entry that is missing is first made of zeros. A delta of fewer than
    /// two elements changes nothing.
    pub fn handle_regret_delta<F: Fn(FloatOp, u32, u32) -> u32>(
        &mut self,
        delta: RegretDelta,
        fpu: &F,
    )
        requires
            unit_is_total(fpu),
            fits(old(self).table(delta.player), delta.infoset_hash, delta.regret_delta@),
        ensures
            final(self).table(delta.player.other()) == old(self).table(delta.player.other()),
            delta.regret_delta@.len() < 2 ==> final(self).table(delta.player) == old(self).table(
                delta.player,
            ),
            delta.regret_delta@.len() >= 2 ==> final(self).table(delta.player) == old(self).table(
                delta.player,
            ).insert(delta.infoset_hash, final(self).table(delta.player)[delta.infoset_hash])
                && old(self).config.updates(
                fpu,
                delta.iteration,
                base_entry(
                    old(self).table(delta.player),
                    delta.infoset_hash,
                    delta.regret_delta@.len(),
                ),
                delta.regret_delta@,
                final(self).table(delta.player)[delta.infoset_hash],
            ),
            final(self).config == old(self).config,
            final(self).closed_senders == old(self).closed_senders,
            final(self).response_senders == old(self).response_senders,
            final(self).close_flag == old(self).close_flag,
            final(self).num_closed == old(self).num_closed,
    {
        //0 or 1 actions, nothing to do
        if delta.regret_delta.len() < 2 {
            return ;
        }
        let config = self.config;
        match delta.player {
            Player::P1 => weigh_in(
                &mut self.p1_regrets,
                &config,
                delta.infoset_hash,
                &delta.regret_delta,
                delta.iteration,
                fpu,
            ),
            Player::P2 => weigh_in(
                &mut self.p2_regrets,
                &config,
                delta.infoset_hash,
                &delta.regret_delta,
                delta.iteration,
                fpu,
            ),
        }
    }

    /// Notes that a handler is told that the provider closed.
    pub fn reject_request(&mut self, request: &RegretRequest)
        requires
            old(self).wf(),
            request.handler < old(self).closed_senders@.len(),
        ensures
            final(self).wf(),
            final(self).closed_senders@ == old(self).closed_senders@.update(
                request.handler as int,
                true,
            ),
            final(self).table(Player::P1) == old(self).table(Player::P1),
            final(self).table(Player::P2) == old(self).table(Player::P2),
            final(self).config == old(self).config,
            final(self).response_senders == old(self).response_senders,
            final(self).close_flag == old(self).close_flag,
    {
        let handlers: usize = self.closed_senders.len();
        proof {
            lemma_count_true(self.closed_senders@, request.handler as int);
            lemma_count_bound(self.closed_senders@.update(request.handler as int, true));
        }
        if !self.closed_senders[request.handler] {
            self.closed_senders.set(request.handler, true);
            self.num_closed += 1;
        } else {
            assert(self.closed_senders@ =~= self.closed_senders@.update(
                request.handler as int,
                true,
            ));
        }
    }

    /// Whether the provider has nothing left to do: every handler has been
    /// told that it closed.
    pub fn is_finished(&self) -> (done: bool)
        requires
            self.wf(),
        ensures
            done == self.finished(),
    {
        proof {
            lemma_count_bound(self.closed_senders@);
        }
        self.num_closed >= self.response_senders.len()
    }

    /// Whether serving `request` may give `r` and leave the provider as
    /// `after`.
    ///
    /// While the provider is open, a request for an entry is answered with
    /// the entry and a delta is weighed in. A close is noted. From then on
    /// every request for an entry is answered with `Closed`, and deltas are
    /// dropped. A request from an unknown handler, and a delta of the wrong
    /// length, change nothing and are reported.
    pub open spec fn dispatches<F: Fn(FloatOp, u32, u32) -> u32>(
        &self,
        request: Request,
        fpu: &F,
        r: Result<Option<(usize, Response)>, Fault>,
        after: Self,
    ) -> bool {
        &&& after.wf()
        &&& after.config == self.config
        &&& after.response_senders == self.response_senders
        &&& after.closed_senders@.len() == self.closed_senders@.len()
        &&& after.close_flag == closing_after(self.close_flag, request)
        &&& match request {
            Request::Close => {
                &&& r == Ok::<Option<(usize, Response)>, Fault>(None)
                &&& after.closed_senders == self.closed_senders
                &&& after.table(Player::P1) == self.table(Player::P1)
                &&& after.table(Player::P2) == self.table(Player::P2)
            },
            Request::Regret(request) => {
                &&& after.table(Player::P1) == self.table(Player::P1)
                &&& after.table(Player::P2) == self.table(Player::P2)
                &&& if request.handler >= self.closed_senders@.len() {
                    &&& r == Err::<Option<(usize, Response)>, Fault>(Fault::UnknownHandler)
                    &&& after.closed_senders == self.closed_senders
                } else if self.close_flag {
                    &&& r matches Ok(Some(reply))
                    &&& reply.0 == request.handler
                    &&& reply.1 is Closed
                    &&& after.closed_senders@ == self.closed_senders@.update(
                        request.handler as int,
                        true,
                    )
                } else {
                    &&& r matches Ok(Some(reply))
                    &&& reply.0 == request.handler
                    &&& reply.1 matches Response::Regret(response)
                    &&& response.regret is Some == self.table(request.player).contains_key(
                        request.infoset_hash,
                    )
                    &&& response.regret matches Some(v) ==> v@ == self.table(
                        request.player,
                    )[request.infoset_hash]
                    &&& after.closed_senders == self.closed_senders
                }
            },
            Request::Delta(delta) => {
                let before = self.table(delta.player);
                let written = after.table(delta.player);
                let n = delta.regret_delta@.len();
                &&& after.closed_senders == self.closed_senders
                &&& after.table(delta.player.other()) == self.table(delta.player.other())
                &&& if self.close_flag || n < 2 {
                    &&& r == Ok::<Option<(usize, Response)>, Fault>(None)
                    &&& written == before
                } else if !fits(before, delta.infoset_hash, delta.regret_delta@) {
                    &&& r == Err::<Option<(usize, Response)>, Fault>(Fault::ArityMismatch)
                    &&& written == before
                } else {
                    &&& r == Ok::<Option<(usize, Response)>, Fault>(None)
                    &&& written == before.insert(delta.infoset_hash, written[delta.infoset_hash])
                    &&& self.config.updates(
                        fpu,
                        delta.iteration,
                        base_entry(before, delta.infoset_hash, n),
                        delta.regret_delta@,
                        written[delta.infoset_hash],
                    )
                }
            },
        }
    }

    /// Whether waiting for a request and serving it may give `r` and leave
    /// the provider as `after`.
    ///
    /// Where no request can come any more, that is reported and nothing
    /// changes. Else some request came and was served as `dispatches` says:
    /// its fault is reported; where it is owed no answer, the call
    /// succeeds; where it is owed one, the call succeeds if the answer could
    /// be sent and reports that it could not otherwise.
    pub open spec fn serves<F: Fn(FloatOp, u32, u32) -> u32>(
        &self,
        fpu: &F,
        r: Result<(), Fault>,
        after: Self,
    ) -> bool {
        ||| r == Err::<(), Fault>(Fault::Disconnected) && after == *self
        ||| exists|request: Request, outcome: Result<Option<(usize, Response)>, Fault>|
            #![trigger self.dispatches(request, fpu, outcome, after)]
            self.dispatches(request, fpu, outcome, after) && match outcome {
                Err(fault) => r == Err::<(), Fault>(fault),
                Ok(None) => r == Ok::<(), Fault>(()),
                Ok(Some(_)) => r == Ok::<(), Fault>(()) || r == Err::<(), Fault>(
                    Fault::ReplyFailed,
                ),
            }
    }

    /// Serves one request and returns the answer that is owed, with the
    /// number of the handler that gets it.
    pub fn dispatch<F: Fn(FloatOp, u32, u32) -> u32>(&mut self, request: Request, fpu: &F) -> (r:
        Result<Option<(usize, Response)>, Fault>)
        requires
            old(self).wf(),
            unit_is_total(fpu),
        ensures
            old(self).dispatches(request, fpu, r, *final(self)),
    {
        match request {
            Request::Regret(request) => {
                if request.handler >= self.closed_senders.len() {
                    Err(Fault::UnknownHandler)
                } else if self.close_flag {
                    self.reject_request(&request);
                    Ok(Some((request.handler, Response::Closed)))
                } else {
                    let response = self.handle_regret_request(&request);
                    Ok(Some((request.handler, Response::Regret(response))))
                }
            },
            Request::Delta(delta) => {
                if self.close_flag || delta.regret_delta.len() < 2 {
                    Ok(None)
                } else if !self.accepts(&delta) {
                    Err(Fault::ArityMismatch)
                } else {
                    self.handle_regret_delta(delta, fpu);
                    Ok(None)
                }
            },
            Request::Close => {
                self.close_flag = true;
                Ok(None)
            },
        }
    }

    /// Waits for the next request, serves it and sends the answer that is
    /// owed. To run a provider is to do so until `is_finished`.
    pub fn serve_next<F: Fn(FloatOp, u32, u32) -> u32>(&mut self, fpu: &F) -> (r: Result<
        (),
        Fault,
    >)
        requires
            old(self).wf(),
            unit_is_total(fpu),
        ensures
            final(self).wf(),
            final(self).config == old(self).config,
            final(self).closed_senders@.len() == old(self).closed_senders@.len(),
            old(self).close_flag ==> final(self).close_flag,
            old(self).serves(fpu, r, *final(self)),
    {
        let request = match recv(&self.request_receiver) {
            Some(request) => request,
            None => {
                return Err(Fault::Disconnected);
            },
        };
        let ghost seen = request;
        let outcome = self.dispatch(request, fpu);
        assert(old(self).dispatches(seen, fpu, outcome, *self));
        match outcome {
            Ok(Some((handler, response))) => {
                if handler < self.response_senders.len() && send(
                    &self.response_senders[handler],
                    response,
                ) {
                    Ok(())
                } else {
                    Err(Fault::ReplyFailed)
                }
            },
            Ok(None) => Ok(()),
            Err(fault) => Err(fault),
        }
    }
}

} // verus!
