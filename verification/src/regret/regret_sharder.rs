use crate::game::player::Player;
use crate::regret::channel_regret_handler::ChannelRegretHandler;
use crate::regret::hash_regret_provider::HashRegretProvider;
use crate::regret::regret_provider::{HandlerError, RegretHandler, Response};
use vstd::prelude::*;

verus! {

/// Combines several regret handlers into a single regret handler
///
/// This is useful for spreading regrets across multiple regret providers
/// on separate threads without the providers needing to coordinate
pub struct RegretSharder<H> {
    pub regret_handlers: Vec<H>,
}

/// The shard that owns an infoset: the hash modulo the number of shards.
pub open spec fn shard_of(infoset_hash: u64, num_shards: int) -> int {
    infoset_hash as int % num_shards
}

/// With a single shard everything is routed to shard 0, and with any number
/// of shards to one of them.
pub proof fn lemma_shard_of(infoset_hash: u64, num_shards: int)
    requires
        num_shards > 0,
    ensures
        0 <= shard_of(infoset_hash, num_shards) < num_shards,
        num_shards == 1 ==> shard_of(infoset_hash, num_shards) == 0,
{
}

/// Registers a handler with every provider, in the order of the providers.
pub fn handlers_of(regret_providers: &mut Vec<HashRegretProvider>) -> (handlers: Vec<
    ChannelRegretHandler,
>)
    requires
        forall|i: int| 0 <= i < old(regret_providers)@.len() ==> (#[trigger] old(
            regret_providers,
        )@[i]).wf(),
    ensures
        handlers@.len() == old(regret_providers)@.len(),
        final(regret_providers)@.len() == old(regret_providers)@.len(),
        forall|i: int|
            0 <= i < handlers@.len() ==> {
                &&& (#[trigger] final(regret_providers)@[i]).wf()
                &&& final(regret_providers)@[i].closed_senders@ == old(
                    regret_providers,
                )@[i].closed_senders@.push(false)
                &&& handlers@[i].handler == old(regret_providers)@[i].closed_senders@.len()
            },
{
    let mut handlers: Vec<ChannelRegretHandler> = Vec::new();
    let mut i: usize = 0;
    while i < regret_providers.len()
        invariant
            i <= regret_providers@.len(),
            regret_providers@.len() == old(regret_providers)@.len(),
            handlers@.len() == i,
            forall|k: int|
                i <= k < regret_providers@.len() ==> #[trigger] regret_providers@[k] == old(
                    regret_providers,
                )@[k],
            forall|k: int|
                i <= k < regret_providers@.len() ==> (#[trigger] old(regret_providers)@[k]).wf(),
            forall|k: int|
                0 <= k < i ==> {
                    &&& (#[trigger] regret_providers@[k]).wf()
                    &&& regret_providers@[k].closed_senders@ == old(
                        regret_providers,
                    )@[k].closed_senders@.push(false)
                    &&& handlers@[k].handler == old(regret_providers)@[k].closed_senders@.len()
                },
        decreases regret_providers@.len() - i,
    {
        assert(old(regret_providers)@[i as int].wf());
        let handler = regret_providers[i].get_handler();
        handlers.push(handler);
        i += 1;
    }
    handlers
}

impl<H: RegretHandler> RegretSharder<H> {
    /// A router over the given handlers, one for each shard.
    pub fn new(regret_handlers: Vec<H>) -> (sharder: RegretSharder<H>)
        ensures
            sharder.regret_handlers == regret_handlers,
    {
        RegretSharder { regret_handlers }
    }

    /// The number of the shard that owns an infoset.
    pub fn shard_index(&self, infoset_hash: u64) -> (index: usize)
        requires
            self.regret_handlers@.len() > 0,
        ensures
            index == shard_of(infoset_hash, self.regret_handlers@.len() as int),
            index < self.regret_handlers@.len(),
    {
        (infoset_hash % (self.regret_handlers.len() as u64)) as usize
    }
}

impl<H: RegretHandler> RegretSharder<H> {
    /// Whether a call for an infoset touched no shard but its owner.
    pub open spec fn routed(&self, infoset_hash: u64, after: Self) -> bool {
        &&& after.regret_handlers@.len() == self.regret_handlers@.len()
        &&& forall|i: int|
            0 <= i < self.regret_handlers@.len() && i != shard_of(
                infoset_hash,
                self.regret_handlers@.len() as int,
            ) ==> #[trigger] after.regret_handlers@[i] == self.regret_handlers@[i]
    }

    /// The handler of the shard that owns an infoset.
    pub open spec fn owner(&self, infoset_hash: u64) -> H {
        self.regret_handlers@[shard_of(infoset_hash, self.regret_handlers@.len() as int)]
    }
}

impl<H: RegretHandler> RegretHandler for RegretSharder<H> {
    /// There is a shard, and every handler can work.
    open spec fn inv(&self) -> bool {
        &&& self.regret_handlers@.len() > 0
        &&& forall|i: int|
            0 <= i < self.regret_handlers@.len() ==> (#[trigger] self.regret_handlers@[i]).inv()
    }

    /// The shard that owns the infoset is asked. No other shard is touched.
    open spec fn gets(
        &self,
        player: Player,
        infoset_hash: u64,
        r: Result<Response, HandlerError>,
        after: Self,
    ) -> bool {
        &&& self.routed(infoset_hash, after)
        &&& self.owner(infoset_hash).gets(player, infoset_hash, r, after.owner(infoset_hash))
    }

    /// The delta goes to the shard that owns the infoset. No other shard is
    /// touched.
    open spec fn sends(
        &self,
        player: Player,
        infoset_hash: u64,
        regret_delta: Seq<u32>,
        iteration: i32,
        r: Result<(), HandlerError>,
        after: Self,
    ) -> bool {
        &&& self.routed(infoset_hash, after)
        &&& self.owner(infoset_hash).sends(
            player,
            infoset_hash,
            regret_delta,
            iteration,
            r,
            after.owner(infoset_hash),
        )
    }

    fn get_regret(&mut self, player: Player, infoset_hash: u64) -> (r: Result<
        Response,
        HandlerError,
    >) {
        let handler_index = self.shard_index(infoset_hash);
        let handler = &mut self.regret_handlers[handler_index];
        handler.get_regret(player, infoset_hash)
    }

    fn send_delta(
        &mut self,
        player: Player,
        infoset_hash: u64,
        regret_delta: Vec<u32>,
        iteration: i32,
    ) -> (r: Result<(), HandlerError>) {
        let handler_index = self.shard_index(infoset_hash);
        let handler = &mut self.regret_handlers[handler_index];
        handler.send_delta(player, infoset_hash, regret_delta, iteration)
    }
}

/// A router over a single shard behaves as that shard does: a call may
/// return through the router exactly what it may return from the shard, and
/// leaves the shard as the shard's own call would.
pub proof fn lemma_single_shard<H: RegretHandler>(
    before: RegretSharder<H>,
    after: RegretSharder<H>,
    player: Player,
    infoset_hash: u64,
    regret_delta: Seq<u32>,
    iteration: i32,
    got: Result<Response, HandlerError>,
    sent: Result<(), HandlerError>,
)
    requires
        before.regret_handlers@.len() == 1,
        after.regret_handlers@.len() == 1,
    ensures
        before.gets(player, infoset_hash, got, after) == before.regret_handlers@[0].gets(
            player,
            infoset_hash,
            got,
            after.regret_handlers@[0],
        ),
        before.sends(player, infoset_hash, regret_delta, iteration, sent, after)
            == before.regret_handlers@[0].sends(
            player,
            infoset_hash,
            regret_delta,
            iteration,
            sent,
            after.regret_handlers@[0],
        ),
{
    lemma_shard_of(infoset_hash, 1);
}

} // verus!
