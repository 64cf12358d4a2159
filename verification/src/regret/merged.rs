//! A router over shards that own their tables, seen as one table: the
//! entries of all shards together.

use crate::game::player::Player;
use crate::numeric::FloatOp;
use crate::regret::direct_handler::{answers_with, weighs_in, DirectHandler};
use crate::regret::hash_regret_provider::{base_entry, fits, Entries};
use crate::regret::regret_provider::{HandlerError, RegretConfig, RegretHandler, Response};
use crate::regret::regret_sharder::{lemma_shard_of, shard_of, RegretSharder};
use vstd::prelude::*;

verus! {

/// Whether every shard holds entries of infosets that it owns only.
pub open spec fn placed<F: Fn(FloatOp, u32, u32) -> u32>(
    sharder: RegretSharder<DirectHandler<F>>,
) -> bool {
    forall|i: int, player: Player, h: u64|
        0 <= i < sharder.regret_handlers@.len() && #[trigger] sharder.regret_handlers@[i].provider.table(
            player,
        ).contains_key(h) ==> i == shard_of(h, sharder.regret_handlers@.len() as int)
}

/// Whether all shards have the given exponents and unit, and are closed or
/// open alike.
pub open spec fn alike<F: Fn(FloatOp, u32, u32) -> u32>(
    sharder: RegretSharder<DirectHandler<F>>,
    config: RegretConfig,
    fpu: F,
    closed: bool,
) -> bool {
    forall|i: int|
        0 <= i < sharder.regret_handlers@.len() ==> {
            &&& (#[trigger] sharder.regret_handlers@[i]).provider.config == config
            &&& sharder.regret_handlers@[i].provider.close_flag == closed
            &&& sharder.regret_handlers@[i].fpu == fpu
        }
}

/// The entries of all shards together: for each infoset what its owner
/// holds.
pub open spec fn merged<F: Fn(FloatOp, u32, u32) -> u32>(
    sharder: RegretSharder<DirectHandler<F>>,
    player: Player,
) -> Entries {
    Map::new(
        |h: u64| sharder.owner(h).provider.table(player).contains_key(h),
        |h: u64| sharder.owner(h).provider.table(player)[h],
    )
}

/// A router over any number of shards answers a request as one table would
/// that holds the entries of all shards together, and holds the same
/// afterwards.
pub proof fn lemma_sharded_get<F: Fn(FloatOp, u32, u32) -> u32>(
    before: RegretSharder<DirectHandler<F>>,
    after: RegretSharder<DirectHandler<F>>,
    config: RegretConfig,
    fpu: F,
    closed: bool,
    player: Player,
    infoset_hash: u64,
    r: Result<Response, HandlerError>,
)
    requires
        before.regret_handlers@.len() > 0,
        placed(before),
        alike(before, config, fpu, closed),
        before.gets(player, infoset_hash, r, after),
    ensures
        placed(after),
        alike(after, config, fpu, closed),
        answers_with(closed, merged(before, player), infoset_hash, r),
        merged(after, Player::P1) == merged(before, Player::P1),
        merged(after, Player::P2) == merged(before, Player::P2),
{
    let n = before.regret_handlers@.len() as int;
    lemma_shard_of(infoset_hash, n);
    let o = shard_of(infoset_hash, n);
    assert forall|i: int| 0 <= i < n implies (#[trigger] after.regret_handlers@[i]).provider
        == before.regret_handlers@[i].provider && after.regret_handlers@[i].fpu
        == before.regret_handlers@[i].fpu by {
        if i != o {
            assert(after.regret_handlers@[i] == before.regret_handlers@[i]);
        }
    }
    assert forall|h: u64| (#[trigger] after.owner(h)).provider == before.owner(h).provider by {
        lemma_shard_of(h, n);
    }
    assert(merged(after, Player::P1) =~= merged(before, Player::P1));
    assert(merged(after, Player::P2) =~= merged(before, Player::P2));
}

/// A router over any number of shards weighs a delta in as one table would
/// that holds the entries of all shards together: the entries of all shards
/// together change as the entries of that table would, and every shard
/// still holds what it owns only.
pub proof fn lemma_sharded_send<F: Fn(FloatOp, u32, u32) -> u32>(
    before: RegretSharder<DirectHandler<F>>,
    after: RegretSharder<DirectHandler<F>>,
    config: RegretConfig,
    fpu: F,
    closed: bool,
    player: Player,
    infoset_hash: u64,
    regret_delta: Seq<u32>,
    iteration: i32,
    r: Result<(), HandlerError>,
)
    requires
        before.regret_handlers@.len() > 0,
        placed(before),
        alike(before, config, fpu, closed),
        before.sends(player, infoset_hash, regret_delta, iteration, r, after),
    ensures
        placed(after),
        alike(after, config, fpu, closed),
        weighs_in(
            config,
            &fpu,
            closed,
            merged(before, player),
            infoset_hash,
            regret_delta,
            iteration,
            r,
            merged(after, player),
        ),
        merged(after, player.other()) == merged(before, player.other()),
{
    let n = before.regret_handlers@.len() as int;
    lemma_shard_of(infoset_hash, n);
    let o = shard_of(infoset_hash, n);
    let owner = before.regret_handlers@[o];
    let owner_after = after.regret_handlers@[o];
    assert(owner.sends(player, infoset_hash, regret_delta, iteration, r, owner_after));
    assert forall|i: int| 0 <= i < n && i != o implies #[trigger] after.regret_handlers@[i]
        == before.regret_handlers@[i] by {}
    assert forall|h: u64| shard_of(h, n) != o implies (#[trigger] after.owner(h))
        == before.owner(h) by {
        lemma_shard_of(h, n);
    }
    assert forall|h: u64| shard_of(h, n) == o implies (#[trigger] after.owner(h)) == owner_after
        && before.owner(h) == owner by {}
    let table = owner.provider.table(player);
    let written = owner_after.provider.table(player);
    assert(merged(after, player.other()) =~= merged(before, player.other())) by {
        assert forall|h: u64| #[trigger]
            after.owner(h).provider.table(player.other()) == before.owner(h).provider.table(
                player.other(),
            ) by {
            lemma_shard_of(h, n);
        }
    }
    assert(merged(before, player).contains_key(infoset_hash) == table.contains_key(infoset_hash));
    if table.contains_key(infoset_hash) {
        assert(merged(before, player)[infoset_hash] == table[infoset_hash]);
    }
    if closed || regret_delta.len() < 2 || !fits(table, infoset_hash, regret_delta) {
        assert(written == table);
        assert(merged(after, player) =~= merged(before, player)) by {
            assert forall|h: u64| #[trigger]
                after.owner(h).provider.table(player) == before.owner(h).provider.table(
                    player,
                ) by {
                lemma_shard_of(h, n);
            }
        }
    } else {
        assert(written == table.insert(infoset_hash, written[infoset_hash]));
        assert(merged(after, player) =~= merged(before, player).insert(
            infoset_hash,
            written[infoset_hash],
        )) by {
            assert forall|h: u64|
                merged(after, player).contains_key(h) == merged(before, player).insert(
                    infoset_hash,
                    written[infoset_hash],
                ).contains_key(h) && (merged(after, player).contains_key(h) ==> merged(
                    after,
                    player,
                )[h] == merged(before, player).insert(infoset_hash, written[infoset_hash])[h]) by {
                lemma_shard_of(h, n);
                if shard_of(h, n) == o {
                    assert(after.owner(h) == owner_after && before.owner(h) == owner);
                } else {
                    assert(after.owner(h) == before.owner(h));
                }
            }
        }
        assert(after.owner(infoset_hash) == owner_after);
        assert(written.contains_key(infoset_hash));
        assert(merged(after, player)[infoset_hash] == written[infoset_hash]);
        assert(base_entry(merged(before, player), infoset_hash, regret_delta.len()) == base_entry(
            table,
            infoset_hash,
            regret_delta.len(),
        ));
    }
    assert forall|i: int, p: Player, h: u64|
        0 <= i < n && #[trigger] after.regret_handlers@[i].provider.table(p).contains_key(
            h,
        ) implies i == shard_of(h, n) by {
        if i != o {
            assert(after.regret_handlers@[i] == before.regret_handlers@[i]);
            assert(before.regret_handlers@[i].provider.table(p).contains_key(h));
        } else if p == player {
            if h != infoset_hash {
                assert(table.contains_key(h));
            }
        } else {
            assert(p == player.other());
            assert(owner.provider.table(p).contains_key(h));
        }
    }
    assert forall|i: int| 0 <= i < n implies {
        &&& (#[trigger] after.regret_handlers@[i]).provider.config == config
        &&& after.regret_handlers@[i].provider.close_flag == closed
        &&& after.regret_handlers@[i].fpu == fpu
    } by {
        if i != o {
            assert(after.regret_handlers@[i] == before.regret_handlers@[i]);
        }
    }
}

} // verus!
