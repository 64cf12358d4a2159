//! What a table in a key-value store computes between reading a value and
//! writing it back. The store itself is the caller's: it hands over the bytes
//! that it read under `key_bytes` of the infoset hash, and writes the bytes
//! that it gets.

use crate::game::player::Player;
use crate::numeric::{unit_is_total, zero_vector, zeros, FloatOp};
use crate::regret::codec::{
    decode, decoding, encode, encoding, key_bytes, key_of, CodecError, MAX_ELEMENTS,
};
use crate::regret::regret_provider::{
    HandlerError, RegretConfig, RegretHandler, RegretResponse, Response,
};
use vstd::prelude::*;

verus! {

/// Why a delta could not be weighed into a stored value.
#[derive(Clone, Copy, Debug, PartialEq, Eq, Structural)]
pub enum StoreError {
    /// The stored bytes are no vector, or the new vector has no encoding.
    Codec(CodecError),
    /// The delta has another length than the stored vector.
    ArityMismatch,
}

/// The entry that a delta of length `n` is weighed into: the stored one, or
/// `n` zeros where nothing is stored.
pub open spec fn stored_base(raw: Option<Vec<u8>>, n: nat) -> Result<Seq<u32>, CodecError> {
    match raw {
        Some(bytes) => decoding(bytes@),
        None => Ok(zeros(n)),
    }
}

/// Turns what the store returned for a key into the answer to a request: no
/// entry where there was no value, else the decoded vector.
pub fn stored_regret(raw: &Option<Vec<u8>>) -> (r: Result<Response, CodecError>)
    ensures
        match *raw {
            None => r matches Ok(Response::Regret(found)) && found.regret is None,
            Some(bytes) => match decoding(bytes@) {
                Ok(values) => r matches Ok(Response::Regret(found)) && found.regret matches Some(v)
                    && v@ == values,
                Err(e) => r matches Err(f) && f == e,
            },
        },
{
    match raw {
        None => Ok(Response::Regret(RegretResponse { regret: None })),
        Some(bytes) => match decode(bytes.as_slice()) {
            Ok(values) => Ok(Response::Regret(RegretResponse { regret: Some(values) })),
            Err(e) => Err(e),
        },
    }
}

/// Computes the value to write for a delta, from the value that the store
/// holds: the stored vector, or zeros where there is none, is discounted and
/// raised by the delta, and encoded. `None` says that nothing is to be
/// written, which is so for a delta of fewer than two elements.
pub fn next_stored<F: Fn(FloatOp, u32, u32) -> u32>(
    config: &RegretConfig,
    raw: &Option<Vec<u8>>,
    delta: &Vec<u32>,
    iteration: i32,
    fpu: &F,
) -> (r: Result<Option<Vec<u8>>, StoreError>)
    requires
        unit_is_total(fpu),
    ensures
        delta@.len() < 2 ==> r == Ok::<Option<Vec<u8>>, StoreError>(None),
        delta@.len() >= 2 ==> match stored_base(*raw, delta@.len()) {
            Err(e) => r == Err::<Option<Vec<u8>>, StoreError>(StoreError::Codec(e)),
            Ok(base) => if base.len() != delta@.len() {
                r == Err::<Option<Vec<u8>>, StoreError>(StoreError::ArityMismatch)
            } else if delta@.len() > MAX_ELEMENTS {
                r == Err::<Option<Vec<u8>>, StoreError>(StoreError::Codec(CodecError::TooLong))
            } else {
                &&& r matches Ok(Some(bytes))
                &&& decoding(bytes@) matches Ok(out)
                &&& bytes@ == encoding(out)
                &&& config.updates(fpu, iteration, base, delta@, out)
            },
        },
{
    //nothing to do
    if delta.len() < 2 {
        return Ok(None);
    }
    let base = match raw {
        Some(bytes) => match decode(bytes.as_slice()) {
            Ok(values) => values,
            Err(e) => {
                return Err(StoreError::Codec(e));
            },
        },
        None => zero_vector(delta.len()),
    };
    if base.len() != delta.len() {
        return Err(StoreError::ArityMismatch);
    }
    if delta.len() > MAX_ELEMENTS {
        return Err(StoreError::Codec(CodecError::TooLong));
    }
    let out = config.update_entry(&base, delta, iteration, fpu);
    match encode(&out) {
        Ok(bytes) => {
            proof {
                crate::regret::codec::lemma_decode_encode(out@);
            }
            Ok(Some(bytes))
        },
        Err(e) => Err(StoreError::Codec(e)),
    }
}

/// Whether `bytes` encode a vector that the law may write for an entry.
pub open spec fn encodes_update<F: Fn(FloatOp, u32, u32) -> u32>(
    config: RegretConfig,
    fpu: &F,
    iteration: i32,
    base: Seq<u32>,
    delta: Seq<u32>,
    bytes: Seq<u8>,
) -> bool {
    &&& decoding(bytes) is Ok
    &&& bytes == encoding(decoding(bytes)->Ok_0)
    &&& config.updates(fpu, iteration, base, delta, decoding(bytes)->Ok_0)
}

/// Whether a request may end with `r`, and the handler closed or not, once
/// the store returned `fetched`.
pub open spec fn read_outcome(
    fetched: Fetched,
    r: Result<Response, HandlerError>,
    closed: bool,
) -> bool {
    &&& closed == !fetched.usable()
    &&& if fetched.usable() {
        r matches Ok(Response::Regret(found)) && match fetched.raw() {
            Some(bytes) => found.regret matches Some(v) && decoding(bytes@) == Ok::<
                Seq<u32>,
                CodecError,
            >(v@),
            None => found.regret is None,
        }
    } else {
        r matches Ok(Response::Closed)
    }
}

/// What was written is read back: where the store returns the bytes that a
/// delta made it write, the answer is the vector that the law computed, of
/// the length that the entry had, and the handler stays open.
pub proof fn lemma_written_is_read_back<F: Fn(FloatOp, u32, u32) -> u32>(
    config: RegretConfig,
    fpu: &F,
    iteration: i32,
    base: Seq<u32>,
    delta: Seq<u32>,
    bytes: Vec<u8>,
    r: Result<Response, HandlerError>,
    closed: bool,
)
    requires
        encodes_update(config, fpu, iteration, base, delta, bytes@),
        read_outcome(Fetched::Found(bytes), r, closed),
    ensures
        !closed,
        r matches Ok(Response::Regret(found)) && found.regret is Some,
        r matches Ok(Response::Regret(found)) ==> config.updates(
            fpu,
            iteration,
            base,
            delta,
            found.regret->0@,
        ) && found.regret->0@.len() == base.len(),
{
    assert(Fetched::Found(bytes).usable());
    assert(Fetched::Found(bytes).raw() == Some(bytes));
}

/// What a store returned for a key.
#[derive(Debug)]
pub enum Fetched {
    /// The value under the key.
    Found(Vec<u8>),
    /// There is no value under the key.
    Missing,
    /// The store could not be read.
    Failed,
}

/// Regret handler on a key-value store. The store is reached through two
/// functions of the caller: `read` returns what is stored for a player under
/// a key, `write` stores a value for a player under a key and returns whether
/// it did. The first failure of the store, and the first value that is no
/// vector, close the handler for good.
pub struct KvRegretHandler<R, W, F> {
    pub read: R,
    pub write: W,
    pub fpu: F,
    pub config: RegretConfig,
    pub closed: bool,
}

impl Fetched {
    /// What was fetched, as the value that the store holds, where it could
    /// be read.
    pub open spec fn raw(self) -> Option<Vec<u8>> {
        match self {
            Fetched::Found(bytes) => Some(bytes),
            _ => None,
        }
    }

    /// Whether what was fetched can be answered from: the store was read,
    /// and what it holds is a vector.
    pub open spec fn usable(self) -> bool {
        match self {
            Fetched::Found(bytes) => decoding(bytes@) is Ok,
            Fetched::Missing => true,
            Fetched::Failed => false,
        }
    }
}

impl<
    R: Fn(Player, Vec<u8>) -> Fetched,
    W: Fn(Player, Vec<u8>, Vec<u8>) -> bool,
    F: Fn(FloatOp, u32, u32) -> u32,
> KvRegretHandler<R, W, F> {
    /// An open handler on the store behind `read` and `write`.
    pub fn new(read: R, write: W, fpu: F, config: RegretConfig) -> (handler: KvRegretHandler<
        R,
        W,
        F,
    >)
        ensures
            handler.read == read,
            handler.write == write,
            handler.fpu == fpu,
            handler.config == config,
            !handler.closed,
    {
        KvRegretHandler { read, write, fpu, config, closed: false }
    }

    /// Whether `fetched` is something that the store may return for the
    /// infoset of a player.
    pub open spec fn fetches(&self, player: Player, infoset_hash: u64, fetched: Fetched) -> bool {
        exists|key: Vec<u8>|
            key@ == key_of(infoset_hash) && #[trigger] call_ensures(
                self.read,
                (player, key),
                fetched,
            )
    }

    /// Whether a delta may end with `r`, and the handler closed or not, once
    /// the store returned `fetched`.
    pub open spec fn write_outcome(
        &self,
        player: Player,
        infoset_hash: u64,
        regret_delta: Seq<u32>,
        iteration: i32,
        fetched: Fetched,
        r: Result<(), HandlerError>,
        closed: bool,
    ) -> bool {
        let failed = closed && r == Err::<(), HandlerError>(HandlerError::StoreFailed);
        match fetched {
            Fetched::Failed => failed,
            _ => match stored_base(fetched.raw(), regret_delta.len()) {
                Err(_) => failed,
                Ok(base) => if base.len() != regret_delta.len() {
                    !closed && r == Err::<(), HandlerError>(HandlerError::Rejected)
                } else if regret_delta.len() > MAX_ELEMENTS {
                    failed
                } else {
                    exists|bytes: Vec<u8>, done: bool| #[trigger]
                        self.stores(player, infoset_hash, bytes, done) && encodes_update(
                            self.config,
                            &self.fpu,
                            iteration,
                            base,
                            regret_delta,
                            bytes@,
                        ) && closed == !done && (if done {
                            r is Ok
                        } else {
                            r == Err::<(), HandlerError>(HandlerError::StoreFailed)
                        })
                },
            },
        }
    }

    /// Whether `done` is something that the store may return for writing
    /// `bytes` for the infoset of a player.
    pub open spec fn stores(
        &self,
        player: Player,
        infoset_hash: u64,
        bytes: Vec<u8>,
        done: bool,
    ) -> bool {
        exists|key: Vec<u8>|
            key@ == key_of(infoset_hash) && #[trigger] call_ensures(
                self.write,
                (player, key, bytes),
                done,
            )
    }
}

impl<
    R: Fn(Player, Vec<u8>) -> Fetched,
    W: Fn(Player, Vec<u8>, Vec<u8>) -> bool,
    F: Fn(FloatOp, u32, u32) -> u32,
> RegretHandler for KvRegretHandler<R, W, F> {
    /// The unit computes every operation, and the store takes every call.
    open spec fn inv(&self) -> bool {
        &&& unit_is_total(&self.fpu)
        &&& forall|player: Player, key: Vec<u8>| call_requires(self.read, (player, key))
        &&& forall|player: Player, key: Vec<u8>, value: Vec<u8>|
            call_requires(self.write, (player, key, value))
    }

    /// The value under the key of the infoset is read and decoded. A closed
    /// handler answers `Closed` without reading; a store that fails, or
    /// holds what is no vector, closes the handler.
    open spec fn gets(
        &self,
        player: Player,
        infoset_hash: u64,
        r: Result<Response, HandlerError>,
        after: Self,
    ) -> bool {
        &&& after.read == self.read
        &&& after.write == self.write
        &&& after.fpu == self.fpu
        &&& after.config == self.config
        &&& if self.closed {
            after.closed && r matches Ok(Response::Closed)
        } else {
            exists|fetched: Fetched| #[trigger]
                self.fetches(player, infoset_hash, fetched) && read_outcome(fetched, r, after.closed)
        }
    }

    /// The value under the key of the infoset is read, the delta is weighed
    /// into it, and the result is written back. A closed handler and a delta
    /// of fewer than two elements touch nothing. A delta of another length
    /// than the stored vector is refused; a store that fails, or holds what
    /// is no vector, closes the handler.
    open spec fn sends(
        &self,
        player: Player,
        infoset_hash: u64,
        regret_delta: Seq<u32>,
        iteration: i32,
        r: Result<(), HandlerError>,
        after: Self,
    ) -> bool {
        &&& after.read == self.read
        &&& after.write == self.write
        &&& after.fpu == self.fpu
        &&& after.config == self.config
        &&& if self.closed || regret_delta.len() < 2 {
            r is Ok && after.closed == self.closed
        } else {
            exists|fetched: Fetched| #[trigger]
                self.fetches(player, infoset_hash, fetched) && self.write_outcome(
                    player,
                    infoset_hash,
                    regret_delta,
                    iteration,
                    fetched,
                    r,
                    after.closed,
                )
        }
    }

    fn get_regret(&mut self, player: Player, infoset_hash: u64) -> (r: Result<
        Response,
        HandlerError,
    >) {
        if self.closed {
            return Ok(Response::Closed);
        }
        let fetched = (self.read)(player, key_bytes(infoset_hash));
        assert(self.fetches(player, infoset_hash, fetched));
        let raw = match fetched {
            Fetched::Found(bytes) => Some(bytes),
            Fetched::Missing => None,
            Fetched::Failed => {
                self.closed = true;
                return Ok(Response::Closed);
            },
        };
        match stored_regret(&raw) {
            Ok(response) => Ok(response),
            Err(_) => {
                self.closed = true;
                Ok(Response::Closed)
            },
        }
    }

    fn send_delta(
        &mut self,
        player: Player,
        infoset_hash: u64,
        regret_delta: Vec<u32>,
        iteration: i32,
    ) -> (r: Result<(), HandlerError>) {
        //nothing to do
        if self.closed || regret_delta.len() < 2 {
            return Ok(());
        }
        let fetched = (self.read)(player, key_bytes(infoset_hash));
        assert(self.fetches(player, infoset_hash, fetched));
        let raw = match fetched {
            Fetched::Found(bytes) => Some(bytes),
            Fetched::Missing => None,
            Fetched::Failed => {
                self.closed = true;
                return Err(HandlerError::StoreFailed);
            },
        };
        match next_stored(&self.config, &raw, &regret_delta, iteration, &self.fpu) {
            Ok(Some(bytes)) => {
                let done = (self.write)(player, key_bytes(infoset_hash), bytes);
                assert(old(self).stores(player, infoset_hash, bytes, done));
                if done {
                    Ok(())
                } else {
                    self.closed = true;
                    Err(HandlerError::StoreFailed)
                }
            },
            Ok(None) => Ok(()),
            Err(StoreError::ArityMismatch) => Err(HandlerError::Rejected),
            Err(StoreError::Codec(_)) => {
                self.closed = true;
                Err(HandlerError::StoreFailed)
            },
        }
    }
}

} // verus!
