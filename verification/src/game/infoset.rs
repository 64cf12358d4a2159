use std::collections::hash_map::DefaultHasher;
use std::hash::Hasher;
use vstd::bytes::{spec_u64_to_le_bytes, u64_to_le_bytes};
use vstd::prelude::*;
use vstd::std_specs::hash::DefaultHasherAdditionalSpecFns;

verus! {

/// What a player has observed of a position, as a sequence of words, earlier
/// observations first, together with the 64-bit hash under which the regret
/// tables file it.
#[derive(Debug)]
pub struct Infoset {
    pub infoset: Vec<u64>,
    pub hash: u64,
}

/// The chunks that are fed to the hasher for a sequence of words: the eight
/// little-endian bytes of each word, in order.
pub open spec fn word_chunks(words: Seq<u64>) -> Seq<Seq<u8>> {
    words.map_values(|w: u64| spec_u64_to_le_bytes(w))
}

/// The hash of a sequence of words: what the standard library's default hasher
/// gives after the chunks of the words have been written to it.
pub open spec fn hash_of(words: Seq<u64>) -> u64 {
    DefaultHasher::spec_finish(word_chunks(words))
}

impl Infoset {
    /// Whether the stored hash is the hash of the stored words.
    pub open spec fn wf(&self) -> bool {
        self.hash == hash_of(self.infoset@)
    }

    /// Makes the infoset of a sequence of observations and computes its hash.
    pub fn new(infoset: Vec<u64>) -> (r: Infoset)
        ensures
            r.infoset == infoset,
            r.hash == hash_of(infoset@),
            r.wf(),
    {
        let mut hasher = DefaultHasher::new();
        let mut i: usize = 0;
        while i < infoset.len()
            invariant
                i <= infoset.len(),
                hasher@ == word_chunks(infoset@.take(i as int)),
            decreases infoset.len() - i,
        {
            let bytes = u64_to_le_bytes(infoset[i]);
            hasher.write(bytes.as_slice());
            i += 1;
            assert(hasher@ =~= word_chunks(infoset@.take(i as int)));
        }
        assert(infoset@.take(i as int) =~= infoset@);
        let hash = hasher.finish();
        Infoset { infoset, hash }
    }
}

/// Equal observations are filed under equal hashes.
pub proof fn lemma_hash_is_stable(a: Infoset, b: Infoset)
    requires
        a.wf(),
        b.wf(),
        a.infoset@ == b.infoset@,
    ensures
        a.hash == b.hash,
{
}

} // verus!
