//! The byte format of persisted tables. A key is the infoset hash in eight
//! little-endian bytes. A value is a vector of bit patterns: its length in
//! four little-endian bytes, then each element in four little-endian bytes.

use vstd::prelude::*;

verus! {

/// Why bytes are not the encoding of a vector, or a vector has none.
#[derive(Clone, Copy, Debug, PartialEq, Eq, Structural)]
pub enum CodecError {
    /// The vector has more elements than four bytes can count.
    TooLong,
    /// There are fewer than the four bytes of the length.
    MissingLength,
    /// The number of bytes behind the length is not four times the length.
    WrongSize,
}

/// The most elements that a vector can have in the format.
pub const MAX_ELEMENTS: usize = 0x3FFF_FFFE;

/// The four bytes of a 32-bit pattern, lowest first.
pub open spec fn word_bytes(x: u32) -> Seq<u8> {
    seq![
        (x % 256) as u8,
        (x / 256 % 256) as u8,
        (x / 65536 % 256) as u8,
        (x / 16777216) as u8,
    ]
}

/// The pattern whose four bytes, lowest first, are given.
pub open spec fn word_of(b0: u8, b1: u8, b2: u8, b3: u8) -> u32 {
    (b0 + 256 * b1 + 65536 * b2 + 16777216 * b3) as u32
}

/// The pattern that stands at place `at` of a byte sequence.
pub open spec fn word_at(bytes: Seq<u8>, at: int) -> u32 {
    word_of(bytes[at], bytes[at + 1], bytes[at + 2], bytes[at + 3])
}

/// The bytes of the elements of a vector, one element after the other.
pub open spec fn body(values: Seq<u32>) -> Seq<u8> {
    Seq::new(4 * values.len(), |j: int| word_bytes(values[j / 4])[j % 4])
}

/// The encoding of a vector: the length, then the elements.
pub open spec fn encoding(values: Seq<u32>) -> Seq<u8> {
    word_bytes(values.len() as u32) + body(values)
}

/// The vector that bytes encode, if they encode one.
pub open spec fn decoding(bytes: Seq<u8>) -> Result<Seq<u32>, CodecError> {
    if bytes.len() < 4 {
        Err(CodecError::MissingLength)
    } else if bytes.len() != 4 + 4 * word_at(bytes, 0) {
        Err(CodecError::WrongSize)
    } else {
        Ok(Seq::new(word_at(bytes, 0) as nat, |i: int| word_at(bytes, 4 + 4 * i)))
    }
}

/// The eight bytes of a 64-bit hash, lowest first.
pub open spec fn key_of(hash: u64) -> Seq<u8> {
    seq![
        (hash % 256) as u8,
        (hash / 256 % 256) as u8,
        (hash / 65536 % 256) as u8,
        (hash / 16777216 % 256) as u8,
        (hash / 4294967296 % 256) as u8,
        (hash / 1099511627776 % 256) as u8,
        (hash / 281474976710656 % 256) as u8,
        (hash / 72057594037927936) as u8,
    ]
}

/// The hash whose key is given.
pub open spec fn hash_of_key(key: Seq<u8>) -> u64 {
    (key[0] + 256 * key[1] + 65536 * key[2] + 16777216 * key[3] + 4294967296 * key[4]
        + 1099511627776 * key[5] + 281474976710656 * key[6] + 72057594037927936 * key[7]) as u64
}

/// The bytes of a pattern give the pattern back.
pub proof fn lemma_word_round_trip(x: u32)
    ensures
        word_bytes(x).len() == 4,
        word_at(word_bytes(x), 0) == x,
{
    let c0: u32 = x % 256;
    let c1: u32 = x / 256 % 256;
    let c2: u32 = x / 65536 % 256;
    let c3: u32 = x / 16777216;
    assert(c0 + 256 * c1 + 65536 * c2 + 16777216 * c3 == x && c3 < 256) by (bit_vector)
        requires
            c0 == x % 256,
            c1 == x / 256 % 256,
            c2 == x / 65536 % 256,
            c3 == x / 16777216,
    ;
    let w = word_bytes(x);
    assert(w[0] == c0 && w[1] == c1 && w[2] == c2 && w[3] == c3);
}

/// Four bytes are the bytes of the pattern that they give.
pub proof fn lemma_bytes_round_trip(b0: u8, b1: u8, b2: u8, b3: u8)
    ensures
        word_bytes(word_of(b0, b1, b2, b3)) == seq![b0, b1, b2, b3],
{
    let x = word_of(b0, b1, b2, b3);
    let c0 = b0 as u32;
    let c1 = b1 as u32;
    let c2 = b2 as u32;
    let c3 = b3 as u32;
    assert(x == c0 + 256 * c1 + 65536 * c2 + 16777216 * c3);
    assert(x % 256 == c0 && x / 256 % 256 == c1 && x / 65536 % 256 == c2 && x / 16777216 == c3)
        by (bit_vector)
        requires
            x == c0 + 256 * c1 + 65536 * c2 + 16777216 * c3,
            c0 < 256,
            c1 < 256,
            c2 < 256,
            c3 < 256,
    ;
    assert(word_bytes(x) =~= seq![b0, b1, b2, b3]);
}

/// Decoding undoes encoding, exactly and for every vector that the format
/// can hold, whatever patterns it holds.
pub proof fn lemma_decode_encode(values: Seq<u32>)
    requires
        values.len() <= MAX_ELEMENTS,
    ensures
        decoding(encoding(values)) == Ok::<Seq<u32>, CodecError>(values),
{
    let bytes = encoding(values);
    let n = values.len() as u32;
    lemma_word_round_trip(n);
    assert(bytes.len() == 4 + 4 * values.len());
    assert(word_at(bytes, 0) == word_at(word_bytes(n), 0));
    let decoded = Seq::new(word_at(bytes, 0) as nat, |i: int| word_at(bytes, 4 + 4 * i));
    assert forall|i: int| 0 <= i < values.len() implies decoded[i] == values[i] by {
        lemma_word_round_trip(values[i]);
        let w = word_bytes(values[i]);
        assert(bytes[4 + 4 * i] == body(values)[4 * i]);
        assert(bytes[4 + 4 * i + 1] == body(values)[4 * i + 1]);
        assert(bytes[4 + 4 * i + 2] == body(values)[4 * i + 2]);
        assert(bytes[4 + 4 * i + 3] == body(values)[4 * i + 3]);
        assert(body(values)[4 * i] == w[0]);
        assert(body(values)[4 * i + 1] == w[1]);
        assert(body(values)[4 * i + 2] == w[2]);
        assert(body(values)[4 * i + 3] == w[3]);
    }
    assert(decoded =~= values);
}

/// Encoding undoes decoding: no two byte sequences encode the same vector.
pub proof fn lemma_encode_decode(bytes: Seq<u8>)
    requires
        decoding(bytes) is Ok,
    ensures
        encoding(decoding(bytes)->Ok_0) == bytes,
{
    let values = decoding(bytes)->Ok_0;
    let n = word_at(bytes, 0);
    lemma_bytes_round_trip(bytes[0], bytes[1], bytes[2], bytes[3]);
    let again = encoding(values);
    assert(again.len() == bytes.len());
    assert forall|j: int| 0 <= j < bytes.len() implies again[j] == bytes[j] by {
        if j >= 4 {
            let k = j - 4;
            let i = k / 4;
            lemma_bytes_round_trip(
                bytes[4 + 4 * i],
                bytes[4 + 4 * i + 1],
                bytes[4 + 4 * i + 2],
                bytes[4 + 4 * i + 3],
            );
            assert(values[i] == word_at(bytes, 4 + 4 * i));
            assert(again[j] == body(values)[k]);
            assert(body(values)[k] == word_bytes(values[i])[k % 4]);
        } else {
            assert(again[j] == word_bytes(n)[j]);
        }
    }
    assert(again =~= bytes);
}

/// A key gives its hash back: different hashes have different keys.
pub proof fn lemma_key_round_trip(hash: u64)
    ensures
        key_of(hash).len() == 8,
        hash_of_key(key_of(hash)) == hash,
{
    let b0: u64 = hash % 256;
    let b1: u64 = hash / 256 % 256;
    let b2: u64 = hash / 65536 % 256;
    let b3: u64 = hash / 16777216 % 256;
    let b4: u64 = hash / 4294967296 % 256;
    let b5: u64 = hash / 1099511627776 % 256;
    let b6: u64 = hash / 281474976710656 % 256;
    let b7: u64 = hash / 72057594037927936;
    assert(b0 + 256 * b1 + 65536 * b2 + 16777216 * b3 + 4294967296 * b4 + 1099511627776 * b5
        + 281474976710656 * b6 + 72057594037927936 * b7 == hash && b7 < 256) by (bit_vector)
        requires
            b0 == hash % 256,
            b1 == hash / 256 % 256,
            b2 == hash / 65536 % 256,
            b3 == hash / 16777216 % 256,
            b4 == hash / 4294967296 % 256,
            b5 == hash / 1099511627776 % 256,
            b6 == hash / 281474976710656 % 256,
            b7 == hash / 72057594037927936,
    ;
    let key = key_of(hash);
    assert(key[0] == b0 && key[1] == b1 && key[2] == b2 && key[3] == b3);
    assert(key[4] == b4 && key[5] == b5 && key[6] == b6 && key[7] == b7);
}

/// Pushes the four bytes of a pattern, lowest first.
fn push_word(out: &mut Vec<u8>, x: u32)
    ensures
        final(out)@ == old(out)@ + word_bytes(x),
{
    out.push((x % 256) as u8);
    out.push((x / 256 % 256) as u8);
    out.push((x / 65536 % 256) as u8);
    out.push((x / 16777216) as u8);
    assert(out@ =~= old(out)@ + word_bytes(x));
}

/// Reads the pattern that stands at place `at`.
fn read_word(bytes: &[u8], at: usize) -> (x: u32)
    requires
        at + 4 <= bytes@.len(),
    ensures
        x == word_at(bytes@, at as int),
{
    bytes[at] as u32 + 256 * (bytes[at + 1] as u32) + 65536 * (bytes[at + 2] as u32) + 16777216 * (
    bytes[at + 3] as u32)
}

/// Encodes a hash as a key of the store.
pub fn key_bytes(hash: u64) -> (key: Vec<u8>)
    ensures
        key@ == key_of(hash),
{
    let mut key: Vec<u8> = Vec::new();
    key.push((hash % 256) as u8);
    key.push((hash / 256 % 256) as u8);
    key.push((hash / 65536 % 256) as u8);
    key.push((hash / 16777216 % 256) as u8);
    key.push((hash / 4294967296 % 256) as u8);
    key.push((hash / 1099511627776 % 256) as u8);
    key.push((hash / 281474976710656 % 256) as u8);
    key.push((hash / 72057594037927936) as u8);
    assert(key@ =~= key_of(hash));
    key
}

/// Encodes a vector as a value of the store. A vector that is too long for
/// the format has no encoding.
pub fn encode(values: &Vec<u32>) -> (r: Result<Vec<u8>, CodecError>)
    ensures
        values@.len() <= MAX_ELEMENTS ==> r == Ok::<Vec<u8>, CodecError>(r->Ok_0) && r->Ok_0@
            == encoding(values@),
        values@.len() > MAX_ELEMENTS ==> r == Err::<Vec<u8>, CodecError>(CodecError::TooLong),
{
    if values.len() > MAX_ELEMENTS {
        return Err(CodecError::TooLong);
    }
    let mut out: Vec<u8> = Vec::new();
    push_word(&mut out, values.len() as u32);
    let ghost head = out@;
    let mut i: usize = 0;
    while i < values.len()
        invariant
            i <= values@.len(),
            head == word_bytes(values@.len() as u32),
            out@ == head + body(values@.take(i as int)),
        decreases values@.len() - i,
    {
        let ghost before = out@;
        push_word(&mut out, values[i]);
        i += 1;
        proof {
            let a = values@.take(i - 1);
            let b = values@.take(i as int);
            assert(body(b) =~= body(a) + word_bytes(values@[i - 1])) by {
                assert forall|j: int| 0 <= j < 4 * b.len() implies body(b)[j] == (body(a)
                    + word_bytes(values@[i - 1]))[j] by {
                    if j < 4 * a.len() {
                        assert(b[j / 4] == a[j / 4]);
                    } else {
                        assert(j / 4 == i - 1);
                    }
                }
            }
            assert(out@ =~= head + body(b));
        }
    }
    assert(values@.take(i as int) =~= values@);
    Ok(out)
}

/// Decodes a value of the store.
pub fn decode(bytes: &[u8]) -> (r: Result<Vec<u32>, CodecError>)
    ensures
        r is Ok == decoding(bytes@) is Ok,
        r matches Ok(values) ==> decoding(bytes@) == Ok::<Seq<u32>, CodecError>(values@),
        r matches Err(e) ==> decoding(bytes@) == Err::<Seq<u32>, CodecError>(e),
{
    if bytes.len() < 4 {
        return Err(CodecError::MissingLength);
    }
    let n = read_word(bytes, 0);
    if (bytes.len() - 4) / 4 != n as usize || (bytes.len() - 4) % 4 != 0 {
        return Err(CodecError::WrongSize);
    }
    let len: usize = bytes.len();
    let mut values: Vec<u32> = Vec::new();
    let mut i: usize = 0;
    while i < n as usize
        invariant
            i <= n,
            len == bytes@.len(),
            bytes@.len() == 4 + 4 * n,
            values@ == Seq::new(i as nat, |k: int| word_at(bytes@, 4 + 4 * k)),
        decreases n - i,
    {
        values.push(read_word(bytes, 4 + 4 * i));
        i += 1;
        assert(values@ =~= Seq::new(i as nat, |k: int| word_at(bytes@, 4 + 4 * k)));
    }
    Ok(values)
}

} // verus!
