//! Cache keys: how a payload is hashed to a key, and how a key is laid out in
//! the persistent store.

use vstd::prelude::*;

verus! {

/// Number of bytes a well-formed stored key occupies.
pub const KEY_LENGTH: usize = 8;

/// The XXH3 64-bit digest, with seed 0 and the default secret, of `payload`.
pub uninterp spec fn xxh3_64_digest(payload: Seq<u8>) -> u64;

/// Calls `xxhash_rust::xxh3::xxh3_64`. The digest is taken on trust to be a
/// function of the input bytes alone: the crate computes it from the bytes, the
/// fixed seed 0 and its built-in secret, reading words in little-endian order
/// on every target.
#[verifier::external_body]
fn xxh3_64(payload: &[u8]) -> (digest: u64)
    ensures
        digest == xxh3_64_digest(payload@),
{
    xxhash_rust::xxh3::xxh3_64(payload)
}

/// The cache key of a request payload. Nothing but the payload bytes enters it.
pub open spec fn key_of(payload: Seq<u8>) -> u64 {
    xxh3_64_digest(payload)
}

/// Derives the cache key of a request payload.
pub fn cache_key(payload: &[u8]) -> (key: u64)
    ensures
        key == key_of(payload@),
{
    xxh3_64(payload)
}

/// Equal payloads have equal keys.
pub proof fn lemma_key_deterministic(first: Seq<u8>, second: Seq<u8>)
    requires
        first == second,
    ensures
        key_of(first) == key_of(second),
{
}

/// The big-endian layout of a key: eight bytes, most significant first.
pub open spec fn key_bytes(key: u64) -> Seq<u8> {
    seq![
        (key / 0x100_0000_0000_0000) as u8,
        (key / 0x1_0000_0000_0000 % 0x100) as u8,
        (key / 0x100_0000_0000 % 0x100) as u8,
        (key / 0x1_0000_0000 % 0x100) as u8,
        (key / 0x100_0000 % 0x100) as u8,
        (key / 0x1_0000 % 0x100) as u8,
        (key / 0x100 % 0x100) as u8,
        (key % 0x100) as u8,
    ]
}

/// The number whose big-endian layout starts `bytes`: its first eight bytes
/// weighted by descending powers of 256.
pub open spec fn key_value(bytes: Seq<u8>) -> int
    recommends
        bytes.len() >= KEY_LENGTH,
{
    bytes[0] * 0x100_0000_0000_0000 + bytes[1] * 0x1_0000_0000_0000 + bytes[2]
        * 0x100_0000_0000 + bytes[3] * 0x1_0000_0000 + bytes[4] * 0x100_0000 + bytes[5]
        * 0x1_0000 + bytes[6] * 0x100 + bytes[7]
}

/// A stored key shorter than the fixed width cannot be decoded.
pub open spec fn is_corrupt(stored: Seq<u8>) -> bool {
    stored.len() < KEY_LENGTH
}

/// What a stored key decodes to: nothing when it is corrupt, otherwise the key
/// laid out in its first eight bytes.
pub open spec fn decoded(stored: Seq<u8>) -> Option<u64> {
    if is_corrupt(stored) {
        None
    } else {
        Some(key_value(stored) as u64)
    }
}

/// Lays a key out for the persistent store.
pub fn encode_key(key: u64) -> (bytes: Vec<u8>)
    ensures
        bytes@ == key_bytes(key),
{
    let mut bytes: Vec<u8> = Vec::with_capacity(KEY_LENGTH);
    assert({
        &&& (key >> 56) as u8 == (key / 0x100_0000_0000_0000) as u8
        &&& (key >> 48) as u8 == (key / 0x1_0000_0000_0000 % 0x100) as u8
        &&& (key >> 40) as u8 == (key / 0x100_0000_0000 % 0x100) as u8
        &&& (key >> 32) as u8 == (key / 0x1_0000_0000 % 0x100) as u8
        &&& (key >> 24) as u8 == (key / 0x100_0000 % 0x100) as u8
        &&& (key >> 16) as u8 == (key / 0x1_0000 % 0x100) as u8
        &&& (key >> 8) as u8 == (key / 0x100 % 0x100) as u8
        &&& key as u8 == (key % 0x100) as u8
    }) by (bit_vector);
    bytes.push((key >> 56) as u8);
    bytes.push((key >> 48) as u8);
    bytes.push((key >> 40) as u8);
    bytes.push((key >> 32) as u8);
    bytes.push((key >> 24) as u8);
    bytes.push((key >> 16) as u8);
    bytes.push((key >> 8) as u8);
    bytes.push(key as u8);
    bytes
}

/// Reads a stored key back: `None` for a corrupt one, otherwise the key laid
/// out in its first eight bytes (anything after them is not looked at).
pub fn decode_key(stored: &[u8]) -> (key: Option<u64>)
    ensures
        key == decoded(stored@),
{
    if stored.len() < KEY_LENGTH {
        return None;
    }
    let b0: u8 = stored[0];
    let b1: u8 = stored[1];
    let b2: u8 = stored[2];
    let b3: u8 = stored[3];
    let b4: u8 = stored[4];
    let b5: u8 = stored[5];
    let b6: u8 = stored[6];
    let b7: u8 = stored[7];
    let key: u64 = ((b0 as u64) << 56) | ((b1 as u64) << 48) | ((b2 as u64) << 40) | ((b3 as u64)
        << 32) | ((b4 as u64) << 24) | ((b5 as u64) << 16) | ((b6 as u64) << 8) | (b7 as u64);
    assert(key == b0 * 0x100_0000_0000_0000 + b1 * 0x1_0000_0000_0000 + b2 * 0x100_0000_0000 + b3
        * 0x1_0000_0000 + b4 * 0x100_0000 + b5 * 0x1_0000 + b6 * 0x100 + b7) by (bit_vector)
        requires
            key == ((b0 as u64) << 56) | ((b1 as u64) << 48) | ((b2 as u64) << 40) | ((b3 as u64)
                << 32) | ((b4 as u64) << 24) | ((b5 as u64) << 16) | ((b6 as u64) << 8) | (
            b7 as u64),
    ;
    Some(key)
}

/// Decoding what `key_bytes` laid out gives the key back.
pub proof fn lemma_decode_encode(key: u64)
    ensures
        key_bytes(key).len() == KEY_LENGTH,
        key_value(key_bytes(key)) == key,
        decoded(key_bytes(key)) == Some(key),
{
    assert(((key / 0x100_0000_0000_0000) as u8) * 0x100_0000_0000_0000 + ((key
        / 0x1_0000_0000_0000 % 0x100) as u8) * 0x1_0000_0000_0000 + ((key / 0x100_0000_0000
        % 0x100) as u8) * 0x100_0000_0000 + ((key / 0x1_0000_0000 % 0x100) as u8) * 0x1_0000_0000
        + ((key / 0x100_0000 % 0x100) as u8) * 0x100_0000 + ((key / 0x1_0000 % 0x100) as u8)
        * 0x1_0000 + ((key / 0x100 % 0x100) as u8) * 0x100 + ((key % 0x100) as u8) == key)
        by (bit_vector);
}

/// A stored key of exactly the fixed width is the layout of what it decodes to.
pub proof fn lemma_encode_decode(stored: Seq<u8>)
    requires
        stored.len() == KEY_LENGTH,
    ensures
        key_bytes(key_value(stored) as u64) == stored,
{
    let b0 = stored[0];
    let b1 = stored[1];
    let b2 = stored[2];
    let b3 = stored[3];
    let b4 = stored[4];
    let b5 = stored[5];
    let b6 = stored[6];
    let b7 = stored[7];
    let key = key_value(stored) as u64;
    assert({
        &&& (key / 0x100_0000_0000_0000) as u8 == b0
        &&& (key / 0x1_0000_0000_0000 % 0x100) as u8 == b1
        &&& (key / 0x100_0000_0000 % 0x100) as u8 == b2
        &&& (key / 0x1_0000_0000 % 0x100) as u8 == b3
        &&& (key / 0x100_0000 % 0x100) as u8 == b4
        &&& (key / 0x1_0000 % 0x100) as u8 == b5
        &&& (key / 0x100 % 0x100) as u8 == b6
        &&& (key % 0x100) as u8 == b7
    }) by (bit_vector)
        requires
            key == b0 * 0x100_0000_0000_0000 + b1 * 0x1_0000_0000_0000 + b2 * 0x100_0000_0000 + b3
                * 0x1_0000_0000 + b4 * 0x100_0000 + b5 * 0x1_0000 + b6 * 0x100 + b7,
    ;
    assert(key_bytes(key) =~= stored);
}

/// Distinct keys are laid out differently.
pub proof fn lemma_key_bytes_injective(first: u64, second: u64)
    requires
        key_bytes(first) == key_bytes(second),
    ensures
        first == second,
{
    lemma_decode_encode(first);
    lemma_decode_encode(second);
}

} // verus!
