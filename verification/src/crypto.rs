//! Session keys derived from a pairing code, and the byte-wise cipher that
//! protects frames once a channel is paired.
use std::collections::hash_map::DefaultHasher;
use std::hash::{Hash, Hasher};
use vstd::bytes::{spec_u64_to_le_bytes, u64_to_le_bytes};
use vstd::prelude::*;

verus! {

/// `<str as Hash>::hash` into a `DefaultHasher`.
///
/// Trusted, with no contract: the bytes that hashing a string feeds a
/// hasher are not promised to be the same across platforms or compiler
/// versions, so nothing is stated of how the hasher changes.
#[verifier::external_body]
fn hash_str(s: &str, state: &mut DefaultHasher) {
    s.hash(state);
}

/// `<u64 as Hash>::hash` into a `DefaultHasher`.
///
/// Trusted, with no contract: hashing an integer feeds the hasher its
/// native-endian bytes, which differ between platforms, so nothing is
/// stated of how the hasher changes.
#[verifier::external_body]
fn hash_u64(x: u64, state: &mut DefaultHasher) {
    x.hash(state);
}

/// The key made of four 64-bit words: the little-endian bytes of each word,
/// in order (32 bytes).
pub open spec fn key_of_words(w0: u64, w1: u64, w2: u64, w3: u64) -> Seq<u8> {
    spec_u64_to_le_bytes(w0) + spec_u64_to_le_bytes(w1) + spec_u64_to_le_bytes(w2)
        + spec_u64_to_le_bytes(w3)
}

/// Derives the 32-byte session key of a pairing code: for each round from 0
/// to 3, the default hasher's digest of the code followed by the round
/// number, written as little-endian bytes. The digests depend on the
/// platform's hashing, so the contract states the key's shape and not its
/// bytes.
pub fn derive_session_key(pairing_code: &str) -> (key: Vec<u8>)
    ensures
        key@.len() == 32,
        exists|w0: u64, w1: u64, w2: u64, w3: u64| key@ == key_of_words(w0, w1, w2, w3),
{
    proof {
        vstd::bytes::lemma_auto_spec_u64_to_from_le_bytes();
    }
    let mut key: Vec<u8> = Vec::with_capacity(32);
    let mut round: u64 = 0;
    let ghost mut words: Seq<u64> = Seq::empty();
    while round < 4
        invariant
            round <= 4,
            words.len() == round,
            key@.len() == 8 * round,
            round >= 1 ==> key@.take(8) == spec_u64_to_le_bytes(words[0]),
            round >= 2 ==> key@.subrange(8, 16) == spec_u64_to_le_bytes(words[1]),
            round >= 3 ==> key@.subrange(16, 24) == spec_u64_to_le_bytes(words[2]),
            round >= 4 ==> key@.subrange(24, 32) == spec_u64_to_le_bytes(words[3]),
        decreases 4 - round,
    {
        let mut hasher = DefaultHasher::new();
        hash_str(pairing_code, &mut hasher);
        hash_u64(round, &mut hasher);
        let word = hasher.finish();
        let bytes = u64_to_le_bytes(word);
        let ghost before = key@;
        proof {
            words = words.push(word);
        }
        let mut i: usize = 0;
        while i < 8
            invariant
                i <= 8,
                bytes@.len() == 8,
                key@ == before + bytes@.take(i as int),
            decreases 8 - i,
        {
            key.push(bytes[i]);
            assert(bytes@.take(i as int + 1) == bytes@.take(i as int).push(bytes@[i as int]));
            i = i + 1;
        }
        assert(bytes@.take(8) == bytes@);
        assert(key@.subrange(8 * round as int, 8 * round as int + 8) == bytes@);
        assert(key@.take(8 * round as int) == before);
        round = round + 1;
    }
    assert(key@ =~= key_of_words(words[0], words[1], words[2], words[3]));
    key
}

/// Each byte of `data` combined by exclusive or with the key byte at the
/// same position modulo the key's length.
pub open spec fn xor_with_key(data: Seq<u8>, key: Seq<u8>) -> Seq<u8> {
    Seq::new(data.len(), |i: int| data[i] ^ key[i % (key.len() as int)])
}

/// Encrypts a frame with the session key.
pub fn encrypt_payload(data: Vec<u8>, key: &[u8]) -> (out: Vec<u8>)
    requires
        key@.len() > 0 || data@.len() == 0,
    ensures
        out@ == xor_with_key(data@, key@),
{
    decrypt_payload(data.as_slice(), key)
}

/// Decrypts a frame with the session key.
pub fn decrypt_payload(data: &[u8], key: &[u8]) -> (out: Vec<u8>)
    requires
        key@.len() > 0 || data@.len() == 0,
    ensures
        out@ == xor_with_key(data@, key@),
{
    let mut out: Vec<u8> = Vec::with_capacity(data.len());
    let mut idx: usize = 0;
    while idx < data.len()
        invariant
            idx <= data@.len(),
            key@.len() > 0 || data@.len() == 0,
            out@ == xor_with_key(data@.take(idx as int), key@),
        decreases data@.len() - idx,
    {
        out.push(data[idx] ^ key[idx % key.len()]);
        assert(xor_with_key(data@.take(idx as int + 1), key@) == xor_with_key(
            data@.take(idx as int),
            key@,
        ).push(data@[idx as int] ^ key@[idx as int % (key@.len() as int)]));
        idx = idx + 1;
    }
    assert(data@.take(data@.len() as int) == data@);
    out
}

/// Applying the cipher twice with the same key gives the data back: a frame
/// encrypted with a key decrypts with that key to what was encrypted.
pub proof fn lemma_xor_involution(data: Seq<u8>, key: Seq<u8>)
    requires
        key.len() > 0,
    ensures
        xor_with_key(xor_with_key(data, key), key) == data,
{
    let once = xor_with_key(data, key);
    let twice = xor_with_key(once, key);
    assert forall|i: int| 0 <= i < data.len() implies twice[i] == data[i] by {
        let a = data[i];
        let b = key[i % (key.len() as int)];
        assert((a ^ b) ^ b == a) by (bit_vector);
    }
    assert(twice =~= data);
}

} // verus!
