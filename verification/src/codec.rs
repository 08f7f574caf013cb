//! Join phrases and party identifiers.
//!
//! A party is created from a 32-bit seed. The seed is shown to people as a
//! short phrase of words, and the same seed is stretched into the 128-bit
//! identifier under which the party is stored. Only the identifier is kept, so
//! whoever knows the phrase can find the party and nobody else can.

use rand::RngCore;
use rand::SeedableRng;
use vstd::prelude::*;

verus! {

/// Why a join phrase was turned down.
#[derive(Debug, Clone, Copy, PartialEq, Eq, Structural)]
pub enum DecodeError {
    /// The phrase is not a well-formed word sequence.
    Malformed,
    /// The phrase is well formed but does not stand for exactly four bytes.
    WrongLength,
}

#[verifier::external_type_specification]
#[verifier::external_body]
pub struct ExMnemonicError(mnemonic::Error);

/// The phrase that `mnemonic::to_string` writes for a byte string.
pub uninterp spec fn mnemonic_words(bytes: Seq<u8>) -> Seq<char>;

/// The bytes that `mnemonic::decode` reads out of a phrase, or `None` where it
/// reports an error.
pub uninterp spec fn mnemonic_bytes(phrase: Seq<char>) -> Option<Seq<u8>>;

/// The first sixteen bytes of the ChaCha20 stream that
/// `ChaCha20Rng::seed_from_u64` starts from a seed.
pub uninterp spec fn chacha20_stream(seed: u64) -> Seq<u8>;

/// The four bytes of a seed, most significant first.
pub open spec fn be_bytes(seed: u32) -> Seq<u8> {
    seq![
        (seed >> 24) as u8,
        ((seed >> 16) & 0xff) as u8,
        ((seed >> 8) & 0xff) as u8,
        (seed & 0xff) as u8,
    ]
}

/// The seed that four bytes spell, most significant first.
pub open spec fn be_value(bytes: Seq<u8>) -> u32 {
    ((bytes[0] as u32) << 24) | ((bytes[1] as u32) << 16) | ((bytes[2] as u32) << 8) | (
    bytes[3] as u32)
}

/// Sixteen random bytes marked as a random identifier: the high four bits of
/// byte 6 become the version, 4, and the high two bits of byte 8 become the
/// variant, binary 10.
pub open spec fn tagged(raw: Seq<u8>) -> Seq<u8> {
    raw.update(6, (raw[6] & 0x0f) | 0x40).update(8, (raw[8] & 0x3f) | 0x80)
}

/// The number that a byte string spells, most significant byte first.
pub open spec fn be_u128(bytes: Seq<u8>) -> u128
    decreases bytes.len(),
{
    if bytes.len() == 0 {
        0
    } else {
        (be_u128(bytes.drop_last()) << 8) | (bytes.last() as u128)
    }
}

/// The identifier made from sixteen stream bytes.
pub open spec fn identifier_from(raw: Seq<u8>) -> u128 {
    be_u128(tagged(raw))
}

/// The identifier of the party created from a seed.
pub open spec fn identifier_of(seed: u32) -> u128 {
    identifier_from(chacha20_stream(seed as u64))
}

/// The phrase of a seed.
pub open spec fn phrase_of(seed: u32) -> Seq<char> {
    mnemonic_words(be_bytes(seed))
}

/// What a decoded byte string says about the seed.
pub open spec fn seed_of_bytes(bytes: Seq<u8>) -> Result<u32, DecodeError> {
    if bytes.len() == 4 {
        Ok(be_value(bytes))
    } else {
        Err(DecodeError::WrongLength)
    }
}

/// The seed of a phrase, or the reason it has none.
pub open spec fn seed_of(phrase: Seq<char>) -> Result<u32, DecodeError> {
    match mnemonic_bytes(phrase) {
        Some(bytes) => seed_of_bytes(bytes),
        None => Err(DecodeError::Malformed),
    }
}

/// Splitting a seed into bytes and joining them again gives the seed back.
pub proof fn lemma_be_round_trip(seed: u32)
    ensures
        be_bytes(seed).len() == 4,
        be_value(be_bytes(seed)) == seed,
{
    let b0 = (seed >> 24) as u8;
    let b1 = ((seed >> 16) & 0xff) as u8;
    let b2 = ((seed >> 8) & 0xff) as u8;
    let b3 = (seed & 0xff) as u8;
    assert(((((seed >> 24) as u8) as u32) << 24) | (((((seed >> 16) & 0xff) as u8) as u32) << 16)
        | (((((seed >> 8) & 0xff) as u8) as u32) << 8) | (((seed & 0xff) as u8) as u32) == seed)
        by (bit_vector);
}

/// Calls `mnemonic::to_string` on four bytes. The phrase is the one the crate
/// writes for them, and the crate's decoder reads the same four bytes back out
/// of it: three words from the main list, which restore the 32-bit group they
/// were cut from.
#[verifier::external_body]
fn words_of(bytes: &[u8; 4]) -> (phrase: String)
    ensures
        phrase@ == mnemonic_words(bytes@),
        mnemonic_bytes(phrase@) == Some(bytes@),
{
    mnemonic::to_string(bytes)
}

/// Calls `mnemonic::decode` into a fresh buffer. On success the buffer holds
/// the decoded bytes; on failure the crate's error is handed on.
#[verifier::external_body]
fn bytes_of(phrase: &str) -> (decoded: Result<Vec<u8>, mnemonic::Error>)
    ensures
        match decoded {
            Ok(bytes) => mnemonic_bytes(phrase@) == Some(bytes@),
            Err(_) => mnemonic_bytes(phrase@) is None,
        },
{
    let mut out = Vec::new();
    mnemonic::decode(phrase, &mut out).map(|_| out)
}

/// Seeds a `ChaCha20Rng` with `seed_from_u64` and draws sixteen bytes with
/// `fill_bytes`. The generator is reproducible: the bytes depend on the seed
/// alone.
#[verifier::external_body]
fn stream_bytes(seed: u64) -> (out: [u8; 16])
    ensures
        out@ == chacha20_stream(seed),
{
    let mut rng = rand_chacha::ChaCha20Rng::seed_from_u64(seed);
    let mut out = [0u8; 16];
    rng.fill_bytes(&mut out);
    out
}

/// Calls `uuid::Builder::from_random_bytes` and takes the bytes of the
/// identifier it builds. The builder touches only the version and variant
/// bits: every byte is kept but bytes 6 and 8, which are marked as `tagged`
/// says.
#[verifier::external_body]
fn tag_random(raw: [u8; 16]) -> (out: [u8; 16])
    ensures
        out@ == tagged(raw@),
{
    uuid::Builder::from_random_bytes(raw).into_uuid().into_bytes()
}

/// Splits a seed into its four bytes, most significant first.
pub fn seed_bytes(seed: u32) -> (bytes: [u8; 4])
    ensures
        bytes@ == be_bytes(seed),
{
    let b0: u8 = (seed >> 24) as u8;
    let b1: u8 = ((seed >> 16) & 0xff) as u8;
    let b2: u8 = ((seed >> 8) & 0xff) as u8;
    let b3: u8 = (seed & 0xff) as u8;
    let bytes: [u8; 4] = [b0, b1, b2, b3];
    assert(bytes@ =~= be_bytes(seed));
    bytes
}

/// Reads the seed out of a decoded byte string: exactly four bytes, most
/// significant first.
pub fn seed_from_bytes(bytes: &[u8]) -> (seed: Result<u32, DecodeError>)
    ensures
        seed == seed_of_bytes(bytes@),
{
    if bytes.len() != 4 {
        return Err(DecodeError::WrongLength);
    }
    let seed: u32 = ((bytes[0] as u32) << 24) | ((bytes[1] as u32) << 16) | ((bytes[2] as u32)
        << 8) | (bytes[3] as u32);
    Ok(seed)
}

/// Writes a seed as a join phrase. The phrase decodes to the same seed.
pub fn encode_phrase(seed: u32) -> (phrase: String)
    ensures
        phrase@ == phrase_of(seed),
        seed_of(phrase@) == Ok::<u32, DecodeError>(seed),
{
    let bytes = seed_bytes(seed);
    proof {
        lemma_be_round_trip(seed);
    }
    words_of(&bytes)
}

/// Reads the seed out of a join phrase.
pub fn decode_phrase(phrase: &str) -> (seed: Result<u32, DecodeError>)
    ensures
        seed == seed_of(phrase@),
{
    match bytes_of(phrase) {
        Ok(bytes) => seed_from_bytes(bytes.as_slice()),
        Err(_) => Err(DecodeError::Malformed),
    }
}

/// Makes a party identifier from sixteen stream bytes: marks them as a random
/// identifier and reads them as one 128-bit number.
pub fn identifier_from_stream(raw: [u8; 16]) -> (id: u128)
    ensures
        id == identifier_from(raw@),
{
    let marked = tag_random(raw);
    let mut id: u128 = 0;
    let mut i: usize = 0;
    while i < 16
        invariant
            i <= 16,
            marked@.len() == 16,
            id == be_u128(marked@.take(i as int)),
        decreases 16 - i,
    {
        assert(marked@.take(i + 1).drop_last() =~= marked@.take(i as int));
        id = (id << 8) | (marked[i] as u128);
        i = i + 1;
    }
    assert(marked@.take(16) =~= marked@);
    id
}

/// Derives the identifier of the party that a seed creates. The identifier
/// depends on the seed alone.
pub fn derive_identifier(seed: u32) -> (id: u128)
    ensures
        id == identifier_of(seed),
{
    identifier_from_stream(stream_bytes(seed as u64))
}

} // verus!
