//! Trusted boundary to the cryptographic collaborators: the Blake2b address
//! hash, the Kerl sponge used for bundle hashes, the Winternitz one-time
//! signature scheme, the machine's parallelism, and two small string
//! conversions. Each wrapper states what the outside function is documented
//! to return; everything built on top of them is verified against these
//! contracts.

use vstd::prelude::*;

use crate::ternary::valid_trits;
use blake2::digest::{Update, VariableOutput};
use bee_crypto::ternary::sponge::{Kerl, Sponge};
use bee_signing::ternary::seed::Seed as WotsSeed;
use bee_signing::ternary::wots::{
    normalize, WotsSecurityLevel, WotsSpongePrivateKeyGeneratorBuilder,
};
use bee_signing::ternary::{PrivateKey, PrivateKeyGenerator, Signature};
use bee_ternary::{T1B1Buf, TritBuf};

verus! {

/// What the Blake2b hash with 256-bit output of a byte sequence is; fixed
/// by the input bytes alone.
pub uninterp spec fn blake2b_256_of(input: Seq<u8>) -> Seq<u8>;

/// Relies on blake2::VarBlake2b with a 32-byte output: the digest is a pure
/// function of the input bytes and is exactly 32 bytes long.
#[verifier::external_body]
pub fn blake2b_256(input: &Vec<u8>) -> (r: Vec<u8>)
    ensures
        r@ == blake2b_256_of(input@),
        r@.len() == 32,
{
    let mut hasher = blake2::VarBlake2b::new(32).unwrap();
    hasher.update(&input[..]);
    let mut out: Vec<u8> = Vec::new();
    hasher.finalize_variable(|res| out = res.to_vec());
    out
}

/// What the Kerl sponge digest of a trit sequence is; fixed by the input
/// trits alone.
pub uninterp spec fn kerl_hash_of(input: Seq<i8>) -> Seq<i8>;

/// Relies on bee_crypto::ternary::sponge::Kerl: digesting absorbs the input
/// in 243-trit blocks and squeezes one 243-trit hash, a pure function of
/// the input.
#[verifier::external_body]
pub fn kerl_hash(input: &Vec<i8>) -> (r: Vec<i8>)
    requires
        valid_trits(input@),
        input@.len() > 0,
        input@.len() % 243 == 0,
    ensures
        r@ == kerl_hash_of(input@),
        r@.len() == 243,
        valid_trits(r@),
{
    let trits = TritBuf::<T1B1Buf>::from_i8s(&input[..]).unwrap();
    let mut kerl = Kerl::default();
    let hash = Sponge::digest(&mut kerl, &trits).unwrap();
    hash.as_i8_slice().to_vec()
}

/// What the Winternitz one-time signature over the normalized bundle hash
/// is; fixed by seed, key index, security level and hash alone.
pub uninterp spec fn wots_signature_of(
    seed: Seq<i8>,
    index: int,
    security: int,
    bundle_hash: Seq<i8>,
) -> Seq<i8>;

/// Relies on bee_signing's WOTS scheme over Kerl: key generation from a
/// seed and index, normalization of the 243-trit bundle hash, and signing
/// are pure in their inputs; the signature is `security * 6561` trits.
#[verifier::external_body]
pub fn wots_sign(seed: &Vec<i8>, index: u64, security: u8, bundle_hash: &Vec<i8>) -> (r: Vec<i8>)
    requires
        valid_trits(seed@),
        seed@.len() == 243,
        valid_trits(bundle_hash@),
        bundle_hash@.len() == 243,
        1 <= security <= 3,
    ensures
        r@ == wots_signature_of(seed@, index as int, security as int, bundle_hash@),
        r@.len() == 6561 * security,
        valid_trits(r@),
{
    let seed = WotsSeed::from_trits(TritBuf::<T1B1Buf>::from_i8s(&seed[..]).unwrap()).unwrap();
    let level = match security {
        1 => WotsSecurityLevel::Low,
        2 => WotsSecurityLevel::Medium,
        _ => WotsSecurityLevel::High,
    };
    let generator = WotsSpongePrivateKeyGeneratorBuilder::<Kerl>::default().with_security_level(
        level,
    ).build().unwrap();
    let mut key = generator.generate_from_seed(&seed, index as usize).unwrap();
    let message = normalize(&TritBuf::<T1B1Buf>::from_i8s(&bundle_hash[..]).unwrap()).unwrap();
    let signature = key.sign(&message).unwrap();
    signature.as_trits().as_i8_slice().to_vec()
}

/// Relies on num_cpus::get: the number of logical CPUs available to the
/// process, documented to be at least 1; it depends on the machine, so only
/// that bound is stated.
#[verifier::external_body]
pub fn available_parallelism() -> (r: usize)
    ensures
        r >= 1,
{
    num_cpus::get()
}

/// Relies on std's FromIterator for String: collecting characters yields
/// the string of exactly those characters in order.
#[verifier::external_body]
pub fn chars_to_string(chars: &Vec<char>) -> (r: String)
    ensures
        r@ == chars@,
{
    chars.iter().collect()
}

/// Relies on str::chars: iterating yields exactly the string's characters
/// in order.
#[verifier::external_body]
pub fn string_to_chars(s: &String) -> (r: Vec<char>)
    ensures
        r@ == s@,
{
    s.chars().collect()
}

} // verus!
