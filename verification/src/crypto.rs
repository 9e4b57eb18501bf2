//! Trusted bindings to the cryptographic primitives.
//!
//! Every function here wraps one operation of an outside cryptography
//! crate; its contract names the operation's result, which the rest of the
//! library reasons about, and is believed rather than proved.

use vstd::prelude::*;

verus! {

/// The 32-byte signing seed derived from a BIP39 phrase and a password, or
/// `None` if the phrase is not a valid mnemonic. The derivation is a
/// function of the phrase and password alone.
pub uninterp spec fn seed_of_phrase(phrase: Seq<char>, password: Seq<char>) -> Option<Seq<u8>>;

/// The raw public key of the ed25519 pair generated from a 32-byte seed.
pub uninterp spec fn ed25519_public_of(seed: Seq<u8>) -> Seq<u8>;

/// The detached ed25519 signature of `message` under the pair generated
/// from `seed`; ed25519 signing is deterministic.
pub uninterp spec fn ed25519_signature_of(seed: Seq<u8>, message: Seq<u8>) -> Seq<u8>;

/// Whether `signature` is an acceptable ed25519 signature of `message`
/// under the raw public key `public`.
pub uninterp spec fn ed25519_verifies(public: Seq<u8>, message: Seq<u8>, signature: Seq<u8>) -> bool;

/// The raw key bytes and address-format prefix a well-formed SS58 address
/// encodes, or `None` for bytes that are no such address.
pub uninterp spec fn ss58_parse(address: Seq<u8>) -> Option<(Seq<u8>, u16)>;

/// The 64-byte BLAKE2b-512 digest of `data`.
pub uninterp spec fn blake2_512_of(data: Seq<u8>) -> Seq<u8>;

/// Relies on `sp_core::Pair::from_phrase` for `ed25519::Pair`: the seed is
/// derived deterministically from the mnemonic phrase and password, is 32
/// bytes, and derivation fails exactly on an invalid phrase.
#[verifier::external_body]
pub fn seed_from_phrase(phrase: &str, password: &str) -> (r: Option<Vec<u8>>)
    ensures
        r is Some <==> seed_of_phrase(phrase@, password@) is Some,
        r matches Some(v) ==> v@.len() == 32 && seed_of_phrase(phrase@, password@) == Some(v@),
{
    match <sp_core::ed25519::Pair as sp_core::Pair>::from_phrase(phrase, Some(password)) {
        Ok((_, seed)) => Some(seed.to_vec()),
        Err(_) => None,
    }
}

/// Relies on `sp_core::Pair::from_seed_slice` and `Pair::public` for
/// `ed25519::Pair`: the raw 32-byte public key is a function of the 32-byte
/// seed alone.
#[verifier::external_body]
pub fn ed25519_public_bytes(seed: &Vec<u8>) -> (r: Vec<u8>)
    requires
        seed@.len() == 32,
    ensures
        r@ == ed25519_public_of(seed@),
        r@.len() == 32,
{
    let pair = <sp_core::ed25519::Pair as sp_core::Pair>::from_seed_slice(seed.as_slice())
        .expect("seed is 32 bytes");
    let public = <sp_core::ed25519::Pair as sp_core::Pair>::public(&pair);
    <sp_core::ed25519::Public as sp_core::ByteArray>::to_raw_vec(&public)
}

/// Relies on `sp_core::Pair::from_seed_slice` and `Pair::sign` for
/// `ed25519::Pair`: the 64-byte signature is deterministic in the seed and
/// message, and `Pair::verify` accepts it under the pair's public key.
#[verifier::external_body]
pub fn ed25519_sign(seed: &Vec<u8>, message: &Vec<u8>) -> (r: Vec<u8>)
    requires
        seed@.len() == 32,
    ensures
        r@ == ed25519_signature_of(seed@, message@),
        r@.len() == 64,
        ed25519_verifies(ed25519_public_of(seed@), message@, r@),
{
    let pair = <sp_core::ed25519::Pair as sp_core::Pair>::from_seed_slice(seed.as_slice())
        .expect("seed is 32 bytes");
    let signature = <sp_core::ed25519::Pair as sp_core::Pair>::sign(&pair, message.as_slice());
    <sp_core::ed25519::Signature as sp_core::ByteArray>::to_raw_vec(&signature)
}

/// Relies on `sp_core::Pair::verify` for `ed25519::Pair`: acceptance is a
/// function of the raw public key, the message, and the signature.
#[verifier::external_body]
pub fn ed25519_verify(signature: &Vec<u8>, message: &Vec<u8>, public: &Vec<u8>) -> (r: bool)
    requires
        signature@.len() == 64,
        public@.len() == 32,
    ensures
        r == ed25519_verifies(public@, message@, signature@),
{
    let mut pk = [0u8; 32];
    pk.copy_from_slice(public.as_slice());
    let mut sg = [0u8; 64];
    sg.copy_from_slice(signature.as_slice());
    <sp_core::ed25519::Pair as sp_core::Pair>::verify(
        &sp_core::ed25519::Signature::from_raw(sg),
        message.as_slice(),
        &sp_core::ed25519::Public::from_raw(pk),
    )
}

/// Relies on `str::from_utf8` and
/// `sp_core::crypto::Ss58Codec::from_ss58check_with_version` for
/// `AccountId32`: parsing is a function of the address bytes alone; a
/// parsed account key is 32 bytes and comes with the address-format prefix
/// the address was encoded under.
#[verifier::external_body]
pub fn ss58_parse_account(address: &Vec<u8>) -> (r: Option<(Vec<u8>, u16)>)
    ensures
        r is Some <==> ss58_parse(address@) is Some,
        r matches Some(p) ==> ss58_parse(address@) == Some((p.0@, p.1)) && p.0@.len() == 32,
{
    let text = match core::str::from_utf8(address.as_slice()) {
        Ok(text) => text,
        Err(_) => {
            return None;
        },
    };
    match <sp_core::crypto::AccountId32 as
        sp_core::crypto::Ss58Codec>::from_ss58check_with_version(text) {
        Ok((account, format)) => {
            let key: &[u8; 32] = account.as_ref();
            Some((key.to_vec(), format.prefix()))
        },
        Err(_) => None,
    }
}

/// Relies on `sp_crypto_hashing::blake2_512`: the 64-byte digest is a
/// function of the input bytes alone.
#[verifier::external_body]
pub fn blake2_512_digest(data: &Vec<u8>) -> (r: Vec<u8>)
    ensures
        r@ == blake2_512_of(data@),
        r@.len() == 64,
{
    sp_crypto_hashing::blake2_512(data.as_slice()).to_vec()
}

/// Byte-string equality that always inspects every byte of equal-length
/// inputs, so that comparing a submitted token against a secret does not
/// leak how long a prefix matched.
pub fn ct_bytes_eq(a: &Vec<u8>, b: &Vec<u8>) -> (r: bool)
    ensures
        r == (a@ == b@),
{
    if a.len() != b.len() {
        proof {
            assert(a@.len() != b@.len());
        }
        return false;
    }
    let mut diff: u8 = 0;
    let mut i: usize = 0;
    while i < a.len()
        invariant
            a@.len() == b@.len(),
            i <= a@.len(),
            (diff == 0) <==> (forall|k: int| 0 <= k < i ==> a@[k] == b@[k]),
        decreases a@.len() - i,
    {
        let x = a[i];
        let y = b[i];
        proof {
            assert(((x ^ y) == 0) == (x == y)) by (bit_vector);
            assert(((diff | (x ^ y)) == 0) == (diff == 0 && (x ^ y) == 0)) by (bit_vector);
        }
        diff = diff | (x ^ y);
        i = i + 1;
    }
    if diff == 0 {
        proof {
            assert(a@ =~= b@);
        }
        true
    } else {
        proof {
            assert(a@ != b@);
        }
        false
    }
}

} // verus!
