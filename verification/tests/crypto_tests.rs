use phone_verifier::crypto::{
    blake2_512_digest, ct_bytes_eq, ed25519_public_bytes, ed25519_sign, ed25519_verify,
    seed_from_phrase, ss58_parse_account,
};
use sp_core::crypto::Ss58Codec;
use sp_core::Pair;

const DEV_PHRASE: &str = "bottom drive obey lake curtain smoke basket hold race lonely fit walk";

#[test]
fn seed_from_phrase_matches_reference_derivation() {
    let ours = seed_from_phrase(DEV_PHRASE, "pw").unwrap();
    let (_, seed) = sp_core::ed25519::Pair::from_phrase(DEV_PHRASE, Some("pw")).unwrap();
    assert_eq!(ours, seed.to_vec());
}

#[test]
fn seed_from_phrase_rejects_invalid_phrase() {
    assert!(seed_from_phrase("not a mnemonic", "").is_none());
}

#[test]
fn public_bytes_match_reference_pair() {
    let seed = [9u8; 32];
    let ours = ed25519_public_bytes(&seed.to_vec());
    let pair = sp_core::ed25519::Pair::from_seed(&seed);
    assert_eq!(ours, pair.public().0.to_vec());
}

#[test]
fn signature_verifies_under_reference_implementation() {
    let seed = [5u8; 32];
    let message = b"attestation bytes".to_vec();
    let signature = ed25519_sign(&seed.to_vec(), &message);
    assert_eq!(signature.len(), 64);
    let pair = sp_core::ed25519::Pair::from_seed(&seed);
    let sig = sp_core::ed25519::Signature::from_raw(signature.try_into().unwrap());
    assert!(sp_core::ed25519::Pair::verify(&sig, &message, &pair.public()));
}

#[test]
fn verify_accepts_reference_signature_and_rejects_tampering() {
    let seed = [6u8; 32];
    let pair = sp_core::ed25519::Pair::from_seed(&seed);
    let message = b"some signed payload".to_vec();
    let signature = pair.sign(&message).0.to_vec();
    let public = pair.public().0.to_vec();
    assert!(ed25519_verify(&signature, &message, &public));
    let mut tampered = message.clone();
    tampered[0] ^= 1;
    assert!(!ed25519_verify(&signature, &tampered, &public));
    let other_public = sp_core::ed25519::Pair::from_seed(&[7u8; 32]).public().0.to_vec();
    assert!(!ed25519_verify(&signature, &message, &other_public));
}

#[test]
fn ss58_parse_recovers_key_and_prefix() {
    let pair = sp_core::ed25519::Pair::from_seed(&[1u8; 32]);
    let account = sp_core::crypto::AccountId32::new(pair.public().0);
    let address = account.to_ss58check();
    let (key, prefix) = ss58_parse_account(&address.into_bytes()).unwrap();
    assert_eq!(key, pair.public().0.to_vec());
    assert_eq!(prefix, 42);
}

#[test]
fn ss58_parse_reports_other_prefixes() {
    let account = sp_core::crypto::AccountId32::new([1u8; 32]);
    let address =
        account.to_ss58check_with_version(sp_core::crypto::Ss58AddressFormat::custom(0));
    let (key, prefix) = ss58_parse_account(&address.into_bytes()).unwrap();
    assert_eq!(key, vec![1u8; 32]);
    assert_eq!(prefix, 0);
}

#[test]
fn ss58_parse_rejects_malformed_addresses() {
    assert!(ss58_parse_account(&b"not an address".to_vec()).is_none());
    assert!(ss58_parse_account(&vec![0xFF, 0xFE]).is_none());
    let account = sp_core::crypto::AccountId32::new([1u8; 32]);
    let mut address = account.to_ss58check().into_bytes();
    // damage the checksum
    let last = address.len() - 1;
    address[last] = if address[last] == b'1' { b'2' } else { b'1' };
    assert!(ss58_parse_account(&address).is_none());
}

#[test]
fn blake2_digest_matches_reference_implementation() {
    let input = b"+15551234567".to_vec();
    let ours = blake2_512_digest(&input);
    assert_eq!(ours, sp_crypto_hashing::blake2_512(&input).to_vec());
    assert_eq!(ours.len(), 64);
    assert_ne!(ours, input);
}

#[test]
fn constant_time_equality_agrees_with_equality() {
    assert!(ct_bytes_eq(&b"secret".to_vec(), &b"secret".to_vec()));
    assert!(!ct_bytes_eq(&b"secret".to_vec(), &b"secreT".to_vec()));
    assert!(!ct_bytes_eq(&b"secret".to_vec(), &b"secret0".to_vec()));
    assert!(ct_bytes_eq(&Vec::new(), &Vec::new()));
}
