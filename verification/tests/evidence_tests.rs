use phone_verifier::evidence::{decode_evidence, encode_evidence, VerificationEvidence};

fn evidence(username: &[u8]) -> VerificationEvidence {
    VerificationEvidence {
        verifier_public_key: vec![1; 32],
        account_id: vec![2; 32],
        username: username.to_vec(),
        phone_number_hash: vec![3; 64],
    }
}

fn assert_same(a: &VerificationEvidence, b: &VerificationEvidence) {
    assert_eq!(a.verifier_public_key, b.verifier_public_key);
    assert_eq!(a.account_id, b.account_id);
    assert_eq!(a.username, b.username);
    assert_eq!(a.phone_number_hash, b.phone_number_hash);
}

#[test]
fn evidence_encode_exact_layout() {
    let e = evidence(b"alice");
    let bytes = encode_evidence(&e);
    assert_eq!(bytes.len(), 32 + 32 + 1 + 5 + 64);
    assert_eq!(&bytes[0..32], &[1u8; 32][..]);
    assert_eq!(&bytes[32..64], &[2u8; 32][..]);
    // single-byte compact prefix: length 5 shifted left by the two mode bits
    assert_eq!(bytes[64], 5 * 4);
    assert_eq!(&bytes[65..70], b"alice");
    assert_eq!(&bytes[70..134], &[3u8; 64][..]);
}

#[test]
fn evidence_round_trip_short_username() {
    let e = evidence(b"alice");
    let decoded = decode_evidence(&encode_evidence(&e)).unwrap();
    assert_same(&decoded, &e);
}

#[test]
fn evidence_round_trip_empty_username() {
    let e = evidence(b"");
    let decoded = decode_evidence(&encode_evidence(&e)).unwrap();
    assert_same(&decoded, &e);
}

#[test]
fn evidence_two_byte_compact_prefix() {
    // 64 is the first length that needs the two-byte compact form:
    // 64 * 4 + 1 = 257 little endian
    let e = evidence(&[b'x'; 64]);
    let bytes = encode_evidence(&e);
    assert_eq!(bytes[64], 1);
    assert_eq!(bytes[65], 1);
    let decoded = decode_evidence(&bytes).unwrap();
    assert_same(&decoded, &e);
}

#[test]
fn evidence_decode_rejects_truncation() {
    let e = evidence(b"alice");
    let mut bytes = encode_evidence(&e);
    bytes.pop();
    assert!(decode_evidence(&bytes).is_none());
}

#[test]
fn evidence_decode_rejects_trailing_bytes() {
    let e = evidence(b"alice");
    let mut bytes = encode_evidence(&e);
    bytes.push(0);
    assert!(decode_evidence(&bytes).is_none());
}

#[test]
fn evidence_decode_rejects_short_input() {
    assert!(decode_evidence(&vec![0; 64]).is_none());
}

#[test]
fn evidence_decode_rejects_non_canonical_length() {
    // length 5 written in the two-byte form: 5 * 4 + 1 = 21, 0
    let e = evidence(b"alice");
    let canonical = encode_evidence(&e);
    let mut bytes = Vec::new();
    bytes.extend_from_slice(&canonical[0..64]);
    bytes.push(21);
    bytes.push(0);
    bytes.extend_from_slice(&canonical[65..]);
    assert!(decode_evidence(&bytes).is_none());
}
