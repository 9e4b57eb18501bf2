use phone_verifier::codec::{encode_request_data, VerifyNumberRequestData};
use phone_verifier::evidence::decode_evidence;
use phone_verifier::results::VerificationResult;
use phone_verifier::verify_number::{
    OtpCheckOutcome, PendingVerification, Verifier, VerifyAction, VerifyNumberRequest,
    VerifyNumberResponse,
};
use sp_core::crypto::Ss58Codec;
use sp_core::Pair;

const BYPASS_SECRET: &[u8] = b"open sesame";
const PHONE: &[u8] = b"+15551234567";

fn make_verifier() -> Verifier {
    Verifier::new(vec![7u8; 32], BYPASS_SECRET.to_vec()).unwrap()
}

fn client_pair() -> sp_core::ed25519::Pair {
    sp_core::ed25519::Pair::from_seed(&[42u8; 32])
}

fn client_address(pair: &sp_core::ed25519::Pair) -> Vec<u8> {
    sp_core::crypto::AccountId32::new(pair.public().0).to_ss58check().into_bytes()
}

fn signed_request(bypass_token: &[u8]) -> VerifyNumberRequest {
    let pair = client_pair();
    let payload = VerifyNumberRequestData {
        timestamp: 1670000000,
        account_id: client_address(&pair),
        phone_number: PHONE.to_vec(),
        requested_user_name: b"alice".to_vec(),
        bypass_token: bypass_token.to_vec(),
        verification_code: b"123456".to_vec(),
        verification_sid: b"VE1234".to_vec(),
    };
    let data = encode_request_data(&payload);
    let signature = pair.sign(&data).0.to_vec();
    VerifyNumberRequest { data, signature }
}

fn expect_respond(action: VerifyAction) -> VerifyNumberResponse {
    match action {
        VerifyAction::Respond(resp) => resp,
        VerifyAction::CheckCode(_) => panic!("expected a terminal response"),
    }
}

fn expect_check(action: VerifyAction) -> PendingVerification {
    match action {
        VerifyAction::Respond(_) => panic!("expected a provider check"),
        VerifyAction::CheckCode(p) => p,
    }
}

fn check_verified_response(v: &Verifier, resp: &VerifyNumberResponse) {
    assert_eq!(resp.result, VerificationResult::Verified);
    // the signature verifies over the data under the verifier's public key
    let sig = sp_core::ed25519::Signature::from_raw(resp.signature.clone().try_into().unwrap());
    let public =
        sp_core::ed25519::Public::from_raw(v.public_key().try_into().unwrap());
    assert!(sp_core::ed25519::Pair::verify(&sig, &resp.data, &public));
    // the data decodes to evidence carrying the hash, never the raw number
    let evidence = decode_evidence(&resp.data).unwrap();
    assert_eq!(evidence.verifier_public_key, v.public_key());
    assert_eq!(evidence.account_id, client_pair().public().0.to_vec());
    assert_eq!(evidence.username, b"alice".to_vec());
    assert_eq!(
        evidence.phone_number_hash,
        sp_crypto_hashing::blake2_512(PHONE).to_vec()
    );
    assert!(!resp.data.windows(PHONE.len()).any(|w| w == PHONE));
}

#[test]
fn malformed_payload_is_missing_data() {
    let v = make_verifier();
    let req = VerifyNumberRequest { data: vec![10, 1, 1], signature: vec![] };
    let resp = expect_respond(v.handle_verify_request(&req));
    assert_eq!(resp.result, VerificationResult::MissingData);
    assert!(resp.data.is_empty());
    assert!(resp.signature.is_empty());
}

#[test]
fn empty_account_id_is_missing_data() {
    let v = make_verifier();
    let payload = VerifyNumberRequestData {
        timestamp: 1,
        account_id: Vec::new(),
        phone_number: PHONE.to_vec(),
        requested_user_name: b"alice".to_vec(),
        bypass_token: Vec::new(),
        verification_code: Vec::new(),
        verification_sid: Vec::new(),
    };
    let data = encode_request_data(&payload);
    let req = VerifyNumberRequest { data, signature: vec![0; 64] };
    let resp = expect_respond(v.handle_verify_request(&req));
    assert_eq!(resp.result, VerificationResult::MissingData);
}

#[test]
fn empty_user_name_is_missing_data() {
    let v = make_verifier();
    let pair = client_pair();
    let payload = VerifyNumberRequestData {
        timestamp: 1,
        account_id: client_address(&pair),
        phone_number: PHONE.to_vec(),
        requested_user_name: Vec::new(),
        bypass_token: Vec::new(),
        verification_code: Vec::new(),
        verification_sid: Vec::new(),
    };
    let data = encode_request_data(&payload);
    let signature = pair.sign(&data).0.to_vec();
    let resp = expect_respond(v.handle_verify_request(&VerifyNumberRequest { data, signature }));
    assert_eq!(resp.result, VerificationResult::MissingData);
}

#[test]
fn empty_phone_number_is_missing_data() {
    let v = make_verifier();
    let pair = client_pair();
    let payload = VerifyNumberRequestData {
        timestamp: 1,
        account_id: client_address(&pair),
        phone_number: Vec::new(),
        requested_user_name: b"alice".to_vec(),
        bypass_token: Vec::new(),
        verification_code: Vec::new(),
        verification_sid: Vec::new(),
    };
    let data = encode_request_data(&payload);
    let signature = pair.sign(&data).0.to_vec();
    let resp = expect_respond(v.handle_verify_request(&VerifyNumberRequest { data, signature }));
    assert_eq!(resp.result, VerificationResult::MissingData);
}

#[test]
fn bad_signature_is_invalid_signature() {
    let v = make_verifier();
    let mut req = signed_request(b"");
    req.signature[0] ^= 1;
    let resp = expect_respond(v.handle_verify_request(&req));
    assert_eq!(resp.result, VerificationResult::InvalidSignature);
    assert!(resp.data.is_empty());
    assert!(resp.signature.is_empty());
}

#[test]
fn short_signature_is_invalid_signature() {
    let v = make_verifier();
    let mut req = signed_request(b"");
    req.signature.truncate(10);
    let resp = expect_respond(v.handle_verify_request(&req));
    assert_eq!(resp.result, VerificationResult::InvalidSignature);
}

#[test]
fn signature_under_other_key_is_invalid_signature() {
    // a valid signature by a key that does not match the claimed account
    let v = make_verifier();
    let pair = client_pair();
    let other = sp_core::ed25519::Pair::from_seed(&[43u8; 32]);
    let payload = VerifyNumberRequestData {
        timestamp: 1,
        account_id: client_address(&pair),
        phone_number: PHONE.to_vec(),
        requested_user_name: b"alice".to_vec(),
        bypass_token: Vec::new(),
        verification_code: Vec::new(),
        verification_sid: Vec::new(),
    };
    let data = encode_request_data(&payload);
    let signature = other.sign(&data).0.to_vec();
    let resp = expect_respond(v.handle_verify_request(&VerifyNumberRequest { data, signature }));
    assert_eq!(resp.result, VerificationResult::InvalidSignature);
}

#[test]
fn unparsable_account_id_is_invalid_signature() {
    let v = make_verifier();
    let pair = client_pair();
    let payload = VerifyNumberRequestData {
        timestamp: 1,
        account_id: b"not an address".to_vec(),
        phone_number: PHONE.to_vec(),
        requested_user_name: b"alice".to_vec(),
        bypass_token: Vec::new(),
        verification_code: Vec::new(),
        verification_sid: Vec::new(),
    };
    let data = encode_request_data(&payload);
    let signature = pair.sign(&data).0.to_vec();
    let resp = expect_respond(v.handle_verify_request(&VerifyNumberRequest { data, signature }));
    assert_eq!(resp.result, VerificationResult::InvalidSignature);
}

#[test]
fn bypass_token_verifies_without_provider() {
    let v = make_verifier();
    let req = signed_request(BYPASS_SECRET);
    let resp = expect_respond(v.handle_verify_request(&req));
    check_verified_response(&v, &resp);
}

#[test]
fn wrong_bypass_token_defers_to_provider() {
    let v = make_verifier();
    let req = signed_request(b"wrong guess");
    let pending = expect_check(v.handle_verify_request(&req));
    assert_eq!(pending.phone_number, PHONE.to_vec());
    assert_eq!(pending.requested_user_name, b"alice".to_vec());
    assert_eq!(pending.verification_code, b"123456".to_vec());
    assert_eq!(pending.verification_sid, b"VE1234".to_vec());
    assert_eq!(pending.account_key, client_pair().public().0.to_vec());
}

#[test]
fn provider_approval_with_matching_session_verifies() {
    let v = make_verifier();
    let req = signed_request(b"");
    let pending = expect_check(v.handle_verify_request(&req));
    let outcome =
        OtpCheckOutcome::Checked { approved: true, session_id: b"VE1234".to_vec() };
    let resp = v.handle_otp_outcome(&pending, &outcome);
    check_verified_response(&v, &resp);
}

#[test]
fn provider_approval_with_session_mismatch_is_missing_data() {
    let v = make_verifier();
    let req = signed_request(b"");
    let pending = expect_check(v.handle_verify_request(&req));
    let outcome =
        OtpCheckOutcome::Checked { approved: true, session_id: b"VE9999".to_vec() };
    let resp = v.handle_otp_outcome(&pending, &outcome);
    assert_eq!(resp.result, VerificationResult::MissingData);
    assert!(resp.data.is_empty());
    assert!(resp.signature.is_empty());
}

#[test]
fn provider_decline_is_unverified() {
    let v = make_verifier();
    let req = signed_request(b"");
    let pending = expect_check(v.handle_verify_request(&req));
    let outcome =
        OtpCheckOutcome::Checked { approved: false, session_id: b"VE1234".to_vec() };
    let resp = v.handle_otp_outcome(&pending, &outcome);
    assert_eq!(resp.result, VerificationResult::Unverified);
    assert!(resp.data.is_empty());
    assert!(resp.signature.is_empty());
}

#[test]
fn provider_failure_is_unverified() {
    let v = make_verifier();
    let req = signed_request(b"");
    let pending = expect_check(v.handle_verify_request(&req));
    let resp = v.handle_otp_outcome(&pending, &OtpCheckOutcome::ProviderFailure);
    assert_eq!(resp.result, VerificationResult::Unverified);
    assert!(resp.data.is_empty());
    assert!(resp.signature.is_empty());
}

#[test]
fn repeated_requests_give_identical_responses() {
    let v = make_verifier();
    let req = signed_request(BYPASS_SECRET);
    let r1 = expect_respond(v.handle_verify_request(&req));
    let r2 = expect_respond(v.handle_verify_request(&req));
    assert_eq!(r1.result, r2.result);
    assert_eq!(r1.data, r2.data);
    assert_eq!(r1.signature, r2.signature);
    let req2 = signed_request(b"");
    let p1 = expect_check(v.handle_verify_request(&req2));
    let p2 = expect_check(v.handle_verify_request(&req2));
    let outcome =
        OtpCheckOutcome::Checked { approved: true, session_id: b"VE1234".to_vec() };
    let c1 = v.handle_otp_outcome(&p1, &outcome);
    let c2 = v.handle_otp_outcome(&p2, &outcome);
    assert_eq!(c1.result, c2.result);
    assert_eq!(c1.data, c2.data);
    assert_eq!(c1.signature, c2.signature);
}

#[test]
fn verifier_from_phrase_derives_identity() {
    let phrase = "bottom drive obey lake curtain smoke basket hold race lonely fit walk";
    let v = Verifier::from_phrase(phrase, "pw", BYPASS_SECRET.to_vec()).unwrap();
    let (pair, _) = sp_core::ed25519::Pair::from_phrase(phrase, Some("pw")).unwrap();
    assert_eq!(v.public_key(), pair.public().0.to_vec());
    assert!(Verifier::from_phrase("not a phrase", "pw", Vec::new()).is_none());
}

#[test]
fn verifier_rejects_wrong_seed_length() {
    assert!(phone_verifier::verify_number::Verifier::new(vec![7u8; 31], Vec::new()).is_none());
    assert!(phone_verifier::verify_number::Verifier::new(vec![7u8; 32], Vec::new()).is_some());
}
