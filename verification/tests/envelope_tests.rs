use phone_verifier::envelope::{
    decode_send_code_request, decode_verify_number_request, decode_verify_number_response,
    encode_send_code_request, encode_send_code_response, encode_verify_number_request,
    encode_verify_number_response,
};
use phone_verifier::results::{SendVerificationCodeResult, VerificationResult};
use phone_verifier::send_code::{SendVerificationCodeRequest, SendVerificationCodeResponse};
use phone_verifier::verify_number::{VerifyNumberRequest, VerifyNumberResponse};

#[test]
fn request_envelope_encode_exact_bytes() {
    let req = VerifyNumberRequest { data: vec![1, 2, 3], signature: vec![9] };
    let bytes = encode_verify_number_request(&req);
    assert_eq!(bytes, vec![10, 3, 1, 2, 3, 18, 1, 9]);
}

#[test]
fn request_envelope_round_trip() {
    let req = VerifyNumberRequest { data: vec![5; 40], signature: vec![7; 64] };
    let decoded = decode_verify_number_request(&encode_verify_number_request(&req)).unwrap();
    assert_eq!(decoded.data, req.data);
    assert_eq!(decoded.signature, req.signature);
}

#[test]
fn request_envelope_skips_unknown_fields() {
    let bytes = vec![24, 1, 10, 2, 8, 8];
    let decoded = decode_verify_number_request(&bytes).unwrap();
    assert_eq!(decoded.data, vec![8, 8]);
    assert!(decoded.signature.is_empty());
}

#[test]
fn request_envelope_rejects_wrong_wire_type() {
    assert!(decode_verify_number_request(&vec![8, 1]).is_none());
    assert!(decode_verify_number_request(&vec![16, 1]).is_none());
}

#[test]
fn request_envelope_rejects_truncation() {
    assert!(decode_verify_number_request(&vec![10, 5, 1]).is_none());
}

#[test]
fn response_encode_exact_bytes() {
    let resp = VerifyNumberResponse {
        data: vec![1, 2],
        signature: vec![3],
        result: VerificationResult::Verified,
    };
    let bytes = encode_verify_number_response(&resp);
    assert_eq!(bytes, vec![10, 2, 1, 2, 18, 1, 3, 24, 2]);
}

#[test]
fn failure_response_encode_omits_empty_fields() {
    let resp = VerifyNumberResponse {
        data: Vec::new(),
        signature: Vec::new(),
        result: VerificationResult::MissingData,
    };
    assert_eq!(encode_verify_number_response(&resp), vec![24, 4]);
}

#[test]
fn send_request_round_trip() {
    let req = SendVerificationCodeRequest { mobile_number: "+15551234567".to_owned() };
    let bytes = encode_send_code_request(&req);
    assert_eq!(bytes[0], 10);
    assert_eq!(bytes[1], 12);
    let decoded = decode_send_code_request(&bytes).unwrap();
    assert_eq!(decoded.mobile_number, "+15551234567");
}

#[test]
fn send_request_rejects_invalid_utf8() {
    assert!(decode_send_code_request(&vec![10, 1, 0xFF]).is_none());
}

#[test]
fn send_response_encode_exact_bytes() {
    let resp = SendVerificationCodeResponse {
        result: SendVerificationCodeResult::Failed,
        session_id: String::new(),
        error_message: "no".to_owned(),
    };
    let bytes = encode_send_code_response(&resp);
    assert_eq!(bytes, vec![16, 1, 26, 2, b'n', b'o']);
}

#[test]
fn send_response_sent_carries_session_id() {
    let resp = SendVerificationCodeResponse {
        result: SendVerificationCodeResult::Sent,
        session_id: "VE1".to_owned(),
        error_message: String::new(),
    };
    let bytes = encode_send_code_response(&resp);
    assert_eq!(bytes, vec![10, 3, b'V', b'E', b'1']);
}

#[test]
fn response_round_trip() {
    let resp = VerifyNumberResponse {
        data: vec![4; 100],
        signature: vec![5; 64],
        result: VerificationResult::Verified,
    };
    let decoded = decode_verify_number_response(&encode_verify_number_response(&resp)).unwrap();
    assert_eq!(decoded.data, resp.data);
    assert_eq!(decoded.signature, resp.signature);
    assert_eq!(decoded.result, resp.result);
}

#[test]
fn response_decode_defaults_to_unspecified() {
    let decoded = decode_verify_number_response(&Vec::new()).unwrap();
    assert!(decoded.data.is_empty());
    assert!(decoded.signature.is_empty());
    assert_eq!(decoded.result, VerificationResult::Unspecified);
}

#[test]
fn response_decode_rejects_unknown_result_code() {
    assert!(decode_verify_number_response(&vec![24, 9]).is_none());
}

#[test]
fn response_decode_rejects_wrong_wire_type() {
    // the result field carried length-delimited
    assert!(decode_verify_number_response(&vec![26, 1, 2]).is_none());
}
