use phone_verifier::codec::{decode_request_data, encode_request_data, VerifyNumberRequestData};

fn data(
    timestamp: u64,
    account_id: &[u8],
    phone_number: &[u8],
    requested_user_name: &[u8],
    bypass_token: &[u8],
    verification_code: &[u8],
    verification_sid: &[u8],
) -> VerifyNumberRequestData {
    VerifyNumberRequestData {
        timestamp,
        account_id: account_id.to_vec(),
        phone_number: phone_number.to_vec(),
        requested_user_name: requested_user_name.to_vec(),
        bypass_token: bypass_token.to_vec(),
        verification_code: verification_code.to_vec(),
        verification_sid: verification_sid.to_vec(),
    }
}

fn assert_same(a: &VerifyNumberRequestData, b: &VerifyNumberRequestData) {
    assert_eq!(a.timestamp, b.timestamp);
    assert_eq!(a.account_id, b.account_id);
    assert_eq!(a.phone_number, b.phone_number);
    assert_eq!(a.requested_user_name, b.requested_user_name);
    assert_eq!(a.bypass_token, b.bypass_token);
    assert_eq!(a.verification_code, b.verification_code);
    assert_eq!(a.verification_sid, b.verification_sid);
}

#[test]
fn encode_small_payload_exact_bytes() {
    let d = data(1, b"A", b"B", b"C", b"", b"", b"");
    let bytes = encode_request_data(&d);
    assert_eq!(bytes, vec![8, 1, 18, 1, 65, 26, 1, 66, 34, 1, 67]);
}

#[test]
fn encode_omits_default_fields() {
    let d = data(0, b"", b"", b"", b"", b"", b"");
    assert_eq!(encode_request_data(&d), Vec::<u8>::new());
}

#[test]
fn decode_empty_payload_gives_defaults() {
    let d = decode_request_data(&vec![]).unwrap();
    assert_same(&d, &data(0, b"", b"", b"", b"", b"", b""));
}

#[test]
fn codec_round_trip_full_payload() {
    let d = data(
        1670000000,
        b"5GrwvaEF5zXb26Fz9rcQpDWS57CtERHpNehXCPcNoHGKutQY",
        b"+15551234567",
        b"alice",
        b"open sesame",
        b"123456",
        b"VE1234567890",
    );
    let decoded = decode_request_data(&encode_request_data(&d)).unwrap();
    assert_same(&decoded, &d);
}

#[test]
fn decode_multibyte_varint_timestamp() {
    // 300 = 0b100101100 -> 0xAC 0x02
    let d = decode_request_data(&vec![8, 0xAC, 0x02]).unwrap();
    assert_eq!(d.timestamp, 300);
}

#[test]
fn codec_round_trip_max_timestamp() {
    let d = data(u64::MAX, b"", b"", b"", b"", b"", b"");
    let bytes = encode_request_data(&d);
    assert_eq!(
        bytes,
        vec![8, 0xFF, 0xFF, 0xFF, 0xFF, 0xFF, 0xFF, 0xFF, 0xFF, 0xFF, 0x01]
    );
    assert_eq!(decode_request_data(&bytes).unwrap().timestamp, u64::MAX);
}

#[test]
fn decode_rejects_varint_overflow() {
    // one past u64::MAX
    let bytes = vec![8, 0xFF, 0xFF, 0xFF, 0xFF, 0xFF, 0xFF, 0xFF, 0xFF, 0xFF, 0x02];
    assert!(decode_request_data(&bytes).is_none());
}

#[test]
fn decode_rejects_unterminated_varint() {
    assert!(decode_request_data(&vec![8, 0x80]).is_none());
}

#[test]
fn decode_rejects_overlong_varint() {
    let mut bytes = vec![8];
    bytes.extend_from_slice(&[0x80; 10]);
    bytes.push(0x01);
    assert!(decode_request_data(&bytes).is_none());
}

#[test]
fn decode_last_occurrence_wins() {
    let bytes = vec![18, 1, 65, 18, 1, 66];
    let d = decode_request_data(&bytes).unwrap();
    assert_eq!(d.account_id, b"B".to_vec());
}

#[test]
fn decode_accepts_any_field_order() {
    let bytes = vec![26, 1, 66, 8, 7, 18, 1, 65];
    let d = decode_request_data(&bytes).unwrap();
    assert_eq!(d.timestamp, 7);
    assert_eq!(d.account_id, b"A".to_vec());
    assert_eq!(d.phone_number, b"B".to_vec());
}

#[test]
fn decode_skips_unknown_fields() {
    // field 8 as varint, field 9 length-delimited, field 10 as 32-bit,
    // field 11 as 64-bit, then a known field
    let bytes = vec![
        64, 5, // field 8, varint 5
        74, 2, 9, 9, // field 9, two bytes
        85, 1, 2, 3, 4, // field 10, fixed 32
        89, 1, 2, 3, 4, 5, 6, 7, 8, // field 11, fixed 64
        8, 3, // timestamp 3
    ];
    let d = decode_request_data(&bytes).unwrap();
    assert_eq!(d.timestamp, 3);
}

#[test]
fn decode_rejects_wrong_wire_type_for_known_field() {
    // timestamp as a length-delimited field
    assert!(decode_request_data(&vec![10, 1, 1]).is_none());
    // account id as a varint field
    assert!(decode_request_data(&vec![16, 1]).is_none());
}

#[test]
fn decode_rejects_field_number_zero() {
    assert!(decode_request_data(&vec![2, 1, 65]).is_none());
}

#[test]
fn decode_rejects_truncated_field() {
    assert!(decode_request_data(&vec![18, 5, 65]).is_none());
}

#[test]
fn decode_rejects_invalid_utf8_in_text_field() {
    assert!(decode_request_data(&vec![18, 1, 0xFF]).is_none());
}

#[test]
fn decode_accepts_arbitrary_bytes_in_bypass_token() {
    let d = decode_request_data(&vec![42, 2, 0xFF, 0x00]).unwrap();
    assert_eq!(d.bypass_token, vec![0xFF, 0x00]);
}

#[test]
fn equal_payloads_encode_identically() {
    let d1 = data(9, b"acct", b"+1555", b"bob", b"tok", b"0000", b"sid");
    let d2 = data(9, b"acct", b"+1555", b"bob", b"tok", b"0000", b"sid");
    assert_eq!(encode_request_data(&d1), encode_request_data(&d2));
}
