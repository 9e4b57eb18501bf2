use phone_verifier::results::{SendVerificationCodeResult, VerificationResult};

const ALL_RESULTS: [VerificationResult; 7] = [
    VerificationResult::Unspecified,
    VerificationResult::UserNameTaken,
    VerificationResult::Verified,
    VerificationResult::Unverified,
    VerificationResult::MissingData,
    VerificationResult::InvalidSignature,
    VerificationResult::AccountMismatch,
];

#[test]
fn result_names_are_stable() {
    assert_eq!(
        VerificationResult::Unspecified.as_str_name(),
        "VERIFICATION_RESULT_UNSPECIFIED"
    );
    assert_eq!(
        VerificationResult::UserNameTaken.as_str_name(),
        "VERIFICATION_RESULT_USER_NAME_TAKEN"
    );
    assert_eq!(VerificationResult::Verified.as_str_name(), "VERIFICATION_RESULT_VERIFIED");
    assert_eq!(
        VerificationResult::Unverified.as_str_name(),
        "VERIFICATION_RESULT_UNVERIFIED"
    );
    assert_eq!(
        VerificationResult::MissingData.as_str_name(),
        "VERIFICATION_RESULT_MISSING_DATA"
    );
    assert_eq!(
        VerificationResult::InvalidSignature.as_str_name(),
        "VERIFICATION_RESULT_INVALID_SIGNATURE"
    );
    assert_eq!(
        VerificationResult::AccountMismatch.as_str_name(),
        "VERIFICATION_RESULT_ACCOUNT_MISMATCH"
    );
}

#[test]
fn result_names_round_trip() {
    for r in ALL_RESULTS {
        assert_eq!(VerificationResult::from_str_name(r.as_str_name()), Some(r));
    }
    assert_eq!(VerificationResult::from_str_name("SOMETHING_ELSE"), None);
}

#[test]
fn result_codes_round_trip() {
    for (i, r) in ALL_RESULTS.iter().enumerate() {
        assert_eq!(r.code(), i as u64);
        assert_eq!(VerificationResult::from_code(i as u64), Some(*r));
    }
    assert_eq!(VerificationResult::from_code(7), None);
}

#[test]
fn send_result_codes_round_trip() {
    let all = [
        SendVerificationCodeResult::Sent,
        SendVerificationCodeResult::Failed,
        SendVerificationCodeResult::InvalidUserData,
    ];
    for (i, r) in all.iter().enumerate() {
        assert_eq!(r.code(), i as u64);
        assert_eq!(SendVerificationCodeResult::from_code(i as u64), Some(*r));
    }
    assert_eq!(SendVerificationCodeResult::from_code(3), None);
}
