//! Outcome enumerations for the two verifier operations.

use vstd::prelude::*;

verus! {

/// Outcome of a `VerifyNumber` request. Exactly one value is set per
/// response; `Verified` is the only outcome in which the response carries
/// evidence data and a signature.
#[derive(Clone, Copy, PartialEq, Eq, Structural, Debug)]
pub enum VerificationResult {
    Unspecified,
    /// There is already a user with the requested user name.
    UserNameTaken,
    /// The account's ownership of the phone number was confirmed.
    Verified,
    /// The one-time-code provider declined the code or could not be reached.
    Unverified,
    /// The request is structurally invalid or incomplete.
    MissingData,
    /// The request signature does not verify under the claimed account's key.
    InvalidSignature,
    /// A different account is already associated with the phone number.
    AccountMismatch,
}

/// Outcome of a `SendVerificationCode` request.
#[derive(Clone, Copy, PartialEq, Eq, Structural, Debug)]
pub enum SendVerificationCodeResult {
    /// The provider accepted the request and delivery was initiated.
    Sent,
    /// The provider call failed or its response could not be understood.
    Failed,
    /// The request is missing the mobile number.
    InvalidUserData,
}

/// The wire tag of each `VerificationResult` value, as carried in the
/// response message's result field.
pub open spec fn spec_result_code(r: VerificationResult) -> u64 {
    match r {
        VerificationResult::Unspecified => 0,
        VerificationResult::UserNameTaken => 1,
        VerificationResult::Verified => 2,
        VerificationResult::Unverified => 3,
        VerificationResult::MissingData => 4,
        VerificationResult::InvalidSignature => 5,
        VerificationResult::AccountMismatch => 6,
    }
}

/// The outcome each numeric wire code names, if any.
pub open spec fn spec_result_from_code(c: u64) -> Option<VerificationResult> {
    if c == 0 {
        Some(VerificationResult::Unspecified)
    } else if c == 1 {
        Some(VerificationResult::UserNameTaken)
    } else if c == 2 {
        Some(VerificationResult::Verified)
    } else if c == 3 {
        Some(VerificationResult::Unverified)
    } else if c == 4 {
        Some(VerificationResult::MissingData)
    } else if c == 5 {
        Some(VerificationResult::InvalidSignature)
    } else if c == 6 {
        Some(VerificationResult::AccountMismatch)
    } else {
        None
    }
}

impl VerificationResult {
    /// The numeric code of this outcome on the wire.
    pub fn code(&self) -> (c: u64)
        ensures
            c == spec_result_code(*self),
    {
        match self {
            VerificationResult::Unspecified => 0,
            VerificationResult::UserNameTaken => 1,
            VerificationResult::Verified => 2,
            VerificationResult::Unverified => 3,
            VerificationResult::MissingData => 4,
            VerificationResult::InvalidSignature => 5,
            VerificationResult::AccountMismatch => 6,
        }
    }

    /// The outcome named by a numeric wire code, if any.
    pub fn from_code(c: u64) -> (r: Option<VerificationResult>)
        ensures
            r == spec_result_from_code(c),
            r matches Some(v) ==> spec_result_code(v) == c,
            r is None <==> c > 6,
    {
        match c {
            0 => Some(VerificationResult::Unspecified),
            1 => Some(VerificationResult::UserNameTaken),
            2 => Some(VerificationResult::Verified),
            3 => Some(VerificationResult::Unverified),
            4 => Some(VerificationResult::MissingData),
            5 => Some(VerificationResult::InvalidSignature),
            6 => Some(VerificationResult::AccountMismatch),
            _ => None,
        }
    }
}

/// The wire tag of each `SendVerificationCodeResult` value.
pub open spec fn spec_send_result_code(r: SendVerificationCodeResult) -> u64 {
    match r {
        SendVerificationCodeResult::Sent => 0,
        SendVerificationCodeResult::Failed => 1,
        SendVerificationCodeResult::InvalidUserData => 2,
    }
}

impl SendVerificationCodeResult {
    /// The numeric code of this outcome on the wire.
    pub fn code(&self) -> (c: u64)
        ensures
            c == spec_send_result_code(*self),
    {
        match self {
            SendVerificationCodeResult::Sent => 0,
            SendVerificationCodeResult::Failed => 1,
            SendVerificationCodeResult::InvalidUserData => 2,
        }
    }

    /// The outcome named by a numeric wire code, if any.
    pub fn from_code(c: u64) -> (r: Option<SendVerificationCodeResult>)
        ensures
            r matches Some(v) ==> spec_send_result_code(v) == c,
            r is None <==> c > 2,
    {
        match c {
            0 => Some(SendVerificationCodeResult::Sent),
            1 => Some(SendVerificationCodeResult::Failed),
            2 => Some(SendVerificationCodeResult::InvalidUserData),
            _ => None,
        }
    }
}

/// The stable name of each `VerificationResult` value.
pub open spec fn spec_result_name(r: VerificationResult) -> Seq<char> {
    match r {
        VerificationResult::Unspecified => "VERIFICATION_RESULT_UNSPECIFIED"@,
        VerificationResult::UserNameTaken => "VERIFICATION_RESULT_USER_NAME_TAKEN"@,
        VerificationResult::Verified => "VERIFICATION_RESULT_VERIFIED"@,
        VerificationResult::Unverified => "VERIFICATION_RESULT_UNVERIFIED"@,
        VerificationResult::MissingData => "VERIFICATION_RESULT_MISSING_DATA"@,
        VerificationResult::InvalidSignature => "VERIFICATION_RESULT_INVALID_SIGNATURE"@,
        VerificationResult::AccountMismatch => "VERIFICATION_RESULT_ACCOUNT_MISMATCH"@,
    }
}

impl VerificationResult {
    /// String value of the enum field names used in the wire definition.
    pub fn as_str_name(&self) -> (r: &'static str)
        ensures
            r@ == spec_result_name(*self),
    {
        match self {
            VerificationResult::Unspecified => "VERIFICATION_RESULT_UNSPECIFIED",
            VerificationResult::UserNameTaken => "VERIFICATION_RESULT_USER_NAME_TAKEN",
            VerificationResult::Verified => "VERIFICATION_RESULT_VERIFIED",
            VerificationResult::Unverified => "VERIFICATION_RESULT_UNVERIFIED",
            VerificationResult::MissingData => "VERIFICATION_RESULT_MISSING_DATA",
            VerificationResult::InvalidSignature => "VERIFICATION_RESULT_INVALID_SIGNATURE",
            VerificationResult::AccountMismatch => "VERIFICATION_RESULT_ACCOUNT_MISMATCH",
        }
    }

    /// The enum value named by a wire field name, if any.
    pub fn from_str_name(value: &str) -> (r: Option<VerificationResult>)
        ensures
            r matches Some(v) ==> spec_result_name(v) == value@,
    {
        let v = value.to_owned();
        if v == "VERIFICATION_RESULT_UNSPECIFIED".to_owned() {
            Some(VerificationResult::Unspecified)
        } else if v == "VERIFICATION_RESULT_USER_NAME_TAKEN".to_owned() {
            Some(VerificationResult::UserNameTaken)
        } else if v == "VERIFICATION_RESULT_VERIFIED".to_owned() {
            Some(VerificationResult::Verified)
        } else if v == "VERIFICATION_RESULT_UNVERIFIED".to_owned() {
            Some(VerificationResult::Unverified)
        } else if v == "VERIFICATION_RESULT_MISSING_DATA".to_owned() {
            Some(VerificationResult::MissingData)
        } else if v == "VERIFICATION_RESULT_INVALID_SIGNATURE".to_owned() {
            Some(VerificationResult::InvalidSignature)
        } else if v == "VERIFICATION_RESULT_ACCOUNT_MISMATCH".to_owned() {
            Some(VerificationResult::AccountMismatch)
        } else {
            None
        }
    }
}

} // verus!
