//! The send-verification-code operation.
//!
//! A one-step flow: a request with an empty mobile number is rejected
//! without provider contact; otherwise the out-of-band provider is asked to
//! deliver a code over the configured channel, and its answer maps to
//! `Sent` with the provider session id, or to `Failed` with a message
//! naming what went wrong.

use vstd::prelude::*;
use crate::results::SendVerificationCodeResult;

verus! {

/// A request to send a one-time code to a mobile number.
pub struct SendVerificationCodeRequest {
    pub mobile_number: String,
}

/// The response: the outcome, the provider session id on success, and an
/// error message on failure.
pub struct SendVerificationCodeResponse {
    pub result: SendVerificationCodeResult,
    pub session_id: String,
    pub error_message: String,
}

/// Mathematical image of `SendVerificationCodeResponse`.
pub struct SendResponseView {
    pub result: SendVerificationCodeResult,
    pub session_id: Seq<char>,
    pub error_message: Seq<char>,
}

impl View for SendVerificationCodeResponse {
    type V = SendResponseView;

    open spec fn view(&self) -> SendResponseView {
        SendResponseView {
            result: self.result,
            session_id: self.session_id@,
            error_message: self.error_message@,
        }
    }
}

/// What the provider's answer to a delivery request came to, as plain
/// values.
pub enum SendCodeOutcome {
    /// The call itself failed: the provider could not be reached.
    TransportFailure,
    /// The provider answered with a non-success status.
    RejectedStatus,
    /// The provider's response could not be understood.
    MalformedResponse,
    /// Delivery was initiated under this provider session id.
    Accepted { session_id: String },
}

/// Mathematical image of `SendCodeOutcome`.
pub enum SendOutcomeView {
    TransportFailure,
    RejectedStatus,
    MalformedResponse,
    Accepted { session_id: Seq<char> },
}

impl View for SendCodeOutcome {
    type V = SendOutcomeView;

    open spec fn view(&self) -> SendOutcomeView {
        match self {
            SendCodeOutcome::TransportFailure => SendOutcomeView::TransportFailure,
            SendCodeOutcome::RejectedStatus => SendOutcomeView::RejectedStatus,
            SendCodeOutcome::MalformedResponse => SendOutcomeView::MalformedResponse,
            SendCodeOutcome::Accepted { session_id } => SendOutcomeView::Accepted {
                session_id: session_id@,
            },
        }
    }
}

/// What is to happen with a send-code request.
pub enum SendCodeAction {
    /// A terminal response; the provider is not contacted.
    Respond(SendVerificationCodeResponse),
    /// The provider must be asked to deliver a code to this number over
    /// this channel.
    CallProvider { mobile_number: String, channel: String },
}

/// The rejection of a request with an empty mobile number.
pub open spec fn spec_send_rejection() -> SendResponseView {
    SendResponseView {
        result: SendVerificationCodeResult::InvalidUserData,
        session_id: Seq::empty(),
        error_message: "Missing mobile number"@,
    }
}

/// The response each provider answer maps to.
pub open spec fn spec_send_completion(o: SendOutcomeView) -> SendResponseView {
    match o {
        SendOutcomeView::TransportFailure => SendResponseView {
            result: SendVerificationCodeResult::Failed,
            session_id: Seq::empty(),
            error_message: "Failed to call code verifier api"@,
        },
        SendOutcomeView::RejectedStatus => SendResponseView {
            result: SendVerificationCodeResult::Failed,
            session_id: Seq::empty(),
            error_message: "Code verifier failed to send"@,
        },
        SendOutcomeView::MalformedResponse => SendResponseView {
            result: SendVerificationCodeResult::Failed,
            session_id: Seq::empty(),
            error_message: "Unexpected code verifier api response"@,
        },
        SendOutcomeView::Accepted { session_id } => SendResponseView {
            result: SendVerificationCodeResult::Sent,
            session_id,
            error_message: Seq::empty(),
        },
    }
}

/// Validates a send-code request: an empty mobile number is rejected as
/// `InvalidUserData` and the provider is never contacted; any other number
/// is handed on for delivery over the out-of-band channel.
pub fn prepare_send_code(req: &SendVerificationCodeRequest) -> (r: SendCodeAction)
    ensures
        req.mobile_number@.len() == 0 ==> (r matches SendCodeAction::Respond(resp) && resp@
            == spec_send_rejection()),
        req.mobile_number@.len() > 0 ==> (r matches SendCodeAction::CallProvider {
            mobile_number,
            channel,
        } && mobile_number@ == req.mobile_number@ && channel@ == "whatsapp"@),
{
    if req.mobile_number.as_str().is_empty() {
        let resp = SendVerificationCodeResponse {
            result: SendVerificationCodeResult::InvalidUserData,
            session_id: String::new(),
            error_message: "Missing mobile number".to_owned(),
        };
        SendCodeAction::Respond(resp)
    } else {
        SendCodeAction::CallProvider {
            mobile_number: req.mobile_number.as_str().to_owned(),
            channel: "whatsapp".to_owned(),
        }
    }
}

/// Maps the provider's answer to the client-facing response; mirrors
/// `spec_send_completion` exactly.
pub fn complete_send_code(outcome: SendCodeOutcome) -> (resp: SendVerificationCodeResponse)
    ensures
        resp@ == spec_send_completion(outcome@),
{
    match outcome {
        SendCodeOutcome::TransportFailure => SendVerificationCodeResponse {
            result: SendVerificationCodeResult::Failed,
            session_id: String::new(),
            error_message: "Failed to call code verifier api".to_owned(),
        },
        SendCodeOutcome::RejectedStatus => SendVerificationCodeResponse {
            result: SendVerificationCodeResult::Failed,
            session_id: String::new(),
            error_message: "Code verifier failed to send".to_owned(),
        },
        SendCodeOutcome::MalformedResponse => SendVerificationCodeResponse {
            result: SendVerificationCodeResult::Failed,
            session_id: String::new(),
            error_message: "Unexpected code verifier api response".to_owned(),
        },
        SendCodeOutcome::Accepted { session_id } => SendVerificationCodeResponse {
            result: SendVerificationCodeResult::Sent,
            session_id,
            error_message: String::new(),
        },
    }
}

} // verus!
