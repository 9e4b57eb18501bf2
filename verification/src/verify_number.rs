//! The verify-number operation.
//!
//! A request moves through guarded stages, terminal on the first failure:
//! decode and structural validation, signature validation against the key
//! derived from the claimed account identifier, phone-ownership
//! confirmation (an operator bypass token, or the out-of-band code check),
//! and evidence signing. The signature is checked before any provider
//! contact, so unauthenticated requests never reach the code provider; the
//! whole pipeline is a pure function of the request, the verifier's
//! configuration, and the provider's answer.

use vstd::prelude::*;
use crate::codec::{
    decode_request_data, spec_decode_request_data, lemma_decoded_request_bounded, copy_range,
    RequestDataView,
};
use crate::crypto::{
    blake2_512_digest, blake2_512_of, ct_bytes_eq, ed25519_public_bytes, ed25519_public_of,
    ed25519_sign, ed25519_signature_of, ed25519_verifies, ed25519_verify, seed_from_phrase,
    seed_of_phrase, ss58_parse, ss58_parse_account,
};
use crate::evidence::{
    encode_evidence, spec_decode_evidence, spec_encode_evidence, lemma_evidence_codec_roundtrip,
    EvidenceView, VerificationEvidence,
};
use crate::results::VerificationResult;

verus! {

/// The SS58 address-format prefix of generic substrate addresses, the one
/// format accepted for account identifiers.
pub const SS58_GENERIC_PREFIX: u16 = 42;

/// Longest request payload accepted, so that every decoded field fits
/// behind a compact length prefix in the evidence encoding.
pub const MAX_REQUEST_LEN: u64 = 0xFFFF_FFFF;

/// A raw verification request: an opaque signed payload and a detached
/// signature over exactly those payload bytes.
pub struct VerifyNumberRequest {
    pub data: Vec<u8>,
    pub signature: Vec<u8>,
}

/// Mathematical image of `VerifyNumberRequest`.
pub struct RequestView {
    pub data: Seq<u8>,
    pub signature: Seq<u8>,
}

impl View for VerifyNumberRequest {
    type V = RequestView;

    open spec fn view(&self) -> RequestView {
        RequestView { data: self.data@, signature: self.signature@ }
    }
}

/// The response to a verification request. `data` holds the serialized
/// evidence and `signature` the verifier's signature over it exactly when
/// `result` is `Verified`; both are empty otherwise.
pub struct VerifyNumberResponse {
    pub data: Vec<u8>,
    pub signature: Vec<u8>,
    pub result: VerificationResult,
}

/// Mathematical image of `VerifyNumberResponse`.
pub struct ResponseView {
    pub data: Seq<u8>,
    pub signature: Seq<u8>,
    pub result: VerificationResult,
}

impl View for VerifyNumberResponse {
    type V = ResponseView;

    open spec fn view(&self) -> ResponseView {
        ResponseView { data: self.data@, signature: self.signature@, result: self.result }
    }
}

/// A request that passed structural and signature validation and now awaits
/// phone-ownership confirmation.
pub struct PendingVerification {
    /// Raw 32-byte account key decoded from the claimed account identifier.
    pub account_key: Vec<u8>,
    pub requested_user_name: Vec<u8>,
    pub phone_number: Vec<u8>,
    /// The one-time code the client submitted.
    pub verification_code: Vec<u8>,
    /// The provider session id the client submitted.
    pub verification_sid: Vec<u8>,
}

/// Mathematical image of `PendingVerification`.
pub struct PendingView {
    pub account_key: Seq<u8>,
    pub requested_user_name: Seq<u8>,
    pub phone_number: Seq<u8>,
    pub verification_code: Seq<u8>,
    pub verification_sid: Seq<u8>,
}

impl View for PendingVerification {
    type V = PendingView;

    open spec fn view(&self) -> PendingView {
        PendingView {
            account_key: self.account_key@,
            requested_user_name: self.requested_user_name@,
            phone_number: self.phone_number@,
            verification_code: self.verification_code@,
            verification_sid: self.verification_sid@,
        }
    }
}

/// What the one-time-code provider's answer came to, as plain values.
pub enum OtpCheckOutcome {
    /// The call failed: a transport error, a non-success status, or a
    /// response that could not be understood.
    ProviderFailure,
    /// The provider answered: whether it approved the code, and the session
    /// id its answer is for.
    Checked { approved: bool, session_id: Vec<u8> },
}

/// Mathematical image of `OtpCheckOutcome`.
pub enum OtpOutcomeView {
    ProviderFailure,
    Checked { approved: bool, session_id: Seq<u8> },
}

impl View for OtpCheckOutcome {
    type V = OtpOutcomeView;

    open spec fn view(&self) -> OtpOutcomeView {
        match self {
            OtpCheckOutcome::ProviderFailure => OtpOutcomeView::ProviderFailure,
            OtpCheckOutcome::Checked { approved, session_id } => OtpOutcomeView::Checked {
                approved: *approved,
                session_id: session_id@,
            },
        }
    }
}

/// What is to happen with a verification request.
pub enum VerifyAction {
    /// A terminal response; the code provider is not contacted.
    Respond(VerifyNumberResponse),
    /// The submitted code must be confirmed with the provider before the
    /// verification can complete.
    CheckCode(PendingVerification),
}

/// The account key an account identifier resolves to: the identifier must
/// be a well-formed SS58 address under the generic substrate prefix. The
/// key is derived from the identifier alone and is never taken from any
/// other request field.
pub open spec fn spec_account_key_of(account_id: Seq<u8>) -> Option<Seq<u8>> {
    match ss58_parse(account_id) {
        Some((key, prefix)) => if prefix == SS58_GENERIC_PREFIX {
            Some(key)
        } else {
            None
        },
        None => None,
    }
}

/// Whether the detached signature is acceptable: the account identifier
/// resolves to a key, the signature is 64 bytes, and it verifies over the
/// raw payload bytes under that key.
pub open spec fn spec_signature_accepted(
    account_id: Seq<u8>,
    data: Seq<u8>,
    signature: Seq<u8>,
) -> bool {
    &&& spec_account_key_of(account_id) is Some
    &&& signature.len() == 64
    &&& ed25519_verifies(spec_account_key_of(account_id).unwrap(), data, signature)
}

/// How a raw request is classified before any provider contact.
pub enum VerifyDecision {
    /// Malformed payload, or an empty account id, user name, or phone
    /// number: `MissingData`.
    RejectMissing,
    /// The signature does not verify under the derived key:
    /// `InvalidSignature`.
    RejectSignature,
    /// The bypass token matches the configured secret: verified without
    /// provider contact.
    Bypass(RequestDataView),
    /// Valid so far; the code must be confirmed with the provider.
    AwaitOtp(RequestDataView),
}

/// Classification of a raw request against the configured bypass secret;
/// the first failing guard decides.
pub open spec fn spec_classify_request(
    data: Seq<u8>,
    signature: Seq<u8>,
    bypass_secret: Seq<u8>,
) -> VerifyDecision {
    match spec_decode_request_data(data) {
        None => VerifyDecision::RejectMissing,
        Some(d) => {
            if d.account_id.len() == 0 || d.requested_user_name.len() == 0 || d.phone_number.len()
                == 0 {
                VerifyDecision::RejectMissing
            } else if !spec_signature_accepted(d.account_id, data, signature) {
                VerifyDecision::RejectSignature
            } else if d.bypass_token == bypass_secret {
                VerifyDecision::Bypass(d)
            } else {
                VerifyDecision::AwaitOtp(d)
            }
        },
    }
}

/// The pending state a validated payload gives rise to.
pub open spec fn spec_pending_of(d: RequestDataView) -> PendingView {
    PendingView {
        account_key: spec_account_key_of(d.account_id).unwrap(),
        requested_user_name: d.requested_user_name,
        phone_number: d.phone_number,
        verification_code: d.verification_code,
        verification_sid: d.verification_sid,
    }
}

/// A failure response: the given result, with no data and no signature.
pub open spec fn spec_failure_response(result: VerificationResult) -> ResponseView {
    ResponseView { data: Seq::empty(), signature: Seq::empty(), result }
}

/// The evidence issued for a confirmed verification: the verifier's public
/// key, the account key, the user name, and the one-way digest of the phone
/// number — never the phone number itself.
pub open spec fn spec_evidence_of(seed: Seq<u8>, p: PendingView) -> EvidenceView {
    EvidenceView {
        verifier_public_key: ed25519_public_of(seed),
        account_id: p.account_key,
        username: p.requested_user_name,
        phone_number_hash: blake2_512_of(p.phone_number),
    }
}

/// The verified response: canonically encoded evidence, the verifier's
/// signature over exactly those bytes, and the `Verified` result.
pub open spec fn spec_verified_response(seed: Seq<u8>, p: PendingView) -> ResponseView {
    ResponseView {
        data: spec_encode_evidence(spec_evidence_of(seed, p)),
        signature: ed25519_signature_of(seed, spec_encode_evidence(spec_evidence_of(seed, p))),
        result: VerificationResult::Verified,
    }
}

/// How a pending verification completes once the provider has answered:
/// provider failure or a declined code fail the request; an approval for a
/// session other than the one the client submitted is rejected as a
/// malformed submission; an approval for the right session yields signed
/// evidence.
pub open spec fn spec_otp_completion(
    seed: Seq<u8>,
    p: PendingView,
    o: OtpOutcomeView,
) -> ResponseView {
    match o {
        OtpOutcomeView::ProviderFailure => spec_failure_response(VerificationResult::Unverified),
        OtpOutcomeView::Checked { approved, session_id } => {
            if !approved {
                spec_failure_response(VerificationResult::Unverified)
            } else if session_id != p.verification_sid {
                spec_failure_response(VerificationResult::MissingData)
            } else {
                spec_verified_response(seed, p)
            }
        },
    }
}

/// The verifier's long-lived identity and configuration, derived once at
/// startup and read-only afterwards.
pub struct Verifier {
    /// 32-byte seed of the verifier's ed25519 signing identity.
    seed: Vec<u8>,
    /// Operator-configured secret whose presence in a request skips the
    /// live code check.
    bypass_token: Vec<u8>,
}

impl Verifier {
    /// The verifier's signing seed, as a mathematical value.
    pub closed spec fn spec_seed(&self) -> Seq<u8> {
        self.seed@
    }

    /// The configured bypass secret, as a mathematical value.
    pub closed spec fn spec_bypass_token(&self) -> Seq<u8> {
        self.bypass_token@
    }

    /// A usable verifier identity: the seed has the fixed ed25519 size.
    pub open spec fn wf(&self) -> bool {
        self.spec_seed().len() == 32
    }

    /// Builds a verifier identity from a raw 32-byte seed and the
    /// configured bypass secret; `None` exactly when the seed is not 32
    /// bytes. The seed is held privately: the verifier offers signing
    /// through its operations, never the key material itself.
    pub fn new(seed: Vec<u8>, bypass_token: Vec<u8>) -> (r: Option<Verifier>)
        ensures
            r is Some <==> seed@.len() == 32,
            r matches Some(v) ==> v.wf() && v.spec_seed() == seed@ && v.spec_bypass_token() == bypass_token@,
    {
        if seed.len() == 32 {
            Some(Verifier { seed, bypass_token })
        } else {
            None
        }
    }

    /// Derives the verifier identity from the configured mnemonic phrase
    /// and password; `None` exactly on an invalid phrase, a fatal startup
    /// condition for the caller.
    pub fn from_phrase(phrase: &str, password: &str, bypass_token: Vec<u8>) -> (r: Option<
        Verifier,
    >)
        ensures
            r is Some <==> seed_of_phrase(phrase@, password@) is Some,
            r matches Some(v) ==> v.wf() && Some(v.spec_seed()) == seed_of_phrase(phrase@, password@)
                && v.spec_bypass_token() == bypass_token@,
    {
        match seed_from_phrase(phrase, password) {
            Some(seed) => Some(Verifier { seed, bypass_token }),
            None => None,
        }
    }

    /// The verifier's raw public key, under which issued evidence
    /// signatures verify.
    pub fn public_key(&self) -> (r: Vec<u8>)
        requires
            self.wf(),
        ensures
            r@ == ed25519_public_of(self.spec_seed()),
            r@.len() == 32,
    {
        ed25519_public_bytes(&self.seed)
    }

    /// Builds and signs the evidence record for a confirmed verification.
    fn issue_evidence(&self, p: &PendingVerification) -> (resp: VerifyNumberResponse)
        requires
            self.wf(),
            p.account_key@.len() == 32,
            p.requested_user_name@.len() <= MAX_REQUEST_LEN,
        ensures
            resp@ == spec_verified_response(self.spec_seed(), p@),
            ed25519_verifies(ed25519_public_of(self.spec_seed()), resp.data@, resp.signature@),
            spec_decode_evidence(resp.data@) == Some(spec_evidence_of(self.spec_seed(), p@)),
    {
        let verifier_public_key = ed25519_public_bytes(&self.seed);
        let phone_number_hash = blake2_512_digest(&p.phone_number);
        let evidence = VerificationEvidence {
            verifier_public_key,
            account_id: copy_range(&p.account_key, 0, p.account_key.len()),
            username: copy_range(&p.requested_user_name, 0, p.requested_user_name.len()),
            phone_number_hash,
        };
        proof {
            assert(evidence.account_id@ =~= p.account_key@);
            assert(evidence.username@ =~= p.requested_user_name@);
            assert(evidence@ == spec_evidence_of(self.spec_seed(), p@));
            lemma_evidence_codec_roundtrip(evidence@);
        }
        let data = encode_evidence(&evidence);
        let signature = ed25519_sign(&self.seed, &data);
        VerifyNumberResponse { data, signature, result: VerificationResult::Verified }
    }

    /// Validates a raw request up to the point where the code provider
    /// would be needed: decodes and structurally validates the payload,
    /// checks the signature under the key derived from the account
    /// identifier, and either answers at once (failure, or success through
    /// the bypass token) or hands back the state the provider's answer will
    /// complete.
    pub fn handle_verify_request(&self, req: &VerifyNumberRequest) -> (r: VerifyAction)
        requires
            self.wf(),
            req.data@.len() <= MAX_REQUEST_LEN,
        ensures
            ({
                let c = spec_classify_request(req.data@, req.signature@, self.spec_bypass_token());
                match r {
                    VerifyAction::Respond(resp) => {
                        &&& !(c is AwaitOtp)
                        &&& (c is RejectMissing ==> resp@ == spec_failure_response(
                            VerificationResult::MissingData,
                        ))
                        &&& (c is RejectSignature ==> resp@ == spec_failure_response(
                            VerificationResult::InvalidSignature,
                        ))
                        &&& (c matches VerifyDecision::Bypass(d) ==> resp@
                            == spec_verified_response(self.spec_seed(), spec_pending_of(d))
                            && ed25519_verifies(
                            ed25519_public_of(self.spec_seed()),
                            resp.data@,
                            resp.signature@,
                        ) && spec_decode_evidence(resp.data@) == Some(
                            spec_evidence_of(self.spec_seed(), spec_pending_of(d)),
                        ))
                    },
                    VerifyAction::CheckCode(p) => {
                        &&& c matches VerifyDecision::AwaitOtp(d)
                        &&& p@ == spec_pending_of(d)
                        &&& p.account_key@.len() == 32
                        &&& p.requested_user_name@.len() <= MAX_REQUEST_LEN
                    },
                }
            }),
    {
        proof {
            lemma_decoded_request_bounded(req.data@);
        }
        let d = match decode_request_data(&req.data) {
            Some(d) => d,
            None => {
                return VerifyAction::Respond(failure_response(VerificationResult::MissingData));
            },
        };
        if d.account_id.len() == 0 || d.requested_user_name.len() == 0 || d.phone_number.len()
            == 0 {
            return VerifyAction::Respond(failure_response(VerificationResult::MissingData));
        }
        let account_key = match ss58_parse_account(&d.account_id) {
            Some((key, prefix)) => {
                if prefix == SS58_GENERIC_PREFIX {
                    key
                } else {
                    return VerifyAction::Respond(
                        failure_response(VerificationResult::InvalidSignature),
                    );
                }
            },
            None => {
                return VerifyAction::Respond(
                    failure_response(VerificationResult::InvalidSignature),
                );
            },
        };
        if req.signature.len() != 64 {
            return VerifyAction::Respond(failure_response(VerificationResult::InvalidSignature));
        }
        if !ed25519_verify(&req.signature, &req.data, &account_key) {
            return VerifyAction::Respond(failure_response(VerificationResult::InvalidSignature));
        }
        let bypass = ct_bytes_eq(&d.bypass_token, &self.bypass_token);
        let pending = PendingVerification {
            account_key,
            requested_user_name: d.requested_user_name,
            phone_number: d.phone_number,
            verification_code: d.verification_code,
            verification_sid: d.verification_sid,
        };
        if bypass {
            VerifyAction::Respond(self.issue_evidence(&pending))
        } else {
            VerifyAction::CheckCode(pending)
        }
    }

    /// Completes a pending verification from the provider's answer; mirrors
    /// `spec_otp_completion` exactly. On a `Verified` result the returned
    /// signature verifies over the returned data under the verifier's
    /// public key, and the data decodes back to the issued evidence.
    pub fn handle_otp_outcome(
        &self,
        pending: &PendingVerification,
        outcome: &OtpCheckOutcome,
    ) -> (resp: VerifyNumberResponse)
        requires
            self.wf(),
            pending.account_key@.len() == 32,
            pending.requested_user_name@.len() <= MAX_REQUEST_LEN,
        ensures
            resp@ == spec_otp_completion(self.spec_seed(), pending@, outcome@),
            resp@.result == VerificationResult::Verified ==> ed25519_verifies(
                ed25519_public_of(self.spec_seed()),
                resp.data@,
                resp.signature@,
            ) && spec_decode_evidence(resp.data@) == Some(
                spec_evidence_of(self.spec_seed(), pending@),
            ),
    {
        match outcome {
            OtpCheckOutcome::ProviderFailure => failure_response(VerificationResult::Unverified),
            OtpCheckOutcome::Checked { approved, session_id } => {
                if !*approved {
                    failure_response(VerificationResult::Unverified)
                } else if !ct_bytes_eq(session_id, &pending.verification_sid) {
                    failure_response(VerificationResult::MissingData)
                } else {
                    self.issue_evidence(pending)
                }
            },
        }
    }
}

/// A response carrying only a failure result.
pub fn failure_response(result: VerificationResult) -> (resp: VerifyNumberResponse)
    ensures
        resp@ == spec_failure_response(result),
{
    let resp = VerifyNumberResponse { data: Vec::new(), signature: Vec::new(), result };
    proof {
        assert(resp.data@ =~= Seq::<u8>::empty());
        assert(resp.signature@ =~= Seq::<u8>::empty());
    }
    resp
}

/// A request whose payload is malformed, or misses the account id, user
/// name, or phone number, is classified `MissingData`, and the code
/// provider is never contacted for it.
pub proof fn lemma_incomplete_request_rejected(data: Seq<u8>, signature: Seq<u8>, secret: Seq<u8>)
    requires
        spec_decode_request_data(data) is None || (spec_decode_request_data(data)
            matches Some(d) && (d.account_id.len() == 0 || d.requested_user_name.len() == 0
            || d.phone_number.len() == 0)),
    ensures
        spec_classify_request(data, signature, secret) is RejectMissing,
{
}

/// A request whose signature does not verify under the key derived from its
/// account identifier is classified `InvalidSignature`, and the code
/// provider is never contacted for it.
pub proof fn lemma_unsigned_request_rejected(data: Seq<u8>, signature: Seq<u8>, secret: Seq<u8>)
    requires
        spec_decode_request_data(data) matches Some(d) && d.account_id.len() > 0
            && d.requested_user_name.len() > 0 && d.phone_number.len() > 0
            && !spec_signature_accepted(d.account_id, data, signature),
    ensures
        spec_classify_request(data, signature, secret) is RejectSignature,
{
}

/// A structurally valid, correctly signed request whose bypass token equals
/// the configured secret is verified without provider contact, and its
/// evidence carries the digest of the submitted phone number.
pub proof fn lemma_bypass_skips_provider(data: Seq<u8>, signature: Seq<u8>, secret: Seq<u8>)
    requires
        spec_decode_request_data(data) matches Some(d) && d.account_id.len() > 0
            && d.requested_user_name.len() > 0 && d.phone_number.len() > 0
            && spec_signature_accepted(d.account_id, data, signature) && d.bypass_token == secret,
    ensures
        spec_classify_request(data, signature, secret) matches VerifyDecision::Bypass(d) && (
        forall|seed: Seq<u8>|
            spec_verified_response(seed, spec_pending_of(d)).result
                == VerificationResult::Verified && spec_evidence_of(
                seed,
                #[trigger] spec_pending_of(d),
            ).phone_number_hash == blake2_512_of(d.phone_number)),
{
}

/// An approval the provider reports for a session id other than the one
/// the client submitted completes as `MissingData`: session confusion is
/// rejected, not verified.
pub proof fn lemma_session_mismatch_rejected(
    seed: Seq<u8>,
    p: PendingView,
    session_id: Seq<u8>,
)
    requires
        session_id != p.verification_sid,
    ensures
        spec_otp_completion(
            seed,
            p,
            OtpOutcomeView::Checked { approved: true, session_id },
        ) == spec_failure_response(VerificationResult::MissingData),
{
}

/// A failed provider call, or a declined code, completes as `Unverified`
/// with no evidence: the data and signature of the response are empty.
pub proof fn lemma_provider_failure_rejected(seed: Seq<u8>, p: PendingView, o: OtpOutcomeView)
    requires
        o is ProviderFailure || (o matches OtpOutcomeView::Checked { approved, .. } && !approved),
    ensures
        spec_otp_completion(seed, p, o) == spec_failure_response(VerificationResult::Unverified),
        spec_otp_completion(seed, p, o).data.len() == 0,
        spec_otp_completion(seed, p, o).signature.len() == 0,
{
}

/// An approval for the session the client submitted completes as
/// `Verified`, with the evidence for exactly this pending request.
pub proof fn lemma_approval_verifies(seed: Seq<u8>, p: PendingView, o: OtpOutcomeView)
    requires
        o matches OtpOutcomeView::Checked { approved, session_id } && approved && session_id
            == p.verification_sid,
    ensures
        spec_otp_completion(seed, p, o) == spec_verified_response(seed, p),
        spec_otp_completion(seed, p, o).result == VerificationResult::Verified,
        spec_evidence_of(seed, p).phone_number_hash == blake2_512_of(p.phone_number),
        spec_evidence_of(seed, p).username == p.requested_user_name,
{
}

/// Verified evidence decodes back from the response data: it carries the
/// verifier's public key, the account key, the user name, and the digest of
/// the phone number. The record has no field for the raw phone number; it
/// enters the evidence only through the one-way digest.
pub proof fn lemma_verified_response_evidence(seed: Seq<u8>, p: PendingView)
    requires
        p.account_key.len() == 32,
        p.requested_user_name.len() <= MAX_REQUEST_LEN,
        ed25519_public_of(seed).len() == 32,
        blake2_512_of(p.phone_number).len() == 64,
    ensures
        spec_decode_evidence(spec_verified_response(seed, p).data) == Some(
            spec_evidence_of(seed, p),
        ),
{
    lemma_evidence_codec_roundtrip(spec_evidence_of(seed, p));
}

/// Repeating a verification is idempotent in its classification: the same
/// request bytes, signature, and configured secret classify the same way,
/// and the same pending state with the same provider answer completes to
/// the same response. The pipeline keeps no state of its own, so replay
/// protection, where wanted, belongs to the provider session or a
/// downstream layer.
pub proof fn lemma_verification_idempotent(
    data: Seq<u8>,
    signature: Seq<u8>,
    secret: Seq<u8>,
    seed: Seq<u8>,
    p: PendingView,
    o: OtpOutcomeView,
    r1: ResponseView,
    r2: ResponseView,
)
    requires
        r1 == spec_otp_completion(seed, p, o),
        r2 == spec_otp_completion(seed, p, o),
    ensures
        spec_classify_request(data, signature, secret) == spec_classify_request(
            data,
            signature,
            secret,
        ),
        r1 == r2,
{
}

} // verus!
