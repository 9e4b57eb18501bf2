//! Phone-number verification and attestation library.
//!
//! The library decodes and validates client-signed verification requests,
//! checks the detached request signature against the key derived from the
//! claimed account identifier, interprets the outcome of an out-of-band
//! one-time-code check, and produces a signed evidence record binding the
//! account to a hash of the verified phone number.

pub mod codec;
pub mod crypto;
pub mod envelope;
pub mod evidence;
pub mod results;
pub mod send_code;
pub mod verify_number;
pub mod wire;

pub use results::SendVerificationCodeResult;
pub use results::VerificationResult;
