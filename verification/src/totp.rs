//! Time-based one-time passwords through otpauth.

use vstd::prelude::*;

verus! {

/// Width in seconds of the window in which a TOTP code is taken as
/// current; codes rotate once per window.
pub const TOTP_CODE_VALIDITY_PERIOD: u64 = 30;

/// Whether `code` is the TOTP code for `secret` in the window of width
/// `period` that contains `timestamp`. Names the outcome of otpauth's
/// `TOTP::verify`, a function of these arguments alone.
pub uninterp spec fn totp_code_matches(
    secret: Seq<u8>,
    code: u32,
    period: u64,
    timestamp: u64,
) -> bool;

/// The RFC 4648 base32 encoding, without padding, of the bytes. Names the
/// outcome of otpauth's `TOTP::base32_secret`.
pub uninterp spec fn base32_encoding(secret: Seq<u8>) -> Seq<char>;

/// Relies on otpauth's `TOTP::verify`: deterministic in the secret, the
/// code, the period and the timestamp. A period of zero would divide by
/// zero inside `TOTP::generate`, so it is ruled out.
#[verifier::external_body]
pub(crate) fn totp_verify(secret: &Vec<u8>, code: u32, period: u64, timestamp: u64) -> (r: bool)
    requires
        period > 0,
    ensures
        r == totp_code_matches(secret@, code, period, timestamp),
{
    otpauth::TOTP::from_bytes(secret).verify(code, period, timestamp)
}

/// Relies on otpauth's `TOTP::base32_secret`: RFC 4648 base32 without
/// padding, whose length is the byte length times eight, divided by five
/// and rounded up.
#[verifier::external_body]
pub(crate) fn totp_base32_secret(secret: &Vec<u8>) -> (r: String)
    ensures
        r@ == base32_encoding(secret@),
        r@.len() == (secret@.len() * 8 + 4) / 5,
{
    otpauth::TOTP::from_bytes(secret).base32_secret()
}

} // verus!
