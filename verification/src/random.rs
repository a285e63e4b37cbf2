//! Random material: token identities, recovery codes, TOTP secrets.

use rand::Rng;
use vstd::prelude::*;

verus! {

/// The alphabet of generated identifiers and recovery codes:
/// ASCII letters and digits.
pub open spec fn is_alphanumeric_char(c: char) -> bool {
    ('a' <= c && c <= 'z') || ('A' <= c && c <= 'Z') || ('0' <= c && c <= '9')
}

/// Every character of the sequence is an ASCII letter or digit.
pub open spec fn is_alphanumeric_seq(s: Seq<char>) -> bool {
    forall|i: int| 0 <= i < s.len() ==> is_alphanumeric_char(#[trigger] s[i])
}

/// Relies on rand's `Alphanumeric` distribution: every sampled byte is an
/// ASCII letter or digit, so the collected string has exactly `n` such
/// characters. Which characters come out depends on the thread's RNG and
/// is not specified.
#[verifier::external_body]
pub fn gen_alphanumeric(n: usize) -> (r: String)
    ensures
        r@.len() == n,
        is_alphanumeric_seq(r@),
{
    rand::thread_rng().sample_iter(rand::distributions::Alphanumeric).take(n).map(
        char::from,
    ).collect()
}

/// Relies on rand's `Rng::gen` for `[u8; 20]`: twenty bytes from the
/// thread's RNG; nothing about their values is promised.
#[verifier::external_body]
pub(crate) fn gen_secret_bytes() -> (r: Vec<u8>)
    ensures
        r@.len() == 20,
{
    rand::thread_rng().gen::<[u8; 20]>().to_vec()
}

} // verus!
