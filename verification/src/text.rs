//! Small string helpers shared by the engines.

use vstd::prelude::*;

verus! {

/// Relies on std's string formatting: the result is exactly the characters
/// of `a` followed by the characters of `b`.
#[verifier::external_body]
pub(crate) fn concat(a: &str, b: &str) -> (r: String)
    ensures
        r@ == a@ + b@,
{
    format!("{a}{b}")
}

/// The sequence with every trailing line feed or carriage return removed.
pub open spec fn trim_crlf_seq(s: Seq<char>) -> Seq<char>
    decreases s.len(),
{
    if s.len() > 0 && (s.last() == '\n' || s.last() == '\r') {
        trim_crlf_seq(s.drop_last())
    } else {
        s
    }
}

/// Relies on std's `str::trim_end_matches` with the pattern `['\n', '\r']`:
/// it strips exactly the trailing run of those two characters.
#[verifier::external_body]
pub(crate) fn trim_crlf(s: &str) -> (r: &str)
    ensures
        r@ == trim_crlf_seq(s@),
{
    s.trim_end_matches(['\n', '\r'])
}

} // verus!
