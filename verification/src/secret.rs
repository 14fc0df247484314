//! Comparison of secrets in constant time.

use vstd::prelude::*;
use vstd::string::StringSliceAdditionalSpecFns;
use vstd::utf8::encode_utf8_decode_utf8;

verus! {

/// `subtle::ConstantTimeEq::ct_eq` on two byte slices, turned into a `bool`. Its source answers 1
/// exactly when both slices have the same length and the same bytes.
#[verifier::external_body]
fn constant_time_eq(left: &[u8], right: &[u8]) -> (r: bool)
    ensures
        r == (left@ == right@),
{
    bool::from(subtle::ConstantTimeEq::ct_eq(left, right))
}

/// Whether `candidate` equals `expected`, comparing their bytes in constant time once the
/// lengths agree.
pub fn secrets_match(expected: &str, candidate: &str) -> (r: bool)
    ensures
        r == (expected@ == candidate@),
{
    let left = expected.as_bytes();
    let right = candidate.as_bytes();
    proof {
        encode_utf8_decode_utf8(expected@);
        encode_utf8_decode_utf8(candidate@);
    }
    left.len() == right.len() && constant_time_eq(left, right)
}

} // verus!
