use vstd::prelude::*;

verus! {

/// The padded standard base64 text of `b`.
pub uninterp spec fn base64_of(b: Seq<u8>) -> Seq<char>;

/// Length of the padded base64 text of `n` bytes.
pub open spec fn base64_len(n: nat) -> nat {
    4 * ((n + 2) / 3)
}

/// Relies on base64's `Engine::encode` with the `general_purpose::STANDARD`
/// engine: the padded standard-alphabet text, four ASCII characters for each
/// started group of three bytes; it panics when that length overflows usize.
#[verifier::external_body]
fn standard_encode(b: &Vec<u8>) -> (r: String)
    requires
        base64_len(b@.len()) <= usize::MAX,
    ensures
        r@ == base64_of(b@),
        r@.len() == base64_len(b@.len()),
{
    base64::Engine::encode(&base64::engine::general_purpose::STANDARD, b)
}

/// Encodes proof bytes for transport as padded standard base64.
pub fn encode_proof(proof: &Vec<u8>) -> (r: String)
    requires
        base64_len(proof@.len()) <= usize::MAX,
    ensures
        r@ == base64_of(proof@),
        r@.len() == base64_len(proof@.len()),
{
    standard_encode(proof)
}

} // verus!
