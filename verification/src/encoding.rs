//! The wire encoding of snapshots: standard base64 without padding.

use vstd::prelude::*;

verus! {

/// The standard no-pad base64 encoding of a byte sequence. The encoding
/// is a pure function of the bytes; its inverse and its length are stated
/// on the trusted items below.
pub uninterp spec fn b64_of(bytes: Seq<u8>) -> Seq<char>;

/// Relies on base64's `STANDARD_NO_PAD` engine: `encode` is a function of
/// the input bytes alone, and the unpadded output holds 4 characters per
/// full 3-byte group plus 2 or 3 for a trailing group of 1 or 2 bytes
/// (base64::encoded_len).
#[verifier::external_body]
pub(crate) fn b64_encode(bytes: &Vec<u8>) -> (r: String)
    ensures
        r@ == b64_of(bytes@),
        r@.len() == 4 * (bytes@.len() / 3) + (if bytes@.len() % 3 == 0 {
            0int
        } else {
            bytes@.len() % 3 + 1int
        }),
{
    base64::Engine::encode(&base64::prelude::BASE64_STANDARD_NO_PAD, bytes)
}

#[verifier::external_type_specification]
#[verifier::external_body]
pub struct ExDecodeError(base64::DecodeError);

/// Relies on base64's `STANDARD_NO_PAD` engine: `decode` rejects padding
/// and non-canonical trailing bits, so it accepts exactly the canonical
/// unpadded encodings, and it inverts `encode`.
#[verifier::external_body]
pub(crate) fn b64_decode(s: &str) -> (r: Result<Vec<u8>, base64::DecodeError>)
    ensures
        r matches Ok(v) ==> s@ == b64_of(v@),
        (exists|d: Seq<u8>| s@ == b64_of(d)) ==> r is Ok,
        r matches Ok(v) ==> forall|d: Seq<u8>| s@ == b64_of(d) ==> v@ == d,
{
    base64::Engine::decode(&base64::prelude::BASE64_STANDARD_NO_PAD, s)
}

} // verus!
