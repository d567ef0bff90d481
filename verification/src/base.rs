//! Base64 and Base32 text with the alphabets and padding of RFC 4648.

use vstd::prelude::*;

verus! {

/// The Base64 text that fast32's `RFC4648` alphabet encodes bytes to.
pub uninterp spec fn base64_text(bytes: Seq<u8>) -> Seq<u8>;

/// The bytes that fast32's Base64 `RFC4648` alphabet decodes a text to, and
/// nothing where it reports an error.
pub uninterp spec fn base64_bytes(text: Seq<u8>) -> Option<Seq<u8>>;

/// The Base32 text that fast32's `RFC4648` alphabet encodes bytes to.
pub uninterp spec fn base32_text(bytes: Seq<u8>) -> Seq<u8>;

/// The bytes that fast32's Base32 `RFC4648` alphabet decodes a text to, and
/// nothing where it reports an error.
pub uninterp spec fn base32_bytes(text: Seq<u8>) -> Option<Seq<u8>>;

/// A character that encoded text is made of: a letter, a digit, `+`, `/` or
/// the padding `=`.
pub open spec fn is_code_char(c: u8) -> bool {
    ||| 0x30 <= c <= 0x39
    ||| 0x41 <= c <= 0x5a
    ||| 0x61 <= c <= 0x7a
    ||| c == 0x2b
    ||| c == 0x2f
    ||| c == 0x3d
}

/// Every byte of `s` is a character of encoded text.
pub open spec fn is_code_text(s: Seq<u8>) -> bool {
    forall|i: int| 0 <= i < s.len() ==> is_code_char(#[trigger] s[i])
}

// The error that fast32 reports for text that it cannot decode.
#[verifier::external_type_specification]
#[verifier::external_body]
pub struct ExDecodeError(fast32::DecodeError);

/// Calls `encode` of `fast32::base64::RFC4648`. Its output is drawn from
/// `A`-`Z`, `a`-`z`, `0`-`9`, `+` and `/`, padded with `=`, and the crate's
/// decoder for the same alphabet gives the input back from it.
#[verifier::external_body]
pub(crate) fn base64_encode(bytes: &[u8]) -> (r: Vec<u8>)
    ensures
        r@ == base64_text(bytes@),
        is_code_text(r@),
        base64_bytes(r@) == Some(bytes@),
{
    fast32::base64::RFC4648.encode(bytes).into_bytes()
}

/// Calls `decode` of `fast32::base64::RFC4648`, which is what its `decode_str`
/// does with the bytes of a text.
#[verifier::external_body]
pub(crate) fn base64_decode(text: &[u8]) -> (r: Result<Vec<u8>, fast32::DecodeError>)
    ensures
        match r {
            Ok(bytes) => base64_bytes(text@) == Some(bytes@),
            Err(_) => base64_bytes(text@) is None,
        },
{
    fast32::base64::RFC4648.decode(text)
}

/// Calls `encode` of `fast32::base32::RFC4648`. Its output is drawn from
/// `A`-`Z` and `2`-`7`, padded with `=`, and the crate's decoder for the same
/// alphabet gives the input back from it.
#[verifier::external_body]
pub(crate) fn base32_encode(bytes: &[u8]) -> (r: Vec<u8>)
    ensures
        r@ == base32_text(bytes@),
        is_code_text(r@),
        base32_bytes(r@) == Some(bytes@),
{
    fast32::base32::RFC4648.encode(bytes).into_bytes()
}

/// Calls `decode` of `fast32::base32::RFC4648`, which is what its `decode_str`
/// does with the bytes of a text.
#[verifier::external_body]
pub(crate) fn base32_decode(text: &[u8]) -> (r: Result<Vec<u8>, fast32::DecodeError>)
    ensures
        match r {
            Ok(bytes) => base32_bytes(text@) == Some(bytes@),
            Err(_) => base32_bytes(text@) is None,
        },
{
    fast32::base32::RFC4648.decode(text)
}

} // verus!
