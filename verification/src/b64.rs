//! Base64 in the standard alphabet with padding, as the `Authorization`
//! header carries it.

use crate::text::text_from_utf8;
use base64::Engine;
use vstd::prelude::*;
use vstd::string::StringSliceAdditionalSpecFns;
use vstd::utf8::decode_utf8;
use vstd::utf8::valid_utf8;

verus! {

/// The base64 text that the standard engine writes for `bytes`.
pub uninterp spec fn base64_text(bytes: Seq<u8>) -> Seq<char>;

/// The bytes that the standard engine reads out of `text`, if it is base64.
pub uninterp spec fn base64_bytes(text: Seq<char>) -> Option<Seq<u8>>;

/// Why a token could not be decoded.
#[derive(Debug, Clone, Copy, PartialEq, Eq)]
pub enum DecodeError {
    /// The token is not base64 in the standard alphabet.
    NotBase64,
    /// The decoded bytes are not UTF-8.
    NotUtf8,
}

/// Calls `Engine::encode` of the base64 crate on its `STANDARD` engine. The
/// result is named, not described. The engine gives up where the length of
/// the output, four characters for every three bytes begun, does not fit
/// the machine, so such inputs are left out.
#[verifier::external_body]
fn encode_standard(input: &str) -> (text: String)
    requires
        input.spec_bytes().len() <= (usize::MAX / 4) * 3,
    ensures
        text@ == base64_text(input.spec_bytes()),
{
    base64::prelude::BASE64_STANDARD.encode(input.as_bytes())
}

/// Calls `Engine::decode` of the base64 crate on its `STANDARD` engine and
/// keeps the bytes where it succeeds. The result is named, not described.
#[verifier::external_body]
fn decode_standard(input: &str) -> (bytes: Option<Vec<u8>>)
    ensures
        match bytes {
            Some(b) => base64_bytes(input@) == Some(b@),
            None => base64_bytes(input@) is None,
        },
{
    base64::prelude::BASE64_STANDARD.decode(input.as_bytes()).ok()
}

/// The base64 text of the bytes of `input`.
pub fn encode(input: &str) -> (text: String)
    requires
        input.spec_bytes().len() <= (usize::MAX / 4) * 3,
    ensures
        text@ == base64_text(input.spec_bytes()),
{
    encode_standard(input)
}

/// The bytes that `input` stands for, where it is base64.
pub fn decode_bytes(input: &str) -> (bytes: Result<Vec<u8>, DecodeError>)
    ensures
        match bytes {
            Ok(b) => base64_bytes(input@) == Some(b@),
            Err(e) => base64_bytes(input@) is None && e == DecodeError::NotBase64,
        },
{
    match decode_standard(input) {
        Some(bytes) => Ok(bytes),
        None => Err(DecodeError::NotBase64),
    }
}

/// What `decode_string` owes for each outcome of the base64 decoding.
pub open spec fn decoded_text(decoded: Option<Seq<u8>>) -> Result<Seq<char>, DecodeError> {
    match decoded {
        None => Err(DecodeError::NotBase64),
        Some(bytes) => if valid_utf8(bytes) {
            Ok(decode_utf8(bytes))
        } else {
            Err(DecodeError::NotUtf8)
        },
    }
}

/// The bytes behind an outcome of the base64 decoding.
pub open spec fn decoded_view(decoded: Option<Vec<u8>>) -> Option<Seq<u8>> {
    match decoded {
        Some(bytes) => Some(bytes@),
        None => None,
    }
}

/// Reads decoded bytes as text.
pub fn text_of_decoded(decoded: Option<Vec<u8>>) -> (text: Result<String, DecodeError>)
    ensures
        match text {
            Ok(t) => decoded_text(decoded_view(decoded)) == Ok::<_, DecodeError>(t@),
            Err(e) => decoded_text(decoded_view(decoded)) == Err::<Seq<char>, _>(e),
        },
{
    match decoded {
        None => Err(DecodeError::NotBase64),
        Some(bytes) => match text_from_utf8(bytes) {
            Ok(text) => Ok(text),
            Err(_) => Err(DecodeError::NotUtf8),
        },
    }
}

/// The text that `input` stands for, where it is base64 of UTF-8.
pub fn decode_string(input: &str) -> (text: Result<String, DecodeError>)
    ensures
        match text {
            Ok(t) => decoded_text(base64_bytes(input@)) == Ok::<_, DecodeError>(t@),
            Err(e) => decoded_text(base64_bytes(input@)) == Err::<Seq<char>, _>(e),
        },
{
    text_of_decoded(decode_standard(input))
}

} // verus!
