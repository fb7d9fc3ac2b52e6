//! From the bytes that the remote resource serves, in its legacy double-byte
//! encoding, to text.

use vstd::prelude::*;
use vstd::string::*;
use vstd::utf8::*;

verus! {

/// Why a page body could not be brought to text.
#[derive(Debug, PartialEq, Eq, Structural, Clone, Copy)]
pub enum EncodingError {
    /// The bytes are not valid in the legacy encoding.
    Source,
    /// The decoded text could not be written in the universal encoding.
    Target,
}

/// `core::str::Utf8Error`, of which nothing is read.
#[verifier::external_type_specification]
#[verifier::external_body]
pub struct ExUtf8Error(core::str::Utf8Error);

/// The text that `bytes` denote in the legacy encoding, read strictly: there
/// is none where any byte sequence in them is invalid or incomplete.
pub uninterp spec fn legacy_text(bytes: Seq<u8>) -> Option<Seq<char>>;

/// `encoding::Encoding::decode` of `encoding::all::GBK` with
/// `DecoderTrap::Strict`. The decoder is a fixed state machine over the
/// bytes, so what it returns is a function of them; the contract gives that
/// function its name and says nothing of its values.
#[verifier::external_body]
fn decode_legacy(bytes: &[u8]) -> (decoded: Option<String>)
    ensures
        decoded matches Some(text) ==> legacy_text(bytes@) == Some(text@),
        decoded is None ==> legacy_text(bytes@) is None,
{
    encoding::Encoding::decode(encoding::all::GBK, bytes, encoding::DecoderTrap::Strict).ok()
}

/// `encoding::Encoding::encode` of `encoding::all::UTF_8` with
/// `EncoderTrap::Strict`. That encoder copies the bytes of its input and
/// reports no error, so the call succeeds with the UTF-8 form of `text`.
#[verifier::external_body]
fn encode_universal(text: &str) -> (encoded: Option<Vec<u8>>)
    ensures
        encoded is Some,
        encoded matches Some(bytes) ==> bytes@ == encode_utf8(text@),
{
    encoding::Encoding::encode(encoding::all::UTF_8, text, encoding::EncoderTrap::Strict).ok()
}

/// `core::str::from_utf8` succeeds exactly on valid UTF-8, and the string
/// slice it gives is made of the bytes it was given.
pub assume_specification[ core::str::from_utf8 ](bytes: &[u8]) -> (text: Result<
    &str,
    core::str::Utf8Error,
>)
    ensures
        text is Ok <==> valid_utf8(bytes@),
        text matches Ok(s) ==> s.spec_bytes() == bytes@,
;

/// Writes `decoded` in the universal encoding and reads the bytes back as
/// text. Both steps are checked; neither can fail on text, so the outcome
/// is the text itself.
pub fn universal_text(decoded: &str) -> (outcome: Result<String, EncodingError>)
    ensures
        outcome matches Ok(out) && out@ == decoded@,
{
    let encoded = match encode_universal(decoded) {
        Some(bytes) => bytes,
        None => {
            return Err(EncodingError::Target);
        },
    };
    proof {
        encode_utf8_valid_utf8(decoded@);
        encode_utf8_decode_utf8(decoded@);
    }
    match core::str::from_utf8(encoded.as_slice()) {
        Ok(text) => {
            proof {
                encode_utf8_decode_utf8(text@);
            }
            Ok(text.to_owned())
        },
        Err(_) => Err(EncodingError::Target),
    }
}

/// Decodes `bytes` from the legacy encoding and writes the text anew in the
/// universal one. Only bytes that are invalid in the legacy encoding make
/// this fail.
pub fn transcode(bytes: &[u8]) -> (outcome: Result<String, EncodingError>)
    ensures
        match legacy_text(bytes@) {
            Some(text) => outcome matches Ok(out) && out@ == text,
            None => outcome == Err::<String, EncodingError>(EncodingError::Source),
        },
{
    match decode_legacy(bytes) {
        Some(decoded) => universal_text(decoded.as_str()),
        None => Err(EncodingError::Source),
    }
}

} // verus!
