//! Base64, as the `base64` crate computes it.

use base64::Engine;
use vstd::prelude::*;

verus! {

/// The longest input that is handed to the encoder: the text it allocates
/// for more than this need not fit the address space.
pub const MAX_BASE64_INPUT: usize = 0x4000_0000;

/// What the standard engine's `encode` returns for `data`.
pub uninterp spec fn base64_standard(data: Seq<u8>) -> Seq<char>;

/// What the standard engine's `decode` returns for `text`, with the error
/// left out.
pub uninterp spec fn base64_standard_decoded(text: Seq<char>) -> Option<Seq<u8>>;

/// What the URL-safe engine without padding returns from `encode` for `data`.
pub uninterp spec fn base64_url_unpadded(data: Seq<u8>) -> Seq<char>;

/// A character of the standard alphabet, or the padding character.
pub open spec fn is_standard_char(c: char) -> bool {
    let v = c as u32;
    65 <= v <= 90 || 97 <= v <= 122 || 48 <= v <= 57 || v == 43 || v == 47 || v == 61
}

/// A character of the URL-safe alphabet.
pub open spec fn is_url_safe_char(c: char) -> bool {
    let v = c as u32;
    65 <= v <= 90 || 97 <= v <= 122 || 48 <= v <= 57 || v == 45 || v == 95
}

pub open spec fn all_standard(text: Seq<char>) -> bool {
    forall|i: int| 0 <= i < text.len() ==> is_standard_char(#[trigger] text[i])
}

pub open spec fn all_url_safe(text: Seq<char>) -> bool {
    forall|i: int| 0 <= i < text.len() ==> is_url_safe_char(#[trigger] text[i])
}

/// How long the padded base64 text of `n` bytes is: four characters for
/// every three bytes or part of three.
pub open spec fn padded_length(n: nat) -> nat {
    (n + 2) / 3 * 4
}

/// How long the base64 text of `n` bytes is without padding.
pub open spec fn unpadded_length(n: nat) -> nat {
    (n * 4 + 2) / 3
}

/// `Engine::encode` of `base64::engine::general_purpose::STANDARD`.
///
/// Believed: the result depends on the input alone, and the same engine's
/// `decode` gives the input back from it; it is as long as the crate's
/// `encoded_len` says for a padded text and made of the standard alphabet
/// and the padding character. Inputs over [`MAX_BASE64_INPUT`] are left
/// out, as the crate panics where the length of the result overflows.
#[verifier::external_body]
pub(crate) fn encode_standard(data: &[u8]) -> (text: String)
    requires
        data@.len() <= MAX_BASE64_INPUT,
    ensures
        text@ == base64_standard(data@),
        base64_standard_decoded(text@) == Some(data@),
        text@.len() == padded_length(data@.len()),
        all_standard(text@),
{
    base64::engine::general_purpose::STANDARD.encode(data)
}

/// `Engine::decode` of `base64::engine::general_purpose::STANDARD`.
///
/// Believed: the result depends on the input alone, and, as this engine
/// asks for canonical padding and refuses trailing bits, it decodes no text
/// but the one that `encode` gives for the decoded bytes.
#[verifier::external_body]
pub(crate) fn decode_standard(text: &str) -> (r: Option<Vec<u8>>)
    ensures
        match r {
            Some(v) => base64_standard_decoded(text@) == Some(v@) && base64_standard(v@)
                == text@,
            None => base64_standard_decoded(text@) is None,
        },
{
    base64::engine::general_purpose::STANDARD.decode(text).ok()
}

/// `Engine::encode` of `base64::engine::general_purpose::URL_SAFE_NO_PAD`.
///
/// Believed: the result depends on the input alone; it is as long as the
/// crate's `encoded_len` says for a text without padding and made of the
/// URL-safe alphabet.
#[verifier::external_body]
pub(crate) fn encode_url_unpadded(data: &[u8]) -> (text: String)
    requires
        data@.len() <= MAX_BASE64_INPUT,
    ensures
        text@ == base64_url_unpadded(data@),
        text@.len() == unpadded_length(data@.len()),
        all_url_safe(text@),
{
    base64::engine::general_purpose::URL_SAFE_NO_PAD.encode(data)
}

} // verus!
