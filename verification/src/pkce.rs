//! The code verifier and code challenge of a login with PKCE: the verifier
//! is random, the challenge is the hash of the verifier.

use crate::b64::{all_url_safe, base64_url_unpadded, encode_url_unpadded};
use crate::text::utf8_bytes;
use rand::Rng;
use sha2::Digest;
use vstd::prelude::*;
use vstd::utf8::encode_utf8;

verus! {

/// How many random bytes a code verifier is made of.
pub const VERIFIER_BYTES: usize = 32;

/// How many characters a code verifier has, and a code challenge too.
pub const CODE_LENGTH: usize = 43;

/// The SHA-256 digest of `data`.
pub uninterp spec fn sha256_digest(data: Seq<u8>) -> Seq<u8>;

/// `Rng::random` on `rand::rng()`: one byte of the thread's generator.
///
/// Nothing is believed of the byte.
#[verifier::external_body]
fn random_byte() -> u8 {
    rand::rng().random()
}

/// `Digest::digest` of `sha2::Sha256`.
///
/// Believed: the digest depends on the data alone and is 32 bytes long.
#[verifier::external_body]
fn sha256(data: &[u8]) -> (digest: Vec<u8>)
    ensures
        digest@ == sha256_digest(data@),
        digest@.len() == 32,
{
    sha2::Sha256::digest(data).to_vec()
}

/// The verifier made of the given random bytes.
pub open spec fn verifier_of(random: Seq<u8>) -> Seq<char> {
    base64_url_unpadded(random)
}

/// The challenge that belongs to a verifier.
pub open spec fn challenge_of(verifier: Seq<char>) -> Seq<char> {
    base64_url_unpadded(sha256_digest(encode_utf8(verifier)))
}

/// A text is a verifier: it is made of [`VERIFIER_BYTES`] bytes.
pub open spec fn is_verifier(text: Seq<char>) -> bool {
    exists|random: Seq<u8>| random.len() == VERIFIER_BYTES && text == verifier_of(random)
}

/// The verifier made of the given random bytes.
pub fn code_verifier_from(random: &[u8]) -> (verifier: String)
    requires
        random@.len() == VERIFIER_BYTES,
    ensures
        verifier@ == verifier_of(random@),
        is_verifier(verifier@),
        verifier@.len() == CODE_LENGTH,
        all_url_safe(verifier@),
{
    encode_url_unpadded(random)
}

/// A fresh verifier.
pub fn generate_code_verifier() -> (verifier: String)
    ensures
        is_verifier(verifier@),
        verifier@.len() == CODE_LENGTH,
        all_url_safe(verifier@),
{
    let mut random: Vec<u8> = Vec::new();
    let mut i: usize = 0;
    while i < VERIFIER_BYTES
        invariant
            0 <= i <= VERIFIER_BYTES,
            random@.len() == i,
        decreases VERIFIER_BYTES - i,
    {
        random.push(random_byte());
        i = i + 1;
    }
    code_verifier_from(random.as_slice())
}

/// The challenge that belongs to a verifier.
pub fn generate_code_challenge(code_verifier: &str) -> (challenge: String)
    ensures
        challenge@ == challenge_of(code_verifier@),
        challenge@.len() == CODE_LENGTH,
        all_url_safe(challenge@),
{
    let bytes = utf8_bytes(code_verifier);
    let digest = sha256(bytes.as_slice());
    encode_url_unpadded(digest.as_slice())
}

/// The pair that goes with the verifier made of the given random bytes.
pub fn pkce_pair_from(random: &[u8]) -> (pair: (String, String))
    requires
        random@.len() == VERIFIER_BYTES,
    ensures
        pair.0@ == verifier_of(random@),
        pair.1@ == challenge_of(pair.0@),
        pair.0@.len() == CODE_LENGTH && all_url_safe(pair.0@),
        pair.1@.len() == CODE_LENGTH && all_url_safe(pair.1@),
{
    let code_verifier = code_verifier_from(random);
    let code_challenge = generate_code_challenge(code_verifier.as_str());
    (code_verifier, code_challenge)
}

/// A fresh verifier and the challenge that belongs to it.
pub fn generate_pkce_pair() -> (pair: (String, String))
    ensures
        is_verifier(pair.0@),
        pair.1@ == challenge_of(pair.0@),
        pair.0@.len() == CODE_LENGTH && all_url_safe(pair.0@),
        pair.1@.len() == CODE_LENGTH && all_url_safe(pair.1@),
{
    let code_verifier = generate_code_verifier();
    let code_challenge = generate_code_challenge(code_verifier.as_str());
    (code_verifier, code_challenge)
}

} // verus!
