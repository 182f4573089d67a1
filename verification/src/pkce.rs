//! Proof Key for Code Exchange: the locally generated code verifier and the
//! `S256` code challenge derived from it. The hash and its base64url
//! rendering are delegated to outside crates and named, not restated.
use vstd::prelude::*;
use sha2::Digest;
use base64::Engine;
use vstd::string::StrSliceExecFns;
use vstd::string::StringSliceAdditionalSpecFns;

verus! {

/// The SHA-256 digest of a byte sequence, as sha2 computes it.
pub uninterp spec fn spec_sha256(bytes: Seq<u8>) -> Seq<u8>;

/// The unpadded base64url rendering of a byte sequence, as base64 computes
/// it with its `URL_SAFE_NO_PAD` engine.
pub uninterp spec fn spec_base64url(bytes: Seq<u8>) -> Seq<char>;

/// Relies on sha2's `Sha256::digest`: the digest depends on the input bytes
/// alone and is 32 bytes long.
#[verifier::external_body]
fn sha256(input: &Vec<u8>) -> (r: Vec<u8>)
    ensures
        r@ == spec_sha256(input@),
        r@.len() == 32,
{
    sha2::Sha256::digest(input.as_slice()).to_vec()
}

/// Relies on base64's `Engine::encode` with the `URL_SAFE_NO_PAD` engine:
/// the rendering depends on the input bytes alone.
#[verifier::external_body]
fn base64url_nopad(input: &Vec<u8>) -> (r: String)
    ensures
        r@ == spec_base64url(input@),
{
    base64::engine::general_purpose::URL_SAFE_NO_PAD.encode(input.as_slice())
}

/// The `S256` code challenge for a verifier: base64url, without padding, of
/// the SHA-256 digest of the verifier's bytes. Only the challenge travels in
/// the authorize URL; the verifier itself is sent later, in the token
/// exchange body.
pub fn code_challenge_s256(verifier: &str) -> (r: String)
    ensures
        r@ == spec_base64url(spec_sha256(verifier.spec_bytes())),
{
    let bytes = verifier.as_bytes_vec();
    let digest = sha256(&bytes);
    base64url_nopad(&digest)
}

} // verus!
