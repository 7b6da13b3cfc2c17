//! Content hashes of the files sent to Seer.
use vstd::prelude::*;
use crate::run::utils::{normalize_sha, normalize_sha_spec};
use crate::text::{hex_lower, hex_lower_chars, string_from};

verus! {

/// The SHA-256 digest of a byte string.
pub uninterp spec fn sha256_digest(data: Seq<u8>) -> Seq<u8>;

/// Hashes `data` with `sha2::Sha256::digest`; the digest is 32 bytes long.
#[verifier::external_body]
fn sha256(data: &[u8]) -> (d: Vec<u8>)
    ensures
        d@ == sha256_digest(data@),
        d@.len() == 32,
{
    <sha2::Sha256 as sha2::Digest>::digest(data).to_vec()
}

/// The content hash of a file's bytes: its SHA-256 digest in lower-case hexadecimal.
pub fn make_blob(data: &[u8]) -> (r: String)
    ensures
        r@ == normalize_sha_spec(hex_lower(sha256_digest(data@))),
{
    let d = sha256(data);
    let h = hex_lower_chars(&d);
    let s = string_from(&h);
    normalize_sha(s.as_str())
}

/// The SHA-256 digest of a file's bytes.
pub fn file_digest(data: &[u8]) -> (d: Vec<u8>)
    ensures
        d@ == sha256_digest(data@),
        d@.len() == 32,
{
    sha256(data)
}

} // verus!
