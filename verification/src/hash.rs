//! Content digests: a 256-bit cryptographic hash of a byte blob, rendered in
//! base64. The digest is always recomputed server-side from the bytes actually
//! received; a client's claimed digest is only ever compared against it.

use vstd::prelude::*;

verus! {

/// The 32-byte secure digest that `sha2` computes over a byte sequence.
pub uninterp spec fn sha256_of(data: Seq<u8>) -> Seq<u8>;

/// The base64 rendering (standard alphabet, with padding) of a byte sequence.
pub uninterp spec fn base64_of(data: Seq<u8>) -> Seq<char>;

/// The content digest of a blob: its secure hash, rendered in base64.
pub open spec fn digest_of(data: Seq<u8>) -> Seq<char> {
    base64_of(sha256_of(data))
}

/// Relies on `sha2::Sha256::digest`: the digest is 32 bytes long and depends
/// on the input bytes alone.
#[verifier::external_body]
fn sha256(data: &Vec<u8>) -> (r: Vec<u8>)
    ensures
        r@ == sha256_of(data@),
        r@.len() == 32,
{
    <sha2::Sha256 as sha2::Digest>::digest(data.as_slice()).to_vec()
}

/// Relies on `base64::Engine::encode` with the standard engine: the rendering
/// depends on the input bytes alone; with padding, every three input bytes
/// become four characters, and input whose length is not a multiple of three
/// ends in `=` padding.
#[verifier::external_body]
fn base64_encode(data: &Vec<u8>) -> (r: String)
    ensures
        r@ == base64_of(data@),
        r@.len() == 4 * ((data@.len() + 2) / 3),
        data@.len() % 3 != 0 ==> r@[r@.len() - 1] == '=',
{
    base64::Engine::encode(&base64::engine::general_purpose::STANDARD, data.as_slice())
}

/// Computes the content digest of a blob: always 44 characters, ending in
/// `=` padding. A fresh hash computation is made on every call, so
/// concurrent callers cannot interfere with one another.
pub fn hash(data: &Vec<u8>) -> (r: String)
    ensures
        r@ == digest_of(data@),
        r@.len() == 44,
        r@[43] == '=',
{
    let digest = sha256(data);
    base64_encode(&digest)
}

} // verus!
