//! The SHA-256 digest of a file.
use sha2::Digest;

use vstd::prelude::*;

use crate::md5::hex;

verus! {

/// The SHA-256 digest of bytes.
pub uninterp spec fn sha256(data: Seq<u8>) -> Seq<u8>;

/// `sha2::Sha256::digest`: a function of the bytes, of 32 bytes.
#[verifier::external_body]
fn sha256_digest(data: &Vec<u8>) -> (r: Vec<u8>)
    ensures
        r@ == sha256(data@),
        r@.len() == 32,
{
    sha2::Sha256::digest(data.as_slice()).to_vec()
}

/// The SHA-256 digest of the bytes of a file, in digits.
pub fn compute_sha256(data: &Vec<u8>) -> (r: String)
    ensures
        r@ == crate::md5::hex_digits(sha256(data@)),
        r@.len() == 64,
{
    let digest = sha256_digest(data);
    hex(&digest)
}

} // verus!
