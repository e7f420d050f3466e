use vstd::prelude::*;
use md5::Digest;
use crate::text::{lower_hex, to_lower_hex};

verus! {

/// The MD5 digest of a byte string, as the `md-5` crate computes it.
pub uninterp spec fn md5_digest_of(data: Seq<u8>) -> Seq<u8>;

/// Calls `md5::Md5::digest` on the bytes. The contract names the digest and
/// states its length (the hasher's output size is 16 bytes).
#[verifier::external_body]
fn md5_digest(data: &[u8]) -> (r: Vec<u8>)
    ensures
        r@ == md5_digest_of(data@),
        r@.len() == 16,
{
    md5::Md5::digest(data).to_vec()
}

/// The MD5 checksum of the bytes as 32 lower-case hexadecimal digits.
pub fn md5_hex(data: &[u8]) -> (s: String)
    ensures
        s@ == lower_hex(md5_digest_of(data@)),
{
    let digest = md5_digest(data);
    to_lower_hex(&digest)
}

} // verus!
