//! Content addressing: names of accounts and immutable objects are digests
//! of bytes.

use vstd::prelude::*;

use crate::types::XorName;

verus! {

/// The digest that names a byte string. It depends on the bytes alone; what
/// it is on given bytes only the hash function knows.
pub uninterp spec fn hash_of(content: Seq<u8>) -> Seq<u8>;

/// Relies on sha2::Sha256 (via the Digest trait): a 32-byte digest that is a
/// function of the input bytes alone.
#[verifier::external_body]
fn sha256_digest(data: &[u8]) -> (r: [u8; 32])
    ensures
        r@ == hash_of(data@),
{
    let mut hasher = <sha2::Sha256 as sha2::Digest>::new();
    sha2::Digest::update(&mut hasher, data);
    sha2::Digest::finalize(hasher).into()
}

/// The name a byte string is stored under: its digest.
pub fn name_of_bytes(data: &[u8]) -> (n: XorName)
    ensures
        n@ == hash_of(data@),
{
    XorName(sha256_digest(data))
}

} // verus!
