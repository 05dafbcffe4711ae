//! Random identifiers: names, keys and message ids are drawn from the
//! process's cryptographically seeded generator.

use vstd::prelude::*;

use crate::types::{MessageId, PublicKey, XorName};

verus! {

/// Relies on rand::Rng::fill on rand::thread_rng: fills the buffer with
/// random bytes; nothing is promised of them.
#[verifier::external_body]
fn random_bytes32() -> (r: [u8; 32])
{
    let mut b = [0u8; 32];
    rand::Rng::fill(&mut rand::thread_rng(), &mut b[..]);
    b
}

/// Relies on rand::random: a random value; nothing is promised of it.
#[verifier::external_body]
fn random_u64() -> (r: u64)
{
    rand::random()
}

impl XorName {
    /// A random name.
    pub fn random() -> (r: XorName)
    {
        XorName(random_bytes32())
    }
}

impl PublicKey {
    /// A fresh identity: the public half of a signing key pair. The mock
    /// never verifies signatures, so the key is nothing but 32 random bytes.
    pub fn random() -> (r: PublicKey)
    {
        PublicKey(random_bytes32())
    }
}

impl MessageId {
    /// A fresh random message id.
    pub fn new() -> (r: MessageId)
    {
        MessageId(random_u64(), random_u64())
    }
}

} // verus!
