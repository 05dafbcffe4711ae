//! Immutable objects: content-addressed blobs, named by the digest of their
//! bytes, never modified and never deleted.

use vstd::prelude::*;

use crate::hashing::{hash_of, name_of_bytes};
use crate::types::{XorName, clone_bytes};

verus! {

/// Spec-level image of an immutable object.
#[verifier::ext_equal]
pub ghost struct IDataV {
    pub name: Seq<u8>,
    pub content: Seq<u8>,
}

/// A content-addressed blob. The name is fixed at construction as the digest
/// of the content.
#[derive(Clone, Debug, PartialEq, Eq)]
pub struct ImmutableData {
    name: XorName,
    value: Vec<u8>,
}

impl View for ImmutableData {
    type V = IDataV;

    closed spec fn view(&self) -> IDataV {
        IDataV { name: self.name@, content: self.value@ }
    }
}

impl ImmutableData {
    /// Well-formedness: the name is the content's digest.
    pub open spec fn wf(self) -> bool {
        self@.name == hash_of(self@.content)
    }

    /// Wraps a blob, naming it by its digest.
    pub fn new(value: Vec<u8>) -> (r: ImmutableData)
        ensures
            r@.content == value@,
            r.wf(),
    {
        let name = name_of_bytes(value.as_slice());
        ImmutableData { name, value }
    }

    /// The object's name.
    pub fn name(&self) -> (r: &XorName)
        ensures
            r@ == self@.name,
    {
        &self.name
    }

    /// The object's content.
    pub fn value(&self) -> (r: &Vec<u8>)
        ensures
            r@ == self@.content,
    {
        &self.value
    }

    /// Copies the object.
    pub fn duplicate(&self) -> (r: ImmutableData)
        ensures
            r@ == self@,
    {
        ImmutableData { name: self.name, value: clone_bytes(&self.value) }
    }
}

} // verus!
