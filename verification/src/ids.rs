//! Identifiers for notes and groups.

use vstd::prelude::*;

verus! {

/// A 128-bit identifier, as carried by notes and groups.
#[derive(PartialEq, Eq, Structural, Clone, Copy, Debug)]
pub struct Uid {
    pub value: u128,
}

impl Uid {
    pub fn new(value: u128) -> (r: Uid)
        ensures
            r.value == value,
    {
        Uid { value }
    }
}

/// Relies on uuid::Uuid::new_v4 for a freshly drawn identifier.
/// The draw is random, so nothing is promised of the value.
#[verifier::external_body]
pub fn fresh_uid() -> Uid {
    Uid { value: uuid::Uuid::new_v4().as_u128() }
}

} // verus!
