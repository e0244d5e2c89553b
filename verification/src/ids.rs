//! Identifiers: `uuid::Uuid`, which the library carries and never reads.
use vstd::prelude::*;

verus! {

/// `uuid::Uuid`: the library stores identifiers and hands them back, and never
/// looks inside one.
#[verifier::external_type_specification]
#[verifier::external_body]
pub struct ExUuid(uuid::Uuid);

/// `Clone` of `uuid::Uuid`: the type derives `Clone` and `Copy`, so a clone is
/// the same identifier.
pub assume_specification[ <uuid::Uuid as Clone>::clone ](u: &uuid::Uuid) -> (r: uuid::Uuid)
    ensures
        r == *u,
;

/// A fresh random identifier, from `uuid::Uuid::new_v4`. Nothing is stated of
/// the value: it comes from the random number generator.
#[verifier::external_body]
pub(crate) fn new_uuid_v4() -> uuid::Uuid {
    uuid::Uuid::new_v4()
}

} // verus!
