//! `std::any::TypeId`, which tells the Rust types of registered components apart.

use std::any::TypeId;
use vstd::prelude::*;

verus! {

#[verifier::external_type_specification]
#[verifier::external_body]
pub struct ExTypeId(TypeId);

/// `TypeId`'s `==`: two type ids compare equal exactly when they are the same value
/// (std documents that equal ids mean the same type).
#[verifier::external_body]
pub(crate) fn same_type(a: &TypeId, b: &TypeId) -> (res: bool)
    ensures
        res == (*a == *b),
{
    *a == *b
}

} // verus!
