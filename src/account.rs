//! The host's account identity, carried through the library unchanged.

use vstd::prelude::*;

verus! {

/// `near_sdk::AccountId` (re-exported from near-account-id), held opaquely:
/// a listing records it as its owner and a transfer names it as receiver.
#[verifier::external_type_specification]
#[verifier::external_body]
pub struct ExAccountId(near_sdk::AccountId);

/// Relies on the derived `Clone` of `near_sdk::AccountId` (a boxed `str`):
/// the copy is the same account.
pub assume_specification[ <near_sdk::AccountId as Clone>::clone ](a: &near_sdk::AccountId) -> (r:
    near_sdk::AccountId)
    ensures
        r == *a,
;

} // verus!
