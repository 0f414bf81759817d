//! Identifiers of widgets.

use vstd::prelude::*;

verus! {

/// `uuid::Uuid::new_v4`, read as a number by `uuid::Uuid::as_u128`: a
/// random identifier. Of the number only this is claimed: its version
/// digit is 4, and the two highest bits of its variant digit are 1 and 0.
/// The call panics where the operating system hands out no random bytes.
#[verifier::external_body]
pub(crate) fn new_v4() -> (id: u128)
    ensures
        id & 0x0000_0000_0000_F000_C000_0000_0000_0000 == 0x0000_0000_0000_4000_8000_0000_0000_0000,
{
    uuid::Uuid::new_v4().as_u128()
}

} // verus!
