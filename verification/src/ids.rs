use vstd::prelude::*;

verus! {

/// Relies on uuid's `Uuid::new_v4`: a freshly drawn random identifier,
/// carried as its 128-bit value. Nothing is promised of the value; it is
/// random.
#[verifier::external_body]
pub(crate) fn fresh_id() -> u128 {
    uuid::Uuid::new_v4().as_u128()
}

} // verus!
