use vstd::prelude::*;

verus! {

/// Projection of an entity into its wire representation.
pub trait ToDto<T> {
    fn to_dto(&self) -> T;
}

/// Projection of an entity into its wire representation.
pub trait IntoDto<T> {
    fn into_dto(&self) -> T;
}

} // verus!
