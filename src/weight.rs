//! The execution cost reported to the host, from `sp_weights`.
use vstd::prelude::*;

verus! {

/// `sp_weights::Weight`, carried through as an opaque value.
#[verifier::external_type_specification]
#[verifier::external_body]
pub struct ExWeight(sp_weights::Weight);

/// The weight whose reference time and proof size are the two parts given.
pub uninterp spec fn weight_from_parts(parts: (u64, u64)) -> sp_weights::Weight;

/// Relies on `sp_weights::Weight::zero`: it builds the weight whose reference
/// time and proof size are both 0, and never panics.
pub assume_specification[ sp_weights::Weight::zero ]() -> (r: sp_weights::Weight)
    ensures
        r == weight_from_parts((0, 0)),
;

} // verus!
