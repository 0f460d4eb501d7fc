//! Opaque identifier generation, an outside collaborator. Ids are random,
//! so nothing relates two draws; uniqueness is enforced by the storage
//! layer's create-exclusive primitive, never assumed here.
use rand::distr::SampleString;
use vstd::prelude::*;

verus! {

/// Relies on rand's `Alphanumeric` sampler: `sample_string` produces
/// exactly 32 ASCII alphanumeric characters. Nothing is promised about
/// which characters come back beyond their shape.
#[verifier::external_body]
pub fn secure_random_id() -> (r: String)
    ensures
        r@.len() == 32,
        forall|i: int| 0 <= i < r@.len() ==> crate::validate::id_char(#[trigger] r@[i]),
{
    rand::distr::Alphanumeric.sample_string(&mut rand::rng(), 32)
}

} // verus!
