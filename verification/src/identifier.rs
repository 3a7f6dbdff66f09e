//! Entity identifiers: opaque 128-bit values drawn fresh for every entity.
//! Uniqueness is probabilistic (random generation, no collision check), as
//! the engine's design intends.

use vstd::prelude::*;

verus! {

/// An entity identifier: a 128-bit value generated fresh at entity
/// construction and never mutated afterwards.
pub type Identifier = u128;

/// Relies on `uuid::Uuid::new_v4` and `uuid::Uuid::as_u128`: a freshly
/// generated random (version 4) UUID, read out as its 128-bit integer value.
/// The value is random, so nothing is promised of it.
#[verifier::external_body]
pub(crate) fn fresh_identifier() -> Identifier {
    uuid::Uuid::new_v4().as_u128()
}

} // verus!
