//! Identifiers. Every intent, plan, step, event, artifact, proposal, session
//! and fork carries a 128-bit id, freshly drawn as a random UUID.

use vstd::prelude::*;

verus! {

/// A 128-bit identifier, held as its plain integer value.
#[derive(Debug, Clone, Copy, PartialEq, Eq, Structural, Hash)]
pub struct Id {
    /// The identifier's 128-bit value.
    pub bits: u128,
}

impl DeepView for Id {
    type V = Id;

    open spec fn deep_view(&self) -> Id {
        *self
    }
}

/// Relies on uuid::Uuid::new_v4 (and Uuid::as_u128): a freshly generated
/// random version-4 UUID, reduced to its 128-bit value. Nothing is promised
/// of the value: it is random.
#[verifier::external_body]
pub(crate) fn fresh_id() -> Id {
    Id { bits: uuid::Uuid::new_v4().as_u128() }
}

} // verus!
