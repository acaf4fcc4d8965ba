//! Fresh identifiers for new todos.

use vstd::prelude::*;

verus! {

/// Asks `ulid::Ulid::new` for an identifier and hands back its 128 bits.
/// The identifier is made of the clock's milliseconds and of random bits, so
/// nothing is promised of its value: it may repeat an earlier one, or sort
/// below one.
#[verifier::external_body]
pub(crate) fn fresh_id() -> u128 {
    ulid::Ulid::new().0
}

} // verus!
