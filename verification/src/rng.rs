//! The random byte that the `CXNN` instruction masks.

use vstd::prelude::*;

verus! {

/// Calls `rand::random::<u8>()`, which draws from the thread-local generator.
/// Nothing is stated of the byte: any value may come back, and two calls may
/// differ. The generator's source panics if the operating system cannot seed
/// it; no `requires` can exclude that.
#[verifier::external_body]
pub(crate) fn random_byte() -> (r: u8) {
    rand::random::<u8>()
}

} // verus!
