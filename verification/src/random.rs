//! The one source of chance: draws from the `rand` crate.

use rand::Rng;
use vstd::prelude::*;

verus! {

/// One draw of `rand::thread_rng().gen::<u32>()`.
///
/// Trusted, and nothing is claimed of the value: every 32-bit number can come
/// out, and two draws need not agree.
#[verifier::external_body]
pub(crate) fn random_u32() -> u32 {
    rand::thread_rng().gen::<u32>()
}

} // verus!
