//! What can go wrong while a proof is made.

use vstd::prelude::*;

verus! {

/// The failures of this library. That a proof does not verify is none of
/// them: `verify` answers with a `bool`.
#[derive(Clone, Copy, Debug, PartialEq, Eq)]
pub enum ProofError {
    /// A byte string of the wrong length was given where a scalar's 32
    /// bytes were expected.
    Encoding,
    /// The system's source of randomness failed.
    RandomnessUnavailable,
}

} // verus!
