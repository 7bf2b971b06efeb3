//! A non-interactive 1-of-2 OR-proof of knowledge of a discrete logarithm
//! over the Ristretto group.
//!
//! The prover knows `x` with `y_b = x * G_b` for one of two branches `b`
//! and convinces the verifier of that without telling which branch it is.
//! The branch without a witness is simulated, the two sub-challenges are
//! bound to one Fiat-Shamir challenge by XOR.

pub mod encoding;
pub mod error;
pub mod scalar;
pub mod point;
pub mod transcript;
pub mod entropy;
pub mod protocol;
pub mod laws;
