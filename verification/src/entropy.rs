//! Uniformly random scalars from the operating system's randomness.

use crate::encoding::le_value;
use crate::error::ProofError;
use crate::scalar::group_order;
use crate::scalar::scalar_reduce_wide;
use crate::scalar::Scalar;
use vstd::prelude::*;

verus! {

/// `rand_core::Error`, the failure of a source of randomness: nothing
/// inside it is visible here.
#[verifier::external_type_specification]
#[verifier::external_body]
pub struct ExEntropyError(rand_core::Error);

/// `try_fill_bytes` of `rand_core::OsRng` on a buffer of 64 bytes: the
/// bytes drawn, or the error of the operating system's source. Nothing
/// is known of the bytes.
#[verifier::external_body]
fn os_entropy() -> (drawn: Result<[u8; 64], rand_core::Error>) {
    let mut buffer = [0u8; 64];
    match rand_core::RngCore::try_fill_bytes(&mut rand_core::OsRng, &mut buffer) {
        Ok(()) => Ok(buffer),
        Err(e) => Err(e),
    }
}

/// The scalar that 64 drawn bytes reduce to, or the failure of the draw.
pub fn scalar_from_entropy(drawn: Result<[u8; 64], rand_core::Error>) -> (r: Result<
    Scalar,
    ProofError,
>)
    ensures
        drawn is Ok <==> r is Ok,
        r matches Ok(s) ==> s.wf() && s@ < group_order() && s@ == le_value(drawn->Ok_0@)
            % group_order(),
        r matches Err(e) ==> e == ProofError::RandomnessUnavailable,
{
    match drawn {
        Ok(bytes) => {
            let s = scalar_reduce_wide(&bytes);
            proof {
                s.lemma_wf();
            }
            Ok(s)
        },
        Err(_) => Err(ProofError::RandomnessUnavailable),
    }
}

/// A scalar drawn uniformly at random. It fails where the operating
/// system's source of randomness does, and only there.
pub fn random_scalar() -> (r: Result<Scalar, ProofError>)
    ensures
        r matches Ok(s) ==> s.wf() && s@ < group_order(),
        r matches Err(e) ==> e == ProofError::RandomnessUnavailable,
{
    scalar_from_entropy(os_entropy())
}

} // verus!
