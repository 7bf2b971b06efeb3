//! Scalars: the integers modulo the order of the Ristretto group.

use crate::encoding::le_bytes;
use crate::encoding::le_value;
use crate::encoding::lemma_le_bytes_of_value;
use crate::encoding::xor_bytes;
use crate::encoding::xor_bytes_spec;
use crate::error::ProofError;
use vstd::prelude::*;

verus! {

/// The order of the Ristretto group, `2^252 + 27742317777372353535851937790883648493`.
pub open spec fn group_order() -> nat {
    7237005577332262213973186563042994240857116359379907606001950938285454250989nat
}

/// The XOR of two scalars: the bytewise XOR of their canonical encodings,
/// read as a little-endian integer and reduced modulo the group order.
pub open spec fn scalar_xor(a: nat, b: nat) -> nat {
    le_value(xor_bytes_spec(le_bytes(a, 32), le_bytes(b, 32))) % group_order()
}

/// An integer modulo the group order, held as its canonical 32-byte
/// little-endian encoding.
#[derive(Clone, Copy, Debug, PartialEq, Eq)]
pub struct Scalar {
    pub(crate) bytes: [u8; 32],
}

impl View for Scalar {
    type V = nat;

    /// The integer below the group order that the scalar stands for.
    closed spec fn view(&self) -> nat {
        le_value(self.bytes@)
    }
}

impl Scalar {
    /// The canonical encoding: 32 bytes, least significant first.
    pub closed spec fn encoding(&self) -> Seq<u8> {
        self.bytes@
    }

    /// A scalar is reduced: its encoding spells a number below the group order.
    #[verifier::type_invariant]
    pub closed spec fn wf(&self) -> bool {
        le_value(self.bytes@) < group_order()
    }

    /// What validity means in terms of the view and the encoding.
    pub proof fn lemma_wf(&self)
        requires
            self.wf(),
        ensures
            self@ < group_order(),
            self.encoding().len() == 32,
            self@ == le_value(self.encoding()),
    {
    }

    /// The scalar that a 256-bit little-endian integer reduces to.
    pub fn from_bytes_mod_order(bytes: [u8; 32]) -> (s: Scalar)
        ensures
            s.wf(),
            s@ == le_value(bytes@) % group_order(),
    {
        scalar_reduce(bytes)
    }

    /// The scalar that 32 bytes reduce to, read as a little-endian
    /// integer. Any other number of bytes is an encoding error.
    pub fn from_slice(bytes: &[u8]) -> (r: Result<Scalar, ProofError>)
        ensures
            r is Ok <==> bytes@.len() == 32,
            r matches Ok(s) ==> s.wf() && s@ == le_value(bytes@) % group_order(),
            r matches Err(e) ==> e == ProofError::Encoding,
    {
        if bytes.len() != 32 {
            return Err(ProofError::Encoding);
        }
        let mut buffer: [u8; 32] = [0u8; 32];
        let mut i: usize = 0;
        while i < 32
            invariant
                i <= 32,
                bytes@.len() == 32,
                forall|j: int| 0 <= j < i ==> buffer@[j] == bytes@[j],
            decreases 32 - i,
        {
            buffer[i] = bytes[i];
            i += 1;
        }
        assert(buffer@ =~= bytes@);
        Ok(scalar_reduce(buffer))
    }

    /// The canonical encoding of the scalar.
    pub fn to_bytes(&self) -> (bytes: [u8; 32])
        ensures
            bytes@ == self.encoding(),
    {
        self.bytes
    }

    /// Whether two scalars are the same integer modulo the group order.
    pub fn equals(&self, other: &Scalar) -> (same: bool)
        ensures
            same == (self@ == other@),
            same == (self.encoding() == other.encoding()),
    {
        let mut same = true;
        let mut i: usize = 0;
        while i < 32
            invariant
                i <= 32,
                same == (forall|j: int| 0 <= j < i ==> self.bytes@[j] == other.bytes@[j]),
            decreases 32 - i,
        {
            if self.bytes[i] != other.bytes[i] {
                same = false;
            }
            i += 1;
        }
        assert(same == (self.bytes@ =~= other.bytes@));
        proof {
            if self@ == other@ {
                crate::encoding::lemma_le_value_injective(self.bytes@, other.bytes@);
            }
        }
        same
    }
}

/// XOR of two scalars over their canonical encodings, reduced modulo the
/// group order.
pub fn xor_scalars(a: &Scalar, b: &Scalar) -> (r: Scalar)
    ensures
        r.wf(),
        r@ < group_order(),
        r@ == scalar_xor(a@, b@),
{
    let a_bytes = a.to_bytes();
    let b_bytes = b.to_bytes();
    let mixed = xor_bytes(&a_bytes, &b_bytes);
    proof {
        lemma_le_bytes_of_value(a.bytes@);
        lemma_le_bytes_of_value(b.bytes@);
    }
    scalar_reduce(mixed)
}

/// `curve25519_dalek::scalar::Scalar::from_bytes_mod_order`, followed by
/// `to_bytes`: the result is the canonical encoding of the given 256-bit
/// little-endian integer reduced modulo the group order.
#[verifier::external_body]
pub(crate) fn scalar_reduce(bytes: [u8; 32]) -> (s: Scalar)
    ensures
        s.wf(),
        s@ == le_value(bytes@) % group_order(),
{
    Scalar { bytes: curve25519_dalek::scalar::Scalar::from_bytes_mod_order(bytes).to_bytes() }
}

/// `curve25519_dalek::scalar::Scalar::from_bytes_mod_order_wide`: the
/// result is the given 512-bit little-endian integer reduced modulo the
/// group order.
#[verifier::external_body]
pub(crate) fn scalar_reduce_wide(bytes: &[u8; 64]) -> (s: Scalar)
    ensures
        s.wf(),
        s@ == le_value(bytes@) % group_order(),
{
    Scalar { bytes: curve25519_dalek::scalar::Scalar::from_bytes_mod_order_wide(bytes).to_bytes() }
}

/// The `*` of `curve25519_dalek::scalar::Scalar`: the product modulo the
/// group order.
#[verifier::external_body]
pub(crate) fn scalar_mul(a: &Scalar, b: &Scalar) -> (s: Scalar)
    ensures
        s.wf(),
        s@ == (a@ * b@) % group_order(),
{
    let x = curve25519_dalek::scalar::Scalar::from_bytes_mod_order(a.bytes);
    let y = curve25519_dalek::scalar::Scalar::from_bytes_mod_order(b.bytes);
    Scalar { bytes: (x * y).to_bytes() }
}

/// The `+` of `curve25519_dalek::scalar::Scalar`: the sum modulo the
/// group order.
#[verifier::external_body]
pub(crate) fn scalar_add(a: &Scalar, b: &Scalar) -> (s: Scalar)
    ensures
        s.wf(),
        s@ == (a@ + b@) % group_order(),
{
    let x = curve25519_dalek::scalar::Scalar::from_bytes_mod_order(a.bytes);
    let y = curve25519_dalek::scalar::Scalar::from_bytes_mod_order(b.bytes);
    Scalar { bytes: (x + y).to_bytes() }
}

} // verus!
