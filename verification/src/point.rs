//! Points: the elements of the Ristretto group.
//!
//! The group is cyclic of prime order, so each of its elements is a
//! multiple `n * B` of the Ristretto basepoint `B` for exactly one `n`
//! below the group order. That `n` is the element's index; contracts
//! speak of points by their indices, where the group law is addition and
//! a scalar acts by multiplication, both modulo the group order.

use crate::scalar::group_order;
use crate::scalar::Scalar;
use vstd::prelude::*;

verus! {

/// The group element that `CompressedRistretto::decompress` of
/// curve25519-dalek returns for an encoding, written as its index: `None`
/// where the encoding is refused, `Some(n)` where it decodes to `n * B`.
pub uninterp spec fn point_index(encoding: Seq<u8>) -> Option<nat>;

/// The encoding of the group element with the given index. Encodings are
/// canonical: an element has one.
pub open spec fn point_encoding(index: nat) -> Seq<u8> {
    choose|e: Seq<u8>| point_index(e) == Some(index)
}

/// `e` is the encoding of a group element: 32 bytes that decode, to an
/// index below the group order, and that are the encoding of that index.
pub open spec fn is_point_encoding(e: Seq<u8>) -> bool {
    &&& e.len() == 32
    &&& point_index(e) matches Some(n) && n < group_order() && point_encoding(n) == e
}

/// An element of the Ristretto group, held as its 32-byte encoding.
#[derive(Clone, Copy, Debug, PartialEq, Eq)]
pub struct Point {
    pub(crate) bytes: [u8; 32],
}

impl View for Point {
    type V = nat;

    /// The index of the point.
    closed spec fn view(&self) -> nat {
        point_index(self.bytes@).unwrap()
    }
}

impl Point {
    /// The 32 bytes that encode the point.
    pub closed spec fn encoding(&self) -> Seq<u8> {
        self.bytes@
    }

    /// The bytes held are the encoding of a group element.
    #[verifier::type_invariant]
    pub closed spec fn wf(&self) -> bool {
        is_point_encoding(self.bytes@)
    }

    /// What validity means in terms of the view and the encoding.
    pub proof fn lemma_wf(&self)
        requires
            self.wf(),
        ensures
            self@ < group_order(),
            is_point_encoding(self.encoding()),
            point_index(self.encoding()) == Some(self@),
            self.encoding() == point_encoding(self@),
    {
    }

    /// Decodes a point: `None` where the bytes encode no group element.
    pub fn from_bytes(bytes: [u8; 32]) -> (p: Option<Point>)
        ensures
            p is Some <==> is_point_encoding(bytes@),
            p matches Some(q) ==> q.wf() && q.encoding() == bytes@,
    {
        point_decode(bytes)
    }

    /// The encoding of the point.
    pub fn to_bytes(&self) -> (bytes: [u8; 32])
        ensures
            bytes@ == self.encoding(),
    {
        self.bytes
    }

    /// Whether two points are the same group element.
    pub fn equals(&self, other: &Point) -> (same: bool)
        ensures
            same == (self@ == other@),
            same == (self.encoding() == other.encoding()),
    {
        proof {
            use_type_invariant(self);
            use_type_invariant(other);
        }
        let mut same = true;
        let mut i: usize = 0;
        while i < 32
            invariant
                i <= 32,
                same == (forall|j: int| 0 <= j < i ==> self.bytes@[j] == other.bytes@[j]),
            decreases 32 - i,
        {
            if self.bytes[i] != other.bytes[i] {
                same = false;
            }
            i += 1;
        }
        assert(same == (self.bytes@ =~= other.bytes@));
        same
    }
}

/// `CompressedRistretto::decompress` of curve25519-dalek: it accepts the
/// bytes exactly where they are the encoding of a group element.
#[verifier::external_body]
pub(crate) fn point_decode(bytes: [u8; 32]) -> (p: Option<Point>)
    ensures
        p is Some <==> is_point_encoding(bytes@),
        p is None ==> point_index(bytes@) is None,
        p matches Some(q) ==> q.wf() && q.encoding() == bytes@,
{
    match curve25519_dalek::ristretto::CompressedRistretto(bytes).decompress() {
        Some(_) => Some(Point { bytes }),
        None => None,
    }
}

/// The `*` of curve25519-dalek between a `Scalar` and a `RistrettoPoint`:
/// the scalar multiple of the point, whose index is the product of the
/// scalar and the point's index modulo the group order.
#[verifier::external_body]
pub(crate) fn point_mul(s: &Scalar, p: &Point) -> (r: Point)
    requires
        p.wf(),
    ensures
        r.wf(),
        point_index(r.encoding()) == Some((s@ * p@) % group_order()),
{
    let q = curve25519_dalek::ristretto::CompressedRistretto(p.bytes).decompress().unwrap();
    let k = curve25519_dalek::scalar::Scalar::from_bytes_mod_order(s.bytes);
    Point { bytes: (k * q).compress().to_bytes() }
}

/// The `-` of curve25519-dalek between two `RistrettoPoint`s: the
/// difference in the group, whose index is the difference of the two
/// indices modulo the group order.
#[verifier::external_body]
pub(crate) fn point_sub(a: &Point, b: &Point) -> (r: Point)
    requires
        a.wf(),
        b.wf(),
    ensures
        r.wf(),
        point_index(r.encoding()) == Some(((a@ - b@) % (group_order() as int)) as nat),
{
    let p = curve25519_dalek::ristretto::CompressedRistretto(a.bytes).decompress().unwrap();
    let q = curve25519_dalek::ristretto::CompressedRistretto(b.bytes).decompress().unwrap();
    Point { bytes: (p - q).compress().to_bytes() }
}

} // verus!
