//! Little-endian byte strings as numbers, and XOR on byte strings.

use vstd::prelude::*;

verus! {

/// The number that `bytes` spell, least significant byte first.
pub open spec fn le_value(bytes: Seq<u8>) -> nat
    decreases bytes.len(),
{
    if bytes.len() == 0 {
        0
    } else {
        bytes[0] as nat + 256 * le_value(bytes.drop_first())
    }
}

/// The `len` lowest base-256 digits of `n`, least significant first.
pub open spec fn le_bytes(n: nat, len: nat) -> Seq<u8>
    decreases len,
{
    if len == 0 {
        Seq::empty()
    } else {
        seq![(n % 256) as u8] + le_bytes(n / 256, (len - 1) as nat)
    }
}

/// 256 to the power `len`: the number of byte strings of that length.
pub open spec fn le_bound(len: nat) -> nat
    decreases len,
{
    if len == 0 {
        1
    } else {
        256 * le_bound((len - 1) as nat)
    }
}

/// Bytewise XOR of two byte strings, as long as the shorter of the two.
pub open spec fn xor_bytes_spec(a: Seq<u8>, b: Seq<u8>) -> Seq<u8> {
    Seq::new(
        if a.len() <= b.len() {
            a.len()
        } else {
            b.len()
        },
        |i: int| a[i] ^ b[i],
    )
}

pub proof fn lemma_le_bytes_len(n: nat, len: nat)
    ensures
        le_bytes(n, len).len() == len,
    decreases len,
{
    if len > 0 {
        lemma_le_bytes_len(n / 256, (len - 1) as nat);
    }
}

/// Writing out the digits of the number that a byte string spells gives
/// the byte string back.
pub proof fn lemma_le_bytes_of_value(bytes: Seq<u8>)
    ensures
        le_bytes(le_value(bytes), bytes.len()) == bytes,
    decreases bytes.len(),
{
    if bytes.len() > 0 {
        let rest = bytes.drop_first();
        lemma_le_bytes_of_value(rest);
        let v = le_value(bytes);
        assert(v % 256 == bytes[0] as nat && v / 256 == le_value(rest));
        assert(le_bytes(v, bytes.len()) =~= bytes);
    }
}

/// The digits of a number below `256^len` spell that number.
pub proof fn lemma_le_value_of_bytes(n: nat, len: nat)
    requires
        n < le_bound(len),
    ensures
        le_value(le_bytes(n, len)) == n,
    decreases len,
{
    if len > 0 {
        let rest = le_bytes(n / 256, (len - 1) as nat);
        lemma_le_value_of_bytes(n / 256, (len - 1) as nat);
        let s = le_bytes(n, len);
        assert(s.drop_first() =~= rest);
        assert(s[0] == (n % 256) as u8);
    }
}

/// Two byte strings of one length that spell the same number are equal.
pub proof fn lemma_le_value_injective(a: Seq<u8>, b: Seq<u8>)
    requires
        a.len() == b.len(),
        le_value(a) == le_value(b),
    ensures
        a == b,
{
    lemma_le_bytes_of_value(a);
    lemma_le_bytes_of_value(b);
}

/// A number below `16 * 256^(len - 1)` has a last digit below 16.
pub proof fn lemma_le_bytes_top_nibble(n: nat, len: nat)
    requires
        len >= 1,
        n < 16 * le_bound((len - 1) as nat),
    ensures
        le_bytes(n, len).len() == len,
        le_bytes(n, len)[len - 1] < 16,
    decreases len,
{
    lemma_le_bytes_len(n, len);
    if len > 1 {
        lemma_le_bytes_top_nibble(n / 256, (len - 1) as nat);
        lemma_le_bytes_len(n / 256, (len - 1) as nat);
    }
}

/// A byte string whose last byte is below 16 spells a number below
/// `16 * 256^(len - 1)`.
pub proof fn lemma_le_value_top_nibble(bytes: Seq<u8>)
    requires
        bytes.len() >= 1,
        bytes[bytes.len() - 1] < 16,
    ensures
        le_value(bytes) < 16 * le_bound((bytes.len() - 1) as nat),
    decreases bytes.len(),
{
    if bytes.len() > 1 {
        lemma_le_value_top_nibble(bytes.drop_first());
    } else {
        assert(le_value(bytes.drop_first()) == 0);
    }
}

/// XOR with the same byte string twice gives the other one back.
pub proof fn lemma_xor_involution(a: Seq<u8>, b: Seq<u8>)
    requires
        a.len() == b.len(),
    ensures
        xor_bytes_spec(a, xor_bytes_spec(a, b)) == b,
{
    assert forall|i: int| 0 <= i < b.len() implies #[trigger] xor_bytes_spec(
        a,
        xor_bytes_spec(a, b),
    )[i] == b[i] by {
        let x = a[i];
        let y = b[i];
        assert(x ^ (x ^ y) == y) by (bit_vector);
    }
    assert(xor_bytes_spec(a, xor_bytes_spec(a, b)) =~= b);
}

/// XOR does not depend on the order of its arguments.
pub proof fn lemma_xor_commutes(a: Seq<u8>, b: Seq<u8>)
    ensures
        xor_bytes_spec(a, b) == xor_bytes_spec(b, a),
{
    assert forall|i: int| 0 <= i < a.len() && i < b.len() implies #[trigger] xor_bytes_spec(a, b)[i]
        == xor_bytes_spec(b, a)[i] by {
        let x = a[i];
        let y = b[i];
        assert(x ^ y == y ^ x) by (bit_vector);
    }
    assert(xor_bytes_spec(a, b) =~= xor_bytes_spec(b, a));
}

/// Bytewise XOR of two 32-byte strings.
pub fn xor_bytes(a: &[u8; 32], b: &[u8; 32]) -> (out: [u8; 32])
    ensures
        out@ == xor_bytes_spec(a@, b@),
{
    let mut out: [u8; 32] = [0u8; 32];
    let mut i: usize = 0;
    while i < 32
        invariant
            i <= 32,
            forall|j: int| 0 <= j < i ==> out@[j] == a@[j] ^ b@[j],
        decreases 32 - i,
    {
        out[i] = a[i] ^ b[i];
        i += 1;
    }
    assert(out@ =~= xor_bytes_spec(a@, b@));
    out
}

} // verus!
