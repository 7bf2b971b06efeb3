//! What holds of the protocol as a whole.

use crate::encoding::le_bound;
use crate::encoding::le_bytes;
use crate::encoding::le_value;
use crate::encoding::lemma_le_bytes_len;
use crate::encoding::lemma_le_bytes_of_value;
use crate::encoding::lemma_le_bytes_top_nibble;
use crate::encoding::lemma_le_value_top_nibble;
use crate::encoding::lemma_le_value_of_bytes;
use crate::encoding::lemma_xor_commutes;
use crate::encoding::lemma_xor_involution;
use crate::encoding::xor_bytes_spec;
use crate::protocol::branch0_holds;
use crate::protocol::branch1_holds;
use crate::protocol::challenge_holds;
use crate::protocol::commitment_spec;
use crate::protocol::prove_spec;
use crate::protocol::verify_spec;
use crate::protocol::witness_holds;
use crate::protocol::Branch;
use crate::protocol::StatementView;
use crate::protocol::TranscriptView;
use crate::protocol::WitnessView;
use crate::scalar::group_order;
use crate::scalar::scalar_xor;
use crate::transcript::or_challenge_spec;
use vstd::arithmetic::div_mod::lemma_mod_equivalence;
use vstd::arithmetic::div_mod::lemma_mul_mod_noop_left;
use vstd::arithmetic::div_mod::lemma_mul_mod_noop_right;
use vstd::arithmetic::div_mod::lemma_small_mod;
use vstd::arithmetic::div_mod::lemma_sub_mod_noop;
use vstd::prelude::*;

verus! {

/// The challenge of the proof that the prover makes.
pub open spec fn honest_challenge(
    stmt: StatementView,
    w: WitnessView,
    c_d: nat,
    z_d: nat,
    k: nat,
) -> nat {
    let p = prove_spec(stmt, w, c_d, z_d, k);
    or_challenge_spec(stmt.g0, stmt.g1, stmt.y0, stmt.y1, p.t0, p.t1)
}

/// Splitting the challenge `c` by XOR with `c_d` can be undone: the two
/// sub-challenges XOR to `c` again. The reduction modulo the group order
/// that follows each XOR can break this.
pub open spec fn split_recovers(c: nat, c_d: nat) -> bool {
    scalar_xor(scalar_xor(c, c_d), c_d) == c
}

/// The XOR of two scalars does not depend on their order.
pub proof fn lemma_scalar_xor_commutes(a: nat, b: nat)
    ensures
        scalar_xor(a, b) == scalar_xor(b, a),
{
    lemma_xor_commutes(le_bytes(a, 32), le_bytes(b, 32));
}

/// The real branch's equation: with `y = x * g`, the response
/// `z = c * x + k` answers the challenge `c` for the commitment `k * g`.
pub proof fn lemma_response_answers(x: nat, k: nat, c: nat, g: nat)
    ensures
        commitment_spec((c * x + k) % group_order(), g, c, (x * g) % group_order()) == (k * g)
            % group_order(),
{
    let l = group_order() as int;
    let a = (c * x + k) as int;
    let z = a % l;
    let y = ((x * g) as int) % l;
    lemma_mul_mod_noop_left(a, g as int, l);
    lemma_mul_mod_noop_right(c as int, (x * g) as int, l);
    lemma_sub_mod_noop(z * g, c * y, l);
    lemma_sub_mod_noop(a * g, (c * (x * g)) as int, l);
    assert(a * g - c * (x * g) == k * g) by (nonlinear_arith)
        requires
            a == c * x + k,
    ;
}

/// Completeness, with the inputs on which it holds: a proof made from a
/// witness that fits the statement is accepted exactly where the split of
/// the challenge can be undone.
pub proof fn lemma_honest_proof_verifies_exactly(
    stmt: StatementView,
    w: WitnessView,
    c_d: nat,
    z_d: nat,
    k: nat,
)
    requires
        witness_holds(stmt, w),
    ensures
        verify_spec(stmt, prove_spec(stmt, w, c_d, z_d, k)) == split_recovers(
            honest_challenge(stmt, w, c_d, z_d, k),
            c_d,
        ),
{
    let p = prove_spec(stmt, w, c_d, z_d, k);
    let c = honest_challenge(stmt, w, c_d, z_d, k);
    match w.branch {
        Branch::Zero => {
            lemma_response_answers(w.x, k, p.c0, stmt.g0);
            assert(branch0_holds(stmt, p));
            assert(branch1_holds(stmt, p));
        },
        Branch::One => {
            lemma_response_answers(w.x, k, p.c1, stmt.g1);
            lemma_scalar_xor_commutes(c_d, scalar_xor(c, c_d));
            assert(branch0_holds(stmt, p));
            assert(branch1_holds(stmt, p));
        },
    }
}

/// Completeness: the verifier accepts the proof that the prover makes
/// from a witness that fits the statement, for either branch, whatever
/// the randomness, provided that the split of the challenge can be undone.
pub proof fn lemma_honest_proof_verifies(
    stmt: StatementView,
    w: WitnessView,
    c_d: nat,
    z_d: nat,
    k: nat,
)
    requires
        witness_holds(stmt, w),
        split_recovers(honest_challenge(stmt, w, c_d, z_d, k), c_d),
    ensures
        verify_spec(stmt, prove_spec(stmt, w, c_d, z_d, k)),
{
    lemma_honest_proof_verifies_exactly(stmt, w, c_d, z_d, k);
}

/// The split of a challenge can be undone wherever the XOR of the two
/// encodings is itself below the group order, so that the reduction
/// leaves it alone.
pub proof fn lemma_split_recovers_when_reduced(c: nat, c_d: nat)
    requires
        c < group_order(),
        le_value(xor_bytes_spec(le_bytes(c, 32), le_bytes(c_d, 32))) < group_order(),
    ensures
        split_recovers(c, c_d),
{
    let cb = le_bytes(c, 32);
    let db = le_bytes(c_d, 32);
    let mixed = xor_bytes_spec(cb, db);
    lemma_le_bytes_len(c, 32);
    lemma_le_bytes_len(c_d, 32);
    lemma_small_mod(le_value(mixed), group_order());
    assert(scalar_xor(c, c_d) == le_value(mixed));
    lemma_le_bytes_of_value(mixed);
    assert(le_bytes(scalar_xor(c, c_d), 32) == mixed);
    lemma_xor_commutes(mixed, db);
    lemma_xor_commutes(cb, db);
    lemma_xor_involution(db, cb);
    assert(xor_bytes_spec(mixed, db) == cb);
    lemma_bound_32();
    lemma_le_value_of_bytes(c, 32);
    lemma_small_mod(c, group_order());
}

/// `256^32`, and that the group order is below it.
proof fn lemma_bound_32()
    ensures
        le_bound(32) == 0x1_0000_0000_0000_0000_0000_0000_0000_0000_0000_0000_0000_0000_0000_0000_0000_0000nat,
        le_bound(31) == 0x1_0000_0000_0000_0000_0000_0000_0000_0000_0000_0000_0000_0000_0000_0000_0000_00nat,
        group_order() < le_bound(32),
{
    reveal_with_fuel(le_bound, 33);
}

/// The split of a challenge can be undone wherever both the challenge
/// and the fake sub-challenge are below `2^252`: all scalars but a share
/// of about `2^-127` of them.
pub proof fn lemma_split_recovers_below_2_252(c: nat, c_d: nat)
    requires
        c < 0x1000_0000_0000_0000_0000_0000_0000_0000_0000_0000_0000_0000_0000_0000_0000_0000nat,
        c_d < 0x1000_0000_0000_0000_0000_0000_0000_0000_0000_0000_0000_0000_0000_0000_0000_0000nat,
    ensures
        split_recovers(c, c_d),
{
    lemma_bound_32();
    let cb = le_bytes(c, 32);
    let db = le_bytes(c_d, 32);
    lemma_le_bytes_top_nibble(c, 32);
    lemma_le_bytes_top_nibble(c_d, 32);
    let mixed = xor_bytes_spec(cb, db);
    let x = cb[31];
    let y = db[31];
    assert(x ^ y < 16) by (bit_vector)
        requires
            x < 16,
            y < 16,
    ;
    assert(mixed[31] == x ^ y);
    lemma_le_value_top_nibble(mixed);
    lemma_split_recovers_when_reduced(c, c_d);
}

/// In a proof that is accepted, no commitment can be replaced by another
/// point: the verifier rejects the changed proof.
pub proof fn lemma_changed_commitment_rejected(
    stmt: StatementView,
    p: TranscriptView,
    q: TranscriptView,
)
    requires
        verify_spec(stmt, p),
        q.c0 == p.c0 && q.z0 == p.z0 && q.c1 == p.c1 && q.z1 == p.z1,
        q.t0 != p.t0 || q.t1 != p.t1,
    ensures
        !verify_spec(stmt, q),
{
}

/// `h` is an inverse of `g` modulo the group order.
pub open spec fn inverts(h: nat, g: nat) -> bool {
    (h * g) % group_order() == 1
}

/// The point of index `g` generates the group: its index has an inverse
/// modulo the group order.
pub open spec fn generates(g: nat) -> bool {
    exists|h: nat| inverts(h, g)
}

/// Two numbers below the group order whose products with the index of a
/// generator agree modulo the group order are equal.
pub proof fn lemma_generator_cancels(a: nat, b: nat, g: nat)
    requires
        a < group_order(),
        b < group_order(),
        generates(g),
        (a * g) % group_order() == (b * g) % group_order(),
    ensures
        a == b,
{
    let l = group_order() as int;
    let h = choose|h: nat| inverts(h, g);
    let d = a - b;
    lemma_sub_mod_noop((a * g) as int, (b * g) as int, l);
    assert((a * g) - (b * g) == d * g) by (nonlinear_arith)
        requires
            d == a - b,
    ;
    assert((d * g) % l == 0);
    lemma_mul_mod_noop_right(h as int, d * g, l);
    assert(h * (d * g) == d * (h * g)) by (nonlinear_arith);
    assert((d * (h * g)) % l == 0) by {
        assert(h * 0 == 0);
    }
    lemma_mul_mod_noop_right(d, (h * g) as int, l);
    assert(d * 1 == d);
    assert(d % l == 0);
    if d > 0 {
        lemma_small_mod(d as nat, group_order());
    } else if d < 0 {
        lemma_small_mod((-d) as nat, group_order());
        lemma_mod_equivalence(0, d, l);
    }
}

/// Under a generator `g`, the commitment tells responses apart.
pub proof fn lemma_commitment_tells_responses_apart(z: nat, z2: nat, g: nat, c: nat, y: nat)
    requires
        z < group_order(),
        z2 < group_order(),
        generates(g),
        commitment_spec(z, g, c, y) == commitment_spec(z2, g, c, y),
    ensures
        z == z2,
{
    let l = group_order() as int;
    lemma_mod_equivalence(z * g - c * y, z2 * g - c * y, l);
    lemma_mod_equivalence((z * g) as int, (z2 * g) as int, l);
    lemma_generator_cancels(z, z2, g);
}

/// For a public point `y` that generates the group, the commitment
/// tells sub-challenges apart.
pub proof fn lemma_commitment_tells_challenges_apart(z: nat, g: nat, c: nat, c2: nat, y: nat)
    requires
        c < group_order(),
        c2 < group_order(),
        generates(y),
        commitment_spec(z, g, c, y) == commitment_spec(z, g, c2, y),
    ensures
        c == c2,
{
    let l = group_order() as int;
    lemma_mod_equivalence(z * g - c * y, z * g - c2 * y, l);
    lemma_mod_equivalence((c2 * y) as int, (c * y) as int, l);
    lemma_generator_cancels(c, c2, y);
}

/// In a proof that is accepted, no response can be replaced by another
/// scalar, provided that the branch's generator generates the group:
/// the verifier rejects the changed proof.
pub proof fn lemma_changed_response_rejected(
    stmt: StatementView,
    p: TranscriptView,
    q: TranscriptView,
)
    requires
        verify_spec(stmt, p),
        p.z0 < group_order() && p.z1 < group_order(),
        q.z0 < group_order() && q.z1 < group_order(),
        q.t0 == p.t0 && q.c0 == p.c0 && q.t1 == p.t1 && q.c1 == p.c1,
        (q.z0 != p.z0 && generates(stmt.g0)) || (q.z1 != p.z1 && generates(stmt.g1)),
    ensures
        !verify_spec(stmt, q),
{
    if verify_spec(stmt, q) {
        if q.z0 != p.z0 && generates(stmt.g0) {
            lemma_commitment_tells_responses_apart(p.z0, q.z0, stmt.g0, p.c0, stmt.y0);
        } else {
            lemma_commitment_tells_responses_apart(p.z1, q.z1, stmt.g1, p.c1, stmt.y1);
        }
    }
}

/// In a proof that is accepted, no sub-challenge can be replaced by
/// another scalar, provided that the branch's public point generates the
/// group: the verifier rejects the changed proof.
pub proof fn lemma_changed_sub_challenge_rejected(
    stmt: StatementView,
    p: TranscriptView,
    q: TranscriptView,
)
    requires
        verify_spec(stmt, p),
        p.c0 < group_order() && p.c1 < group_order(),
        q.c0 < group_order() && q.c1 < group_order(),
        q.t0 == p.t0 && q.z0 == p.z0 && q.t1 == p.t1 && q.z1 == p.z1,
        (q.c0 != p.c0 && generates(stmt.y0)) || (q.c1 != p.c1 && generates(stmt.y1)),
    ensures
        !verify_spec(stmt, q),
{
    if verify_spec(stmt, q) {
        if q.c0 != p.c0 && generates(stmt.y0) {
            lemma_commitment_tells_challenges_apart(p.z0, stmt.g0, p.c0, q.c0, stmt.y0);
        } else {
            lemma_commitment_tells_challenges_apart(p.z1, stmt.g1, p.c1, q.c1, stmt.y1);
        }
    }
}

/// A proof whose two sub-challenges do not XOR to the challenge derived
/// from the statement and the commitments is rejected.
pub proof fn lemma_wrong_split_rejected(stmt: StatementView, p: TranscriptView)
    requires
        !challenge_holds(stmt, p),
    ensures
        !verify_spec(stmt, p),
{
}

} // verus!
