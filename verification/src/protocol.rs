//! The OR-proof itself: statement, witness and proof transcript, the
//! simulator, the prover and the verifier.

use crate::entropy::random_scalar;
use crate::error::ProofError;
use crate::point::point_mul;
use crate::point::point_sub;
use crate::point::Point;
use crate::scalar::group_order;
use crate::scalar::scalar_add;
use crate::scalar::scalar_mul;
use crate::scalar::scalar_xor;
use crate::scalar::xor_scalars;
use crate::scalar::Scalar;
use crate::transcript::or_challenge;
use crate::transcript::or_challenge_spec;
use vstd::arithmetic::div_mod::lemma_add_mod_noop;
use vstd::arithmetic::div_mod::lemma_small_mod;
use vstd::arithmetic::div_mod::lemma_sub_mod_noop;
use vstd::prelude::*;

verus! {

/// One of the two branches of the statement.
#[derive(Clone, Copy, Debug, PartialEq, Eq)]
pub enum Branch {
    Zero,
    One,
}

/// The public statement: two generators and one public point for each.
#[derive(Clone, Copy, Debug, PartialEq, Eq)]
pub struct Statement {
    g0: Point,
    g1: Point,
    y0: Point,
    y1: Point,
}

/// The prover's secret: the branch `b` and the scalar `x` with
/// `y_b = x * G_b`.
#[derive(Clone, Copy, Debug, PartialEq, Eq)]
pub struct Witness {
    branch: Branch,
    x: Scalar,
}

/// A proof: commitment, sub-challenge and response for each branch.
#[derive(Clone, Copy, Debug, PartialEq, Eq)]
pub struct ProofTranscript {
    t0: Point,
    c0: Scalar,
    z0: Scalar,
    t1: Point,
    c1: Scalar,
    z1: Scalar,
}

/// A statement as numbers: each point by its index.
pub struct StatementView {
    pub g0: nat,
    pub g1: nat,
    pub y0: nat,
    pub y1: nat,
}

/// A witness as numbers.
pub struct WitnessView {
    pub branch: Branch,
    pub x: nat,
}

/// A proof as numbers: each point by its index, each scalar by its value.
pub struct TranscriptView {
    pub t0: nat,
    pub c0: nat,
    pub z0: nat,
    pub t1: nat,
    pub c1: nat,
    pub z1: nat,
}

impl View for Statement {
    type V = StatementView;

    closed spec fn view(&self) -> StatementView {
        StatementView { g0: self.g0@, g1: self.g1@, y0: self.y0@, y1: self.y1@ }
    }
}

impl View for Witness {
    type V = WitnessView;

    closed spec fn view(&self) -> WitnessView {
        WitnessView { branch: self.branch, x: self.x@ }
    }
}

impl View for ProofTranscript {
    type V = TranscriptView;

    closed spec fn view(&self) -> TranscriptView {
        TranscriptView {
            t0: self.t0@,
            c0: self.c0@,
            z0: self.z0@,
            t1: self.t1@,
            c1: self.c1@,
            z1: self.z1@,
        }
    }
}

/// The index of `z * g - c * y`, for a point `g` of index `g` and a point
/// `y` of index `y`: what a branch's commitment has to be for the
/// sub-challenge `c` and the response `z`.
pub open spec fn commitment_spec(z: nat, g: nat, c: nat, y: nat) -> nat {
    ((z * g - c * y) % (group_order() as int)) as nat
}

/// The witness fits the statement: `y_b = x * G_b`.
pub open spec fn witness_holds(stmt: StatementView, w: WitnessView) -> bool {
    match w.branch {
        Branch::Zero => stmt.y0 == (w.x * stmt.g0) % group_order(),
        Branch::One => stmt.y1 == (w.x * stmt.g1) % group_order(),
    }
}

/// The commitment of the branch without a witness, simulated from the
/// fake sub-challenge `c_d` and the response `z_d`.
pub open spec fn simulated_commitment(stmt: StatementView, w: WitnessView, c_d: nat, z_d: nat) -> nat {
    match w.branch {
        Branch::Zero => commitment_spec(z_d, stmt.g1, c_d, stmt.y1),
        Branch::One => commitment_spec(z_d, stmt.g0, c_d, stmt.y0),
    }
}

/// The proof that the real branch completes, given the simulated branch
/// `(t_d, c_d, z_d)` and the commitment randomness `k`: the commitment
/// `k * G_b`, the sub-challenge that XORs with `c_d` to the challenge of
/// the proof, and the response `c_b * x + k`; each branch in its slot.
pub open spec fn respond_spec(
    stmt: StatementView,
    w: WitnessView,
    c_d: nat,
    t_d: nat,
    z_d: nat,
    k: nat,
) -> TranscriptView {
    match w.branch {
        Branch::Zero => {
            let t_b = (k * stmt.g0) % group_order();
            let c = or_challenge_spec(stmt.g0, stmt.g1, stmt.y0, stmt.y1, t_b, t_d);
            let c_b = scalar_xor(c, c_d);
            let z_b = (c_b * w.x + k) % group_order();
            TranscriptView { t0: t_b, c0: c_b, z0: z_b, t1: t_d, c1: c_d, z1: z_d }
        },
        Branch::One => {
            let t_b = (k * stmt.g1) % group_order();
            let c = or_challenge_spec(stmt.g0, stmt.g1, stmt.y0, stmt.y1, t_d, t_b);
            let c_b = scalar_xor(c, c_d);
            let z_b = (c_b * w.x + k) % group_order();
            TranscriptView { t0: t_d, c0: c_d, z0: z_d, t1: t_b, c1: c_b, z1: z_b }
        },
    }
}

/// The proof that the prover makes from the fake sub-challenge `c_d` and
/// the response `z_d` of the simulated branch and the commitment
/// randomness `k` of the real one.
pub open spec fn prove_spec(
    stmt: StatementView,
    w: WitnessView,
    c_d: nat,
    z_d: nat,
    k: nat,
) -> TranscriptView {
    respond_spec(stmt, w, c_d, simulated_commitment(stmt, w, c_d, z_d), z_d, k)
}

/// The first branch's equation holds: `t0 = z0 * G0 - c0 * y0`.
pub open spec fn branch0_holds(stmt: StatementView, p: TranscriptView) -> bool {
    p.t0 == commitment_spec(p.z0, stmt.g0, p.c0, stmt.y0)
}

/// The second branch's equation holds: `t1 = z1 * G1 - c1 * y1`.
pub open spec fn branch1_holds(stmt: StatementView, p: TranscriptView) -> bool {
    p.t1 == commitment_spec(p.z1, stmt.g1, p.c1, stmt.y1)
}

/// The two sub-challenges XOR to the challenge of the proof.
pub open spec fn challenge_holds(stmt: StatementView, p: TranscriptView) -> bool {
    scalar_xor(p.c0, p.c1) == or_challenge_spec(stmt.g0, stmt.g1, stmt.y0, stmt.y1, p.t0, p.t1)
}

/// The verifier accepts: both branch equations and the XOR relation hold.
pub open spec fn verify_spec(stmt: StatementView, p: TranscriptView) -> bool {
    branch0_holds(stmt, p) && branch1_holds(stmt, p) && challenge_holds(stmt, p)
}

impl Branch {
    /// The other branch.
    pub open spec fn other_spec(self) -> Branch {
        match self {
            Branch::Zero => Branch::One,
            Branch::One => Branch::Zero,
        }
    }

    /// The other branch.
    pub fn other(self) -> (d: Branch)
        ensures
            d == self.other_spec(),
    {
        match self {
            Branch::Zero => Branch::One,
            Branch::One => Branch::Zero,
        }
    }
}

impl Statement {
    /// The statement with generators `g0`, `g1` and public points `y0`, `y1`.
    pub fn new(g0: Point, g1: Point, y0: Point, y1: Point) -> (stmt: Statement)
        ensures
            stmt@ == (StatementView { g0: g0@, g1: g1@, y0: y0@, y1: y1@ }),
    {
        Statement { g0, g1, y0, y1 }
    }

    /// The first generator.
    pub fn g0(&self) -> (p: &Point)
        ensures
            p@ == self@.g0,
    {
        &self.g0
    }

    /// The second generator.
    pub fn g1(&self) -> (p: &Point)
        ensures
            p@ == self@.g1,
    {
        &self.g1
    }

    /// The public point of the first branch.
    pub fn y0(&self) -> (p: &Point)
        ensures
            p@ == self@.y0,
    {
        &self.y0
    }

    /// The public point of the second branch.
    pub fn y1(&self) -> (p: &Point)
        ensures
            p@ == self@.y1,
    {
        &self.y1
    }
}

impl Witness {
    /// The witness that knows `x` for the given branch.
    pub fn new(branch: Branch, x: Scalar) -> (w: Witness)
        ensures
            w@ == (WitnessView { branch, x: x@ }),
    {
        Witness { branch, x }
    }

    /// The branch that the witness is for.
    pub fn branch(&self) -> (b: Branch)
        ensures
            b == self@.branch,
    {
        self.branch
    }

    /// The secret scalar.
    pub fn x(&self) -> (x: &Scalar)
        ensures
            x@ == self@.x,
    {
        &self.x
    }
}

impl ProofTranscript {
    /// The proof with the given commitment, sub-challenge and response
    /// for each branch.
    pub fn new(t0: Point, c0: Scalar, z0: Scalar, t1: Point, c1: Scalar, z1: Scalar) -> (p:
        ProofTranscript)
        ensures
            p@ == (TranscriptView { t0: t0@, c0: c0@, z0: z0@, t1: t1@, c1: c1@, z1: z1@ }),
    {
        ProofTranscript { t0, c0, z0, t1, c1, z1 }
    }

    /// The commitment of the first branch.
    pub fn t0(&self) -> (p: &Point)
        ensures
            p@ == self@.t0,
    {
        &self.t0
    }

    /// The sub-challenge of the first branch.
    pub fn c0(&self) -> (s: &Scalar)
        ensures
            s@ == self@.c0,
    {
        &self.c0
    }

    /// The response of the first branch.
    pub fn z0(&self) -> (s: &Scalar)
        ensures
            s@ == self@.z0,
    {
        &self.z0
    }

    /// The commitment of the second branch.
    pub fn t1(&self) -> (p: &Point)
        ensures
            p@ == self@.t1,
    {
        &self.t1
    }

    /// The sub-challenge of the second branch.
    pub fn c1(&self) -> (s: &Scalar)
        ensures
            s@ == self@.c1,
    {
        &self.c1
    }

    /// The response of the second branch.
    pub fn z1(&self) -> (s: &Scalar)
        ensures
            s@ == self@.z1,
    {
        &self.z1
    }
}

/// The commitment `z * g - c * y` that makes the response `z` answer the
/// challenge `c` for the public point `y` under the generator `g`.
pub fn sim_sc_with(y: &Point, c: &Scalar, g: &Point, z: &Scalar) -> (t: Point)
    ensures
        t.wf(),
        t@ < group_order(),
        t@ == commitment_spec(z@, g@, c@, y@),
{
    proof {
        use_type_invariant(y);
        use_type_invariant(g);
    }
    let zg = point_mul(z, g);
    let cy = point_mul(c, y);
    let t = point_sub(&zg, &cy);
    proof {
        zg.lemma_wf();
        cy.lemma_wf();
        t.lemma_wf();
        lemma_sub_mod_noop((z@ * g@) as int, (c@ * y@) as int, group_order() as int);
    }
    t
}

/// Simulates a branch without its witness: draws the response `z` at
/// random and solves the branch's equation for the commitment `t`.
pub fn sim_sc(y: &Point, c: &Scalar, g: &Point) -> (r: Result<(Point, Scalar), ProofError>)
    ensures
        r matches Ok((t, z)) ==> t.wf() && z.wf() && z@ < group_order() && t@ == commitment_spec(
            z@,
            g@,
            c@,
            y@,
        ),
        r matches Err(e) ==> e == ProofError::RandomnessUnavailable,
{
    match random_scalar() {
        Ok(z) => {
            let t = sim_sc_with(y, c, g, &z);
            Ok((t, z))
        },
        Err(e) => Err(e),
    }
}

/// Completes a proof: commits for the real branch with `k`, derives the
/// challenge from the commitments in their slots, splits it by XOR with
/// the simulated branch's sub-challenge, and responds.
fn respond(
    stmt: &Statement,
    w: &Witness,
    c_d: &Scalar,
    t_d: &Point,
    z_d: &Scalar,
    k: &Scalar,
) -> (p: ProofTranscript)
    ensures
        p@ == respond_spec(stmt@, w@, c_d@, t_d@, z_d@, k@),
{
    proof {
        use_type_invariant(stmt.g0);
        use_type_invariant(stmt.g1);
        use_type_invariant(k);
        k.lemma_wf();
    }
    let t_b = match w.branch {
        Branch::Zero => point_mul(k, &stmt.g0),
        Branch::One => point_mul(k, &stmt.g1),
    };
    proof {
        t_b.lemma_wf();
    }
    let c = match w.branch {
        Branch::Zero => or_challenge(&stmt.g0, &stmt.g1, &stmt.y0, &stmt.y1, &t_b, t_d),
        Branch::One => or_challenge(&stmt.g0, &stmt.g1, &stmt.y0, &stmt.y1, t_d, &t_b),
    };
    let c_b = xor_scalars(&c, c_d);
    let z_b = scalar_add(&scalar_mul(&c_b, &w.x), k);
    proof {
        let l = group_order() as int;
        lemma_small_mod(k@, group_order());
        lemma_add_mod_noop((c_b@ * w.x@) as int, k@ as int, l);
    }
    match w.branch {
        Branch::Zero => ProofTranscript { t0: t_b, c0: c_b, z0: z_b, t1: *t_d, c1: *c_d, z1: *z_d },
        Branch::One => ProofTranscript { t0: *t_d, c0: *c_d, z0: *z_d, t1: t_b, c1: c_b, z1: z_b },
    }
}

/// Makes the proof for the given randomness: the fake sub-challenge
/// `c_d` and the response `z_d` of the simulated branch, and the
/// commitment randomness `k` of the real one.
///
/// Nothing checks that the witness fits the statement; with a witness
/// that does not, the proof is made all the same and will not verify.
pub fn prove_with(
    stmt: &Statement,
    w: &Witness,
    c_d: &Scalar,
    z_d: &Scalar,
    k: &Scalar,
) -> (p: ProofTranscript)
    ensures
        p@ == prove_spec(stmt@, w@, c_d@, z_d@, k@),
{
    let t_d = match w.branch.other() {
        Branch::Zero => sim_sc_with(&stmt.y0, c_d, &stmt.g0, z_d),
        Branch::One => sim_sc_with(&stmt.y1, c_d, &stmt.g1, z_d),
    };
    respond(stmt, w, c_d, &t_d, z_d, k)
}

/// Makes a proof that the prover knows the discrete logarithm of one of
/// the statement's two public points: simulates the branch without a
/// witness under a random sub-challenge, then completes the real branch
/// under fresh commitment randomness.
///
/// It fails where the source of randomness does, and only there.
/// Nothing checks that the witness fits the statement; with a witness
/// that does not, the proof is made all the same and will not verify.
/// With a witness that fits, the proof verifies unless the reduction
/// that follows the XOR changed the real branch's sub-challenge, which
/// takes a challenge or a fake sub-challenge that is not below `2^252`.
pub fn prove(stmt: &Statement, w: &Witness) -> (r: Result<ProofTranscript, ProofError>)
    ensures
        r matches Ok(p) ==> exists|c_d: nat, z_d: nat, k: nat|
            c_d < group_order() && z_d < group_order() && k < group_order() && p@
                == #[trigger] prove_spec(stmt@, w@, c_d, z_d, k),
        r matches Err(e) ==> e == ProofError::RandomnessUnavailable,
{
    let c_d = match random_scalar() {
        Ok(s) => s,
        Err(e) => {
            return Err(e);
        },
    };
    let simulated = match w.branch.other() {
        Branch::Zero => sim_sc(&stmt.y0, &c_d, &stmt.g0),
        Branch::One => sim_sc(&stmt.y1, &c_d, &stmt.g1),
    };
    let (t_d, z_d) = match simulated {
        Ok(pair) => pair,
        Err(e) => {
            return Err(e);
        },
    };
    let k = match random_scalar() {
        Ok(s) => s,
        Err(e) => {
            return Err(e);
        },
    };
    let p = respond(stmt, w, &c_d, &t_d, &z_d, &k);
    assert(p@ == prove_spec(stmt@, w@, c_d@, z_d@, k@));
    Ok(p)
}

/// Checks a proof against a statement: both branch equations, and that
/// the two sub-challenges XOR to the challenge derived from the
/// statement and the two commitments.
pub fn verify(stmt: &Statement, proof: &ProofTranscript) -> (accept: bool)
    ensures
        accept == verify_spec(stmt@, proof@),
        !challenge_holds(stmt@, proof@) ==> !accept,
{
    let expected0 = sim_sc_with(&stmt.y0, &proof.c0, &stmt.g0, &proof.z0);
    let condition0 = proof.t0.equals(&expected0);
    let expected1 = sim_sc_with(&stmt.y1, &proof.c1, &stmt.g1, &proof.z1);
    let condition1 = proof.t1.equals(&expected1);
    let c = or_challenge(&stmt.g0, &stmt.g1, &stmt.y0, &stmt.y1, &proof.t0, &proof.t1);
    let condition2 = xor_scalars(&proof.c0, &proof.c1).equals(&c);
    condition0 && condition1 && condition2
}

/// Whether the witness fits the statement: `y_b = x * G_b`.
pub fn witness_consistent(stmt: &Statement, w: &Witness) -> (fits: bool)
    ensures
        fits == witness_holds(stmt@, w@),
{
    proof {
        use_type_invariant(stmt.g0);
        use_type_invariant(stmt.g1);
    }
    match w.branch {
        Branch::Zero => {
            let y = point_mul(&w.x, &stmt.g0);
            proof {
                y.lemma_wf();
            }
            stmt.y0.equals(&y)
        },
        Branch::One => {
            let y = point_mul(&w.x, &stmt.g1);
            proof {
                y.lemma_wf();
            }
            stmt.y1.equals(&y)
        },
    }
}

} // verus!
