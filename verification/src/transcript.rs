//! The Fiat-Shamir challenge: a scalar drawn from a transcript of the six
//! public points of a proof.

use crate::point::point_encoding;
use crate::point::Point;
use crate::scalar::Scalar;
use vstd::prelude::*;

verus! {

/// `lox_zkp::Transcript`, the transcript of merlin: nothing inside it is
/// visible here.
#[verifier::external_type_specification]
#[verifier::external_body]
pub struct ExTranscript(lox_zkp::Transcript);

/// What a transcript has taken in, in order: the label it was made with,
/// then a label and an encoding for each point appended.
pub uninterp spec fn transcript_messages(t: lox_zkp::Transcript) -> Seq<Seq<u8>>;

/// The scalar that `get_challenge` draws, under the given label, from a
/// transcript that has taken in the given messages.
pub uninterp spec fn challenge_value(messages: Seq<Seq<u8>>, label: Seq<u8>) -> nat;

/// The protocol's domain separator, `OR-Schnorr`.
pub const DOMAIN_LABEL: [u8; 10] = [79, 82, 45, 83, 99, 104, 110, 111, 114, 114];

/// `G0`
pub const LABEL_G0: [u8; 2] = [71, 48];

/// `G1`
pub const LABEL_G1: [u8; 2] = [71, 49];

/// `y0`
pub const LABEL_Y0: [u8; 2] = [121, 48];

/// `y1`
pub const LABEL_Y1: [u8; 2] = [121, 49];

/// `t1`
pub const LABEL_T1: [u8; 2] = [116, 49];

/// `t2`
pub const LABEL_T2: [u8; 2] = [116, 50];

/// `challenge_scalaire`
pub const CHALLENGE_LABEL: [u8; 18] = [
    99, 104, 97, 108, 108, 101, 110, 103, 101, 95, 115, 99, 97, 108, 97, 105, 114, 101,
];

/// The messages that the transcript of a proof takes in: the domain
/// separator, then the two generators, the two public points and the two
/// commitments, each under its label. Points are given by their indices.
pub open spec fn or_challenge_messages(
    g0: nat,
    g1: nat,
    y0: nat,
    y1: nat,
    t1: nat,
    t2: nat,
) -> Seq<Seq<u8>> {
    seq![
        DOMAIN_LABEL@,
        LABEL_G0@,
        point_encoding(g0),
        LABEL_G1@,
        point_encoding(g1),
        LABEL_Y0@,
        point_encoding(y0),
        LABEL_Y1@,
        point_encoding(y1),
        LABEL_T1@,
        point_encoding(t1),
        LABEL_T2@,
        point_encoding(t2),
    ]
}

/// The challenge of a proof with the given public points and commitments.
pub open spec fn or_challenge_spec(g0: nat, g1: nat, y0: nat, y1: nat, t1: nat, t2: nat) -> nat {
    challenge_value(or_challenge_messages(g0, g1, y0, y1, t1, t2), CHALLENGE_LABEL@)
}

/// `Transcript::new` of merlin, as lox-zkp hands it on: a fresh transcript
/// that has taken in its domain separation label and nothing else.
#[verifier::external_body]
fn transcript_new(label: &'static [u8]) -> (t: lox_zkp::Transcript)
    requires
        label@.len() <= u32::MAX,
    ensures
        transcript_messages(t) == seq![label@],
{
    lox_zkp::Transcript::new(label)
}

/// `TranscriptProtocol::append_point_var` of lox-zkp: the transcript takes
/// in the label and then the point's encoding.
#[verifier::external_body]
fn transcript_append_point(t: &mut lox_zkp::Transcript, label: &'static [u8], p: &Point)
    requires
        label@.len() <= u32::MAX,
        p.wf(),
    ensures
        transcript_messages(*final(t)) == transcript_messages(*old(t)).push(label@).push(
            p.encoding(),
        ),
{
    let q = curve25519_dalek::ristretto::CompressedRistretto(p.bytes).decompress().unwrap();
    lox_zkp::toolbox::TranscriptProtocol::append_point_var(t, label, &q);
}

/// `TranscriptProtocol::get_challenge` of lox-zkp: a scalar that depends
/// on nothing but what the transcript has taken in and the label.
#[verifier::external_body]
fn transcript_challenge(t: lox_zkp::Transcript, label: &'static [u8]) -> (c: Scalar)
    ensures
        c.wf(),
        c@ == challenge_value(transcript_messages(t), label@),
{
    let mut t = t;
    let c = lox_zkp::toolbox::TranscriptProtocol::get_challenge(&mut t, label);
    Scalar { bytes: c.to_bytes() }
}

/// Derives the challenge of a proof from the two generators, the two
/// public points and the two commitments, in this order.
pub fn or_challenge(
    g0: &Point,
    g1: &Point,
    y0: &Point,
    y1: &Point,
    t1: &Point,
    t2: &Point,
) -> (c: Scalar)
    ensures
        c.wf(),
        c@ < crate::scalar::group_order(),
        c@ == or_challenge_spec(g0@, g1@, y0@, y1@, t1@, t2@),
{
    proof {
        use_type_invariant(g0);
        use_type_invariant(g1);
        use_type_invariant(y0);
        use_type_invariant(y1);
        use_type_invariant(t1);
        use_type_invariant(t2);
        g0.lemma_wf();
        g1.lemma_wf();
        y0.lemma_wf();
        y1.lemma_wf();
        t1.lemma_wf();
        t2.lemma_wf();
    }
    let mut transcript = transcript_new(&DOMAIN_LABEL);
    transcript_append_point(&mut transcript, &LABEL_G0, g0);
    transcript_append_point(&mut transcript, &LABEL_G1, g1);
    transcript_append_point(&mut transcript, &LABEL_Y0, y0);
    transcript_append_point(&mut transcript, &LABEL_Y1, y1);
    transcript_append_point(&mut transcript, &LABEL_T1, t1);
    transcript_append_point(&mut transcript, &LABEL_T2, t2);
    assert(transcript_messages(transcript) =~= or_challenge_messages(
        g0@,
        g1@,
        y0@,
        y1@,
        t1@,
        t2@,
    ));
    let c = transcript_challenge(transcript, &CHALLENGE_LABEL);
    proof {
        c.lemma_wf();
    }
    c
}

} // verus!
