use curve25519_dalek::constants::RISTRETTO_BASEPOINT_POINT;
use curve25519_dalek::ristretto::RistrettoPoint;
use lox_zkp::toolbox::TranscriptProtocol;
use lox_zkp::Transcript;
use or_schnorr::point::Point;
use or_schnorr::scalar::Scalar;
use or_schnorr::transcript::or_challenge;
use rand_core::OsRng;

fn multiple_of_basepoint(n: u64) -> RistrettoPoint {
    curve25519_dalek::scalar::Scalar::from(n) * RISTRETTO_BASEPOINT_POINT
}

fn as_point(p: &RistrettoPoint) -> Point {
    Point::from_bytes(p.compress().to_bytes()).unwrap()
}

fn challenge_by_hand(points: &[RistrettoPoint; 6]) -> Scalar {
    let mut transcript = Transcript::new(b"OR-Schnorr");
    transcript.append_point_var(b"G0", &points[0]);
    transcript.append_point_var(b"G1", &points[1]);
    transcript.append_point_var(b"y0", &points[2]);
    transcript.append_point_var(b"y1", &points[3]);
    transcript.append_point_var(b"t1", &points[4]);
    transcript.append_point_var(b"t2", &points[5]);
    let c = transcript.get_challenge(b"challenge_scalaire");
    Scalar::from_bytes_mod_order(c.to_bytes())
}

fn challenge_of(points: &[RistrettoPoint; 6]) -> Scalar {
    or_challenge(
        &as_point(&points[0]),
        &as_point(&points[1]),
        &as_point(&points[2]),
        &as_point(&points[3]),
        &as_point(&points[4]),
        &as_point(&points[5]),
    )
}

fn six_multiples() -> [RistrettoPoint; 6] {
    [
        multiple_of_basepoint(1),
        multiple_of_basepoint(2),
        multiple_of_basepoint(3),
        multiple_of_basepoint(4),
        multiple_of_basepoint(5),
        multiple_of_basepoint(6),
    ]
}

#[test]
fn challenge_of_six_fixed_points() {
    let expected: [u8; 32] = [
        215, 128, 21, 216, 79, 251, 199, 41, 227, 134, 175, 111, 126, 159, 227, 222, 12, 146, 34,
        129, 239, 191, 97, 164, 195, 127, 28, 137, 138, 150, 178, 12,
    ];
    assert_eq!(challenge_of(&six_multiples()).to_bytes(), expected);
}

#[test]
fn challenge_is_the_transcript_s() {
    let fixed = six_multiples();
    assert_eq!(challenge_of(&fixed), challenge_by_hand(&fixed));
    for _ in 0..10 {
        let points = [
            RistrettoPoint::random(&mut OsRng),
            RistrettoPoint::random(&mut OsRng),
            RistrettoPoint::random(&mut OsRng),
            RistrettoPoint::random(&mut OsRng),
            RistrettoPoint::random(&mut OsRng),
            RistrettoPoint::random(&mut OsRng),
        ];
        assert_eq!(challenge_of(&points), challenge_by_hand(&points));
    }
}

#[test]
fn challenge_is_deterministic() {
    let points = six_multiples();
    assert_eq!(challenge_of(&points), challenge_of(&points));
}

#[test]
fn challenge_depends_on_each_point() {
    let points = six_multiples();
    let c = challenge_of(&points);
    for slot in 0..6 {
        let mut changed = points;
        changed[slot] = multiple_of_basepoint(100 + slot as u64);
        assert_ne!(challenge_of(&changed), c);
    }
}

#[test]
fn challenge_depends_on_the_order() {
    let points = six_multiples();
    let c = challenge_of(&points);
    for slot in 0..5 {
        let mut swapped = points;
        swapped.swap(slot, slot + 1);
        assert_ne!(challenge_of(&swapped), c);
    }
}

#[test]
fn challenge_is_canonical() {
    let c = challenge_of(&six_multiples());
    assert_eq!(Scalar::from_bytes_mod_order(c.to_bytes()), c);
}
