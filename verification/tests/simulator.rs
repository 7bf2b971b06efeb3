use curve25519_dalek::constants::RISTRETTO_BASEPOINT_POINT;
use curve25519_dalek::ristretto::RistrettoPoint;
use or_schnorr::point::Point;
use or_schnorr::protocol::sim_sc;
use or_schnorr::protocol::sim_sc_with;
use or_schnorr::scalar::Scalar;
use rand_core::OsRng;

fn dalek_scalar(s: &Scalar) -> curve25519_dalek::scalar::Scalar {
    curve25519_dalek::scalar::Scalar::from_canonical_bytes(s.to_bytes()).unwrap()
}

fn dalek_point(p: &Point) -> RistrettoPoint {
    curve25519_dalek::ristretto::CompressedRistretto(p.to_bytes()).decompress().unwrap()
}

fn our_scalar(s: &curve25519_dalek::scalar::Scalar) -> Scalar {
    Scalar::from_bytes_mod_order(s.to_bytes())
}

fn our_point(p: &RistrettoPoint) -> Point {
    Point::from_bytes(p.compress().to_bytes()).unwrap()
}

fn scalar_of(n: u64) -> curve25519_dalek::scalar::Scalar {
    curve25519_dalek::scalar::Scalar::from(n)
}

#[test]
fn commitment_of_small_values() {
    // 5 * B - 2 * (3 * B) = -B
    let g = RISTRETTO_BASEPOINT_POINT;
    let y = scalar_of(3) * g;
    let t = sim_sc_with(&our_point(&y), &our_scalar(&scalar_of(2)), &our_point(&g), &our_scalar(&scalar_of(5)));
    assert_eq!(t, our_point(&(-g)));
    let expected: [u8; 32] = [
        234, 255, 255, 255, 255, 255, 255, 255, 255, 255, 255, 255, 255, 255, 255, 255, 255, 255,
        255, 255, 255, 255, 255, 255, 255, 255, 255, 255, 255, 255, 255, 127,
    ];
    assert_eq!(t.to_bytes(), expected);
}

#[test]
fn commitment_with_zero_challenge_is_the_multiple() {
    // 2 * B - 0 * y = 2 * B
    let g = RISTRETTO_BASEPOINT_POINT;
    let y = RistrettoPoint::random(&mut OsRng);
    let t = sim_sc_with(&our_point(&y), &our_scalar(&scalar_of(0)), &our_point(&g), &our_scalar(&scalar_of(2)));
    assert_eq!(t, our_point(&(g + g)));
    let expected: [u8; 32] = [
        106, 73, 50, 16, 247, 73, 156, 209, 127, 236, 181, 16, 174, 12, 234, 35, 161, 16, 232,
        213, 185, 1, 248, 172, 173, 211, 9, 92, 115, 163, 185, 25,
    ];
    assert_eq!(t.to_bytes(), expected);
}

#[test]
fn commitment_with_zero_response_is_the_negated_multiple() {
    // 0 * g - 1 * y = -y
    let g = RistrettoPoint::random(&mut OsRng);
    let y = RistrettoPoint::random(&mut OsRng);
    let t = sim_sc_with(&our_point(&y), &our_scalar(&scalar_of(1)), &our_point(&g), &our_scalar(&scalar_of(0)));
    assert_eq!(t, our_point(&(-y)));
}

#[test]
fn commitment_is_z_g_minus_c_y() {
    for _ in 0..20 {
        let g = RistrettoPoint::random(&mut OsRng);
        let y = RistrettoPoint::random(&mut OsRng);
        let c = curve25519_dalek::scalar::Scalar::random(&mut OsRng);
        let z = curve25519_dalek::scalar::Scalar::random(&mut OsRng);
        let t = sim_sc_with(&our_point(&y), &our_scalar(&c), &our_point(&g), &our_scalar(&z));
        assert_eq!(dalek_point(&t), z * g - c * y);
    }
}

#[test]
fn simulated_pair_solves_the_equation() {
    for _ in 0..20 {
        let g = RistrettoPoint::random(&mut OsRng);
        let y = RistrettoPoint::random(&mut OsRng);
        let c = curve25519_dalek::scalar::Scalar::random(&mut OsRng);
        let (t, z) = sim_sc(&our_point(&y), &our_scalar(&c), &our_point(&g)).unwrap();
        assert_eq!(dalek_point(&t), dalek_scalar(&z) * g - c * y);
        assert_eq!(t, sim_sc_with(&our_point(&y), &our_scalar(&c), &our_point(&g), &z));
    }
}

#[test]
fn simulation_draws_a_fresh_response() {
    let g = our_point(&RISTRETTO_BASEPOINT_POINT);
    let y = our_point(&RistrettoPoint::random(&mut OsRng));
    let c = our_scalar(&scalar_of(9));
    let (t1, z1) = sim_sc(&y, &c, &g).unwrap();
    let (t2, z2) = sim_sc(&y, &c, &g).unwrap();
    assert_ne!(z1, z2);
    assert_ne!(t1, t2);
}
