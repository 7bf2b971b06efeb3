use curve25519_dalek::constants::RISTRETTO_BASEPOINT_COMPRESSED;
use curve25519_dalek::constants::RISTRETTO_BASEPOINT_POINT;
use curve25519_dalek::ristretto::RistrettoPoint;
use or_schnorr::point::Point;
use rand_core::OsRng;

const BASEPOINT: [u8; 32] = [
    0xe2, 0xf2, 0xae, 0x0a, 0x6a, 0xbc, 0x4e, 0x71, 0xa8, 0x84, 0xa9, 0x61, 0xc5, 0x00, 0x51, 0x5f,
    0x58, 0xe3, 0x0b, 0x6a, 0xa5, 0x82, 0xdd, 0x8d, 0xb6, 0xa6, 0x59, 0x45, 0xe0, 0x8d, 0x2d, 0x76,
];

#[test]
fn from_bytes_takes_the_basepoint() {
    assert_eq!(BASEPOINT, RISTRETTO_BASEPOINT_COMPRESSED.to_bytes());
    let p = Point::from_bytes(BASEPOINT).unwrap();
    assert_eq!(p.to_bytes(), BASEPOINT);
}

#[test]
fn from_bytes_takes_the_identity() {
    let p = Point::from_bytes([0u8; 32]).unwrap();
    assert_eq!(p.to_bytes(), [0u8; 32]);
}

#[test]
fn from_bytes_refuses_what_is_no_encoding() {
    // a negative field element
    let mut odd = [0u8; 32];
    odd[0] = 1;
    assert_eq!(Point::from_bytes(odd), None);
    // not below the field's prime
    assert_eq!(Point::from_bytes([0xff; 32]), None);
    // the basepoint's encoding with its lowest bit flipped
    let mut flipped = BASEPOINT;
    flipped[0] ^= 1;
    assert_eq!(Point::from_bytes(flipped), None);
}

#[test]
fn from_bytes_agrees_with_decompress() {
    let mut bytes = [0u8; 32];
    let mut accepted = 0;
    for i in 0..=255u8 {
        bytes[0] = i;
        bytes[7] = i.wrapping_mul(31);
        let ours = Point::from_bytes(bytes);
        let theirs = curve25519_dalek::ristretto::CompressedRistretto(bytes).decompress();
        assert_eq!(ours.is_some(), theirs.is_some());
        if let Some(p) = ours {
            accepted += 1;
            assert_eq!(p.to_bytes(), bytes);
            assert_eq!(theirs.unwrap().compress().to_bytes(), bytes);
        }
    }
    assert!(accepted > 0);
    assert!(accepted < 256);
}

#[test]
fn from_bytes_takes_every_compressed_point() {
    for _ in 0..20 {
        let p = RistrettoPoint::random(&mut OsRng);
        let bytes = p.compress().to_bytes();
        assert_eq!(Point::from_bytes(bytes).unwrap().to_bytes(), bytes);
    }
}

#[test]
fn equals_compares_group_elements() {
    let b = Point::from_bytes(BASEPOINT).unwrap();
    let again = Point::from_bytes(RISTRETTO_BASEPOINT_POINT.compress().to_bytes()).unwrap();
    let double = Point::from_bytes((RISTRETTO_BASEPOINT_POINT + RISTRETTO_BASEPOINT_POINT).compress().to_bytes()).unwrap();
    assert!(b.equals(&again));
    assert!(!b.equals(&double));
    assert!(!double.equals(&b));
    assert_eq!(b, again);
    assert_ne!(b, double);
}
