use eddsa::codec::CodecError;
use eddsa::curve::{generator_mul, is_identity, is_on_curve, point_double, point_mul, point_sub, Point};
use eddsa::eddsa::{challenge_hash, convert_base_to_scalar, EdDSAPrivateKey, EdDSAPublicKey, EdDSASignature};
use eddsa::field::{below_base_order, below_scalar_order, BaseElem, Scalar};
use rand::RngCore;

const GX: [u8; 32] = [
    43, 18, 209, 146, 20, 7, 107, 62, 98, 114, 31, 125, 253, 106, 47, 231, 59, 61, 191, 159, 185,
    101, 163, 134, 128, 33, 225, 35, 93, 254, 218, 17,
];
const GY: [u8; 32] = [
    170, 146, 210, 89, 14, 135, 63, 204, 215, 254, 32, 194, 92, 186, 38, 62, 195, 192, 102, 200,
    120, 46, 19, 147, 23, 26, 171, 221, 241, 60, 82, 29,
];
const BASE_ORDER_LE: [u8; 32] = [
    1, 0, 0, 0, 255, 255, 255, 255, 254, 91, 254, 255, 2, 164, 189, 83, 5, 216, 161, 9, 8, 216, 57,
    51, 72, 125, 157, 41, 83, 167, 237, 115,
];
const SCALAR_ORDER_LE: [u8; 32] = [
    183, 44, 247, 214, 94, 14, 151, 208, 130, 16, 200, 204, 147, 32, 104, 166, 0, 59, 52, 1, 1, 59,
    103, 6, 169, 175, 51, 101, 234, 180, 125, 14,
];

/// A stand-in for the algebraic hasher: any function of the challenge input
/// exercises signing and verification alike.
fn digest_of(t: Vec<u8>) -> Vec<u8> {
    blake3::hash(&t).as_bytes().to_vec()
}

fn random_key(rng: &mut impl RngCore) -> EdDSAPrivateKey {
    let mut bytes = [0u8; 32];
    rng.fill_bytes(&mut bytes);
    EdDSAPrivateKey::from_bytes(bytes)
}

fn random_message(rng: &mut impl RngCore) -> BaseElem {
    let mut bytes = [0u8; 64];
    rng.fill_bytes(&mut bytes);
    BaseElem::from_le_bytes_mod_order(&bytes)
}

fn small(v: u8) -> [u8; 32] {
    let mut b = [0u8; 32];
    b[0] = v;
    b
}

fn generator() -> Point {
    Point { x: BaseElem { bytes: GX }, y: BaseElem { bytes: GY } }
}

fn identity() -> Point {
    Point { x: BaseElem { bytes: [0u8; 32] }, y: BaseElem { bytes: small(1) } }
}

#[test]
fn test_sign_and_verify_flow() {
    let mut rng = rand::thread_rng();
    let sk = random_key(&mut rng);
    let pk = sk.public();
    let message = random_message(&mut rng);
    let signature = sk.sign(&message, digest_of);
    assert!(pk.verify(&message, &signature, digest_of), "Signature should be valid");
    let bad_message = random_message(&mut rng);
    assert!(
        !pk.verify(&bad_message, &signature, digest_of),
        "Signature should fail for wrong message"
    );
    let bad_sk = random_key(&mut rng);
    let bad_pk = bad_sk.public();
    assert!(
        !bad_pk.verify(&message, &signature, digest_of),
        "Signature should fail for wrong key"
    );
}

#[test]
fn test_serialization_roundtrip() {
    let mut rng = rand::thread_rng();
    let sk = random_key(&mut rng);
    let pk = sk.public();
    let msg = random_message(&mut rng);
    let sig = sk.sign(&msg, digest_of);
    let pk_bytes = pk.to_compressed_bytes().unwrap();
    let sig_bytes = sig.to_compressed_bytes().unwrap();
    assert_eq!(EdDSAPublicKey::from_compressed_bytes(&pk_bytes), Ok(pk));
    assert_eq!(EdDSASignature::from_compressed_bytes(&sig_bytes), Ok(sig));
}

#[test]
fn sign_with_digest_matches_sign() {
    let sk = EdDSAPrivateKey::from_bytes([7u8; 32]);
    let m = BaseElem::from_le_bytes_mod_order(&small(42));
    let digest = digest_of(sk.sign_transcript(&m));
    let sig = sk.sign_with_digest(&m, &digest);
    assert_eq!(sig, sk.sign(&m, digest_of));
    let pk = sk.public();
    assert!(pk.verify_with_digest(&sig, &digest));
    assert_eq!(pk.verify_transcript(&m, &sig), sk.sign_transcript(&m));
    assert!(!pk.verify_with_digest(&sig, &digest_of(vec![1, 2, 3])));
}

#[test]
fn signing_twice_gives_identical_signatures() {
    let a = EdDSAPrivateKey::from_bytes([9u8; 32]);
    let b = EdDSAPrivateKey::from_bytes(a.to_bytes());
    let m = BaseElem::from_le_bytes_mod_order(&small(5));
    let s1 = a.sign(&m, digest_of).to_compressed_bytes().unwrap();
    let s2 = b.sign(&m, digest_of).to_compressed_bytes().unwrap();
    assert_eq!(s1, s2);
}

#[test]
fn key_derivation_is_deterministic() {
    let a = EdDSAPrivateKey::from_bytes([3u8; 32]);
    let b = EdDSAPrivateKey::from_bytes([3u8; 32]);
    assert_eq!(a.public(), b.public());
    assert_eq!(a.to_bytes(), [3u8; 32]);
    let c = EdDSAPrivateKey::from_bytes([4u8; 32]);
    assert_ne!(a.public(), c.public());
}

#[test]
fn response_plus_order_is_rejected() {
    let sk = EdDSAPrivateKey::from_bytes([11u8; 32]);
    let pk = sk.public();
    let m = BaseElem::from_le_bytes_mod_order(&small(1));
    let sig = sk.sign(&m, digest_of);
    assert!(pk.verify(&m, &sig, digest_of));
    let mut s = [0u8; 32];
    let mut carry = 0u16;
    for i in 0..32 {
        let v = sig.s[i] as u16 + SCALAR_ORDER_LE[i] as u16 + carry;
        s[i] = (v & 0xff) as u8;
        carry = v >> 8;
    }
    assert_eq!(carry, 0);
    let malleated = EdDSASignature { r: sig.r, s };
    assert!(!pk.precheck(&malleated));
    assert!(!pk.verify(&m, &malleated, digest_of));
}

#[test]
fn zero_seed_golden_vector() {
    let sk = EdDSAPrivateKey::from_bytes([0u8; 32]);
    let pk = sk.public().to_compressed_bytes().unwrap();
    let expected_pk: [u8; 32] = [
        155, 43, 65, 196, 236, 43, 100, 206, 51, 171, 61, 137, 51, 42, 92, 101, 127, 249, 95, 111,
        63, 75, 231, 7, 87, 31, 134, 119, 147, 218, 184, 232,
    ];
    assert_eq!(pk, expected_pk, "public key of the zero seed: {:?}", pk);
    let m = BaseElem::from_le_bytes_mod_order(&[0u8; 32]);
    let sig = sk.sign(&m, digest_of);
    assert!(sk.public().verify(&m, &sig, digest_of));
    let bytes = sig.to_compressed_bytes().unwrap();
    let expected_sig: [u8; 64] = [
        234, 15, 228, 201, 135, 234, 219, 152, 53, 195, 255, 242, 204, 133, 5, 44, 71, 189, 141,
        17, 115, 214, 112, 136, 88, 106, 103, 40, 206, 9, 198, 238, 192, 114, 128, 207, 171, 71,
        237, 141, 233, 43, 33, 3, 41, 6, 172, 75, 195, 124, 252, 187, 41, 15, 13, 66, 71, 65, 239,
        12, 30, 22, 225, 4,
    ];
    assert_eq!(bytes, expected_sig, "signature of zero under the stand-in hasher: {:?}", bytes);
}

#[test]
fn flipped_bits_are_rejected() {
    let sk = EdDSAPrivateKey::from_bytes([21u8; 32]);
    let pk = sk.public();
    let m = BaseElem::from_le_bytes_mod_order(&small(77));
    let bytes = sk.sign(&m, digest_of).to_compressed_bytes().unwrap();
    for bit in (0..512).step_by(7) {
        let mut tampered = bytes;
        tampered[bit / 8] ^= 1 << (bit % 8);
        if let Ok(sig) = EdDSASignature::from_compressed_bytes(&tampered) {
            assert!(!pk.verify(&m, &sig, digest_of), "bit {} flipped", bit);
        }
    }
}

#[test]
fn decoding_errors() {
    let mut high = [0xffu8; 32];
    high[31] = 0x7f;
    assert_eq!(EdDSAPublicKey::from_compressed_bytes(&high), Err(CodecError::NonCanonical));
    // y = 1 has only x = 0, which is even: an odd sign bit finds no point.
    let mut odd_identity = small(1);
    odd_identity[31] = 0x80;
    assert_eq!(EdDSAPublicKey::from_compressed_bytes(&odd_identity), Err(CodecError::InvalidPoint));
    let mut sig = [0u8; 64];
    sig[..32].copy_from_slice(&high);
    assert_eq!(EdDSASignature::from_compressed_bytes(&sig), Err(CodecError::NonCanonical));
}

#[test]
fn identity_compresses_to_one() {
    let pk = EdDSAPublicKey { pk: identity() };
    assert_eq!(pk.to_compressed_bytes(), Ok(small(1)));
    assert_eq!(EdDSAPublicKey::from_compressed_bytes(&small(1)), Ok(pk));
}

#[test]
fn identity_key_is_rejected() {
    let sk = EdDSAPrivateKey::from_bytes([1u8; 32]);
    let m = BaseElem::from_le_bytes_mod_order(&small(2));
    let sig = sk.sign(&m, digest_of);
    let pk = EdDSAPublicKey { pk: identity() };
    assert!(!pk.precheck(&sig));
    assert!(!pk.verify(&m, &sig, digest_of));
}

#[test]
fn field_reductions() {
    assert_eq!(BaseElem::from_le_bytes_mod_order(&BASE_ORDER_LE).bytes, [0u8; 32]);
    let mut be = [0u8; 32];
    be[31] = 1;
    assert_eq!(BaseElem::from_be_bytes_mod_order(&be).bytes, small(1));
    assert_eq!(Scalar::from_le_bytes_mod_order(&SCALAR_ORDER_LE).bytes, [0u8; 32]);
    assert_eq!(Scalar::from_be_bytes_mod_order(&be).bytes, small(1));
    assert_eq!(BaseElem { bytes: small(1) }.to_bytes_be(), be.to_vec());
    let mut minus_one = SCALAR_ORDER_LE;
    minus_one[0] -= 1;
    let a = Scalar { bytes: minus_one };
    assert_eq!(a.add(&Scalar { bytes: small(1) }).bytes, [0u8; 32]);
    assert_eq!(Scalar { bytes: small(2) }.mul(&Scalar { bytes: small(3) }).bytes, small(6));
    assert!(below_scalar_order(&minus_one));
    assert!(!below_scalar_order(&SCALAR_ORDER_LE));
    assert!(!below_base_order(&BASE_ORDER_LE));
    assert!(below_base_order(&SCALAR_ORDER_LE));
}

#[test]
fn challenge_reduces_digest() {
    let mut be = [0u8; 32];
    be[31] = 9;
    assert_eq!(convert_base_to_scalar(&challenge_hash(&be)).bytes, small(9));
    assert_eq!(challenge_hash(&BASE_ORDER_LE.iter().rev().copied().collect::<Vec<u8>>()).bytes, [0u8; 32]);
    // The scalar-field order lies below the base-field order: it reduces to zero.
    let order = BaseElem { bytes: SCALAR_ORDER_LE };
    assert_eq!(convert_base_to_scalar(&order).bytes, [0u8; 32]);
}

#[test]
fn curve_operations() {
    let g = generator();
    assert!(is_on_curve(&g));
    assert!(!is_on_curve(&Point { x: BaseElem { bytes: small(1) }, y: BaseElem { bytes: small(1) } }));
    assert_eq!(generator_mul(&Scalar { bytes: small(1) }), g);
    assert!(is_identity(&generator_mul(&Scalar { bytes: [0u8; 32] })));
    assert!(is_identity(&point_sub(&g, &g)));
    assert_eq!(point_mul(&g, &Scalar { bytes: small(2) }), point_double(&g));
    assert_eq!(point_double(&g), generator_mul(&Scalar { bytes: small(2) }));
    assert!(!is_identity(&g));
}

fn big(b: &[u8; 32]) -> num_bigint::BigInt {
    num_bigint::BigInt::from_bytes_le(num_bigint::Sign::Plus, b)
}

fn reduce(v: num_bigint::BigInt) -> num_bigint::BigInt {
    let m = big(&BASE_ORDER_LE);
    ((v % &m) + &m) % &m
}

#[test]
fn addition_formulas_hold() {
    let d = num_bigint::BigInt::parse_bytes(
        b"19257038036680949359750312669786877991949435402254120286184196891950884077233",
        10,
    )
    .unwrap();
    let g = generator();
    let (x1, y1) = (big(&g.x.bytes), big(&g.y.bytes));
    let g2 = point_double(&g);
    let (x2, y2) = (big(&g2.x.bytes), big(&g2.y.bytes));
    let t = &d * &x1 * &x1 * &y1 * &y1;
    assert_eq!(reduce(&x2 * (1 + &t)), reduce(2 * &x1 * &y1));
    assert_eq!(reduce(&y2 * (1 - &t)), reduce(&y1 * &y1 + &x1 * &x1));
    let r = point_sub(&g2, &g);
    assert_eq!(r, g);
    let (x3, y3) = (big(&r.x.bytes), big(&r.y.bytes));
    let t = &d * &x2 * &x1 * &y2 * &y1;
    assert_eq!(reduce(&x3 * (1 - &t)), reduce(&x2 * &y1 - &y2 * &x1));
    assert_eq!(reduce(&y3 * (1 + &t)), reduce(&y2 * &y1 - &x2 * &x1));
}

#[test]
fn signing_scalar_is_the_clamped_low_half() {
    let mut a = [0xffu8; 64];
    let mut b = [0xffu8; 64];
    a[40] = 0;
    b[63] = 1;
    let sa = EdDSAPrivateKey::derive_sk(&a);
    assert_eq!(sa, EdDSAPrivateKey::derive_sk(&b));
    let mut clamped = [0xffu8; 32];
    clamped[0] = 0xf8;
    clamped[31] = 0x7f;
    assert_eq!(sa, Scalar::from_le_bytes_mod_order(&clamped));
}

#[test]
fn public_key_is_on_curve() {
    let pk = EdDSAPrivateKey::from_bytes([5u8; 32]).public();
    assert!(is_on_curve(&pk.pk));
    assert!(!is_identity(&pk.pk));
}
