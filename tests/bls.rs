use bls_aggregate::error::CurveError377;
use bls_aggregate::field::Scalar;
use bls_aggregate::group::{PairingCurve, G1, G2, GT};
use bls_aggregate::hash::hash;
use bls_aggregate::sig::{aggregate, verify, verify_messages, PrivateKey, PublicKey, Signature};
use rand::{Rng, SeedableRng};
use rand_chacha::ChaCha8Rng;

fn random_scalar(rng: &mut ChaCha8Rng) -> Scalar {
    loop {
        let bytes: Vec<u8> = (0..32).map(|_| rng.gen()).collect();
        if let Some(s) = Scalar::from_random_bytes(&bytes) {
            return s;
        }
    }
}

fn random_g1(rng: &mut ChaCha8Rng) -> G1 {
    let mut p = G1::one();
    p.mul(&random_scalar(rng));
    p
}

fn random_g2(rng: &mut ChaCha8Rng) -> G2 {
    let mut p = G2::one();
    p.mul(&random_scalar(rng));
    p
}

fn random_gt(rng: &mut ChaCha8Rng) -> GT {
    PairingCurve::pair(&random_g1(rng), &random_g2(rng))
}

fn generate_key(rng: &mut ChaCha8Rng) -> PrivateKey {
    PrivateKey::new(random_scalar(rng))
}

fn random_message(rng: &mut ChaCha8Rng) -> Vec<u8> {
    (0..64).map(|_| rng.gen()).collect()
}

fn sign(k: &PrivateKey, m: &[u8]) -> Signature {
    match k.sign(m) {
        Ok(s) => s,
        Err(e) => panic!("signing failed: {:?}", e),
    }
}

fn agg(sigs: &[Signature]) -> Signature {
    match aggregate(sigs) {
        Ok(s) => s,
        Err(e) => panic!("aggregation failed: {:?}", e),
    }
}

fn hash_ok(m: &[u8]) -> G2 {
    match hash(m) {
        Ok(h) => h,
        Err(e) => panic!("hashing failed: {:?}", e),
    }
}

fn scalar_of(i: u64) -> Scalar {
    let mut s = Scalar::new();
    s.set_int(i);
    s
}

#[test]
fn serialize_group() {
    let rng = &mut ChaCha8Rng::seed_from_u64(1);
    let p1 = random_g1(rng);
    let ser1 = p1.serialize_group();
    assert_eq!(ser1.len(), 48);
    let de1 = G1::deserialize_group(&ser1).ok().expect("G1 decodes");
    assert!(de1.equals(&p1));

    let p2 = random_g2(rng);
    let ser2 = p2.serialize_group();
    assert_eq!(ser2.len(), 96);
    let de2 = G2::deserialize_group(&ser2).ok().expect("G2 decodes");
    assert!(de2.equals(&p2));
}

#[test]
fn serialize_field() {
    let rng = &mut ChaCha8Rng::seed_from_u64(2);
    let g = random_gt(rng);
    let ser_g = g.serialize_field();
    assert_eq!(ser_g.len(), 576);
    let de_g = GT::deserialize_field(&ser_g).ok().expect("GT decodes");
    assert!(de_g.equals(&g));

    let s = random_scalar(rng);
    let ser = s.serialize_field();
    assert_eq!(ser.len(), 32);
    let de = Scalar::deserialize_field(&ser).expect("scalar decodes");
    assert_eq!(de, s);
}

#[test]
fn gt_exp() {
    let rng = &mut ChaCha8Rng::seed_from_u64(3);
    let base = random_gt(rng);

    let mut sc = Scalar::one();
    sc.add(&Scalar::one());
    sc.add(&Scalar::one());

    let mut exp = base.copy();
    exp.mul(&sc);

    let mut res = base.copy();
    res.add(&base);
    res.add(&base);

    assert!(exp.equals(&res));
}

#[test]
fn gt_exp_by_zero_is_one() {
    let rng = &mut ChaCha8Rng::seed_from_u64(4);
    let mut base = random_gt(rng);
    base.mul(&Scalar::new());
    assert!(base.equals(&GT::one()));
}

#[test]
fn gt_exp_matches_bilinearity() {
    let rng = &mut ChaCha8Rng::seed_from_u64(5);
    let a = random_g1(rng);
    let b = random_g2(rng);
    let s = random_scalar(rng);
    let mut lhs = PairingCurve::pair(&a, &b);
    lhs.mul(&s);
    let mut b_s = b.copy();
    b_s.mul(&s);
    let rhs = PairingCurve::pair(&a, &b_s);
    assert!(lhs.equals(&rhs));
    let mut other = PairingCurve::pair(&a, &b);
    other.mul(&scalar_of(2));
    assert!(!other.equals(&rhs) || s == scalar_of(2));
}

#[test]
fn scalar_arithmetic_values() {
    let mut a = scalar_of(7);
    a.add(&scalar_of(5));
    assert_eq!(a, scalar_of(12));
    a.mul(&scalar_of(3));
    assert_eq!(a, scalar_of(36));
    a.sub(&scalar_of(6));
    assert_eq!(a, scalar_of(30));

    let mut n = scalar_of(1);
    n.negate();
    let mut back = n;
    back.add(&scalar_of(1));
    assert_eq!(back, Scalar::new());
    // r - 1, little-endian limbs
    assert_eq!(n.l0, 0xffffffff00000000);
    assert_eq!(n.l3, 0x73eda753299d7d48);

    let inv = scalar_of(4).inverse().expect("4 is invertible");
    let mut prod = inv;
    prod.mul(&scalar_of(4));
    assert_eq!(prod, Scalar::one());
    assert!(Scalar::new().inverse().is_none());
}

#[test]
fn scalar_encoding_is_little_endian() {
    let ser = scalar_of(0x0102).serialize_field();
    let mut expected = vec![0u8; 32];
    expected[0] = 0x02;
    expected[1] = 0x01;
    assert_eq!(ser, expected);
}

#[test]
fn scalar_at_or_above_modulus_is_invalid() {
    let bytes = vec![0xffu8; 32];
    assert_eq!(Scalar::deserialize_field(&bytes), Err(CurveError377::InvalidPointError));
    let mut r_bytes = vec![0u8; 32];
    r_bytes[..8].copy_from_slice(&0xffffffff00000001u64.to_le_bytes());
    r_bytes[8..16].copy_from_slice(&0x53bda402fffe5bfeu64.to_le_bytes());
    r_bytes[16..24].copy_from_slice(&0x3339d80809a1d805u64.to_le_bytes());
    r_bytes[24..].copy_from_slice(&0x73eda753299d7d48u64.to_le_bytes());
    assert_eq!(Scalar::deserialize_field(&r_bytes), Err(CurveError377::InvalidPointError));
    r_bytes[0] = 0;
    let below = Scalar::deserialize_field(&r_bytes).expect("r - 1 decodes");
    let mut minus_one = scalar_of(1);
    minus_one.negate();
    assert_eq!(below, minus_one);
}

#[test]
fn wrong_width_is_malformed() {
    for len in [0usize, 31, 33, 47, 49, 95, 97] {
        let b = vec![0u8; len];
        if len != 48 {
            assert!(matches!(G1::deserialize_group(&b), Err(CurveError377::MalformedEncodingError)));
            assert!(matches!(PublicKey::from_bytes(&b), Err(CurveError377::MalformedEncodingError)));
        }
        if len != 96 {
            assert!(matches!(G2::deserialize_group(&b), Err(CurveError377::MalformedEncodingError)));
            assert!(matches!(Signature::from_bytes(&b), Err(CurveError377::MalformedEncodingError)));
        }
        if len != 32 {
            assert_eq!(Scalar::deserialize_field(&b), Err(CurveError377::MalformedEncodingError));
            assert!(matches!(PrivateKey::from_bytes(&b), Err(CurveError377::MalformedEncodingError)));
        }
    }
}

#[test]
fn gt_outside_subgroup_is_invalid() {
    let mut b = vec![0u8; 576];
    b[0] = 2;
    assert!(matches!(GT::deserialize_field(&b), Err(CurveError377::InvalidPointError)));
    assert!(matches!(GT::deserialize_field(&b[..575]), Err(CurveError377::MalformedEncodingError)));
    let one = GT::one();
    assert!(one.in_correct_subgroup());
    let back = GT::deserialize_field(&one.serialize_field()).ok().expect("one decodes");
    assert!(back.equals(&one));
}

#[test]
fn point_off_subgroup_is_invalid() {
    let b = vec![0x11u8; 48];
    assert!(matches!(G1::deserialize_group(&b), Err(CurveError377::InvalidPointError)));
    let b = vec![0x11u8; 96];
    assert!(matches!(G2::deserialize_group(&b), Err(CurveError377::InvalidPointError)));
}

#[test]
fn key_and_signature_round_trip() {
    let rng = &mut ChaCha8Rng::seed_from_u64(6);
    let k = generate_key(rng);
    let pk = k.public_key();
    let sig = sign(&k, b"round trip");
    let k2 = PrivateKey::from_bytes(&k.as_bytes()).ok().expect("key decodes");
    assert_eq!(k2.sk, k.sk);
    let pk2 = PublicKey::from_bytes(&pk.as_bytes()).ok().expect("public key decodes");
    assert!(pk2.point.equals(&pk.point));
    let sig2 = Signature::from_bytes(&sig.as_bytes()).ok().expect("signature decodes");
    assert!(sig2.equals(&sig));
}

#[test]
fn hash_is_deterministic_and_separates_messages() {
    let a = hash_ok(b"hello");
    let b = hash_ok(b"hello");
    let c = hash_ok(b"hellp");
    assert!(a.equals(&b));
    assert!(!a.equals(&c));
    assert!(!a.equals(&G2::new()));
    let g = hash_ok(b"");
    assert!(!g.equals(&a));
}

#[test]
fn sign_then_verify_single() {
    let rng = &mut ChaCha8Rng::seed_from_u64(7);
    let k = generate_key(rng);
    let m = random_message(rng);
    let sig = sign(&k, &m);
    assert!(verify(&sig, &[hash_ok(&m)], &[k.public_key()]));
    assert!(verify_messages(&sig, &[m.clone()], &[k.public_key()]));
    let other = random_message(rng);
    assert!(!verify(&sig, &[hash_ok(&other)], &[k.public_key()]));
}

#[test]
fn aggregate_of_nothing_fails() {
    assert!(matches!(aggregate(&[]), Err(CurveError377::EmptyInputError)));
}

#[test]
fn verify_rejects_mismatched_lengths() {
    let rng = &mut ChaCha8Rng::seed_from_u64(8);
    let k1 = generate_key(rng);
    let k2 = generate_key(rng);
    let m = random_message(rng);
    let sig = sign(&k1, &m);
    let h = hash_ok(&m);
    assert!(!verify(&sig, &[h.copy()], &[k1.public_key(), k2.public_key()]));
    assert!(!verify(&sig, &[h.copy(), h.copy()], &[k1.public_key()]));
    assert!(!verify(&sig, &[], &[]));
    assert!(!verify_messages(&sig, &[m.clone(), m.clone()], &[k1.public_key()]));
    assert!(!verify_messages(&sig, &[], &[]));
}

#[test]
fn aggregate_is_order_independent() {
    let rng = &mut ChaCha8Rng::seed_from_u64(9);
    let keys: Vec<PrivateKey> = (0..5).map(|_| generate_key(rng)).collect();
    let msgs: Vec<Vec<u8>> = (0..5).map(|_| random_message(rng)).collect();
    let sigs: Vec<Signature> = keys.iter().zip(msgs.iter()).map(|(k, m)| sign(k, m)).collect();
    let reversed: Vec<Signature> = sigs.iter().rev().map(|s| Signature { point: s.point.copy() }).collect();
    let order = [2usize, 0, 4, 1, 3];
    let shuffled: Vec<Signature> = order.iter().map(|&i| Signature { point: sigs[i].point.copy() }).collect();
    let a = agg(&sigs);
    assert!(a.equals(&agg(&reversed)));
    assert!(a.equals(&agg(&shuffled)));
}

#[test]
fn tampered_signature_does_not_verify() {
    let rng = &mut ChaCha8Rng::seed_from_u64(10);
    let keys: Vec<PrivateKey> = (0..3).map(|_| generate_key(rng)).collect();
    let msgs: Vec<Vec<u8>> = (0..3).map(|_| random_message(rng)).collect();
    let sigs: Vec<Signature> = keys.iter().zip(msgs.iter()).map(|(k, m)| sign(k, m)).collect();
    let aggregated = agg(&sigs);
    let pks: Vec<PublicKey> = keys.iter().map(|k| k.public_key()).collect();
    let bytes = aggregated.as_bytes();
    assert!(verify_messages(&Signature::from_bytes(&bytes).ok().unwrap(), &msgs, &pks));
    for bit in 0..bytes.len() * 8 {
        let mut t = bytes.clone();
        t[bit / 8] ^= 1 << (bit % 8);
        if let Ok(s) = Signature::from_bytes(&t) {
            assert!(!verify_messages(&s, &msgs, &pks), "bit {} flipped still verifies", bit);
        }
    }
}

#[test]
fn ten_signers_distinct_messages() {
    let num = 10;
    let mut rng = ChaCha8Rng::seed_from_u64(12);
    let private_keys: Vec<PrivateKey> = (0..num).map(|_| generate_key(&mut rng)).collect();
    let messages: Vec<Vec<u8>> = (0..num).map(|_| random_message(&mut rng)).collect();
    let sigs: Vec<Signature> = messages.iter().zip(private_keys.iter()).map(|(m, k)| sign(k, m)).collect();
    let aggregated = agg(&sigs);
    let serialized = aggregated.as_bytes();
    let agg_sig = Signature::from_bytes(&serialized).ok().expect("aggregate decodes");
    let hashes: Vec<G2> = messages.iter().map(|m| hash_ok(m)).collect();
    let mut public_keys: Vec<PublicKey> = private_keys.iter().map(|k| k.public_key()).collect();
    assert!(verify(&agg_sig, &hashes, &public_keys));
    assert!(verify_messages(&agg_sig, &messages, &public_keys));
    public_keys[3] = private_keys[4].public_key();
    assert!(!verify(&agg_sig, &hashes, &public_keys));
}

#[test]
fn ten_signers_same_message() {
    let num = 10;
    let mut rng = ChaCha8Rng::seed_from_u64(12);
    let private_keys: Vec<PrivateKey> = (0..num).map(|_| generate_key(&mut rng)).collect();
    let message = random_message(&mut rng);
    let sigs: Vec<Signature> = private_keys.iter().map(|k| sign(k, &message)).collect();
    let aggregated = agg(&sigs);
    let agg_sig = Signature::from_bytes(&aggregated.as_bytes()).ok().expect("aggregate decodes");
    let hashes: Vec<G2> = (0..num).map(|_| hash_ok(&message)).collect();
    let public_keys: Vec<PublicKey> = private_keys.iter().map(|k| k.public_key()).collect();
    assert!(verify(&agg_sig, &hashes, &public_keys));
    let messages: Vec<Vec<u8>> = (0..num).map(|_| message.clone()).collect();
    assert!(verify_messages(&agg_sig, &messages, &public_keys));
}

#[test]
fn scalar_from_random_bytes_reads_low_255_bits() {
    assert_eq!(Scalar::from_random_bytes(&[5]), Some(scalar_of(5)));
    let mut top = vec![0u8; 32];
    top[0] = 1;
    top[31] = 0x80;
    assert_eq!(Scalar::from_random_bytes(&top), Some(scalar_of(1)));
    let mut long = vec![0u8; 40];
    long[0] = 9;
    long[35] = 0xff;
    assert_eq!(Scalar::from_random_bytes(&long), Some(scalar_of(9)));
    assert_eq!(Scalar::from_random_bytes(&vec![0xffu8; 32]), None);
}

#[test]
fn tampered_encoding_never_gives_the_same_point() {
    let rng = &mut ChaCha8Rng::seed_from_u64(11);
    let p = random_g2(rng);
    let bytes = p.serialize_group();
    for bit in 0..bytes.len() * 8 {
        let mut t = bytes.clone();
        t[bit / 8] ^= 1 << (bit % 8);
        if let Ok(q) = G2::deserialize_group(&t) {
            assert!(!q.equals(&p), "bit {} flipped gives the same point", bit);
        }
    }
}

#[test]
fn map_hashes_into_each_group() {
    let mut a = G1::new();
    assert!(a.map(b"message").is_ok());
    let mut b = G1::one();
    assert!(b.map(b"message").is_ok());
    assert!(a.equals(&b));
    assert!(!a.equals(&G1::new()));
    let mut c = G1::new();
    assert!(c.map(b"other message").is_ok());
    assert!(!c.equals(&a));
    assert_eq!(c.serialize_group().len(), 48);

    let mut h = G2::new();
    assert!(h.map(b"message").is_ok());
    assert!(h.equals(&hash_ok(b"message")));
}
