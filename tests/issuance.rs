use curve25519_dalek::ristretto::{CompressedRistretto, RistrettoPoint};
use curve25519_dalek::scalar::Scalar as DalekScalar;
use curve25519_dalek::traits::Identity;
use zkgroup_credentials::params::SYSTEM_HARDCODED;
use zkgroup_credentials::{
    AuthCredential, BlindedProfileKeyCredential, BlindedProfileKeyCredentialWithSecretNonce,
    CredentialError, KeyPair, Point, ProfileKeyCredential, PublicKey, RequestCiphertext,
    RequestPublicKey, Scalar, SystemParams, UidStruct,
};

fn dalek_scalar(seed: u8) -> DalekScalar {
    let mut b = [0u8; 32];
    for (i, x) in b.iter_mut().enumerate() {
        *x = seed.wrapping_mul(31).wrapping_add(i as u8 * 7);
    }
    DalekScalar::from_bytes_mod_order(b)
}

fn dalek_point(seed: u8) -> RistrettoPoint {
    let mut b = [0u8; 64];
    for (i, x) in b.iter_mut().enumerate() {
        *x = seed.wrapping_mul(17).wrapping_add(i as u8 * 3);
    }
    RistrettoPoint::from_uniform_bytes(&b)
}

fn lib_scalar(s: DalekScalar) -> Scalar {
    Scalar::from_canonical_bytes(s.to_bytes()).unwrap()
}

fn lib_point(p: RistrettoPoint) -> Point {
    Point::from_bytes(p.compress().to_bytes()).unwrap()
}

fn to_dalek(p: &Point) -> RistrettoPoint {
    CompressedRistretto(p.to_bytes()).decompress().unwrap()
}

fn to_dalek_scalar(s: &Scalar) -> DalekScalar {
    DalekScalar::from_canonical_bytes(s.to_bytes()).unwrap()
}

fn draws() -> [Scalar; 8] {
    let mut d = [lib_scalar(dalek_scalar(0)); 8];
    for (i, x) in d.iter_mut().enumerate() {
        *x = lib_scalar(dalek_scalar(i as u8 + 1));
    }
    d
}

fn system() -> SystemParams {
    SystemParams::get_hardcoded().unwrap()
}

fn uid() -> UidStruct {
    UidStruct { M1: lib_point(dalek_point(40)), M2: lib_point(dalek_point(41)) }
}

#[test]
fn hardcoded_params_match_bincode_decoding() {
    let params = system();
    let expected: Vec<RistrettoPoint> = (0..14)
        .map(|i| {
            let mut b = [0u8; 32];
            b.copy_from_slice(&SYSTEM_HARDCODED[32 * i..32 * i + 32]);
            bincode::deserialize::<RistrettoPoint>(&b).unwrap()
        })
        .collect();
    let got = [
        params.G_w, params.G_wprime, params.G_x0, params.G_x1, params.G_y1, params.G_y2,
        params.G_y3, params.G_y4, params.G_m1, params.G_m2, params.G_m3, params.G_m4, params.G_V,
        params.G_z,
    ];
    for i in 0..14 {
        assert!(to_dalek(&got[i]) == expected[i]);
    }
    assert_eq!(params.to_bytes(), SYSTEM_HARDCODED.to_vec());
}

#[test]
fn generate_keeps_declared_order() {
    let hard = system();
    let pts = [
        hard.G_w, hard.G_wprime, hard.G_x0, hard.G_x1, hard.G_y1, hard.G_y2, hard.G_y3, hard.G_y4,
        hard.G_m1, hard.G_m2, hard.G_m3, hard.G_m4, hard.G_V, hard.G_z,
    ];
    assert_eq!(SystemParams::generate(pts), hard);
    let mut swapped = pts;
    swapped.swap(0, 1);
    assert_ne!(SystemParams::generate(swapped), hard);
}

#[test]
fn key_pair_three_attributes() {
    let d = draws();
    let kp = KeyPair::generate(d, 3).unwrap();
    let s = system();
    let sc: Vec<DalekScalar> = d.iter().map(to_dalek_scalar).collect();
    let w_point = sc[0] * to_dalek(&s.G_w);
    assert!(to_dalek(&kp.W) == w_point);
    assert!(to_dalek(&kp.C_W) == w_point + sc[1] * to_dalek(&s.G_wprime));
    let i = to_dalek(&s.G_V)
        - sc[2] * to_dalek(&s.G_x0)
        - sc[3] * to_dalek(&s.G_x1)
        - sc[4] * to_dalek(&s.G_y1)
        - sc[5] * to_dalek(&s.G_y2)
        - sc[6] * to_dalek(&s.G_y3);
    assert!(to_dalek(&kp.I) == i);
    assert_eq!(kp.w, d[0]);
    assert_eq!(kp.y4, d[7]);
}

#[test]
fn key_pair_four_attributes_subtracts_y4_term() {
    let d = draws();
    let kp3 = KeyPair::generate(d, 3).unwrap();
    let kp4 = KeyPair::generate(d, 4).unwrap();
    let s = system();
    let y4 = to_dalek_scalar(&d[7]);
    assert!(to_dalek(&kp4.I) == to_dalek(&kp3.I) - y4 * to_dalek(&s.G_y4));
    assert_eq!(kp3.C_W, kp4.C_W);
}

#[test]
fn key_pair_rejects_other_attribute_counts() {
    for n in [0usize, 1, 2, 5, 6] {
        assert_eq!(KeyPair::generate(draws(), n), Err(CredentialError::InvalidAttributeMode));
    }
}

#[test]
fn credential_core_rejects_five_attributes() {
    let kp = KeyPair::generate(draws(), 4).unwrap();
    let m: Vec<Point> = (0..5).map(|i| lib_point(dalek_point(60 + i))).collect();
    let t = lib_scalar(dalek_scalar(90));
    let u = lib_point(dalek_point(91));
    assert_eq!(kp.credential_core(&m, &t, &u), Err(CredentialError::TooManyAttributes));
}

#[test]
fn credential_core_mac_identity() {
    let kp = KeyPair::generate(draws(), 4).unwrap();
    let t = lib_scalar(dalek_scalar(90));
    let u = lib_point(dalek_point(91));
    let ys = [kp.y1, kp.y2, kp.y3, kp.y4];
    for n in 2..=4u8 {
        let m: Vec<Point> = (0..n).map(|i| lib_point(dalek_point(60 + i))).collect();
        let v = kp.credential_core(&m, &t, &u).unwrap();
        let tt = to_dalek_scalar(&t);
        let mut rest = to_dalek(&v)
            - to_dalek(&kp.W)
            - (to_dalek_scalar(&kp.x0) + to_dalek_scalar(&kp.x1) * tt) * to_dalek(&u);
        for (i, p) in m.iter().enumerate() {
            rest -= to_dalek_scalar(&ys[i]) * to_dalek(p);
        }
        assert!(rest == RistrettoPoint::identity());
    }
}

#[test]
fn auth_credential_formula_and_layout() {
    let kp = KeyPair::generate(draws(), 3).unwrap();
    let s = system();
    let id = uid();
    let rt = lib_scalar(DalekScalar::from(37u64));
    let t = lib_scalar(dalek_scalar(70));
    let u = lib_point(dalek_point(71));
    let cred = kp.create_auth_credential(&id, &rt, &t, &u).unwrap();
    assert_eq!(cred.t, t);
    assert_eq!(cred.U, u);
    let tt = to_dalek_scalar(&t);
    let v = to_dalek(&kp.W)
        + (to_dalek_scalar(&kp.x0) + to_dalek_scalar(&kp.x1) * tt) * to_dalek(&u)
        + to_dalek_scalar(&kp.y1) * to_dalek(&id.M1)
        + to_dalek_scalar(&kp.y2) * to_dalek(&id.M2)
        + to_dalek_scalar(&kp.y3) * (DalekScalar::from(37u64) * to_dalek(&s.G_m3));
    assert!(to_dalek(&cred.V) == v);
    let expected = bincode::serialize(&(tt, to_dalek(&u), v)).unwrap();
    assert_eq!(cred.to_bytes(), expected);
    assert_eq!(cred.to_bytes().len(), 96);
}

#[test]
fn blind_issuance_unblinds_to_direct_mac() {
    let kp = KeyPair::generate(draws(), 4).unwrap();
    let id = uid();
    let y = dalek_scalar(80);
    let big_y = RistrettoPoint::mul_base(&y);
    let m3 = dalek_point(81);
    let m4 = dalek_point(82);
    let r1 = dalek_scalar(83);
    let r2 = dalek_scalar(84);
    let ct = RequestCiphertext {
        D1: lib_point(RistrettoPoint::mul_base(&r1)),
        E1: lib_point(RistrettoPoint::mul_base(&r2)),
        D2: lib_point(r1 * big_y + m3),
        E2: lib_point(r2 * big_y + m4),
    };
    let t = lib_scalar(dalek_scalar(85));
    let u = lib_point(dalek_point(86));
    let rprime = lib_scalar(dalek_scalar(87));
    let pk = RequestPublicKey { Y: lib_point(big_y) };
    let blinded = kp.create_blinded_profile_key_credential(&id, &pk, &ct, &t, &u, &rprime);
    assert_eq!(blinded.rprime, rprime);
    assert_eq!(blinded.t, t);
    assert_eq!(blinded.U, u);
    let unblinded = to_dalek(&blinded.S2) - y * to_dalek(&blinded.S1);
    let direct = kp
        .credential_core(&vec![id.M1, id.M2, lib_point(m3), lib_point(m4)], &t, &u)
        .unwrap();
    assert!(unblinded == to_dalek(&direct));
    let expected_s1 = RistrettoPoint::mul_base(&to_dalek_scalar(&rprime))
        + to_dalek_scalar(&kp.y3) * to_dalek(&ct.D1)
        + to_dalek_scalar(&kp.y4) * to_dalek(&ct.E1);
    assert!(to_dalek(&blinded.S1) == expected_s1);
}

#[test]
fn stripping_the_nonce() {
    let kp = KeyPair::generate(draws(), 4).unwrap();
    let ct = RequestCiphertext {
        D1: lib_point(dalek_point(1)),
        E1: lib_point(dalek_point(2)),
        D2: lib_point(dalek_point(3)),
        E2: lib_point(dalek_point(4)),
    };
    let pk = RequestPublicKey { Y: lib_point(dalek_point(5)) };
    let t = lib_scalar(dalek_scalar(6));
    let u = lib_point(dalek_point(7));
    let rprime = lib_scalar(dalek_scalar(8));
    let with_nonce = kp.create_blinded_profile_key_credential(&uid(), &pk, &ct, &t, &u, &rprime);
    let wire = with_nonce.get_blinded_profile_key_credential();
    assert_eq!(wire.t, with_nonce.t);
    assert_eq!(wire.U, with_nonce.U);
    assert_eq!(wire.S1, with_nonce.S1);
    assert_eq!(wire.S2, with_nonce.S2);
    assert_eq!(wire.to_bytes().len(), 128);
    assert_eq!(&with_nonce.to_bytes()[32..], &wire.to_bytes()[..]);
    assert_eq!(BlindedProfileKeyCredential::from_bytes(&wire.to_bytes()), Ok(wire));
    assert_eq!(
        BlindedProfileKeyCredentialWithSecretNonce::from_bytes(&with_nonce.to_bytes()),
        Ok(with_nonce)
    );
}

#[test]
fn round_trips() {
    let kp = KeyPair::generate(draws(), 3).unwrap();
    let bytes = kp.to_bytes();
    assert_eq!(bytes.len(), 352);
    assert_eq!(KeyPair::from_bytes(&bytes), Ok(kp));
    let pk: PublicKey = kp.get_public_key();
    assert_eq!(pk.C_W, kp.C_W);
    assert_eq!(pk.I, kp.I);
    assert_eq!(PublicKey::from_bytes(&pk.to_bytes()), Ok(pk));
    let t = lib_scalar(dalek_scalar(70));
    let u = lib_point(dalek_point(71));
    let rt = lib_scalar(DalekScalar::from(37u64));
    let cred = kp.create_auth_credential(&uid(), &rt, &t, &u).unwrap();
    assert_eq!(AuthCredential::from_bytes(&cred.to_bytes()), Ok(cred));
    let pkc = ProfileKeyCredential { t: cred.t, U: cred.U, V: cred.V };
    assert_eq!(ProfileKeyCredential::from_bytes(&pkc.to_bytes()), Ok(pkc));
}

#[test]
fn key_pair_bytes_match_bincode_layout() {
    let kp = KeyPair::generate(draws(), 3).unwrap();
    let s = |x: &Scalar| to_dalek_scalar(x);
    let p = |x: &Point| to_dalek(x);
    let expected = bincode::serialize(&(
        (s(&kp.w), s(&kp.wprime), p(&kp.W), s(&kp.x0), s(&kp.x1), s(&kp.y1)),
        (s(&kp.y2), s(&kp.y3), s(&kp.y4), p(&kp.C_W), p(&kp.I)),
    ))
    .unwrap();
    assert_eq!(kp.to_bytes(), expected);
}

#[test]
fn malformed_encodings_are_refused() {
    let kp = KeyPair::generate(draws(), 3).unwrap();
    let pk = kp.get_public_key();
    let mut bytes = pk.to_bytes();
    bytes.pop();
    assert_eq!(PublicKey::from_bytes(&bytes), Err(CredentialError::MalformedEncoding));
    let mut long = pk.to_bytes();
    long.push(0);
    assert_eq!(PublicKey::from_bytes(&long), Err(CredentialError::MalformedEncoding));
    let mut bad_point = pk.to_bytes();
    bad_point[0..32].copy_from_slice(&[0xffu8; 32]);
    assert_eq!(PublicKey::from_bytes(&bad_point), Err(CredentialError::MalformedEncoding));
    let mut bad_scalar = kp.to_bytes();
    bad_scalar[0..32].copy_from_slice(&[0xffu8; 32]);
    assert_eq!(KeyPair::from_bytes(&bad_scalar), Err(CredentialError::MalformedEncoding));
    assert!(Scalar::from_canonical_bytes([0xffu8; 32]).is_none());
    assert!(Point::from_bytes([0xffu8; 32]).is_none());
    assert_eq!(SystemParams::from_bytes(&[0u8; 447]), Err(CredentialError::MalformedEncoding));
}

#[test]
fn identity_point_and_zero_scalar_encode_as_zero_bytes() {
    assert!(Point::from_bytes([0u8; 32]).is_some());
    assert_eq!(lib_point(RistrettoPoint::identity()).to_bytes(), [0u8; 32]);
    assert_eq!(Scalar::from_canonical_bytes([0u8; 32]).unwrap().to_bytes(), [0u8; 32]);
}
