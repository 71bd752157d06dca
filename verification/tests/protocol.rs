use blake2::crypto_mac::NewMac;
use blake2::digest::Digest;
use blake2::Blake2b;
use blind_sig_bench::abe;
use blind_sig_bench::abe::Abe;
use blind_sig_bench::common::{FourMoveBlindSig, GroupElem, InvalidEncoding, Scalar, WireMessage};
use blind_sig_bench::schnorr;
use blind_sig_bench::schnorr::BlindSchnorr;
use curve25519_dalek::constants::RISTRETTO_BASEPOINT_TABLE;
use curve25519_dalek::ristretto::{CompressedRistretto, RistrettoPoint};
use curve25519_dalek::scalar::Scalar as ScalarRepr;

fn small_scalar(n: u8) -> Scalar {
    let mut bytes = [0u8; 32];
    bytes[0] = n;
    Scalar::from_bytes(bytes).unwrap()
}

fn repr(s: &Scalar) -> ScalarRepr {
    ScalarRepr::from_canonical_bytes(s.to_bytes()).unwrap()
}

fn point(p: &GroupElem) -> RistrettoPoint {
    CompressedRistretto(p.to_bytes()).decompress().unwrap()
}

fn encoded(p: RistrettoPoint) -> [u8; 32] {
    p.compress().to_bytes()
}

#[test]
fn schnorr_test_correctness() {
    let mut csprng = rand::thread_rng();
    let m = b"Hello world";
    type Alg = BlindSchnorr;

    let (privkey, pubkey) = Alg::keygen(&mut csprng);
    let (server_state, server_resp1) = Alg::sign1(&mut csprng, &pubkey);
    let (client_state, client_resp) = Alg::user1(&mut csprng, &pubkey, m, &server_resp1);
    let server_resp2 = Alg::sign2(&privkey, &server_state, &client_resp);
    let sig = Alg::user2(&pubkey, &client_state, m, &server_resp2).unwrap();

    assert!(Alg::verify(&pubkey, m, &sig));
}

#[test]
fn abe_test_correctness() {
    let mut csprng = rand::thread_rng();
    let m = b"Hello world";
    type Alg = Abe;

    let (privkey, pubkey) = Alg::keygen(&mut csprng);
    let (server_state, server_resp1) = Alg::sign1(&mut csprng, &pubkey);
    let (client_state, client_resp) = Alg::user1(&mut csprng, &pubkey, m, &server_resp1);
    let server_resp2 = Alg::sign2(&privkey, &server_state, &client_resp);
    let sig = Alg::user2(&pubkey, &client_state, m, &server_resp2).unwrap();

    assert!(Alg::verify(&pubkey, m, &sig));
}

/// Runs one session of the scheme on `m` and returns the keys and the
/// signature.
fn signed<S: FourMoveBlindSig>(m: &[u8]) -> (S::Privkey, S::Pubkey, S::Signature) {
    let mut csprng = rand::thread_rng();
    let (privkey, pubkey) = S::keygen(&mut csprng);
    let (server_state, server_resp1) = S::sign1(&mut csprng, &pubkey);
    let (client_state, client_resp) = S::user1(&mut csprng, &pubkey, m, &server_resp1);
    let server_resp2 = S::sign2(&privkey, &server_state, &client_resp);
    let sig = S::user2(&pubkey, &client_state, m, &server_resp2);
    assert!(sig.is_some());
    (privkey, pubkey, sig.unwrap())
}

#[test]
fn sessions_yield_signatures_on_any_message() {
    let long = vec![0xa5u8; 1000];
    let messages: [&[u8]; 4] = [b"", b"m", b"Hello world", &long];
    for m in messages.iter() {
        let (_, pubkey, sig) = signed::<BlindSchnorr>(m);
        assert!(BlindSchnorr::verify(&pubkey, m, &sig));
        let (_, pubkey, sig) = signed::<Abe>(m);
        assert!(Abe::verify(&pubkey, m, &sig));
    }
}

#[test]
fn schnorr_scenario_hello_world() {
    let (_, pubkey, sig) = signed::<BlindSchnorr>(b"Hello world");
    assert!(BlindSchnorr::verify(&pubkey, b"Hello world", &sig));
    assert!(!BlindSchnorr::verify(&pubkey, b"hello world", &sig));
}

#[test]
fn signatures_are_bound_to_the_message() {
    let (_, pubkey, sig) = signed::<BlindSchnorr>(b"the first message");
    assert!(!BlindSchnorr::verify(&pubkey, b"the second message", &sig));
    assert!(!BlindSchnorr::verify(&pubkey, b"the first messag", &sig));
    assert!(!BlindSchnorr::verify(&pubkey, b"", &sig));

    let (_, pubkey, sig) = signed::<Abe>(b"the first message");
    assert!(!Abe::verify(&pubkey, b"the second message", &sig));
    assert!(!Abe::verify(&pubkey, b"the first message.", &sig));
    assert!(!Abe::verify(&pubkey, b"", &sig));
}

#[test]
fn signatures_are_bound_to_the_key() {
    let mut csprng = rand::thread_rng();
    let m = b"Hello world";

    let (_, _, sig) = signed::<BlindSchnorr>(m);
    let (_, other) = BlindSchnorr::keygen(&mut csprng);
    assert!(!BlindSchnorr::verify(&other, m, &sig));

    let (_, _, sig) = signed::<Abe>(m);
    let (_, other) = Abe::keygen(&mut csprng);
    assert!(!Abe::verify(&other, m, &sig));
}

#[test]
fn schnorr_signature_with_a_flipped_byte_is_rejected() {
    let m = b"Hello world";
    let (_, pubkey, sig) = signed::<BlindSchnorr>(m);
    let bytes = sig.to_bytes();
    assert_eq!(bytes.len(), 64);
    for i in 0..bytes.len() {
        let mut tampered = bytes.clone();
        tampered[i] ^= 0xff;
        match schnorr::Signature::from_bytes(&tampered) {
            Ok(tampered) => assert!(!BlindSchnorr::verify(&pubkey, m, &tampered)),
            Err(e) => assert_eq!(e, InvalidEncoding),
        }
    }
    assert!(BlindSchnorr::verify(&pubkey, m, &schnorr::Signature::from_bytes(&bytes).unwrap()));
}

#[test]
fn abe_signature_with_a_flipped_byte_is_rejected() {
    let m = b"Hello world";
    let (_, pubkey, sig) = signed::<Abe>(m);
    let bytes = sig.to_bytes();
    assert_eq!(bytes.len(), 256);
    for i in 0..bytes.len() {
        let mut tampered = bytes.clone();
        tampered[i] ^= 0xff;
        match abe::Signature::from_bytes(&tampered) {
            Ok(tampered) => assert!(!Abe::verify(&pubkey, m, &tampered)),
            Err(e) => assert_eq!(e, InvalidEncoding),
        }
    }
    assert!(Abe::verify(&pubkey, m, &abe::Signature::from_bytes(&bytes).unwrap()));
}

#[test]
fn schnorr_signature_with_a_changed_field_is_rejected() {
    let m = b"Hello world";
    let (_, pubkey, sig) = signed::<BlindSchnorr>(m);
    let one = Scalar::one();
    let g = GroupElem::base_mul(&one);

    let changed = schnorr::Signature { R_prime: sig.R_prime.add(&g), ..sig };
    assert!(!BlindSchnorr::verify(&pubkey, m, &changed));
    let changed = schnorr::Signature { s_prime: sig.s_prime.add(&one), ..sig };
    assert!(!BlindSchnorr::verify(&pubkey, m, &changed));
}

#[test]
fn abe_signature_with_a_changed_field_is_rejected() {
    let m = b"Hello world";
    let (_, pubkey, sig) = signed::<Abe>(m);
    let one = Scalar::one();
    let g = GroupElem::base_mul(&one);

    let changed = [
        abe::Signature { zeta: sig.zeta.add(&g), ..sig },
        abe::Signature { zeta1: sig.zeta1.add(&g), ..sig },
        abe::Signature { rho: sig.rho.add(&one), ..sig },
        abe::Signature { omega: sig.omega.add(&one), ..sig },
        abe::Signature { sigma1: sig.sigma1.add(&one), ..sig },
        abe::Signature { sigma2: sig.sigma2.add(&one), ..sig },
        abe::Signature { delta: sig.delta.add(&one), ..sig },
        abe::Signature { mu: sig.mu.add(&one), ..sig },
    ];
    for changed in changed.iter() {
        assert!(!Abe::verify(&pubkey, m, changed));
    }
    assert!(Abe::verify(&pubkey, m, &sig));
}

#[test]
fn schnorr_moves_compute_the_formulas() {
    let m = b"Hello world";
    let (x, r, alpha, beta) =
        (small_scalar(7), small_scalar(5), small_scalar(11), small_scalar(13));

    // X = xG
    let (privkey, pubkey) = BlindSchnorr::key_pair_of(x);
    assert_eq!(privkey.0, x);
    assert_eq!(pubkey.0.to_bytes(), encoded(&repr(&x) * &RISTRETTO_BASEPOINT_TABLE));

    // R = rG
    let (server_state, server_resp1) = BlindSchnorr::commit(&pubkey, r);
    assert_eq!(server_state.r, r);
    assert_eq!(server_resp1.R.to_bytes(), encoded(&repr(&r) * &RISTRETTO_BASEPOINT_TABLE));

    // R' = R + alpha G + beta X, c = H(R', m) + beta
    let (client_state, client_resp) = BlindSchnorr::blind(&pubkey, m, &server_resp1, alpha, beta);
    let r_prime = point(&server_resp1.R)
        + &repr(&alpha) * &RISTRETTO_BASEPOINT_TABLE
        + repr(&beta) * point(&pubkey.0);
    let c_prime = ScalarRepr::from_hash(Blake2b::default().chain(encoded(r_prime)).chain(m));
    assert_eq!(client_state.R_prime.to_bytes(), encoded(r_prime));
    assert_eq!(client_state.R, server_resp1.R);
    assert_eq!(client_state.alpha, alpha);
    assert_eq!(client_state.c, client_resp.c);
    assert_eq!(client_resp.c.to_bytes(), (c_prime + repr(&beta)).to_bytes());

    // s = r + c x
    let server_resp2 = BlindSchnorr::sign2(&privkey, &server_state, &client_resp);
    assert_eq!(server_resp2.s, r.add(&client_resp.c.mul(&x)));
    let three = schnorr::ClientResp { c: small_scalar(3) };
    assert_eq!(
        BlindSchnorr::sign2(&privkey, &server_state, &three).s,
        small_scalar(5 + 3 * 7)
    );

    // s' = s + alpha
    let sig = BlindSchnorr::user2(&pubkey, &client_state, m, &server_resp2).unwrap();
    assert_eq!(sig.R_prime, client_state.R_prime);
    assert_eq!(sig.s_prime, server_resp2.s.add(&alpha));

    // s'G = R' + c'X
    assert!(BlindSchnorr::verify(&pubkey, m, &sig));
    assert_eq!(
        encoded(&repr(&sig.s_prime) * &RISTRETTO_BASEPOINT_TABLE),
        encoded(r_prime + c_prime * point(&pubkey.0))
    );
}

#[test]
fn schnorr_user_aborts_on_a_wrong_response() {
    let mut csprng = rand::thread_rng();
    let m = b"Hello world";
    let (privkey, pubkey) = BlindSchnorr::keygen(&mut csprng);
    let (server_state, server_resp1) = BlindSchnorr::sign1(&mut csprng, &pubkey);
    let (client_state, client_resp) = BlindSchnorr::user1(&mut csprng, &pubkey, m, &server_resp1);
    let server_resp2 = BlindSchnorr::sign2(&privkey, &server_state, &client_resp);

    let wrong = schnorr::ServerResp2 { s: server_resp2.s.add(&Scalar::one()) };
    assert_eq!(BlindSchnorr::user2(&pubkey, &client_state, m, &wrong), None);
    assert_eq!(BlindSchnorr::user2(&pubkey, &client_state, b"another", &server_resp2), None);

    let (other_privkey, _) = BlindSchnorr::keygen(&mut csprng);
    let forged = BlindSchnorr::sign2(&other_privkey, &server_state, &client_resp);
    assert_eq!(BlindSchnorr::user2(&pubkey, &client_state, m, &forged), None);

    assert!(BlindSchnorr::user2(&pubkey, &client_state, m, &server_resp2).is_some());
}

/// The second generator, as the curve library hashes it from its label.
fn alt_generator() -> RistrettoPoint {
    RistrettoPoint::hash_from_bytes::<Blake2b>(b"Abe Blind Sig Alt Basepoint")
}

fn oracle(tag: &[u8]) -> Blake2b {
    Blake2b::new_varkey(tag).unwrap()
}

#[test]
fn abe_moves_compute_the_formulas() {
    let m = b"Hello world";
    let g = &RISTRETTO_BASEPOINT_TABLE;
    let h = alt_generator();
    assert_eq!(abe::alt_generator_point().to_bytes(), encoded(h));

    // y = xG, z = H1(H, y)
    let x = small_scalar(7);
    let (privkey, pubkey) = Abe::key_pair_of(x);
    let y = &repr(&x) * g;
    let z = RistrettoPoint::from_hash(
        oracle(b"Abe Blind Sig Oracle 1").chain(encoded(h)).chain(encoded(y)),
    );
    assert_eq!(privkey.0, x);
    assert_eq!(pubkey.y.to_bytes(), encoded(y));
    assert_eq!(pubkey.z.to_bytes(), encoded(z));

    // z1 = H2(rnd), z2 = z - z1, a = uG, b1 = s1 G + d z1, b2 = s2 H + d z2
    let rnd = [42u8; 32];
    let (u, s1, s2, d) = (small_scalar(2), small_scalar(3), small_scalar(5), small_scalar(11));
    let (server_state, server_resp1) = Abe::commit(&pubkey, rnd, u, s1, s2, d);
    let z1 = RistrettoPoint::from_hash(oracle(b"Abe Blind Sig Oracle 2").chain(rnd));
    let z2 = z - z1;
    let a = &repr(&u) * g;
    let b1 = &repr(&s1) * g + repr(&d) * z1;
    let b2 = repr(&s2) * h + repr(&d) * z2;
    assert_eq!(server_state, abe::ServerState { u, s1, s2, d });
    assert_eq!(server_resp1.rnd, rnd);
    assert_eq!(server_resp1.a.to_bytes(), encoded(a));
    assert_eq!(server_resp1.b1.to_bytes(), encoded(b1));
    assert_eq!(server_resp1.b2.to_bytes(), encoded(b2));

    // the blinding
    let (gamma, tau) = (small_scalar(13), small_scalar(17));
    let t = [
        small_scalar(19),
        small_scalar(23),
        small_scalar(29),
        small_scalar(31),
        small_scalar(37),
    ];
    let (client_state, client_resp) = Abe::blind(&pubkey, m, &server_resp1, gamma, tau, t);
    let zeta = repr(&gamma) * z;
    let zeta1 = repr(&gamma) * z1;
    let zeta2 = zeta - zeta1;
    let alpha = a + &repr(&t[0]) * g + repr(&t[1]) * y;
    let beta1 = repr(&gamma) * b1 + &repr(&t[2]) * g + repr(&t[3]) * zeta1;
    let beta2 = repr(&gamma) * b2 + repr(&t[4]) * h + repr(&t[3]) * zeta2;
    let eta = repr(&tau) * z;
    let epsilon = ScalarRepr::from_hash(
        oracle(b"Abe Blind Sig Oracle 3")
            .chain(encoded(zeta))
            .chain(encoded(zeta1))
            .chain(encoded(alpha))
            .chain(encoded(beta1))
            .chain(encoded(beta2))
            .chain(encoded(eta))
            .chain(m),
    );
    assert_eq!(client_state.zeta.to_bytes(), encoded(zeta));
    assert_eq!(client_state.zeta1.to_bytes(), encoded(zeta1));
    assert_eq!(client_state.gamma, gamma);
    assert_eq!(client_state.tau, tau);
    assert_eq!(
        [client_state.t1, client_state.t2, client_state.t3, client_state.t4, client_state.t5],
        t
    );
    assert_eq!(client_resp.0.to_bytes(), (epsilon - repr(&t[1]) - repr(&t[3])).to_bytes());

    // c = e - d, r = u - c x
    let server_resp2 = Abe::sign2(&privkey, &server_state, &client_resp);
    let c = client_resp.0.sub(&d);
    assert_eq!(server_resp2.c, c);
    assert_eq!(server_resp2.r, u.sub(&c.mul(&x)));
    assert_eq!((server_resp2.s1, server_resp2.s2, server_resp2.d), (s1, s2, d));
    let eighty = abe::ClientResp(small_scalar(80));
    let two_hundred = abe::ServerState { u: small_scalar(200), ..server_state };
    let by_hand = Abe::sign2(&privkey, &two_hundred, &eighty);
    assert_eq!(by_hand.c, small_scalar(80 - 11));
    assert_eq!(by_hand.r, Scalar::zero().sub(&small_scalar(255)).sub(&small_scalar(28)));

    // the unblinding
    let sig = Abe::user2(&pubkey, &client_state, m, &server_resp2).unwrap();
    let delta = d.add(&t[3]);
    assert_eq!(sig.zeta, client_state.zeta);
    assert_eq!(sig.zeta1, client_state.zeta1);
    assert_eq!(sig.rho, server_resp2.r.add(&t[0]));
    assert_eq!(sig.omega, server_resp2.c.add(&t[1]));
    assert_eq!(sig.sigma1, gamma.mul(&s1).add(&t[2]));
    assert_eq!(sig.sigma2, gamma.mul(&s2).add(&t[4]));
    assert_eq!(sig.delta, delta);
    assert_eq!(sig.delta, small_scalar(11 + 31));
    assert_eq!(sig.sigma1, small_scalar(13 * 3 + 29));
    assert_eq!(sig.mu, tau.sub(&delta.mul(&gamma)));

    // the verification equation
    assert!(Abe::verify(&pubkey, m, &sig));
    let recomputed = ScalarRepr::from_hash(
        oracle(b"Abe Blind Sig Oracle 3")
            .chain(sig.zeta.to_bytes())
            .chain(sig.zeta1.to_bytes())
            .chain(encoded(&repr(&sig.rho) * g + repr(&sig.omega) * y))
            .chain(encoded(&repr(&sig.sigma1) * g + repr(&sig.delta) * zeta1))
            .chain(encoded(repr(&sig.sigma2) * h + repr(&sig.delta) * zeta2))
            .chain(encoded(repr(&sig.mu) * z + repr(&sig.delta) * zeta))
            .chain(m),
    );
    assert_eq!(recomputed.to_bytes(), sig.omega.add(&sig.delta).to_bytes());
}

#[test]
fn abe_user_aborts_on_a_wrong_response() {
    let mut csprng = rand::thread_rng();
    let m = b"Hello world";
    let (privkey, pubkey) = Abe::keygen(&mut csprng);
    let (server_state, server_resp1) = Abe::sign1(&mut csprng, &pubkey);
    let (client_state, client_resp) = Abe::user1(&mut csprng, &pubkey, m, &server_resp1);
    let server_resp2 = Abe::sign2(&privkey, &server_state, &client_resp);
    let one = Scalar::one();

    let wrong = [
        abe::ServerResp2 { r: server_resp2.r.add(&one), ..server_resp2 },
        abe::ServerResp2 { c: server_resp2.c.add(&one), ..server_resp2 },
        abe::ServerResp2 { s1: server_resp2.s1.add(&one), ..server_resp2 },
        abe::ServerResp2 { s2: server_resp2.s2.add(&one), ..server_resp2 },
        abe::ServerResp2 { d: server_resp2.d.add(&one), ..server_resp2 },
    ];
    for wrong in wrong.iter() {
        assert_eq!(Abe::user2(&pubkey, &client_state, m, wrong), None);
    }
    assert_eq!(Abe::user2(&pubkey, &client_state, b"another", &server_resp2), None);
    assert!(Abe::user2(&pubkey, &client_state, m, &server_resp2).is_some());
}

#[test]
fn abe_key_and_blinding_are_not_degenerate() {
    let mut csprng = rand::thread_rng();
    let (_, pubkey) = Abe::keygen(&mut csprng);
    assert!(!pubkey.z.is_identity());
    let (_, server_resp1) = Abe::sign1(&mut csprng, &pubkey);
    let (client_state, _) = Abe::user1(&mut csprng, &pubkey, b"m", &server_resp1);
    assert!(!client_state.gamma.is_zero());
}

#[test]
fn moves_draw_fresh_randomness() {
    let mut csprng = rand::thread_rng();
    let (privkey, pubkey) = Abe::keygen(&mut csprng);
    let (other_privkey, _) = Abe::keygen(&mut csprng);
    assert_ne!(privkey, other_privkey);
    let (state, resp) = Abe::sign1(&mut csprng, &pubkey);
    let (other_state, other_resp) = Abe::sign1(&mut csprng, &pubkey);
    assert_ne!(resp.rnd, other_resp.rnd);
    assert_ne!(resp.rnd, [0u8; 32]);
    assert_ne!(state, other_state);
    assert_ne!(state.u, state.s1);

    let (privkey, pubkey) = BlindSchnorr::keygen(&mut csprng);
    let (state, resp) = BlindSchnorr::sign1(&mut csprng, &pubkey);
    assert_ne!(state.r, privkey.0);
    let (first, _) = BlindSchnorr::user1(&mut csprng, &pubkey, b"m", &resp);
    let (second, _) = BlindSchnorr::user1(&mut csprng, &pubkey, b"m", &resp);
    assert_ne!(first.alpha, second.alpha);
    assert_ne!(first.c, second.c);
}

#[test]
fn schnorr_messages_cross_the_wire() {
    let mut csprng = rand::thread_rng();
    let m = b"Hello world";
    let (privkey, pubkey) = BlindSchnorr::keygen(&mut csprng);
    let (server_state, server_resp1) = BlindSchnorr::sign1(&mut csprng, &pubkey);
    let (client_state, client_resp) = BlindSchnorr::user1(&mut csprng, &pubkey, m, &server_resp1);
    let server_resp2 = BlindSchnorr::sign2(&privkey, &server_state, &client_resp);
    let sig = BlindSchnorr::user2(&pubkey, &client_state, m, &server_resp2).unwrap();

    assert_eq!(pubkey.to_bytes(), pubkey.0.to_bytes().to_vec());
    assert_eq!(server_resp1.to_bytes(), server_resp1.R.to_bytes().to_vec());
    assert_eq!(client_resp.to_bytes(), client_resp.c.to_bytes().to_vec());
    assert_eq!(server_resp2.to_bytes(), server_resp2.s.to_bytes().to_vec());
    let mut expected = sig.R_prime.to_bytes().to_vec();
    expected.extend_from_slice(&sig.s_prime.to_bytes());
    assert_eq!(sig.to_bytes(), expected);

    assert_eq!(schnorr::Pubkey::from_bytes(&pubkey.to_bytes()), Ok(pubkey));
    assert_eq!(schnorr::ServerResp1::from_bytes(&server_resp1.to_bytes()), Ok(server_resp1));
    assert_eq!(schnorr::ClientResp::from_bytes(&client_resp.to_bytes()), Ok(client_resp));
    assert_eq!(schnorr::ServerResp2::from_bytes(&server_resp2.to_bytes()), Ok(server_resp2));
    assert_eq!(schnorr::Signature::from_bytes(&sig.to_bytes()), Ok(sig));
}

#[test]
fn schnorr_messages_off_the_wire_are_checked() {
    let order = [
        237u8, 211, 245, 92, 26, 99, 18, 88, 214, 156, 247, 162, 222, 249, 222, 20, 0, 0, 0, 0, 0,
        0, 0, 0, 0, 0, 0, 0, 0, 0, 0, 16,
    ];
    assert_eq!(schnorr::ClientResp::from_bytes(&order), Err(InvalidEncoding));
    assert_eq!(schnorr::ServerResp2::from_bytes(&order), Err(InvalidEncoding));
    assert_eq!(schnorr::ServerResp1::from_bytes(&[0xff; 32]), Err(InvalidEncoding));
    assert_eq!(schnorr::Pubkey::from_bytes(&[0xff; 32]), Err(InvalidEncoding));

    assert_eq!(schnorr::ClientResp::from_bytes(&[0u8; 31]), Err(InvalidEncoding));
    assert_eq!(schnorr::ClientResp::from_bytes(&[0u8; 33]), Err(InvalidEncoding));
    assert_eq!(schnorr::ClientResp::from_bytes(&[]), Err(InvalidEncoding));
    assert_eq!(schnorr::Signature::from_bytes(&[0u8; 32]), Err(InvalidEncoding));
    assert_eq!(schnorr::Signature::from_bytes(&[0u8; 65]), Err(InvalidEncoding));

    let mut bytes = vec![0u8; 32];
    bytes.extend_from_slice(&order);
    assert_eq!(schnorr::Signature::from_bytes(&bytes), Err(InvalidEncoding));
    let mut bytes = vec![0xffu8; 32];
    bytes.extend_from_slice(&[0u8; 32]);
    assert_eq!(schnorr::Signature::from_bytes(&bytes), Err(InvalidEncoding));
    assert!(schnorr::Signature::from_bytes(&[0u8; 64]).is_ok());
    assert_eq!(schnorr::ClientResp::from_bytes(&[0u8; 32]).unwrap().c, Scalar::zero());
}

#[test]
fn abe_messages_cross_the_wire() {
    let mut csprng = rand::thread_rng();
    let m = b"Hello world";
    let (privkey, pubkey) = Abe::keygen(&mut csprng);
    let (server_state, server_resp1) = Abe::sign1(&mut csprng, &pubkey);
    let (client_state, client_resp) = Abe::user1(&mut csprng, &pubkey, m, &server_resp1);
    let server_resp2 = Abe::sign2(&privkey, &server_state, &client_resp);
    let sig = Abe::user2(&pubkey, &client_state, m, &server_resp2).unwrap();

    let mut expected = pubkey.y.to_bytes().to_vec();
    expected.extend_from_slice(&pubkey.z.to_bytes());
    assert_eq!(pubkey.to_bytes(), expected);

    let mut expected = server_resp1.rnd.to_vec();
    expected.extend_from_slice(&server_resp1.a.to_bytes());
    expected.extend_from_slice(&server_resp1.b1.to_bytes());
    expected.extend_from_slice(&server_resp1.b2.to_bytes());
    assert_eq!(server_resp1.to_bytes(), expected);

    assert_eq!(client_resp.to_bytes(), client_resp.0.to_bytes().to_vec());

    let mut expected = Vec::new();
    for s in [server_resp2.r, server_resp2.c, server_resp2.s1, server_resp2.s2, server_resp2.d]
        .iter()
    {
        expected.extend_from_slice(&s.to_bytes());
    }
    assert_eq!(server_resp2.to_bytes(), expected);

    let mut expected = sig.zeta.to_bytes().to_vec();
    expected.extend_from_slice(&sig.zeta1.to_bytes());
    for s in [sig.rho, sig.omega, sig.sigma1, sig.sigma2, sig.delta, sig.mu].iter() {
        expected.extend_from_slice(&s.to_bytes());
    }
    assert_eq!(sig.to_bytes(), expected);

    assert_eq!(abe::Pubkey::from_bytes(&pubkey.to_bytes()), Ok(pubkey));
    assert_eq!(abe::ServerResp1::from_bytes(&server_resp1.to_bytes()), Ok(server_resp1));
    assert_eq!(abe::ClientResp::from_bytes(&client_resp.to_bytes()), Ok(client_resp));
    assert_eq!(abe::ServerResp2::from_bytes(&server_resp2.to_bytes()), Ok(server_resp2));
    assert_eq!(abe::Signature::from_bytes(&sig.to_bytes()), Ok(sig));
}

#[test]
fn abe_messages_off_the_wire_are_checked() {
    let mut csprng = rand::thread_rng();
    let (privkey, pubkey) = Abe::keygen(&mut csprng);
    let (server_state, server_resp1) = Abe::sign1(&mut csprng, &pubkey);
    let (_, client_resp) = Abe::user1(&mut csprng, &pubkey, b"m", &server_resp1);
    let server_resp2 = Abe::sign2(&privkey, &server_state, &client_resp);

    let bytes = server_resp1.to_bytes();
    assert_eq!(bytes.len(), 128);
    assert_eq!(abe::ServerResp1::from_bytes(&bytes[..127]), Err(InvalidEncoding));
    // the nonce is free
    let mut changed = bytes.clone();
    changed[0] ^= 0xff;
    assert!(abe::ServerResp1::from_bytes(&changed).is_ok());
    // the group elements are not
    for block in 1..4 {
        let mut changed = bytes.clone();
        for byte in changed[32 * block..32 * block + 32].iter_mut() {
            *byte = 0xff;
        }
        assert_eq!(abe::ServerResp1::from_bytes(&changed), Err(InvalidEncoding));
    }

    let bytes = server_resp2.to_bytes();
    assert_eq!(bytes.len(), 160);
    for block in 0..5 {
        let mut changed = bytes.clone();
        changed[32 * block + 31] = 0xff;
        assert_eq!(abe::ServerResp2::from_bytes(&changed), Err(InvalidEncoding));
    }
    let mut longer = bytes.clone();
    longer.push(0);
    assert_eq!(abe::ServerResp2::from_bytes(&longer), Err(InvalidEncoding));

    assert_eq!(abe::Pubkey::from_bytes(&[0u8; 32]), Err(InvalidEncoding));
    assert!(abe::Pubkey::from_bytes(&[0u8; 64]).is_ok());
    assert_eq!(abe::ClientResp::from_bytes(&[0xff; 32]), Err(InvalidEncoding));
    assert_eq!(abe::Signature::from_bytes(&[0u8; 255]), Err(InvalidEncoding));
    assert!(abe::Signature::from_bytes(&[0u8; 256]).is_ok());
}
