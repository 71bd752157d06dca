use blake2::crypto_mac::NewMac;
use blake2::digest::Digest;
use blake2::Blake2b;
use blind_sig_bench::common::{
    append_bytes, block_of, hash_to_group, hash_to_scalar, point_in_block, scalar_in_block,
    GroupElem, InvalidEncoding, Scalar,
};
use curve25519_dalek::constants::{RISTRETTO_BASEPOINT_COMPRESSED, RISTRETTO_BASEPOINT_POINT};
use curve25519_dalek::ristretto::RistrettoPoint;
use curve25519_dalek::scalar::Scalar as ScalarRepr;

/// The encoding of the group order less one.
const ORDER_LESS_ONE: [u8; 32] = [
    236, 211, 245, 92, 26, 99, 18, 88, 214, 156, 247, 162, 222, 249, 222, 20, 0, 0, 0, 0, 0, 0, 0,
    0, 0, 0, 0, 0, 0, 0, 0, 16,
];

/// The encoding of the group order.
const ORDER: [u8; 32] = [
    237, 211, 245, 92, 26, 99, 18, 88, 214, 156, 247, 162, 222, 249, 222, 20, 0, 0, 0, 0, 0, 0, 0,
    0, 0, 0, 0, 0, 0, 0, 0, 16,
];

fn small(n: u8) -> [u8; 32] {
    let mut bytes = [0u8; 32];
    bytes[0] = n;
    bytes
}

fn scalar(n: u8) -> Scalar {
    Scalar::from_bytes(small(n)).unwrap()
}

fn basepoint() -> GroupElem {
    GroupElem::from_bytes(RISTRETTO_BASEPOINT_COMPRESSED.to_bytes()).unwrap()
}

#[test]
fn scalar_decodes_below_the_order_only() {
    assert!(Scalar::from_bytes([0u8; 32]).is_ok());
    assert!(Scalar::from_bytes(small(1)).is_ok());
    assert!(Scalar::from_bytes(ORDER_LESS_ONE).is_ok());
    assert_eq!(Scalar::from_bytes(ORDER), Err(InvalidEncoding));
    assert_eq!(Scalar::from_bytes([0xff; 32]), Err(InvalidEncoding));
    let mut high_bit = small(1);
    high_bit[31] = 0x80;
    assert_eq!(Scalar::from_bytes(high_bit), Err(InvalidEncoding));
}

#[test]
fn scalar_encoding_round_trips() {
    assert_eq!(Scalar::from_bytes(ORDER_LESS_ONE).unwrap().to_bytes(), ORDER_LESS_ONE);
    assert_eq!(Scalar::from_bytes(small(77)).unwrap().to_bytes(), small(77));
    let mut csprng = rand::thread_rng();
    let s = Scalar::random(&mut csprng);
    assert_eq!(Scalar::from_bytes(s.to_bytes()), Ok(s));
}

#[test]
fn scalar_zero_and_one() {
    assert_eq!(Scalar::zero().to_bytes(), [0u8; 32]);
    assert_eq!(Scalar::one().to_bytes(), small(1));
    assert!(Scalar::zero().is_zero());
    assert!(!Scalar::one().is_zero());
    assert!(!Scalar::from_bytes(ORDER_LESS_ONE).unwrap().is_zero());
    assert!(Scalar::one().equals(&scalar(1)));
    assert!(!Scalar::one().equals(&scalar(2)));
}

#[test]
fn scalar_sum_is_modulo_the_order() {
    assert_eq!(scalar(1).add(&scalar(1)).to_bytes(), small(2));
    assert_eq!(scalar(200).add(&scalar(55)).to_bytes(), small(255));
    let mut carried = [0u8; 32];
    carried[1] = 1;
    assert_eq!(scalar(200).add(&scalar(56)).to_bytes(), carried);
    let last = Scalar::from_bytes(ORDER_LESS_ONE).unwrap();
    assert_eq!(last.add(&scalar(1)).to_bytes(), [0u8; 32]);
    assert_eq!(last.add(&scalar(3)).to_bytes(), small(2));
}

#[test]
fn scalar_difference_is_modulo_the_order() {
    assert_eq!(scalar(5).sub(&scalar(3)).to_bytes(), small(2));
    assert_eq!(scalar(5).sub(&scalar(5)).to_bytes(), [0u8; 32]);
    assert_eq!(Scalar::zero().sub(&scalar(1)).to_bytes(), ORDER_LESS_ONE);
    let last = Scalar::from_bytes(ORDER_LESS_ONE).unwrap();
    assert_eq!(scalar(2).sub(&last).to_bytes(), small(3));
}

#[test]
fn scalar_product_is_modulo_the_order() {
    assert_eq!(scalar(3).mul(&scalar(5)).to_bytes(), small(15));
    assert_eq!(scalar(7).mul(&Scalar::zero()).to_bytes(), [0u8; 32]);
    let last = Scalar::from_bytes(ORDER_LESS_ONE).unwrap();
    assert_eq!(last.mul(&last).to_bytes(), small(1));
    assert_eq!(last.mul(&scalar(2)).to_bytes(), scalar(0).sub(&scalar(2)).to_bytes());
}

#[test]
fn scalar_from_wide_bytes_reduces() {
    let mut wide = [0u8; 64];
    wide[..32].copy_from_slice(&ORDER);
    assert_eq!(Scalar::from_wide_bytes(&wide).to_bytes(), [0u8; 32]);

    let mut wide = [0u8; 64];
    wide[0] = 9;
    assert_eq!(Scalar::from_wide_bytes(&wide).to_bytes(), small(9));

    // 2^256 modulo the order
    let mut wide = [0u8; 64];
    wide[32] = 1;
    assert_eq!(
        Scalar::from_wide_bytes(&wide).to_bytes(),
        [
            29, 149, 152, 141, 116, 49, 236, 214, 112, 207, 125, 115, 244, 91, 239, 198, 254, 255,
            255, 255, 255, 255, 255, 255, 255, 255, 255, 255, 255, 255, 255, 15
        ]
    );
}

#[test]
fn random_scalars_are_canonical_and_differ() {
    let mut csprng = rand::thread_rng();
    let a = Scalar::random(&mut csprng);
    let b = Scalar::random(&mut csprng);
    assert!(ScalarRepr::from_canonical_bytes(a.to_bytes()).is_some());
    assert!(ScalarRepr::from_canonical_bytes(b.to_bytes()).is_some());
    assert_ne!(a, b);
    assert!(!a.equals(&b));
}

#[test]
fn group_element_decodes_points_only() {
    assert!(GroupElem::from_bytes([0u8; 32]).is_ok());
    assert!(GroupElem::from_bytes(RISTRETTO_BASEPOINT_COMPRESSED.to_bytes()).is_ok());
    assert_eq!(GroupElem::from_bytes([0xff; 32]), Err(InvalidEncoding));
    // an odd number is the encoding of no point
    assert_eq!(GroupElem::from_bytes(small(1)), Err(InvalidEncoding));
    let mut tampered = RISTRETTO_BASEPOINT_COMPRESSED.to_bytes();
    tampered[0] ^= 1;
    assert_eq!(GroupElem::from_bytes(tampered), Err(InvalidEncoding));
}

#[test]
fn group_element_encoding_round_trips() {
    let g = basepoint();
    assert_eq!(g.to_bytes(), RISTRETTO_BASEPOINT_COMPRESSED.to_bytes());
    assert_eq!(GroupElem::from_bytes(g.to_bytes()), Ok(g));
}

#[test]
fn identity_is_the_zero_encoding() {
    let identity = GroupElem::from_bytes([0u8; 32]).unwrap();
    assert!(identity.is_identity());
    assert!(!basepoint().is_identity());
    assert!(GroupElem::base_mul(&Scalar::zero()).is_identity());
}

#[test]
fn base_multiples() {
    assert_eq!(GroupElem::base_mul(&Scalar::one()), basepoint());
    let five = (ScalarRepr::from(5u8) * RISTRETTO_BASEPOINT_POINT).compress().to_bytes();
    assert_eq!(GroupElem::base_mul(&scalar(5)).to_bytes(), five);
    assert_ne!(GroupElem::base_mul(&scalar(5)), basepoint());
}

#[test]
fn group_sum_difference_and_multiple() {
    let g = basepoint();
    let two_g = GroupElem::base_mul(&scalar(2));
    let three_g = GroupElem::base_mul(&scalar(3));
    let identity = GroupElem::from_bytes([0u8; 32]).unwrap();

    assert_eq!(g.add(&g), two_g);
    assert_eq!(g.add(&two_g), three_g);
    assert_eq!(g.add(&identity), g);
    assert_ne!(g.add(&two_g), g);

    assert_eq!(three_g.sub(&g), two_g);
    assert_eq!(g.sub(&g), identity);
    assert_ne!(three_g.sub(&g), three_g);

    assert_eq!(g.mul(&scalar(3)), three_g);
    assert_eq!(two_g.mul(&scalar(3)), GroupElem::base_mul(&scalar(6)));
    assert_eq!(g.mul(&Scalar::zero()), identity);
    assert_ne!(g.mul(&scalar(3)), g);

    assert!(g.equals(&basepoint()));
    assert!(!g.equals(&two_g));
}

#[test]
fn group_operations_are_those_of_the_curve() {
    let mut csprng = rand::thread_rng();
    let k = Scalar::random(&mut csprng);
    let j = Scalar::random(&mut csprng);
    let k_repr = ScalarRepr::from_canonical_bytes(k.to_bytes()).unwrap();
    let j_repr = ScalarRepr::from_canonical_bytes(j.to_bytes()).unwrap();
    let p_repr = k_repr * RISTRETTO_BASEPOINT_POINT;
    let q_repr = j_repr * RISTRETTO_BASEPOINT_POINT;
    let p = GroupElem::base_mul(&k);
    let q = GroupElem::base_mul(&j);

    assert_eq!(p.to_bytes(), p_repr.compress().to_bytes());
    assert_eq!(p.add(&q).to_bytes(), (p_repr + q_repr).compress().to_bytes());
    assert_eq!(p.sub(&q).to_bytes(), (p_repr - q_repr).compress().to_bytes());
    assert_eq!(p.mul(&j).to_bytes(), (j_repr * p_repr).compress().to_bytes());
    assert_eq!(k.add(&j).to_bytes(), (k_repr + j_repr).to_bytes());
    assert_eq!(k.sub(&j).to_bytes(), (k_repr - j_repr).to_bytes());
    assert_eq!(k.mul(&j).to_bytes(), (k_repr * j_repr).to_bytes());
}

#[test]
fn uniform_bytes_map_onto_the_group() {
    let mut bytes = [0u8; 64];
    for (i, byte) in bytes.iter_mut().enumerate() {
        *byte = i as u8;
    }
    let expected = RistrettoPoint::from_uniform_bytes(&bytes).compress().to_bytes();
    assert_eq!(GroupElem::from_uniform_bytes(&bytes).to_bytes(), expected);
    assert_ne!(GroupElem::from_uniform_bytes(&[0u8; 64]).to_bytes(), expected);
}

#[test]
fn scalar_oracle_is_blake2b_reduced() {
    // the BLAKE2b digest of "hello world", as a number modulo the order
    assert_eq!(
        hash_to_scalar(&[], b"hello world").to_bytes(),
        [
            136, 233, 237, 105, 10, 36, 19, 204, 243, 232, 73, 32, 170, 56, 220, 31, 100, 134, 11,
            156, 158, 14, 178, 157, 145, 194, 103, 65, 188, 246, 240, 6
        ]
    );
    // the same under the key "Abe Blind Sig Oracle 3"
    assert_eq!(
        hash_to_scalar(b"Abe Blind Sig Oracle 3", b"hello world").to_bytes(),
        [
            59, 17, 183, 167, 67, 190, 188, 126, 199, 148, 77, 147, 40, 164, 120, 185, 61, 2, 148,
            214, 207, 229, 216, 81, 75, 208, 119, 14, 157, 197, 195, 0
        ]
    );
    assert_eq!(
        hash_to_scalar(&[], b"hello world").to_bytes(),
        ScalarRepr::hash_from_bytes::<Blake2b>(b"hello world").to_bytes()
    );
    assert_eq!(
        hash_to_scalar(b"tag", b"hello world").to_bytes(),
        ScalarRepr::from_hash(Blake2b::new_varkey(b"tag").unwrap().chain(b"hello").chain(b" world"))
            .to_bytes()
    );
}

#[test]
fn group_oracle_is_blake2b_mapped() {
    assert_eq!(
        hash_to_group(&[], b"Abe Blind Sig Alt Basepoint").to_bytes(),
        RistrettoPoint::hash_from_bytes::<Blake2b>(b"Abe Blind Sig Alt Basepoint")
            .compress()
            .to_bytes()
    );
    assert_eq!(
        hash_to_group(b"tag", b"hello world").to_bytes(),
        RistrettoPoint::from_hash(
            Blake2b::new_varkey(b"tag").unwrap().chain(b"hello").chain(b" world")
        )
        .compress()
        .to_bytes()
    );
}

#[test]
fn oracles_are_separated_by_their_tags() {
    let data = b"the same input";
    let one = hash_to_scalar(b"Abe Blind Sig Oracle 1", data);
    let two = hash_to_scalar(b"Abe Blind Sig Oracle 2", data);
    let three = hash_to_scalar(b"Abe Blind Sig Oracle 3", data);
    assert_ne!(one, two);
    assert_ne!(one, three);
    assert_ne!(two, three);
    assert_ne!(hash_to_scalar(&[], data), one);

    let one = hash_to_group(b"Abe Blind Sig Oracle 1", data);
    let two = hash_to_group(b"Abe Blind Sig Oracle 2", data);
    assert_ne!(one, two);
    assert_ne!(hash_to_group(&[], data), one);

    assert_ne!(hash_to_scalar(b"tag", b"ab"), hash_to_scalar(b"tag", b"ba"));
    assert_eq!(hash_to_scalar(b"tag", b"ab"), hash_to_scalar(b"tag", b"ab"));
    assert_eq!(hash_to_group(&[7u8; 64], b"ab"), hash_to_group(&[7u8; 64], b"ab"));
}

#[test]
fn bytes_are_appended_in_order() {
    let mut buffer = vec![1u8, 2];
    append_bytes(&mut buffer, &[3, 4, 5]);
    append_bytes(&mut buffer, &[]);
    append_bytes(&mut buffer, &[6]);
    assert_eq!(buffer, vec![1, 2, 3, 4, 5, 6]);
}

#[test]
fn blocks_are_read_by_their_index() {
    let mut bytes = Vec::new();
    bytes.extend_from_slice(&RISTRETTO_BASEPOINT_COMPRESSED.to_bytes());
    bytes.extend_from_slice(&ORDER_LESS_ONE);
    bytes.extend_from_slice(&ORDER);
    assert_eq!(block_of(&bytes, 0), RISTRETTO_BASEPOINT_COMPRESSED.to_bytes());
    assert_eq!(block_of(&bytes, 1), ORDER_LESS_ONE);
    assert_eq!(block_of(&bytes, 2), ORDER);
    assert_eq!(point_in_block(&bytes, 0), Ok(basepoint()));
    assert_eq!(point_in_block(&bytes, 1), Err(InvalidEncoding));
    assert_eq!(scalar_in_block(&bytes, 1), Scalar::from_bytes(ORDER_LESS_ONE));
    assert_eq!(scalar_in_block(&bytes, 2), Err(InvalidEncoding));
}

#[test]
fn group_laws_hold_of_random_elements() {
    let mut csprng = rand::thread_rng();
    let one = Scalar::one();
    let g = GroupElem::base_mul(&one);
    for _ in 0..8 {
        let j = Scalar::random(&mut csprng);
        let k = Scalar::random(&mut csprng);
        let p = GroupElem::base_mul(&Scalar::random(&mut csprng));
        let q = hash_to_group(b"tag", &Scalar::random(&mut csprng).to_bytes());
        let r = hash_to_group(b"tag", &Scalar::random(&mut csprng).to_bytes());

        // addition is commutative and associative, and subtraction undoes it
        assert_eq!(p.add(&q), q.add(&p));
        assert_eq!(p.add(&q).add(&r), p.add(&q.add(&r)));
        assert_eq!(p.sub(&q).add(&q), p);
        assert_eq!(p.add(&q).sub(&q), p);

        // a multiple of the base point is a multiple of G
        assert_eq!(GroupElem::base_mul(&k), g.mul(&k));

        // multiplication distributes and composes
        assert_eq!(p.add(&q).mul(&k), p.mul(&k).add(&q.mul(&k)));
        assert_eq!(q.mul(&j).add(&q.mul(&k)), q.mul(&j.add(&k)));
        assert_eq!(q.mul(&k).mul(&j), q.mul(&j.mul(&k)));

        // the sums, differences and multiples decode
        for element in [p.add(&q), p.sub(&q), q.mul(&k), GroupElem::base_mul(&j)].iter() {
            assert_eq!(GroupElem::from_bytes(element.to_bytes()), Ok(*element));
        }
    }
}

#[test]
fn scalars_wrap_around_the_order() {
    let mut csprng = rand::thread_rng();
    let last = Scalar::from_bytes(ORDER_LESS_ONE).unwrap();
    for _ in 0..8 {
        let a = Scalar::random(&mut csprng);
        let b = Scalar::random(&mut csprng);
        assert_eq!(a.sub(&b).add(&b), a);
        assert_eq!(a.add(&b).sub(&a), b);
        assert_eq!(a.add(&b), b.add(&a));
        assert_eq!(a.mul(&b), b.mul(&a));
        assert_eq!(a.add(&last).add(&Scalar::one()), a);
        assert_eq!(a.mul(&last), Scalar::zero().sub(&a));
    }
}
