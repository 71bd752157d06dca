//! Scalars and group elements of the Ristretto group, the hash oracles that
//! map byte strings onto them, and the interface of a four-move blind
//! signature scheme.
//!
//! Both kinds of value are held as their canonical 32-byte encodings. A
//! scalar is modelled by the number below the group order that its encoding
//! spells; a group element by the encoding itself. The group operations and
//! the hash function are carried out by `curve25519-dalek` and `blake2`:
//! what they return is given a name here, and nothing is proved of it.

use blake2::crypto_mac::NewMac;
use blake2::digest::Digest;
use blake2::Blake2b;
use curve25519_dalek::constants::RISTRETTO_BASEPOINT_TABLE;
use curve25519_dalek::ristretto::{CompressedRistretto, RistrettoPoint};
use curve25519_dalek::scalar::Scalar as ScalarRepr;
use rand::{CryptoRng, RngCore};
use vstd::arithmetic::div_mod::{lemma_mod_add_multiples_vanish, lemma_small_mod};
use vstd::prelude::*;

verus! {

/// The prime order of the Ristretto group,
/// 2^252 + 27742317777372353535851937790883648493.
pub open spec fn group_order() -> nat {
    7237005577332262213973186563042994240857116359379907606001950938285454250989nat
}

/// The number that `bytes` spells, least significant byte first.
pub open spec fn le_value(bytes: Seq<u8>) -> nat
    decreases bytes.len(),
{
    if bytes.len() == 0 {
        0
    } else {
        bytes[0] as nat + 256 * le_value(bytes.drop_first())
    }
}

/// Sum of two scalars.
pub open spec fn scalar_add(a: nat, b: nat) -> nat {
    (a + b) % group_order()
}

/// Difference of two scalars.
pub open spec fn scalar_sub(a: nat, b: nat) -> nat {
    ((a - b) % (group_order() as int)) as nat
}

/// Product of two scalars.
pub open spec fn scalar_mul(a: nat, b: nat) -> nat {
    (a * b) % group_order()
}

/// The 64-byte BLAKE2b digest of `data` under `key`; an empty key gives the
/// plain hash.
pub uninterp spec fn blake2b_keyed(key: Seq<u8>, data: Seq<u8>) -> Seq<u8>;

/// Whether `encoding` is the canonical encoding of a Ristretto point.
pub uninterp spec fn ristretto_valid(encoding: Seq<u8>) -> bool;

/// The encoding of the sum of the points that `p` and `q` encode.
pub uninterp spec fn ristretto_add(p: Seq<u8>, q: Seq<u8>) -> Seq<u8>;

/// The encoding of the difference of the points that `p` and `q` encode.
pub uninterp spec fn ristretto_sub(p: Seq<u8>, q: Seq<u8>) -> Seq<u8>;

/// The encoding of `k` times the point that `p` encodes.
pub uninterp spec fn ristretto_mul(k: nat, p: Seq<u8>) -> Seq<u8>;

/// The encoding of `k` times the Ristretto base point.
pub uninterp spec fn ristretto_base_mul(k: nat) -> Seq<u8>;

/// The encoding of the point onto which 64 uniform bytes are mapped.
pub uninterp spec fn ristretto_from_uniform(bytes: Seq<u8>) -> Seq<u8>;

/// Whether `k` is the value of a scalar.
pub open spec fn is_scalar(k: nat) -> bool {
    k < group_order()
}

/// Whether `p` is the encoding of a group element.
pub open spec fn is_point(p: Seq<u8>) -> bool {
    p.len() == 32 && ristretto_valid(p)
}

/// The encoding of the identity of the group: 32 zero bytes.
pub open spec fn identity_encoding() -> Seq<u8> {
    Seq::new(32, |i: int| 0u8)
}

/// A byte string that is not the canonical encoding of a scalar or of a
/// group element.
#[derive(Clone, Copy, Debug, PartialEq, Eq)]
pub struct InvalidEncoding;

/// `le_value` of a string of zero bytes is zero, and of no other string.
pub proof fn lemma_le_value_zero(bytes: Seq<u8>)
    ensures
        le_value(bytes) == 0 <==> forall|i: int| 0 <= i < bytes.len() ==> bytes[i] == 0,
    decreases bytes.len(),
{
    if bytes.len() > 0 {
        let rest = bytes.drop_first();
        lemma_le_value_zero(rest);
        if le_value(bytes) == 0 {
            assert forall|i: int| 0 <= i < bytes.len() implies bytes[i] == 0 by {
                if i > 0 {
                    assert(rest[i - 1] == bytes[i]);
                }
            }
        }
        if forall|i: int| 0 <= i < bytes.len() ==> bytes[i] == 0 {
            assert forall|i: int| 0 <= i < rest.len() implies rest[i] == 0 by {
                assert(rest[i] == bytes[i + 1]);
            }
        }
    }
}

/// Two byte strings of one length that spell the same number are equal.
pub proof fn lemma_le_value_injective(a: Seq<u8>, b: Seq<u8>)
    requires
        a.len() == b.len(),
        le_value(a) == le_value(b),
    ensures
        a == b,
    decreases a.len(),
{
    if a.len() > 0 {
        let (x, y) = (le_value(a.drop_first()), le_value(b.drop_first()));
        assert(a[0] as nat + 256 * x == b[0] as nat + 256 * y);
        assert(x == y && a[0] == b[0]) by {
            if x < y {
                assert(256 * x + 256 <= 256 * y);
            } else if y < x {
                assert(256 * y + 256 <= 256 * x);
            }
        }
        lemma_le_value_injective(a.drop_first(), b.drop_first());
        assert forall|i: int| 0 <= i < a.len() implies a[i] == b[i] by {
            if i > 0 {
                assert(a.drop_first()[i - 1] == a[i]);
                assert(b.drop_first()[i - 1] == b[i]);
            }
        }
    }
    assert(a =~= b);
}

/// The sum of two scalars is their sum as numbers, less the group order
/// where that is reached.
pub proof fn lemma_scalar_add(a: nat, b: nat)
    requires
        is_scalar(a),
        is_scalar(b),
    ensures
        is_scalar(scalar_add(a, b)),
        scalar_add(a, b) == if a + b < group_order() {
            a + b
        } else {
            (a + b - group_order()) as nat
        },
{
    let l = group_order() as int;
    if a + b < l {
        lemma_small_mod(a + b, group_order());
    } else {
        lemma_small_mod((a + b - l) as nat, group_order());
        lemma_mod_add_multiples_vanish(a + b - l, l);
    }
}

/// The difference of two scalars is their difference as numbers, plus the
/// group order where that is negative.
pub proof fn lemma_scalar_sub(a: nat, b: nat)
    requires
        is_scalar(a),
        is_scalar(b),
    ensures
        is_scalar(scalar_sub(a, b)),
        scalar_sub(a, b) == if a >= b {
            (a - b) as nat
        } else {
            (a - b + group_order()) as nat
        },
{
    let l = group_order() as int;
    if a >= b {
        lemma_small_mod((a - b) as nat, group_order());
    } else {
        lemma_small_mod((a - b + l) as nat, group_order());
        lemma_mod_add_multiples_vanish(a - b, l);
    }
}

/// The product of two scalars is a scalar, whichever way it is taken.
pub proof fn lemma_scalar_mul(a: nat, b: nat)
    ensures
        is_scalar(scalar_mul(a, b)),
        scalar_mul(a, b) == scalar_mul(b, a),
{
    assert(a * b == b * a) by (nonlinear_arith);
}

/// Fills 32 bytes from `rng`.
///
/// Calls `rand::RngCore::fill_bytes`. The bytes depend on the generator, so
/// nothing is said of them.
#[verifier::external_body]
pub(crate) fn random_bytes<R: CryptoRng + RngCore>(rng: &mut R) -> (bytes: [u8; 32]) {
    let mut bytes = [0u8; 32];
    rng.fill_bytes(&mut bytes);
    bytes
}

/// Hashes `data` with BLAKE2b under `key`.
///
/// Calls `blake2::Blake2b::new_varkey`, which accepts keys of up to 64
/// bytes, then `chain` and `finalize` of its `Digest`. The result is the
/// digest, known here only by its name.
#[verifier::external_body]
fn blake2b_digest(key: &[u8], data: &[u8]) -> (digest: [u8; 64])
    requires
        key@.len() <= 64,
    ensures
        digest@ == blake2b_keyed(key@, data@),
{
    let mut digest = [0u8; 64];
    digest.copy_from_slice(&Blake2b::new_varkey(key).unwrap().chain(data).finalize()[..]);
    digest
}

/// Whether `bytes` is the canonical encoding of a scalar.
///
/// Calls `curve25519_dalek::scalar::Scalar::from_canonical_bytes`, which
/// returns a scalar exactly for the encodings of numbers below the group
/// order.
#[verifier::external_body]
fn scalar_canonical(bytes: &[u8; 32]) -> (ok: bool)
    ensures
        ok == (le_value(bytes@) < group_order()),
{
    ScalarRepr::from_canonical_bytes(*bytes).is_some()
}

/// Draws the encoding of a scalar at random.
///
/// Calls `curve25519_dalek::scalar::Scalar::random`, which reduces 64
/// bytes from `rng` modulo the group order: the result is canonical, and
/// nothing else is said of it.
#[verifier::external_body]
fn scalar_random<R: CryptoRng + RngCore>(rng: &mut R) -> (r: [u8; 32])
    ensures
        le_value(r@) < group_order(),
{
    ScalarRepr::random(rng).to_bytes()
}

/// Reduces a 64-byte number modulo the group order.
///
/// Calls `curve25519_dalek::scalar::Scalar::from_bytes_mod_order_wide`.
#[verifier::external_body]
fn scalar_reduced(wide: &[u8; 64]) -> (r: [u8; 32])
    ensures
        le_value(r@) == le_value(wide@) % group_order(),
{
    ScalarRepr::from_bytes_mod_order_wide(wide).to_bytes()
}

/// Adds two canonical scalars.
///
/// Calls `+` of `curve25519_dalek::scalar::Scalar`, whose arithmetic is
/// modulo the group order.
#[verifier::external_body]
fn scalar_sum(a: &[u8; 32], b: &[u8; 32]) -> (r: [u8; 32])
    requires
        le_value(a@) < group_order(),
        le_value(b@) < group_order(),
    ensures
        le_value(r@) == scalar_add(le_value(a@), le_value(b@)),
{
    (ScalarRepr::from_bits(*a) + ScalarRepr::from_bits(*b)).to_bytes()
}

/// Subtracts one canonical scalar from another.
///
/// Calls `-` of `curve25519_dalek::scalar::Scalar`, whose arithmetic is
/// modulo the group order.
#[verifier::external_body]
fn scalar_difference(a: &[u8; 32], b: &[u8; 32]) -> (r: [u8; 32])
    requires
        le_value(a@) < group_order(),
        le_value(b@) < group_order(),
    ensures
        le_value(r@) == scalar_sub(le_value(a@), le_value(b@)),
{
    (ScalarRepr::from_bits(*a) - ScalarRepr::from_bits(*b)).to_bytes()
}

/// Multiplies two canonical scalars.
///
/// Calls `*` of `curve25519_dalek::scalar::Scalar`, whose arithmetic is
/// modulo the group order.
#[verifier::external_body]
fn scalar_product(a: &[u8; 32], b: &[u8; 32]) -> (r: [u8; 32])
    requires
        le_value(a@) < group_order(),
        le_value(b@) < group_order(),
    ensures
        le_value(r@) == scalar_mul(le_value(a@), le_value(b@)),
{
    (ScalarRepr::from_bits(*a) * ScalarRepr::from_bits(*b)).to_bytes()
}

/// Whether `bytes` is the canonical encoding of a group element.
///
/// Calls `curve25519_dalek::ristretto::CompressedRistretto::decompress`,
/// which returns a point exactly for the canonical encodings.
#[verifier::external_body]
fn ristretto_decodes(bytes: &[u8; 32]) -> (ok: bool)
    ensures
        ok == ristretto_valid(bytes@),
{
    CompressedRistretto(*bytes).decompress().is_some()
}

/// Adds two group elements.
///
/// Calls `+` of `curve25519_dalek::ristretto::RistrettoPoint` between
/// `decompress` and `compress`. The encoding of a point is canonical, so
/// the result is a valid encoding that depends on the two encodings alone.
#[verifier::external_body]
fn ristretto_sum(p: &[u8; 32], q: &[u8; 32]) -> (r: [u8; 32])
    requires
        ristretto_valid(p@),
        ristretto_valid(q@),
    ensures
        r@ == ristretto_add(p@, q@),
        ristretto_valid(r@),
{
    let p = CompressedRistretto(*p).decompress().unwrap();
    let q = CompressedRistretto(*q).decompress().unwrap();
    (p + q).compress().to_bytes()
}

/// Subtracts one group element from another.
///
/// Calls `-` of `curve25519_dalek::ristretto::RistrettoPoint` between
/// `decompress` and `compress`.
#[verifier::external_body]
fn ristretto_difference(p: &[u8; 32], q: &[u8; 32]) -> (r: [u8; 32])
    requires
        ristretto_valid(p@),
        ristretto_valid(q@),
    ensures
        r@ == ristretto_sub(p@, q@),
        ristretto_valid(r@),
{
    let p = CompressedRistretto(*p).decompress().unwrap();
    let q = CompressedRistretto(*q).decompress().unwrap();
    (p - q).compress().to_bytes()
}

/// Multiplies a group element by a canonical scalar.
///
/// Calls `*` between `curve25519_dalek::scalar::Scalar` and
/// `curve25519_dalek::ristretto::RistrettoPoint`, between `decompress` and
/// `compress`.
#[verifier::external_body]
fn ristretto_multiple(k: &[u8; 32], p: &[u8; 32]) -> (r: [u8; 32])
    requires
        le_value(k@) < group_order(),
        ristretto_valid(p@),
    ensures
        r@ == ristretto_mul(le_value(k@), p@),
        ristretto_valid(r@),
{
    let p = CompressedRistretto(*p).decompress().unwrap();
    (ScalarRepr::from_bits(*k) * p).compress().to_bytes()
}

/// Multiplies the base point by a canonical scalar.
///
/// Calls `*` between `curve25519_dalek::scalar::Scalar` and
/// `curve25519_dalek::constants::RISTRETTO_BASEPOINT_TABLE`, then
/// `compress`.
#[verifier::external_body]
fn ristretto_base_multiple(k: &[u8; 32]) -> (r: [u8; 32])
    requires
        le_value(k@) < group_order(),
    ensures
        r@ == ristretto_base_mul(le_value(k@)),
        ristretto_valid(r@),
{
    (&ScalarRepr::from_bits(*k) * &RISTRETTO_BASEPOINT_TABLE).compress().to_bytes()
}

/// Maps 64 bytes onto a group element.
///
/// Calls `curve25519_dalek::ristretto::RistrettoPoint::from_uniform_bytes`,
/// then `compress`.
#[verifier::external_body]
fn ristretto_uniform(bytes: &[u8; 64]) -> (r: [u8; 32])
    ensures
        r@ == ristretto_from_uniform(bytes@),
        ristretto_valid(r@),
{
    RistrettoPoint::from_uniform_bytes(bytes).compress().to_bytes()
}

/// Whether two 32-byte strings are equal.
fn bytes_equal(a: &[u8; 32], b: &[u8; 32]) -> (same: bool)
    ensures
        same == (a@ == b@),
{
    let mut i: usize = 0;
    while i < 32
        invariant
            i <= 32,
            forall|j: int| 0 <= j < i ==> a@[j] == b@[j],
        decreases 32 - i,
    {
        if a[i] != b[i] {
            return false;
        }
        i += 1;
    }
    assert(a@ =~= b@);
    true
}

/// An element of the scalar field, held as its canonical 32-byte encoding.
#[derive(Clone, Copy, Debug, PartialEq, Eq)]
pub struct Scalar {
    bytes: [u8; 32],
}

impl View for Scalar {
    type V = nat;

    /// The number below the group order that the scalar stands for.
    open spec fn view(&self) -> nat {
        le_value(self.encoding())
    }
}

impl Scalar {
    /// The 32 bytes that hold the scalar.
    pub closed spec fn encoding(&self) -> Seq<u8> {
        self.bytes@
    }

    /// A scalar is well formed when its encoding is the canonical one.
    /// Every scalar that a program holds is.
    #[verifier::type_invariant]
    pub open spec fn wf(&self) -> bool {
        &&& self.encoding().len() == 32
        &&& is_scalar(self@)
    }

    /// The scalar zero.
    pub fn zero() -> (s: Scalar)
        ensures
            s@ == 0,
    {
        let bytes = [0u8; 32];
        proof {
            lemma_le_value_zero(bytes@);
        }
        Scalar { bytes }
    }

    /// The scalar one.
    pub fn one() -> (s: Scalar)
        ensures
            s@ == 1,
    {
        let mut bytes = [0u8; 32];
        bytes[0] = 1;
        proof {
            lemma_le_value_zero(bytes@.drop_first());
        }
        Scalar { bytes }
    }

    /// Decodes a scalar, accepting the canonical encoding only.
    pub fn from_bytes(bytes: [u8; 32]) -> (decoded: Result<Scalar, InvalidEncoding>)
        ensures
            decoded is Ok <==> is_scalar(le_value(bytes@)),
            decoded matches Ok(s) ==> s.encoding() == bytes@,
    {
        if scalar_canonical(&bytes) {
            Ok(Scalar { bytes })
        } else {
            Err(InvalidEncoding)
        }
    }

    /// The canonical encoding of the scalar.
    pub fn to_bytes(&self) -> (bytes: [u8; 32])
        ensures
            bytes@ == self.encoding(),
    {
        self.bytes
    }

    /// Draws a scalar uniformly at random from `rng`.
    pub fn random<R: CryptoRng + RngCore>(rng: &mut R) -> (s: Scalar)
        ensures
            s.wf(),
    {
        Scalar { bytes: scalar_random(rng) }
    }

    /// Reduces a 64-byte number, least significant byte first, modulo the
    /// group order.
    pub fn from_wide_bytes(wide: &[u8; 64]) -> (s: Scalar)
        ensures
            s@ == le_value(wide@) % group_order(),
    {
        Scalar { bytes: scalar_reduced(wide) }
    }

    /// Whether the scalar is zero.
    pub fn is_zero(&self) -> (zero: bool)
        ensures
            zero == (self@ == 0),
    {
        let zeros = [0u8; 32];
        proof {
            lemma_le_value_zero(zeros@);
            if self@ == 0 {
                lemma_le_value_injective(self.bytes@, zeros@);
            }
        }
        bytes_equal(&self.bytes, &zeros)
    }

    /// Whether two scalars are the same.
    pub fn equals(&self, other: &Scalar) -> (same: bool)
        ensures
            same == (self@ == other@),
    {
        proof {
            if self@ == other@ {
                lemma_le_value_injective(self.bytes@, other.bytes@);
            }
        }
        bytes_equal(&self.bytes, &other.bytes)
    }

    /// The sum of two scalars.
    pub fn add(&self, other: &Scalar) -> (sum: Scalar)
        ensures
            sum@ == scalar_add(self@, other@),
    {
        proof {
            use_type_invariant(self);
            use_type_invariant(other);
        }
        Scalar { bytes: scalar_sum(&self.bytes, &other.bytes) }
    }

    /// The difference of two scalars.
    pub fn sub(&self, other: &Scalar) -> (difference: Scalar)
        ensures
            difference@ == scalar_sub(self@, other@),
    {
        proof {
            use_type_invariant(self);
            use_type_invariant(other);
        }
        Scalar { bytes: scalar_difference(&self.bytes, &other.bytes) }
    }

    /// The product of two scalars.
    pub fn mul(&self, other: &Scalar) -> (product: Scalar)
        ensures
            product@ == scalar_mul(self@, other@),
    {
        proof {
            use_type_invariant(self);
            use_type_invariant(other);
        }
        Scalar { bytes: scalar_product(&self.bytes, &other.bytes) }
    }
}

/// An element of the Ristretto group, held as its canonical 32-byte encoding.
#[derive(Clone, Copy, Debug, PartialEq, Eq)]
pub struct GroupElem {
    bytes: [u8; 32],
}

impl View for GroupElem {
    type V = Seq<u8>;

    /// The canonical encoding of the element.
    closed spec fn view(&self) -> Seq<u8> {
        self.bytes@
    }
}

impl GroupElem {
    /// A group element is well formed when its 32 bytes decode to a point.
    /// Every group element that a program holds is.
    #[verifier::type_invariant]
    pub open spec fn wf(&self) -> bool {
        is_point(self@)
    }

    /// Decodes a group element, accepting the canonical encoding of a point
    /// only.
    pub fn from_bytes(bytes: [u8; 32]) -> (decoded: Result<GroupElem, InvalidEncoding>)
        ensures
            decoded is Ok <==> is_point(bytes@),
            decoded matches Ok(p) ==> p@ == bytes@,
    {
        if ristretto_decodes(&bytes) {
            Ok(GroupElem { bytes })
        } else {
            Err(InvalidEncoding)
        }
    }

    /// The canonical encoding of the element.
    pub fn to_bytes(&self) -> (bytes: [u8; 32])
        ensures
            bytes@ == self@,
    {
        self.bytes
    }

    /// Whether two elements are the same.
    pub fn equals(&self, other: &GroupElem) -> (same: bool)
        ensures
            same == (self@ == other@),
    {
        bytes_equal(&self.bytes, &other.bytes)
    }

    /// Whether the element is the identity of the group.
    pub fn is_identity(&self) -> (identity: bool)
        ensures
            identity == (self@ == identity_encoding()),
    {
        let zeros = [0u8; 32];
        assert(zeros@ =~= identity_encoding());
        bytes_equal(&self.bytes, &zeros)
    }

    /// The sum of two elements.
    pub fn add(&self, other: &GroupElem) -> (sum: GroupElem)
        ensures
            sum@ == ristretto_add(self@, other@),
    {
        proof {
            use_type_invariant(self);
            use_type_invariant(other);
        }
        GroupElem { bytes: ristretto_sum(&self.bytes, &other.bytes) }
    }

    /// The difference of two elements.
    pub fn sub(&self, other: &GroupElem) -> (difference: GroupElem)
        ensures
            difference@ == ristretto_sub(self@, other@),
    {
        proof {
            use_type_invariant(self);
            use_type_invariant(other);
        }
        GroupElem { bytes: ristretto_difference(&self.bytes, &other.bytes) }
    }

    /// The element added to itself `k` times.
    pub fn mul(&self, k: &Scalar) -> (multiple: GroupElem)
        ensures
            multiple@ == ristretto_mul(k@, self@),
    {
        proof {
            use_type_invariant(self);
            use_type_invariant(k);
        }
        GroupElem { bytes: ristretto_multiple(&k.bytes, &self.bytes) }
    }

    /// The base point added to itself `k` times.
    pub fn base_mul(k: &Scalar) -> (multiple: GroupElem)
        ensures
            multiple@ == ristretto_base_mul(k@),
    {
        proof {
            use_type_invariant(k);
        }
        GroupElem { bytes: ristretto_base_multiple(&k.bytes) }
    }

    /// The element onto which 64 uniform bytes are mapped.
    pub fn from_uniform_bytes(bytes: &[u8; 64]) -> (p: GroupElem)
        ensures
            p@ == ristretto_from_uniform(bytes@),
    {
        GroupElem { bytes: ristretto_uniform(bytes) }
    }
}

/// What the scalar oracle with the given tag returns on `data`: the digest
/// of `data` under the tag, as a number, reduced modulo the group order.
pub open spec fn hash_scalar(domain_tag: Seq<u8>, data: Seq<u8>) -> nat {
    le_value(blake2b_keyed(domain_tag, data)) % group_order()
}

/// What the group oracle with the given tag returns on `data`: the element
/// onto which the digest of `data` under the tag is mapped.
pub open spec fn hash_point(domain_tag: Seq<u8>, data: Seq<u8>) -> Seq<u8> {
    ristretto_from_uniform(blake2b_keyed(domain_tag, data))
}

/// The random oracle into the scalar field that `domain_tag` selects.
///
/// The tag is the key of the hash, so it holds at most 64 bytes.
pub fn hash_to_scalar(domain_tag: &[u8], data: &[u8]) -> (s: Scalar)
    requires
        domain_tag@.len() <= 64,
    ensures
        s@ == hash_scalar(domain_tag@, data@),
{
    let digest = blake2b_digest(domain_tag, data);
    Scalar::from_wide_bytes(&digest)
}

/// The random oracle into the group that `domain_tag` selects.
///
/// The tag is the key of the hash, so it holds at most 64 bytes.
pub fn hash_to_group(domain_tag: &[u8], data: &[u8]) -> (p: GroupElem)
    requires
        domain_tag@.len() <= 64,
    ensures
        p@ == hash_point(domain_tag@, data@),
{
    let digest = blake2b_digest(domain_tag, data);
    GroupElem::from_uniform_bytes(&digest)
}

/// Appends `bytes` to `buffer`.
pub fn append_bytes(buffer: &mut Vec<u8>, bytes: &[u8])
    ensures
        final(buffer)@ == old(buffer)@ + bytes@,
{
    let mut i: usize = 0;
    while i < bytes.len()
        invariant
            i <= bytes@.len(),
            buffer@ == old(buffer)@ + bytes@.take(i as int),
        decreases bytes@.len() - i,
    {
        buffer.push(bytes[i]);
        i += 1;
        assert(bytes@.take(i as int) == bytes@.take(i - 1).push(bytes@[i - 1]));
    }
    assert(bytes@.take(i as int) == bytes@);
}

/// The `index`-th block of 32 bytes of `bytes`.
pub open spec fn block(bytes: Seq<u8>, index: int) -> Seq<u8> {
    bytes.subrange(32 * index, 32 * index + 32)
}

/// Copies the `index`-th block of 32 bytes out of `bytes`.
pub fn block_of(bytes: &[u8], index: usize) -> (out: [u8; 32])
    requires
        32 * index + 32 <= bytes@.len(),
    ensures
        out@ == block(bytes@, index as int),
{
    let len = bytes.len();
    let mut out = [0u8; 32];
    let mut i: usize = 0;
    while i < 32
        invariant
            i <= 32,
            32 * index + 32 <= len == bytes@.len(),
            forall|j: int| 0 <= j < i ==> out@[j] == bytes@[32 * index + j],
        decreases 32 - i,
    {
        out[i] = bytes[32 * index + i];
        i += 1;
    }
    assert(out@ =~= block(bytes@, index as int));
    out
}

/// Decodes the scalar in the `index`-th block of 32 bytes of `bytes`.
pub fn scalar_in_block(bytes: &[u8], index: usize) -> (decoded: Result<Scalar, InvalidEncoding>)
    requires
        32 * index + 32 <= bytes@.len(),
    ensures
        decoded is Ok <==> is_scalar(le_value(block(bytes@, index as int))),
        decoded matches Ok(s) ==> s.encoding() == block(bytes@, index as int),
{
    Scalar::from_bytes(block_of(bytes, index))
}

/// Decodes the group element in the `index`-th block of 32 bytes of
/// `bytes`.
pub fn point_in_block(bytes: &[u8], index: usize) -> (decoded: Result<GroupElem, InvalidEncoding>)
    requires
        32 * index + 32 <= bytes@.len(),
    ensures
        decoded is Ok <==> is_point(block(bytes@, index as int)),
        decoded matches Ok(p) ==> p@ == block(bytes@, index as int),
{
    GroupElem::from_bytes(block_of(bytes, index))
}

/// A value that crosses the wire as the encodings of its scalars and group
/// elements, 32 bytes each, one after the other in the order of its fields.
pub trait WireMessage: Sized {
    /// The bytes that stand for the value on the wire.
    spec fn encoding(&self) -> Seq<u8>;

    /// Whether `bytes` stand for a value: they have the length of one, and
    /// each block of them is the canonical encoding of its field.
    spec fn decodable(bytes: Seq<u8>) -> bool;

    /// Encodes the value for the wire.
    fn to_bytes(&self) -> (bytes: Vec<u8>)
        ensures
            bytes@ == self.encoding(),
            Self::decodable(bytes@),
    ;

    /// Decodes a value from the wire. Bytes that do not stand for a value
    /// are refused.
    fn from_bytes(bytes: &[u8]) -> (decoded: Result<Self, InvalidEncoding>)
        ensures
            decoded is Ok <==> Self::decodable(bytes@),
            decoded matches Ok(value) ==> value.encoding() == bytes@,
    ;
}

/// A four-move blind signature scheme.
///
/// The signer opens a session with `sign1`, the user blinds the signer's
/// message and answers with `user1`, the signer responds with `sign2`, and
/// the user unblinds the response with `user2`, which hands out a signature
/// only if it verifies. What each move computes is fixed by a relation
/// between its inputs and its outputs; the random choices of a move are
/// left open by its relation.
pub trait FourMoveBlindSig {
    /// How many sessions a signer of this scheme may hold open at a time.
    const MAX_PARALLEL_SESSIONS: usize;

    type Privkey: Clone + Copy + Send + Sync + 'static;

    type Pubkey: Clone + Copy + Send + Sync + 'static;

    type ServerState: Clone + Send + Sync + 'static;

    type ClientState: Clone;

    type ClientResp: Clone;

    type ServerResp1: Clone;

    type ServerResp2: Clone;

    type Signature: Clone;

    /// The bound `MAX_PARALLEL_SESSIONS`, as a number.
    spec fn session_limit() -> nat;

    /// `MAX_PARALLEL_SESSIONS` is the bound of the scheme. The constant of
    /// a scheme is known by this lemma wherever the scheme is used.
    proof fn lemma_session_limit()
        ensures
            Self::MAX_PARALLEL_SESSIONS == Self::session_limit(),
    ;

    /// Whether `pubkey` is the public key that belongs to `privkey`.
    spec fn key_pair(privkey: Self::Privkey, pubkey: Self::Pubkey) -> bool;

    /// Whether `sig` is a signature on the message `m` under `pubkey`.
    spec fn valid(pubkey: Self::Pubkey, m: Seq<u8>, sig: Self::Signature) -> bool;

    /// Whether `resp` is the signer's first message for the secrets in
    /// `state`, in a session under `pubkey`.
    spec fn committed(
        pubkey: Self::Pubkey,
        state: Self::ServerState,
        resp: Self::ServerResp1,
    ) -> bool;

    /// Whether `state` and `resp` are a blinding of `server_resp1` for the
    /// message `m`, with `resp` the challenge that the blinding factors in
    /// `state` make of the transcript.
    spec fn blinded(
        pubkey: Self::Pubkey,
        m: Seq<u8>,
        server_resp1: Self::ServerResp1,
        state: Self::ClientState,
        resp: Self::ClientResp,
    ) -> bool;

    /// Whether `resp` is the signer's response to the challenge
    /// `client_resp`, from the key `privkey` and the secrets in `state`.
    spec fn responded(
        privkey: Self::Privkey,
        state: Self::ServerState,
        client_resp: Self::ClientResp,
        resp: Self::ServerResp2,
    ) -> bool;

    /// Whether `sig` is what the blinding factors in `state` make of the
    /// signer's response `server_resp2`.
    spec fn unblinded(
        state: Self::ClientState,
        server_resp2: Self::ServerResp2,
        sig: Self::Signature,
    ) -> bool;

    /// Whether the user accepts the signer's response `server_resp2`.
    spec fn accepted(
        pubkey: Self::Pubkey,
        state: Self::ClientState,
        m: Seq<u8>,
        server_resp2: Self::ServerResp2,
    ) -> bool;

    /// Generates a key pair.
    fn keygen<R: RngCore + CryptoRng>(rng: &mut R) -> (keys: (Self::Privkey, Self::Pubkey))
        ensures
            Self::key_pair(keys.0, keys.1),
    ;

    /// Whether `sig` is a signature on `m` under `pubkey`.
    fn verify(pubkey: &Self::Pubkey, m: &[u8], sig: &Self::Signature) -> (ok: bool)
        ensures
            ok == Self::valid(*pubkey, m@, *sig),
    ;

    /// The signer's first move: fresh secrets, and the message that commits
    /// to them.
    fn sign1<R: RngCore + CryptoRng>(rng: &mut R, pubkey: &Self::Pubkey) -> (out: (
        Self::ServerState,
        Self::ServerResp1,
    ))
        ensures
            Self::committed(*pubkey, out.0, out.1),
    ;

    /// The user's first move: blinds the signer's message and derives the
    /// challenge for `m`.
    fn user1<R: RngCore + CryptoRng>(
        rng: &mut R,
        pubkey: &Self::Pubkey,
        m: &[u8],
        server_resp1: &Self::ServerResp1,
    ) -> (out: (Self::ClientState, Self::ClientResp))
        ensures
            Self::blinded(*pubkey, m@, *server_resp1, out.0, out.1),
    ;

    /// The signer's second move: the response to the user's challenge.
    fn sign2(
        privkey: &Self::Privkey,
        state: &Self::ServerState,
        client_resp: &Self::ClientResp,
    ) -> (resp: Self::ServerResp2)
        ensures
            Self::responded(*privkey, *state, *client_resp, resp),
    ;

    /// The user's second move: unblinds the signer's response, and hands the
    /// signature out if and only if the response is accepted; what is
    /// handed out verifies.
    fn user2(
        pubkey: &Self::Pubkey,
        state: &Self::ClientState,
        m: &[u8],
        server_resp2: &Self::ServerResp2,
    ) -> (sig: Option<Self::Signature>)
        ensures
            sig is Some <==> Self::accepted(*pubkey, *state, m@, *server_resp2),
            sig matches Some(signature) ==> {
                &&& Self::unblinded(*state, *server_resp2, signature)
                &&& Self::valid(*pubkey, m@, signature)
            },
    ;
}

} // verus!
