//! The blind signature scheme of Abe.
//!
//! `x` is the private key, `y = xG` the public key and `z` the tag key; `G`
//! and `H` are two generators of the group; `H1` and `H2` are hashes onto
//! the group and `H3` is a hash onto the scalars.
//!
//! ```text
//!   Signer(x, z)                            User(y, z, m)
//!   rnd <- random
//!   z1 := H2(rnd), z2 := z - z1
//!   u, s1, s2, d <- random
//!   a  := uG
//!   b1 := s1 G + d z1
//!   b2 := s2 H + d z2
//!                     rnd, a, b1, b2
//!                    --------------->
//!                                           z1 := H2(rnd)
//!                                           gamma <- random, not zero
//!                                           zeta  := gamma z
//!                                           zeta1 := gamma z1
//!                                           zeta2 := zeta - zeta1
//!                                           t1, ..., t5, tau <- random
//!                                           alpha := a + t1 G + t2 y
//!                                           beta1 := gamma b1 + t3 G + t4 zeta1
//!                                           beta2 := gamma b2 + t5 H + t4 zeta2
//!                                           eta   := tau z
//!                                           eps   := H3(zeta, zeta1, alpha,
//!                                                       beta1, beta2, eta, m)
//!                                           e     := eps - t2 - t4
//!                            e
//!                    <---------------
//!   c := e - d
//!   r := u - c x
//!                    r, c, s1, s2, d
//!                    --------------->
//!                                           rho    := r + t1
//!                                           omega  := c + t2
//!                                           sigma1 := gamma s1 + t3
//!                                           sigma2 := gamma s2 + t5
//!                                           delta  := d + t4
//!                                           mu     := tau - delta gamma
//!                                           abort unless the signature
//!                                           verifies
//! ```
//!
//! A signature `(zeta, zeta1, rho, omega, sigma1, sigma2, delta, mu)` on `m`
//! verifies when
//! `omega + delta = H3(zeta, zeta1, rho G + omega y, sigma1 G + delta zeta1,
//! sigma2 H + delta (zeta - zeta1), mu z + delta zeta, m)`.

use crate::common::{
    append_bytes, block, block_of, hash_point, hash_scalar, hash_to_group, hash_to_scalar,
    is_point, is_scalar, le_value, lemma_scalar_add, lemma_scalar_mul, lemma_scalar_sub,
    point_in_block, random_bytes, ristretto_add, ristretto_base_mul, ristretto_mul,
    ristretto_sub, scalar_add, scalar_in_block, scalar_mul, scalar_sub, FourMoveBlindSig,
    GroupElem, InvalidEncoding, Scalar, WireMessage,
};
use crate::group::{
    base_point, group_laws, lemma_base_mul, lemma_closed, lemma_combination_scales,
    lemma_combination_splits, lemma_mul_composes, lemma_mul_distributes_over_sub,
    lemma_mul_restores,
};
use rand::{CryptoRng, RngCore};
use vstd::prelude::*;

verus! {

/// The label that the second generator is hashed from:
/// `Abe Blind Sig Alt Basepoint`, in ASCII.
pub const ALT_GENERATOR_LABEL: [u8; 27] = [
    65, 98, 101, 32, 66, 108, 105, 110, 100, 32, 83, 105, 103, 32, 65, 108, 116, 32, 66, 97, 115,
    101, 112, 111, 105, 110, 116,
];

/// The tag of the oracle `H1`: `Abe Blind Sig Oracle 1`, in ASCII.
pub const ORACLE_1_TAG: [u8; 22] = [
    65, 98, 101, 32, 66, 108, 105, 110, 100, 32, 83, 105, 103, 32, 79, 114, 97, 99, 108, 101, 32,
    49,
];

/// The tag of the oracle `H2`: `Abe Blind Sig Oracle 2`, in ASCII.
pub const ORACLE_2_TAG: [u8; 22] = [
    65, 98, 101, 32, 66, 108, 105, 110, 100, 32, 83, 105, 103, 32, 79, 114, 97, 99, 108, 101, 32,
    50,
];

/// The tag of the oracle `H3`: `Abe Blind Sig Oracle 3`, in ASCII.
pub const ORACLE_3_TAG: [u8; 22] = [
    65, 98, 101, 32, 66, 108, 105, 110, 100, 32, 83, 105, 103, 32, 79, 114, 97, 99, 108, 101, 32,
    51,
];

/// How often a move draws again for a value that must not be degenerate.
pub const MAX_DRAWS: u64 = 0xffff_ffff_ffff_ffff;

/// The public key: `y`, and the tag key `z`.
#[derive(Clone, Copy, Debug, PartialEq, Eq)]
pub struct Pubkey {
    pub y: GroupElem,
    pub z: GroupElem,
}

/// The private key `x`.
#[derive(Clone, Copy, Debug, PartialEq, Eq)]
pub struct Privkey(pub Scalar);

/// The signer's secrets of one session.
#[derive(Clone, Copy, Debug, PartialEq, Eq)]
pub struct ServerState {
    pub u: Scalar,
    pub s1: Scalar,
    pub s2: Scalar,
    pub d: Scalar,
}

/// The signer's first message.
#[derive(Clone, Copy, Debug, PartialEq, Eq)]
pub struct ServerResp1 {
    pub rnd: [u8; 32],
    pub a: GroupElem,
    pub b1: GroupElem,
    pub b2: GroupElem,
}

/// What the user keeps between its two moves.
#[derive(Clone, Copy, Debug, PartialEq, Eq)]
pub struct ClientState {
    pub zeta: GroupElem,
    pub zeta1: GroupElem,
    pub gamma: Scalar,
    pub tau: Scalar,
    pub t1: Scalar,
    pub t2: Scalar,
    pub t3: Scalar,
    pub t4: Scalar,
    pub t5: Scalar,
}

/// The user's message: the blinded challenge `e`.
#[derive(Clone, Copy, Debug, PartialEq, Eq)]
pub struct ClientResp(pub Scalar);

/// The signer's second message.
#[derive(Clone, Copy, Debug, PartialEq, Eq)]
pub struct ServerResp2 {
    pub r: Scalar,
    pub c: Scalar,
    pub s1: Scalar,
    pub s2: Scalar,
    pub d: Scalar,
}

/// A signature.
#[derive(Clone, Copy, Debug, PartialEq, Eq)]
pub struct Signature {
    pub zeta: GroupElem,
    pub zeta1: GroupElem,
    pub rho: Scalar,
    pub omega: Scalar,
    pub sigma1: Scalar,
    pub sigma2: Scalar,
    pub delta: Scalar,
    pub mu: Scalar,
}

impl WireMessage for Pubkey {
    open spec fn encoding(&self) -> Seq<u8> {
        self.y@ + self.z@
    }

    open spec fn decodable(bytes: Seq<u8>) -> bool {
        &&& bytes.len() == 64
        &&& is_point(block(bytes, 0))
        &&& is_point(block(bytes, 1))
    }

    fn to_bytes(&self) -> (bytes: Vec<u8>) {
        let mut bytes: Vec<u8> = Vec::new();
        append_bytes(&mut bytes, &self.y.to_bytes());
        append_bytes(&mut bytes, &self.z.to_bytes());
        proof {
            use_type_invariant(&self.y);
            use_type_invariant(&self.z);
            assert(block(bytes@, 0) == self.y@);
            assert(block(bytes@, 1) == self.z@);
        }
        bytes
    }

    fn from_bytes(bytes: &[u8]) -> (decoded: Result<Self, InvalidEncoding>) {
        if bytes.len() != 64 {
            return Err(InvalidEncoding);
        }
        assert(bytes@ == block(bytes@, 0) + block(bytes@, 1));
        let y = match point_in_block(bytes, 0) {
            Ok(y) => y,
            Err(e) => { return Err(e); },
        };
        let z = match point_in_block(bytes, 1) {
            Ok(z) => z,
            Err(e) => { return Err(e); },
        };
        Ok(Pubkey { y, z })
    }
}

impl WireMessage for ServerResp1 {
    open spec fn encoding(&self) -> Seq<u8> {
        self.rnd@ + self.a@ + self.b1@ + self.b2@
    }

    open spec fn decodable(bytes: Seq<u8>) -> bool {
        &&& bytes.len() == 128
        &&& is_point(block(bytes, 1))
        &&& is_point(block(bytes, 2))
        &&& is_point(block(bytes, 3))
    }

    fn to_bytes(&self) -> (bytes: Vec<u8>) {
        let mut bytes: Vec<u8> = Vec::new();
        append_bytes(&mut bytes, &self.rnd);
        append_bytes(&mut bytes, &self.a.to_bytes());
        append_bytes(&mut bytes, &self.b1.to_bytes());
        append_bytes(&mut bytes, &self.b2.to_bytes());
        proof {
            use_type_invariant(&self.a);
            use_type_invariant(&self.b1);
            use_type_invariant(&self.b2);
            assert(block(bytes@, 0) == self.rnd@);
            assert(block(bytes@, 1) == self.a@);
            assert(block(bytes@, 2) == self.b1@);
            assert(block(bytes@, 3) == self.b2@);
        }
        bytes
    }

    fn from_bytes(bytes: &[u8]) -> (decoded: Result<Self, InvalidEncoding>) {
        if bytes.len() != 128 {
            return Err(InvalidEncoding);
        }
        assert(bytes@ == block(bytes@, 0) + block(bytes@, 1) + block(bytes@, 2) + block(bytes@, 3));
        let rnd = block_of(bytes, 0);
        let a = match point_in_block(bytes, 1) {
            Ok(a) => a,
            Err(e) => { return Err(e); },
        };
        let b1 = match point_in_block(bytes, 2) {
            Ok(b1) => b1,
            Err(e) => { return Err(e); },
        };
        let b2 = match point_in_block(bytes, 3) {
            Ok(b2) => b2,
            Err(e) => { return Err(e); },
        };
        Ok(ServerResp1 { rnd, a, b1, b2 })
    }
}

impl WireMessage for ClientResp {
    open spec fn encoding(&self) -> Seq<u8> {
        self.0.encoding()
    }

    open spec fn decodable(bytes: Seq<u8>) -> bool {
        bytes.len() == 32 && is_scalar(le_value(block(bytes, 0)))
    }

    fn to_bytes(&self) -> (bytes: Vec<u8>) {
        let mut bytes: Vec<u8> = Vec::new();
        append_bytes(&mut bytes, &self.0.to_bytes());
        proof {
            use_type_invariant(&self.0);
            assert(block(bytes@, 0) == self.0.encoding());
        }
        bytes
    }

    fn from_bytes(bytes: &[u8]) -> (decoded: Result<Self, InvalidEncoding>) {
        if bytes.len() != 32 {
            return Err(InvalidEncoding);
        }
        assert(bytes@ == block(bytes@, 0));
        let e = match scalar_in_block(bytes, 0) {
            Ok(e) => e,
            Err(e) => { return Err(e); },
        };
        Ok(ClientResp(e))
    }
}

impl WireMessage for ServerResp2 {
    open spec fn encoding(&self) -> Seq<u8> {
        self.r.encoding() + self.c.encoding() + self.s1.encoding() + self.s2.encoding()
            + self.d.encoding()
    }

    open spec fn decodable(bytes: Seq<u8>) -> bool {
        &&& bytes.len() == 160
        &&& is_scalar(le_value(block(bytes, 0)))
        &&& is_scalar(le_value(block(bytes, 1)))
        &&& is_scalar(le_value(block(bytes, 2)))
        &&& is_scalar(le_value(block(bytes, 3)))
        &&& is_scalar(le_value(block(bytes, 4)))
    }

    fn to_bytes(&self) -> (bytes: Vec<u8>) {
        let mut bytes: Vec<u8> = Vec::new();
        append_bytes(&mut bytes, &self.r.to_bytes());
        append_bytes(&mut bytes, &self.c.to_bytes());
        append_bytes(&mut bytes, &self.s1.to_bytes());
        append_bytes(&mut bytes, &self.s2.to_bytes());
        append_bytes(&mut bytes, &self.d.to_bytes());
        proof {
            use_type_invariant(&self.r);
            use_type_invariant(&self.c);
            use_type_invariant(&self.s1);
            use_type_invariant(&self.s2);
            use_type_invariant(&self.d);
            assert(block(bytes@, 0) == self.r.encoding());
            assert(block(bytes@, 1) == self.c.encoding());
            assert(block(bytes@, 2) == self.s1.encoding());
            assert(block(bytes@, 3) == self.s2.encoding());
            assert(block(bytes@, 4) == self.d.encoding());
        }
        bytes
    }

    fn from_bytes(bytes: &[u8]) -> (decoded: Result<Self, InvalidEncoding>) {
        if bytes.len() != 160 {
            return Err(InvalidEncoding);
        }
        assert(
            bytes@ == block(bytes@, 0) + block(bytes@, 1) + block(bytes@, 2) + block(bytes@, 3)
                + block(bytes@, 4)
        );
        let r = match scalar_in_block(bytes, 0) {
            Ok(r) => r,
            Err(e) => { return Err(e); },
        };
        let c = match scalar_in_block(bytes, 1) {
            Ok(c) => c,
            Err(e) => { return Err(e); },
        };
        let s1 = match scalar_in_block(bytes, 2) {
            Ok(s1) => s1,
            Err(e) => { return Err(e); },
        };
        let s2 = match scalar_in_block(bytes, 3) {
            Ok(s2) => s2,
            Err(e) => { return Err(e); },
        };
        let d = match scalar_in_block(bytes, 4) {
            Ok(d) => d,
            Err(e) => { return Err(e); },
        };
        Ok(ServerResp2 { r, c, s1, s2, d })
    }
}

impl WireMessage for Signature {
    open spec fn encoding(&self) -> Seq<u8> {
        self.zeta@ + self.zeta1@ + self.rho.encoding() + self.omega.encoding()
            + self.sigma1.encoding() + self.sigma2.encoding() + self.delta.encoding()
            + self.mu.encoding()
    }

    open spec fn decodable(bytes: Seq<u8>) -> bool {
        &&& bytes.len() == 256
        &&& is_point(block(bytes, 0))
        &&& is_point(block(bytes, 1))
        &&& is_scalar(le_value(block(bytes, 2)))
        &&& is_scalar(le_value(block(bytes, 3)))
        &&& is_scalar(le_value(block(bytes, 4)))
        &&& is_scalar(le_value(block(bytes, 5)))
        &&& is_scalar(le_value(block(bytes, 6)))
        &&& is_scalar(le_value(block(bytes, 7)))
    }

    fn to_bytes(&self) -> (bytes: Vec<u8>) {
        let mut bytes: Vec<u8> = Vec::new();
        append_bytes(&mut bytes, &self.zeta.to_bytes());
        append_bytes(&mut bytes, &self.zeta1.to_bytes());
        append_bytes(&mut bytes, &self.rho.to_bytes());
        append_bytes(&mut bytes, &self.omega.to_bytes());
        append_bytes(&mut bytes, &self.sigma1.to_bytes());
        append_bytes(&mut bytes, &self.sigma2.to_bytes());
        append_bytes(&mut bytes, &self.delta.to_bytes());
        append_bytes(&mut bytes, &self.mu.to_bytes());
        proof {
            use_type_invariant(&self.zeta);
            use_type_invariant(&self.zeta1);
            use_type_invariant(&self.rho);
            use_type_invariant(&self.omega);
            use_type_invariant(&self.sigma1);
            use_type_invariant(&self.sigma2);
            use_type_invariant(&self.delta);
            use_type_invariant(&self.mu);
            assert(block(bytes@, 0) == self.zeta@);
            assert(block(bytes@, 1) == self.zeta1@);
            assert(block(bytes@, 2) == self.rho.encoding());
            assert(block(bytes@, 3) == self.omega.encoding());
            assert(block(bytes@, 4) == self.sigma1.encoding());
            assert(block(bytes@, 5) == self.sigma2.encoding());
            assert(block(bytes@, 6) == self.delta.encoding());
            assert(block(bytes@, 7) == self.mu.encoding());
        }
        bytes
    }

    fn from_bytes(bytes: &[u8]) -> (decoded: Result<Self, InvalidEncoding>) {
        if bytes.len() != 256 {
            return Err(InvalidEncoding);
        }
        assert(
            bytes@ == block(bytes@, 0) + block(bytes@, 1) + block(bytes@, 2) + block(bytes@, 3)
                + block(bytes@, 4) + block(bytes@, 5) + block(bytes@, 6) + block(bytes@, 7)
        );
        let zeta = match point_in_block(bytes, 0) {
            Ok(zeta) => zeta,
            Err(e) => { return Err(e); },
        };
        let zeta1 = match point_in_block(bytes, 1) {
            Ok(zeta1) => zeta1,
            Err(e) => { return Err(e); },
        };
        let rho = match scalar_in_block(bytes, 2) {
            Ok(rho) => rho,
            Err(e) => { return Err(e); },
        };
        let omega = match scalar_in_block(bytes, 3) {
            Ok(omega) => omega,
            Err(e) => { return Err(e); },
        };
        let sigma1 = match scalar_in_block(bytes, 4) {
            Ok(sigma1) => sigma1,
            Err(e) => { return Err(e); },
        };
        let sigma2 = match scalar_in_block(bytes, 5) {
            Ok(sigma2) => sigma2,
            Err(e) => { return Err(e); },
        };
        let delta = match scalar_in_block(bytes, 6) {
            Ok(delta) => delta,
            Err(e) => { return Err(e); },
        };
        let mu = match scalar_in_block(bytes, 7) {
            Ok(mu) => mu,
            Err(e) => { return Err(e); },
        };
        Ok(Signature { zeta, zeta1, rho, omega, sigma1, sigma2, delta, mu })
    }
}

/// The second generator `H`: the group oracle without a tag, on the label.
pub open spec fn alt_generator() -> Seq<u8> {
    hash_point(Seq::<u8>::empty(), ALT_GENERATOR_LABEL@)
}

/// The tag key `z = H1(H, y)` of the public key `y`.
pub open spec fn tag_key(y: Seq<u8>) -> Seq<u8> {
    hash_point(ORACLE_1_TAG@, alt_generator() + y)
}

/// The session's share `z1 = H2(rnd)` of the tag key.
pub open spec fn tag_share(rnd: Seq<u8>) -> Seq<u8> {
    hash_point(ORACLE_2_TAG@, rnd)
}

/// The challenge `H3(zeta, zeta1, alpha, beta1, beta2, eta, m)`: the scalar
/// oracle on the six encodings, in this order, followed by the message.
pub open spec fn challenge(
    zeta: Seq<u8>,
    zeta1: Seq<u8>,
    alpha: Seq<u8>,
    beta1: Seq<u8>,
    beta2: Seq<u8>,
    eta: Seq<u8>,
    m: Seq<u8>,
) -> nat {
    hash_scalar(ORACLE_3_TAG@, zeta + zeta1 + alpha + beta1 + beta2 + eta + m)
}

/// `k G + j p`.
pub open spec fn base_combination(k: nat, j: nat, p: Seq<u8>) -> Seq<u8> {
    ristretto_add(ristretto_base_mul(k), ristretto_mul(j, p))
}

/// `k p + j q`.
pub open spec fn combination(k: nat, p: Seq<u8>, j: nat, q: Seq<u8>) -> Seq<u8> {
    ristretto_add(ristretto_mul(k, p), ristretto_mul(j, q))
}

/// What a signature stands for: the encodings of its two group elements
/// and the values of its six scalars.
pub ghost struct SignatureValue {
    pub zeta: Seq<u8>,
    pub zeta1: Seq<u8>,
    pub rho: nat,
    pub omega: nat,
    pub sigma1: nat,
    pub sigma2: nat,
    pub delta: nat,
    pub mu: nat,
}

impl View for Signature {
    type V = SignatureValue;

    open spec fn view(&self) -> SignatureValue {
        SignatureValue {
            zeta: self.zeta@,
            zeta1: self.zeta1@,
            rho: self.rho@,
            omega: self.omega@,
            sigma1: self.sigma1@,
            sigma2: self.sigma2@,
            delta: self.delta@,
            mu: self.mu@,
        }
    }
}

/// Whether the signature verifies: with `zeta2 = zeta - zeta1`, whether
/// `omega + delta` is the challenge of `zeta`, `zeta1`, `rho G + omega y`,
/// `sigma1 G + delta zeta1`, `sigma2 H + delta zeta2`, `mu z + delta zeta`
/// and `m`.
pub open spec fn verifies(pubkey: Pubkey, m: Seq<u8>, sig: SignatureValue) -> bool {
    let zeta2 = ristretto_sub(sig.zeta, sig.zeta1);
    let alpha = base_combination(sig.rho, sig.omega, pubkey.y@);
    let beta1 = base_combination(sig.sigma1, sig.delta, sig.zeta1);
    let beta2 = combination(sig.sigma2, alt_generator(), sig.delta, zeta2);
    let eta = combination(sig.mu, pubkey.z@, sig.delta, sig.zeta);
    challenge(sig.zeta, sig.zeta1, alpha, beta1, beta2, eta, m) == scalar_add(sig.omega, sig.delta)
}

/// What the user makes of the signer's response: `zeta` and `zeta1`, and
/// `rho = r + t1`, `omega = c + t2`, `sigma1 = gamma s1 + t3`,
/// `sigma2 = gamma s2 + t5`, `delta = d + t4` and `mu = tau - delta gamma`.
pub open spec fn unblinding(state: ClientState, server_resp2: ServerResp2) -> SignatureValue {
    let delta = scalar_add(server_resp2.d@, state.t4@);
    SignatureValue {
        zeta: state.zeta@,
        zeta1: state.zeta1@,
        rho: scalar_add(server_resp2.r@, state.t1@),
        omega: scalar_add(server_resp2.c@, state.t2@),
        sigma1: scalar_add(scalar_mul(state.gamma@, server_resp2.s1@), state.t3@),
        sigma2: scalar_add(scalar_mul(state.gamma@, server_resp2.s2@), state.t5@),
        delta,
        mu: scalar_sub(state.tau@, scalar_mul(delta, state.gamma@)),
    }
}

/// The signer's commitments: `a = uG`, `b1 = s1 G + d z1` and
/// `b2 = s2 H + d z2`, with `z1 = H2(rnd)` and `z2 = z - z1`.
pub open spec fn commits(pubkey: Pubkey, state: ServerState, resp: ServerResp1) -> bool {
    let z1 = tag_share(resp.rnd@);
    let z2 = ristretto_sub(pubkey.z@, z1);
    &&& resp.a@ == ristretto_base_mul(state.u@)
    &&& resp.b1@ == base_combination(state.s1@, state.d@, z1)
    &&& resp.b2@ == combination(state.s2@, alt_generator(), state.d@, z2)
}

/// The challenge `eps` that the user derives: that of `zeta`, `zeta1`,
/// `alpha = a + t1 G + t2 y`, `beta1 = gamma b1 + t3 G + t4 zeta1`,
/// `beta2 = gamma b2 + t5 H + t4 zeta2`, `eta = tau z` and `m`, with
/// `zeta2 = zeta - zeta1`.
pub open spec fn user_challenge(
    pubkey: Pubkey,
    m: Seq<u8>,
    server_resp1: ServerResp1,
    state: ClientState,
) -> nat {
    let zeta2 = ristretto_sub(state.zeta@, state.zeta1@);
    let alpha = ristretto_add(
        ristretto_add(server_resp1.a@, ristretto_base_mul(state.t1@)),
        ristretto_mul(state.t2@, pubkey.y@),
    );
    let beta1 = ristretto_add(
        ristretto_add(ristretto_mul(state.gamma@, server_resp1.b1@), ristretto_base_mul(state.t3@)),
        ristretto_mul(state.t4@, state.zeta1@),
    );
    let beta2 = ristretto_add(
        ristretto_add(
            ristretto_mul(state.gamma@, server_resp1.b2@),
            ristretto_mul(state.t5@, alt_generator()),
        ),
        ristretto_mul(state.t4@, zeta2),
    );
    let eta = ristretto_mul(state.tau@, pubkey.z@);
    challenge(state.zeta@, state.zeta1@, alpha, beta1, beta2, eta, m)
}

/// The second generator `H`.
pub fn alt_generator_point() -> (h: GroupElem)
    ensures
        h@ == alt_generator(),
{
    let no_tag: [u8; 0] = [];
    assert(no_tag@ == Seq::<u8>::empty());
    hash_to_group(&no_tag, &ALT_GENERATOR_LABEL)
}

/// Computes the tag key `z = H1(H, y)`.
fn tag_key_of(h: &GroupElem, y: &GroupElem) -> (z: GroupElem)
    requires
        h@ == alt_generator(),
    ensures
        z@ == tag_key(y@),
{
    let mut input: Vec<u8> = Vec::new();
    append_bytes(&mut input, &h.to_bytes());
    append_bytes(&mut input, &y.to_bytes());
    assert(input@ == h@ + y@);
    hash_to_group(&ORACLE_1_TAG, input.as_slice())
}

/// Computes the share `z1 = H2(rnd)` of the tag key.
fn tag_share_of(rnd: &[u8; 32]) -> (z1: GroupElem)
    ensures
        z1@ == tag_share(rnd@),
{
    hash_to_group(&ORACLE_2_TAG, rnd)
}

/// Computes the challenge `H3(zeta, zeta1, alpha, beta1, beta2, eta, m)`.
fn challenge_of(
    zeta: &GroupElem,
    zeta1: &GroupElem,
    alpha: &GroupElem,
    beta1: &GroupElem,
    beta2: &GroupElem,
    eta: &GroupElem,
    m: &[u8],
) -> (epsilon: Scalar)
    ensures
        epsilon@ == challenge(zeta@, zeta1@, alpha@, beta1@, beta2@, eta@, m@),
{
    let mut transcript: Vec<u8> = Vec::new();
    append_bytes(&mut transcript, &zeta.to_bytes());
    append_bytes(&mut transcript, &zeta1.to_bytes());
    append_bytes(&mut transcript, &alpha.to_bytes());
    append_bytes(&mut transcript, &beta1.to_bytes());
    append_bytes(&mut transcript, &beta2.to_bytes());
    append_bytes(&mut transcript, &eta.to_bytes());
    append_bytes(&mut transcript, m);
    assert(transcript@ == zeta@ + zeta1@ + alpha@ + beta1@ + beta2@ + eta@ + m@);
    hash_to_scalar(&ORACLE_3_TAG, transcript.as_slice())
}

/// Draws a scalar that is not zero: draws again while the draw is zero, and
/// takes one after `MAX_DRAWS` zeros in a row.
fn random_unit<R: RngCore + CryptoRng>(rng: &mut R) -> (gamma: Scalar)
    ensures
        gamma@ != 0,
{
    let mut gamma = Scalar::random(rng);
    let mut draws_left: u64 = MAX_DRAWS;
    while gamma.is_zero() && draws_left > 0
        decreases draws_left,
    {
        gamma = Scalar::random(rng);
        draws_left -= 1;
    }
    if gamma.is_zero() {
        Scalar::one()
    } else {
        gamma
    }
}

/// The blind signature scheme of Abe. A signer may serve any number of its
/// sessions at a time.
pub struct Abe;

impl Abe {
    /// The key pair of the private key `x`.
    pub fn key_pair_of(x: Scalar) -> (keys: (Privkey, Pubkey))
        ensures
            keys.0.0 == x,
            Self::key_pair(keys.0, keys.1),
    {
        let h = alt_generator_point();
        let y = GroupElem::base_mul(&x);
        let z = tag_key_of(&h, &y);
        proof {
            use_type_invariant(&x);
            use_type_invariant(&y);
            use_type_invariant(&z);
        }
        (Privkey(x), Pubkey { y, z })
    }

    /// The signer's first move with the nonce `rnd` and the secrets `u`,
    /// `s1`, `s2` and `d`.
    pub fn commit(
        pubkey: &Pubkey,
        rnd: [u8; 32],
        u: Scalar,
        s1: Scalar,
        s2: Scalar,
        d: Scalar,
    ) -> (out: (ServerState, ServerResp1))
        ensures
            out.0 == (ServerState { u, s1, s2, d }),
            out.1.rnd == rnd,
            Self::committed(*pubkey, out.0, out.1),
    {
        let h = alt_generator_point();
        let z1 = tag_share_of(&rnd);
        let z2 = pubkey.z.sub(&z1);
        let a = GroupElem::base_mul(&u);
        let b1 = GroupElem::base_mul(&s1).add(&z1.mul(&d));
        let b2 = h.mul(&s2).add(&z2.mul(&d));
        proof {
            use_type_invariant(&h);
            use_type_invariant(&z1);
            use_type_invariant(&u);
            use_type_invariant(&s1);
            use_type_invariant(&s2);
            use_type_invariant(&d);
            use_type_invariant(&a);
            use_type_invariant(&b1);
            use_type_invariant(&b2);
        }
        (ServerState { u, s1, s2, d }, ServerResp1 { rnd, a, b1, b2 })
    }

    /// The user's first move with the blinding factors `gamma`, which is
    /// not zero, `tau` and `t1` to `t5`.
    pub fn blind(
        pubkey: &Pubkey,
        m: &[u8],
        server_resp1: &ServerResp1,
        gamma: Scalar,
        tau: Scalar,
        t: [Scalar; 5],
    ) -> (out: (ClientState, ClientResp))
        requires
            gamma@ != 0,
        ensures
            out.0.gamma == gamma,
            out.0.tau == tau,
            out.0.t1 == t[0],
            out.0.t2 == t[1],
            out.0.t3 == t[2],
            out.0.t4 == t[3],
            out.0.t5 == t[4],
            Self::blinded(*pubkey, m@, *server_resp1, out.0, out.1),
    {
        let (t1, t2, t3, t4, t5) = (t[0], t[1], t[2], t[3], t[4]);
        let h = alt_generator_point();
        let z1 = tag_share_of(&server_resp1.rnd);
        let zeta = pubkey.z.mul(&gamma);
        let zeta1 = z1.mul(&gamma);
        let zeta2 = zeta.sub(&zeta1);
        let alpha = server_resp1.a.add(&GroupElem::base_mul(&t1)).add(&pubkey.y.mul(&t2));
        let beta1 = server_resp1.b1.mul(&gamma).add(&GroupElem::base_mul(&t3)).add(
            &zeta1.mul(&t4),
        );
        let beta2 = server_resp1.b2.mul(&gamma).add(&h.mul(&t5)).add(&zeta2.mul(&t4));
        let eta = pubkey.z.mul(&tau);
        let epsilon = challenge_of(&zeta, &zeta1, &alpha, &beta1, &beta2, &eta, m);
        let e = epsilon.sub(&t2).sub(&t4);
        proof {
            use_type_invariant(&zeta);
            use_type_invariant(&zeta1);
            use_type_invariant(&gamma);
            use_type_invariant(&tau);
            use_type_invariant(&t1);
            use_type_invariant(&t2);
            use_type_invariant(&t3);
            use_type_invariant(&t4);
            use_type_invariant(&t5);
            use_type_invariant(&e);
        }
        (ClientState { zeta, zeta1, gamma, tau, t1, t2, t3, t4, t5 }, ClientResp(e))
    }
}

impl FourMoveBlindSig for Abe {
    const MAX_PARALLEL_SESSIONS: usize = usize::MAX;

    type Privkey = Privkey;

    type Pubkey = Pubkey;

    type ServerState = ServerState;

    type ClientState = ClientState;

    type ClientResp = ClientResp;

    type ServerResp1 = ServerResp1;

    type ServerResp2 = ServerResp2;

    type Signature = Signature;

    open spec fn session_limit() -> nat {
        usize::MAX as nat
    }

    proof fn lemma_session_limit() {
    }

    /// `y = xG` and `z = H1(H, y)`.
    open spec fn key_pair(privkey: Privkey, pubkey: Pubkey) -> bool {
        &&& privkey.0.wf()
        &&& pubkey.y.wf()
        &&& pubkey.z.wf()
        &&& pubkey.y@ == ristretto_base_mul(privkey.0@)
        &&& pubkey.z@ == tag_key(pubkey.y@)
    }

    open spec fn valid(pubkey: Pubkey, m: Seq<u8>, sig: Signature) -> bool {
        verifies(pubkey, m, sig@)
    }

    open spec fn committed(pubkey: Pubkey, state: ServerState, resp: ServerResp1) -> bool {
        &&& state.u.wf()
        &&& state.s1.wf()
        &&& state.s2.wf()
        &&& state.d.wf()
        &&& resp.a.wf()
        &&& resp.b1.wf()
        &&& resp.b2.wf()
        &&& is_point(alt_generator())
        &&& is_point(tag_share(resp.rnd@))
        &&& commits(pubkey, state, resp)
    }

    /// `gamma` is not zero, `zeta = gamma z`, `zeta1 = gamma z1` with
    /// `z1 = H2(rnd)`, and `e = eps - t2 - t4` for the challenge `eps`.
    open spec fn blinded(
        pubkey: Pubkey,
        m: Seq<u8>,
        server_resp1: ServerResp1,
        state: ClientState,
        resp: ClientResp,
    ) -> bool {
        &&& state.zeta.wf()
        &&& state.zeta1.wf()
        &&& state.gamma.wf()
        &&& state.tau.wf()
        &&& state.t1.wf()
        &&& state.t2.wf()
        &&& state.t3.wf()
        &&& state.t4.wf()
        &&& state.t5.wf()
        &&& resp.0.wf()
        &&& state.gamma@ != 0
        &&& state.zeta@ == ristretto_mul(state.gamma@, pubkey.z@)
        &&& state.zeta1@ == ristretto_mul(state.gamma@, tag_share(server_resp1.rnd@))
        &&& resp.0@ == scalar_sub(
            scalar_sub(user_challenge(pubkey, m, server_resp1, state), state.t2@),
            state.t4@,
        )
    }

    /// `c = e - d` and `r = u - c x`; `s1`, `s2` and `d` are sent as they
    /// are.
    open spec fn responded(
        privkey: Privkey,
        state: ServerState,
        client_resp: ClientResp,
        resp: ServerResp2,
    ) -> bool {
        &&& resp.r.wf()
        &&& resp.c.wf()
        &&& resp.c@ == scalar_sub(client_resp.0@, state.d@)
        &&& resp.r@ == scalar_sub(state.u@, scalar_mul(resp.c@, privkey.0@))
        &&& resp.s1@ == state.s1@
        &&& resp.s2@ == state.s2@
        &&& resp.d@ == state.d@
    }

    /// The signature is the unblinding of the signer's response.
    open spec fn unblinded(state: ClientState, server_resp2: ServerResp2, sig: Signature) -> bool {
        sig@ == unblinding(state, server_resp2)
    }

    /// The unblinding of the signer's response verifies.
    open spec fn accepted(
        pubkey: Pubkey,
        state: ClientState,
        m: Seq<u8>,
        server_resp2: ServerResp2,
    ) -> bool {
        verifies(pubkey, m, unblinding(state, server_resp2))
    }

    fn keygen<R: RngCore + CryptoRng>(rng: &mut R) -> (keys: (Privkey, Pubkey)) {
        let mut keys = Self::key_pair_of(Scalar::random(rng));
        let mut draws_left: u64 = MAX_DRAWS;
        while keys.1.z.is_identity() && draws_left > 0
            invariant
                Self::key_pair(keys.0, keys.1),
            decreases draws_left,
        {
            keys = Self::key_pair_of(Scalar::random(rng));
            draws_left -= 1;
        }
        keys
    }

    fn verify(pubkey: &Pubkey, m: &[u8], sig: &Signature) -> (ok: bool) {
        let h = alt_generator_point();
        let zeta2 = sig.zeta.sub(&sig.zeta1);
        let alpha = GroupElem::base_mul(&sig.rho).add(&pubkey.y.mul(&sig.omega));
        let beta1 = GroupElem::base_mul(&sig.sigma1).add(&sig.zeta1.mul(&sig.delta));
        let beta2 = h.mul(&sig.sigma2).add(&zeta2.mul(&sig.delta));
        let eta = pubkey.z.mul(&sig.mu).add(&sig.zeta.mul(&sig.delta));
        let epsilon = challenge_of(&sig.zeta, &sig.zeta1, &alpha, &beta1, &beta2, &eta, m);
        epsilon.equals(&sig.omega.add(&sig.delta))
    }

    fn sign1<R: RngCore + CryptoRng>(rng: &mut R, pubkey: &Pubkey) -> (out: (
        ServerState,
        ServerResp1,
    )) {
        let rnd = random_bytes(rng);
        let u = Scalar::random(rng);
        let s1 = Scalar::random(rng);
        let s2 = Scalar::random(rng);
        let d = Scalar::random(rng);
        Self::commit(pubkey, rnd, u, s1, s2, d)
    }

    fn user1<R: RngCore + CryptoRng>(
        rng: &mut R,
        pubkey: &Pubkey,
        m: &[u8],
        server_resp1: &ServerResp1,
    ) -> (out: (ClientState, ClientResp)) {
        let gamma = random_unit(rng);
        let t1 = Scalar::random(rng);
        let t2 = Scalar::random(rng);
        let t3 = Scalar::random(rng);
        let t4 = Scalar::random(rng);
        let t5 = Scalar::random(rng);
        let tau = Scalar::random(rng);
        Self::blind(pubkey, m, server_resp1, gamma, tau, [t1, t2, t3, t4, t5])
    }

    fn sign2(privkey: &Privkey, state: &ServerState, client_resp: &ClientResp) -> (resp:
        ServerResp2) {
        let c = client_resp.0.sub(&state.d);
        let r = state.u.sub(&c.mul(&privkey.0));
        proof {
            use_type_invariant(&c);
            use_type_invariant(&r);
        }
        ServerResp2 { r, c, s1: state.s1, s2: state.s2, d: state.d }
    }

    fn user2(pubkey: &Pubkey, state: &ClientState, m: &[u8], server_resp2: &ServerResp2) -> (sig:
        Option<Signature>) {
        let rho = server_resp2.r.add(&state.t1);
        let omega = server_resp2.c.add(&state.t2);
        let sigma1 = state.gamma.mul(&server_resp2.s1).add(&state.t3);
        let sigma2 = state.gamma.mul(&server_resp2.s2).add(&state.t5);
        let delta = server_resp2.d.add(&state.t4);
        let mu = state.tau.sub(&delta.mul(&state.gamma));
        let candidate = Signature {
            zeta: state.zeta,
            zeta1: state.zeta1,
            rho,
            omega,
            sigma1,
            sigma2,
            delta,
            mu,
        };
        if Self::verify(pubkey, m, &candidate) {
            Some(candidate)
        } else {
            None
        }
    }
}

/// The unblinded signature restores the challenge: where the user's
/// challenge `e` is made of `eps` and the signer's `c` of `e`, the parts
/// `omega` and `delta` of the signature that the user unblinds add up to
/// `eps`.
pub proof fn lemma_unblinding_restores_challenge(
    epsilon: nat,
    server_state: ServerState,
    client_state: ClientState,
    client_resp: ClientResp,
    server_resp2: ServerResp2,
)
    requires
        is_scalar(epsilon),
        server_state.d.wf(),
        client_state.t2.wf(),
        client_state.t4.wf(),
        client_resp.0@ == scalar_sub(scalar_sub(epsilon, client_state.t2@), client_state.t4@),
        server_resp2.c@ == scalar_sub(client_resp.0@, server_state.d@),
        server_resp2.d@ == server_state.d@,
    ensures
        scalar_add(
            unblinding(client_state, server_resp2).omega,
            unblinding(client_state, server_resp2).delta,
        ) == epsilon,
{
    let (t2, t4, d) = (client_state.t2@, client_state.t4@, server_state.d@);
    let (e, c) = (client_resp.0@, server_resp2.c@);
    lemma_scalar_sub(epsilon, t2);
    lemma_scalar_sub(scalar_sub(epsilon, t2), t4);
    lemma_scalar_sub(e, d);
    lemma_scalar_add(c, t2);
    lemma_scalar_add(d, t4);
    lemma_scalar_add(scalar_add(c, t2), scalar_add(d, t4));
}

/// A session that is run move by move ends with a signature that verifies.
///
/// Let the keys be a key pair, and let the four messages and states be
/// what `sign1`, `user1` and `sign2` compute in this order, each from what
/// the moves before it returned. Then `user2` accepts the signer's
/// response, and the signature that it unblinds is valid for the message.
/// This rests on the laws of the group, which are assumed.
pub proof fn lemma_group_laws_yield_signature(
    privkey: Privkey,
    pubkey: Pubkey,
    m: Seq<u8>,
    server_state: ServerState,
    server_resp1: ServerResp1,
    client_state: ClientState,
    client_resp: ClientResp,
    server_resp2: ServerResp2,
)
    requires
        group_laws(),
        Abe::key_pair(privkey, pubkey),
        Abe::committed(pubkey, server_state, server_resp1),
        Abe::blinded(pubkey, m, server_resp1, client_state, client_resp),
        Abe::responded(privkey, server_state, client_resp, server_resp2),
    ensures
        Abe::accepted(pubkey, client_state, m, server_resp2),
        forall|sig: Signature| #[trigger]
            Abe::unblinded(client_state, server_resp2, sig) ==> Abe::valid(pubkey, m, sig),
{
    let (G, H) = (base_point(), alt_generator());
    let (x, y, z) = (privkey.0@, pubkey.y@, pubkey.z@);
    let (u, s1, s2, d) = (server_state.u@, server_state.s1@, server_state.s2@, server_state.d@);
    let (a, b1, b2) = (server_resp1.a@, server_resp1.b1@, server_resp1.b2@);
    let z1 = tag_share(server_resp1.rnd@);
    let z2 = ristretto_sub(z, z1);
    let (zeta, zeta1) = (client_state.zeta@, client_state.zeta1@);
    let zeta2 = ristretto_sub(zeta, zeta1);
    let (gamma, tau) = (client_state.gamma@, client_state.tau@);
    let (t1, t2, t3) = (client_state.t1@, client_state.t2@, client_state.t3@);
    let (t4, t5) = (client_state.t4@, client_state.t5@);
    let (e, r, c) = (client_resp.0@, server_resp2.r@, server_resp2.c@);
    let epsilon = user_challenge(pubkey, m, server_resp1, client_state);
    let sig = unblinding(client_state, server_resp2);
    let cx = scalar_mul(c, x);
    let (gamma_s1, gamma_s2) = (scalar_mul(gamma, s1), scalar_mul(gamma, s2));
    let delta_gamma = scalar_mul(sig.delta, gamma);

    // The scalars.
    lemma_unblinding_restores_challenge(
        epsilon,
        server_state,
        client_state,
        client_resp,
        server_resp2,
    );
    lemma_scalar_sub(e, d);
    lemma_scalar_mul(c, x);
    lemma_scalar_sub(u, cx);
    lemma_scalar_add(r, t1);
    lemma_scalar_add(c, t2);
    lemma_scalar_add(d, t4);
    lemma_scalar_mul(gamma, s1);
    lemma_scalar_mul(gamma, s2);
    lemma_scalar_add(gamma_s1, t3);
    lemma_scalar_add(gamma_s2, t5);
    lemma_scalar_mul(sig.delta, gamma);
    lemma_scalar_sub(tau, delta_gamma);

    // The group elements of the session.
    lemma_closed(gamma, z, z1);
    lemma_closed(gamma, z1, z);
    lemma_closed(gamma, zeta, zeta1);
    lemma_closed(gamma, z2, z2);
    lemma_mul_distributes_over_sub(gamma, z, z1);
    assert(zeta2 == ristretto_mul(gamma, z2));
    lemma_base_mul(x);
    lemma_base_mul(u);
    lemma_base_mul(r);
    lemma_base_mul(t1);
    lemma_base_mul(t3);
    lemma_base_mul(s1);
    lemma_base_mul(gamma_s1);
    lemma_base_mul(sig.rho);
    lemma_base_mul(sig.sigma1);

    // alpha: (r + t1) G + (c + t2) y = ((rG + cy) + t1 G) + t2 y, and rG + cy = uG.
    lemma_combination_splits(r, t1, G, c, t2, y);
    lemma_mul_composes(c, x, G);
    lemma_mul_restores(u, cx, G);
    assert(base_combination(sig.rho, sig.omega, y) == ristretto_add(
        ristretto_add(a, ristretto_base_mul(t1)),
        ristretto_mul(t2, y),
    ));

    // beta1: (gamma s1 + t3) G + (d + t4) zeta1
    //      = ((gamma s1 G + d zeta1) + t3 G) + t4 zeta1,
    // and gamma s1 G + d zeta1 = gamma (s1 G + d z1).
    lemma_combination_splits(gamma_s1, t3, G, d, t4, zeta1);
    lemma_combination_scales(gamma, s1, G, d, z1);
    assert(base_combination(sig.sigma1, sig.delta, zeta1) == ristretto_add(
        ristretto_add(ristretto_mul(gamma, b1), ristretto_base_mul(t3)),
        ristretto_mul(t4, zeta1),
    ));

    // beta2: the same with H and zeta2 = gamma z2.
    lemma_combination_splits(gamma_s2, t5, H, d, t4, zeta2);
    lemma_combination_scales(gamma, s2, H, d, z2);
    assert(combination(sig.sigma2, H, sig.delta, zeta2) == ristretto_add(
        ristretto_add(ristretto_mul(gamma, b2), ristretto_mul(t5, H)),
        ristretto_mul(t4, zeta2),
    ));

    // eta: (tau - delta gamma) z + delta (gamma z) = tau z.
    lemma_mul_composes(sig.delta, gamma, z);
    lemma_mul_restores(tau, delta_gamma, z);
    assert(combination(sig.mu, z, sig.delta, zeta) == ristretto_mul(tau, z));

    assert(verifies(pubkey, m, sig));
}

} // verus!
