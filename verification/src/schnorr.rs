//! The blind Schnorr signature scheme.
//!
//! `x` is the private key, `X = xG` the public key, `G` the base point of
//! the group and `H` a hash onto the scalars.
//!
//! ```text
//!   Signer(x)                               User(X, m)
//!   r <- random, R := rG
//!                           R
//!                        ------->
//!                                           alpha, beta <- random
//!                                           R' := R + alpha G + beta X
//!                                           c' := H(R', m)
//!                                           c  := c' + beta
//!                           c
//!                        <-------
//!   s := r + c x
//!                           s
//!                        ------->
//!                                           abort unless sG = R + cX
//!                                           s' := s + alpha
//!                                           signature (R', s')
//! ```
//!
//! A signature `(R', s')` on `m` verifies when `s'G = R' + H(R', m) X`.

use crate::common::{
    append_bytes, block, group_order, hash_scalar, hash_to_scalar, is_point, is_scalar, le_value,
    lemma_scalar_add, lemma_scalar_mul, lemma_scalar_sub, point_in_block, ristretto_add,
    ristretto_base_mul, ristretto_mul, scalar_add, scalar_in_block, scalar_mul, scalar_sub,
    FourMoveBlindSig, GroupElem, InvalidEncoding, Scalar, WireMessage,
};
use crate::group::{
    group_laws, lemma_add_associates, lemma_add_swaps, lemma_base_mul_adds, lemma_closed,
    lemma_mul_adds, lemma_mul_of_base_mul,
};
use rand::{CryptoRng, RngCore};
use vstd::arithmetic::div_mod::lemma_add_mod_noop_right;
use vstd::prelude::*;

verus! {

/// The private key `x`.
#[derive(Clone, Copy, Debug, PartialEq, Eq)]
pub struct Privkey(pub Scalar);

/// The public key `X`.
#[derive(Clone, Copy, Debug, PartialEq, Eq)]
pub struct Pubkey(pub GroupElem);

/// The signer's secret of one session: the nonce `r`.
#[derive(Clone, Copy, Debug, PartialEq, Eq)]
pub struct ServerState {
    pub r: Scalar,
}

/// The signer's first message: the commitment `R`.
#[derive(Clone, Copy, Debug, PartialEq, Eq)]
pub struct ServerResp1 {
    pub R: GroupElem,
}

/// What the user keeps between its two moves.
#[derive(Clone, Copy, Debug, PartialEq, Eq)]
pub struct ClientState {
    pub alpha: Scalar,
    pub c: Scalar,
    pub R: GroupElem,
    pub R_prime: GroupElem,
}

/// The user's message: the blinded challenge `c`.
#[derive(Clone, Copy, Debug, PartialEq, Eq)]
pub struct ClientResp {
    pub c: Scalar,
}

/// The signer's second message: the response `s`.
#[derive(Clone, Copy, Debug, PartialEq, Eq)]
pub struct ServerResp2 {
    pub s: Scalar,
}

/// A signature `(R', s')`.
#[derive(Clone, Copy, Debug, PartialEq, Eq)]
pub struct Signature {
    pub R_prime: GroupElem,
    pub s_prime: Scalar,
}

impl WireMessage for Pubkey {
    open spec fn encoding(&self) -> Seq<u8> {
        self.0@
    }

    open spec fn decodable(bytes: Seq<u8>) -> bool {
        bytes.len() == 32 && is_point(block(bytes, 0))
    }

    fn to_bytes(&self) -> (bytes: Vec<u8>) {
        let mut bytes: Vec<u8> = Vec::new();
        append_bytes(&mut bytes, &self.0.to_bytes());
        proof {
            use_type_invariant(&self.0);
            assert(block(bytes@, 0) == bytes@);
        }
        bytes
    }

    fn from_bytes(bytes: &[u8]) -> (decoded: Result<Self, InvalidEncoding>) {
        if bytes.len() != 32 {
            return Err(InvalidEncoding);
        }
        assert(block(bytes@, 0) == bytes@);
        match point_in_block(bytes, 0) {
            Ok(X) => Ok(Pubkey(X)),
            Err(e) => Err(e),
        }
    }
}

impl WireMessage for ServerResp1 {
    open spec fn encoding(&self) -> Seq<u8> {
        self.R@
    }

    open spec fn decodable(bytes: Seq<u8>) -> bool {
        bytes.len() == 32 && is_point(block(bytes, 0))
    }

    fn to_bytes(&self) -> (bytes: Vec<u8>) {
        let mut bytes: Vec<u8> = Vec::new();
        append_bytes(&mut bytes, &self.R.to_bytes());
        proof {
            use_type_invariant(&self.R);
            assert(block(bytes@, 0) == bytes@);
        }
        bytes
    }

    fn from_bytes(bytes: &[u8]) -> (decoded: Result<Self, InvalidEncoding>) {
        if bytes.len() != 32 {
            return Err(InvalidEncoding);
        }
        assert(block(bytes@, 0) == bytes@);
        match point_in_block(bytes, 0) {
            Ok(R) => Ok(ServerResp1 { R }),
            Err(e) => Err(e),
        }
    }
}

impl WireMessage for ClientResp {
    open spec fn encoding(&self) -> Seq<u8> {
        self.c.encoding()
    }

    open spec fn decodable(bytes: Seq<u8>) -> bool {
        bytes.len() == 32 && is_scalar(le_value(block(bytes, 0)))
    }

    fn to_bytes(&self) -> (bytes: Vec<u8>) {
        let mut bytes: Vec<u8> = Vec::new();
        append_bytes(&mut bytes, &self.c.to_bytes());
        proof {
            use_type_invariant(&self.c);
            assert(block(bytes@, 0) == bytes@);
        }
        bytes
    }

    fn from_bytes(bytes: &[u8]) -> (decoded: Result<Self, InvalidEncoding>) {
        if bytes.len() != 32 {
            return Err(InvalidEncoding);
        }
        assert(block(bytes@, 0) == bytes@);
        match scalar_in_block(bytes, 0) {
            Ok(c) => Ok(ClientResp { c }),
            Err(e) => Err(e),
        }
    }
}

impl WireMessage for ServerResp2 {
    open spec fn encoding(&self) -> Seq<u8> {
        self.s.encoding()
    }

    open spec fn decodable(bytes: Seq<u8>) -> bool {
        bytes.len() == 32 && is_scalar(le_value(block(bytes, 0)))
    }

    fn to_bytes(&self) -> (bytes: Vec<u8>) {
        let mut bytes: Vec<u8> = Vec::new();
        append_bytes(&mut bytes, &self.s.to_bytes());
        proof {
            use_type_invariant(&self.s);
            assert(block(bytes@, 0) == bytes@);
        }
        bytes
    }

    fn from_bytes(bytes: &[u8]) -> (decoded: Result<Self, InvalidEncoding>) {
        if bytes.len() != 32 {
            return Err(InvalidEncoding);
        }
        assert(block(bytes@, 0) == bytes@);
        match scalar_in_block(bytes, 0) {
            Ok(s) => Ok(ServerResp2 { s }),
            Err(e) => Err(e),
        }
    }
}

impl WireMessage for Signature {
    open spec fn encoding(&self) -> Seq<u8> {
        self.R_prime@ + self.s_prime.encoding()
    }

    open spec fn decodable(bytes: Seq<u8>) -> bool {
        &&& bytes.len() == 64
        &&& is_point(block(bytes, 0))
        &&& is_scalar(le_value(block(bytes, 1)))
    }

    fn to_bytes(&self) -> (bytes: Vec<u8>) {
        let mut bytes: Vec<u8> = Vec::new();
        append_bytes(&mut bytes, &self.R_prime.to_bytes());
        append_bytes(&mut bytes, &self.s_prime.to_bytes());
        proof {
            use_type_invariant(&self.R_prime);
            use_type_invariant(&self.s_prime);
            assert(block(bytes@, 0) == self.R_prime@);
            assert(block(bytes@, 1) == self.s_prime.encoding());
        }
        bytes
    }

    fn from_bytes(bytes: &[u8]) -> (decoded: Result<Self, InvalidEncoding>) {
        if bytes.len() != 64 {
            return Err(InvalidEncoding);
        }
        assert(bytes@ == block(bytes@, 0) + block(bytes@, 1));
        let R_prime = match point_in_block(bytes, 0) {
            Ok(R_prime) => R_prime,
            Err(e) => { return Err(e); },
        };
        let s_prime = match scalar_in_block(bytes, 1) {
            Ok(s_prime) => s_prime,
            Err(e) => { return Err(e); },
        };
        Ok(Signature { R_prime, s_prime })
    }
}

/// The challenge `H(R', m)`: the scalar oracle without a tag, on the
/// encoding of `R'` followed by the message.
pub open spec fn challenge(r_prime: Seq<u8>, m: Seq<u8>) -> nat {
    hash_scalar(Seq::<u8>::empty(), r_prime + m)
}

/// Whether `s'G = R' + H(R', m) X`.
pub open spec fn verifies(x: Seq<u8>, m: Seq<u8>, r_prime: Seq<u8>, s_prime: nat) -> bool {
    ristretto_base_mul(s_prime) == ristretto_add(
        r_prime,
        ristretto_mul(challenge(r_prime, m), x),
    )
}

/// Computes the challenge `H(R', m)`.
fn challenge_of(R_prime: &GroupElem, m: &[u8]) -> (c_prime: Scalar)
    ensures
        c_prime@ == challenge(R_prime@, m@),
{
    let no_tag: [u8; 0] = [];
    let mut transcript: Vec<u8> = Vec::new();
    append_bytes(&mut transcript, &R_prime.to_bytes());
    append_bytes(&mut transcript, m);
    assert(transcript@ == R_prime@ + m@);
    assert(no_tag@ == Seq::<u8>::empty());
    hash_to_scalar(&no_tag, transcript.as_slice())
}

/// Taking `c'` from `c' + beta` gives `beta` back.
proof fn lemma_blinding_recovered(c_prime: nat, beta: nat)
    requires
        is_scalar(c_prime),
        is_scalar(beta),
    ensures
        scalar_sub(scalar_add(c_prime, beta), c_prime) == beta,
{
    lemma_scalar_add(c_prime, beta);
    lemma_scalar_sub(scalar_add(c_prime, beta), c_prime);
}

/// The blind Schnorr signature scheme. It is secure only while a signer
/// serves its sessions one after another.
pub struct BlindSchnorr;

impl BlindSchnorr {
    /// The key pair of the private key `x`.
    pub fn key_pair_of(x: Scalar) -> (keys: (Privkey, Pubkey))
        ensures
            keys.0.0 == x,
            Self::key_pair(keys.0, keys.1),
    {
        let X = GroupElem::base_mul(&x);
        proof {
            use_type_invariant(&x);
            use_type_invariant(&X);
        }
        (Privkey(x), Pubkey(X))
    }

    /// The signer's first move with the nonce `r`.
    pub fn commit(pubkey: &Pubkey, r: Scalar) -> (out: (ServerState, ServerResp1))
        ensures
            out.0.r == r,
            Self::committed(*pubkey, out.0, out.1),
    {
        let R = GroupElem::base_mul(&r);
        proof {
            use_type_invariant(&r);
            use_type_invariant(&R);
        }
        (ServerState { r }, ServerResp1 { R })
    }

    /// The user's first move with the blinding factors `alpha` and `beta`.
    pub fn blind(
        pubkey: &Pubkey,
        m: &[u8],
        server_resp1: &ServerResp1,
        alpha: Scalar,
        beta: Scalar,
    ) -> (out: (ClientState, ClientResp))
        ensures
            out.0.alpha == alpha,
            scalar_sub(out.1.c@, challenge(out.0.R_prime@, m@)) == beta@,
            Self::blinded(*pubkey, m@, *server_resp1, out.0, out.1),
    {
        let R = server_resp1.R;
        let alpha_G = GroupElem::base_mul(&alpha);
        let beta_X = pubkey.0.mul(&beta);
        let R_prime = R.add(&alpha_G).add(&beta_X);
        let c_prime = challenge_of(&R_prime, m);
        let c = c_prime.add(&beta);
        proof {
            use_type_invariant(&alpha);
            use_type_invariant(&beta);
            use_type_invariant(&c);
            use_type_invariant(&c_prime);
            use_type_invariant(&R_prime);
            lemma_blinding_recovered(c_prime@, beta@);
        }
        (ClientState { alpha, c, R, R_prime }, ClientResp { c })
    }
}

impl FourMoveBlindSig for BlindSchnorr {
    const MAX_PARALLEL_SESSIONS: usize = 1;

    type Privkey = Privkey;

    type Pubkey = Pubkey;

    type ServerState = ServerState;

    type ClientState = ClientState;

    type ClientResp = ClientResp;

    type ServerResp1 = ServerResp1;

    type ServerResp2 = ServerResp2;

    type Signature = Signature;

    open spec fn session_limit() -> nat {
        1
    }

    proof fn lemma_session_limit() {
    }

    /// `X = xG`.
    open spec fn key_pair(privkey: Privkey, pubkey: Pubkey) -> bool {
        &&& privkey.0.wf()
        &&& pubkey.0.wf()
        &&& pubkey.0@ == ristretto_base_mul(privkey.0@)
    }

    /// `s'G = R' + H(R', m) X`.
    open spec fn valid(pubkey: Pubkey, m: Seq<u8>, sig: Signature) -> bool {
        verifies(pubkey.0@, m, sig.R_prime@, sig.s_prime@)
    }

    /// `R = rG`.
    open spec fn committed(pubkey: Pubkey, state: ServerState, resp: ServerResp1) -> bool {
        &&& state.r.wf()
        &&& resp.R.wf()
        &&& resp.R@ == ristretto_base_mul(state.r@)
    }

    /// `R' = R + alpha G + beta X` for the `beta` with `c = H(R', m) + beta`;
    /// the state keeps `alpha`, `c`, `R` and `R'`.
    open spec fn blinded(
        pubkey: Pubkey,
        m: Seq<u8>,
        server_resp1: ServerResp1,
        state: ClientState,
        resp: ClientResp,
    ) -> bool {
        let beta = scalar_sub(resp.c@, challenge(state.R_prime@, m));
        &&& state.alpha.wf()
        &&& state.c.wf()
        &&& state.R_prime.wf()
        &&& state.R@ == server_resp1.R@
        &&& state.c@ == resp.c@
        &&& resp.c@ == scalar_add(challenge(state.R_prime@, m), beta)
        &&& state.R_prime@ == ristretto_add(
            ristretto_add(server_resp1.R@, ristretto_base_mul(state.alpha@)),
            ristretto_mul(beta, pubkey.0@),
        )
    }

    /// `s = r + c x`.
    open spec fn responded(
        privkey: Privkey,
        state: ServerState,
        client_resp: ClientResp,
        resp: ServerResp2,
    ) -> bool {
        &&& resp.s.wf()
        &&& resp.s@ == (state.r@ + client_resp.c@ * privkey.0@) % group_order()
    }

    /// The signature is `(R', s + alpha)`.
    open spec fn unblinded(state: ClientState, server_resp2: ServerResp2, sig: Signature) -> bool {
        &&& sig.R_prime@ == state.R_prime@
        &&& sig.s_prime@ == scalar_add(server_resp2.s@, state.alpha@)
    }

    /// `sG = R + cX`, and the unblinded signature verifies.
    open spec fn accepted(
        pubkey: Pubkey,
        state: ClientState,
        m: Seq<u8>,
        server_resp2: ServerResp2,
    ) -> bool {
        &&& ristretto_base_mul(server_resp2.s@) == ristretto_add(
            state.R@,
            ristretto_mul(state.c@, pubkey.0@),
        )
        &&& verifies(pubkey.0@, m, state.R_prime@, scalar_add(server_resp2.s@, state.alpha@))
    }

    fn keygen<R: RngCore + CryptoRng>(rng: &mut R) -> (keys: (Privkey, Pubkey)) {
        Self::key_pair_of(Scalar::random(rng))
    }

    fn verify(pubkey: &Pubkey, m: &[u8], sig: &Signature) -> (ok: bool) {
        let c_prime = challenge_of(&sig.R_prime, m);
        let s_prime_G = GroupElem::base_mul(&sig.s_prime);
        s_prime_G.equals(&sig.R_prime.add(&pubkey.0.mul(&c_prime)))
    }

    fn sign1<R: RngCore + CryptoRng>(rng: &mut R, pubkey: &Pubkey) -> (out: (
        ServerState,
        ServerResp1,
    )) {
        Self::commit(pubkey, Scalar::random(rng))
    }

    fn user1<R: RngCore + CryptoRng>(
        rng: &mut R,
        pubkey: &Pubkey,
        m: &[u8],
        server_resp1: &ServerResp1,
    ) -> (out: (ClientState, ClientResp)) {
        let alpha = Scalar::random(rng);
        let beta = Scalar::random(rng);
        Self::blind(pubkey, m, server_resp1, alpha, beta)
    }

    fn sign2(privkey: &Privkey, state: &ServerState, client_resp: &ClientResp) -> (resp:
        ServerResp2) {
        let s = state.r.add(&client_resp.c.mul(&privkey.0));
        proof {
            use_type_invariant(&s);
            lemma_add_mod_noop_right(
                state.r@ as int,
                (client_resp.c@ * privkey.0@) as int,
                group_order() as int,
            );
        }
        ServerResp2 { s }
    }

    fn user2(pubkey: &Pubkey, state: &ClientState, m: &[u8], server_resp2: &ServerResp2) -> (sig:
        Option<Signature>) {
        let s_G = GroupElem::base_mul(&server_resp2.s);
        if !s_G.equals(&state.R.add(&pubkey.0.mul(&state.c))) {
            return None;
        }
        let s_prime = server_resp2.s.add(&state.alpha);
        let sig = Signature { R_prime: state.R_prime, s_prime };
        if Self::verify(pubkey, m, &sig) {
            Some(sig)
        } else {
            None
        }
    }
}

/// A session that is run move by move ends with a signature that verifies.
///
/// Let the keys be a key pair, and let the four messages and states be
/// what `sign1`, `user1` and `sign2` compute in this order, each from what
/// the moves before it returned. Then `user2` accepts the signer's
/// response, and the signature that it unblinds is valid for the message.
/// This rests on the laws of the group, which are assumed.
pub proof fn lemma_group_laws_yield_signature(
    privkey: Privkey,
    pubkey: Pubkey,
    m: Seq<u8>,
    server_state: ServerState,
    server_resp1: ServerResp1,
    client_state: ClientState,
    client_resp: ClientResp,
    server_resp2: ServerResp2,
)
    requires
        group_laws(),
        BlindSchnorr::key_pair(privkey, pubkey),
        BlindSchnorr::committed(pubkey, server_state, server_resp1),
        BlindSchnorr::blinded(pubkey, m, server_resp1, client_state, client_resp),
        BlindSchnorr::responded(privkey, server_state, client_resp, server_resp2),
    ensures
        BlindSchnorr::accepted(pubkey, client_state, m, server_resp2),
        forall|sig: Signature| #[trigger]
            BlindSchnorr::unblinded(client_state, server_resp2, sig) ==> BlindSchnorr::valid(
                pubkey,
                m,
                sig,
            ),
{
    let (x, r, c, s) = (privkey.0@, server_state.r@, client_resp.c@, server_resp2.s@);
    let (X, R, R_prime) = (pubkey.0@, server_resp1.R@, client_state.R_prime@);
    let alpha = client_state.alpha@;
    let c_prime = challenge(R_prime, m);
    let beta = scalar_sub(c, c_prime);
    let cx = scalar_mul(c, x);
    let (alpha_G, c_X) = (ristretto_base_mul(alpha), ristretto_mul(c, X));
    let (beta_X, c_prime_X) = (ristretto_mul(beta, X), ristretto_mul(c_prime, X));
    lemma_scalar_sub(c, c_prime);
    lemma_scalar_mul(c, x);
    lemma_scalar_add(s, alpha);
    lemma_closed(alpha, R, X);
    lemma_closed(c, X, X);
    lemma_closed(beta, X, X);
    lemma_closed(c_prime, X, X);
    lemma_closed(0, R, alpha_G);

    // sG = R + cX
    assert(s == scalar_add(r, cx)) by {
        lemma_add_mod_noop_right(r as int, (c * x) as int, group_order() as int);
    }
    lemma_mul_of_base_mul(c, x);
    lemma_base_mul_adds(r, cx);
    assert(ristretto_base_mul(s) == ristretto_add(R, c_X));

    // s'G = sG + alpha G = (R + alpha G) + cX
    lemma_base_mul_adds(s, alpha);
    lemma_add_swaps(R, c_X, alpha_G);

    // R' + c'X = (R + alpha G) + (beta X + c'X) = (R + alpha G) + cX
    lemma_add_associates(ristretto_add(R, alpha_G), beta_X, c_prime_X);
    lemma_mul_adds(beta, c_prime, X);
    assert(scalar_add(beta, c_prime) == c);
    assert(verifies(X, m, R_prime, scalar_add(s, alpha)));
}

} // verus!
