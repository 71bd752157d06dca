//! The signer's side of the service: the store of open sessions, the
//! admission of requests, and the two steps that a signer serves.
//!
//! A session is opened by the first step and closed by the second. Between
//! the two the store holds the signer's secrets of the session, under the
//! identifier that the client sent. The steps take the store by exclusive
//! reference; how workers share a store is left to the program around them,
//! which may ask `is_admitted` on its own before it takes that reference.

use crate::abe;
use crate::common::FourMoveBlindSig;
use crate::schnorr;
use dashmap::DashMap;
use rand::{CryptoRng, RngCore};
use std::collections::hash_map::RandomState;
use vstd::prelude::*;

verus! {

/// `dashmap::DashMap`, a hash map whose operations all go through a shared
/// reference. Nothing is known of a value of it but what `sessions_held`
/// names.
#[verifier::external_type_specification]
#[verifier::external_body]
#[verifier::reject_recursive_types(K)]
#[verifier::reject_recursive_types(V)]
#[verifier::reject_recursive_types(S)]
pub struct ExDashMap<K, V, S>(DashMap<K, V, S>);

/// What a signer keeps for one open session between its two moves,
/// whichever scheme the session runs.
#[derive(Clone, Copy, Debug, PartialEq, Eq)]
pub enum SignerSessionState {
    Schnorr(schnorr::ServerState),
    Abe(abe::ServerState),
}

/// The signer state of one scheme, as the session store holds it.
pub trait SessionRecord: Sized {
    /// The state that `record` holds, if it holds one of this scheme.
    spec fn recorded(record: SignerSessionState) -> Option<Self>;

    /// Wraps the state for the store.
    fn into_record(self) -> (record: SignerSessionState)
        ensures
            Self::recorded(record) == Some(self),
    ;

    /// Takes the state out of a record of the store.
    fn from_record(record: SignerSessionState) -> (state: Option<Self>)
        ensures
            state == Self::recorded(record),
    ;
}

impl SessionRecord for schnorr::ServerState {
    open spec fn recorded(record: SignerSessionState) -> Option<Self> {
        match record {
            SignerSessionState::Schnorr(state) => Some(state),
            SignerSessionState::Abe(_) => None,
        }
    }

    fn into_record(self) -> (record: SignerSessionState) {
        SignerSessionState::Schnorr(self)
    }

    fn from_record(record: SignerSessionState) -> (state: Option<Self>) {
        match record {
            SignerSessionState::Schnorr(state) => Some(state),
            SignerSessionState::Abe(_) => None,
        }
    }
}

impl SessionRecord for abe::ServerState {
    open spec fn recorded(record: SignerSessionState) -> Option<Self> {
        match record {
            SignerSessionState::Schnorr(_) => None,
            SignerSessionState::Abe(state) => Some(state),
        }
    }

    fn into_record(self) -> (record: SignerSessionState) {
        SignerSessionState::Abe(self)
    }

    fn from_record(record: SignerSessionState) -> (state: Option<Self>) {
        match record {
            SignerSessionState::Schnorr(_) => None,
            SignerSessionState::Abe(state) => Some(state),
        }
    }
}

/// The sessions that a map holds: the state of each, by its identifier.
pub uninterp spec fn sessions_held(
    map: DashMap<String, SignerSessionState, RandomState>,
) -> Map<Seq<char>, SignerSessionState>;

/// An empty map.
///
/// Calls `dashmap::DashMap::new`.
#[verifier::external_body]
fn map_new() -> (map: DashMap<String, SignerSessionState, RandomState>)
    ensures
        sessions_held(map) =~= Map::empty(),
{
    DashMap::new()
}

/// The number of sessions in the map.
///
/// Calls `dashmap::DashMap::len`, which adds up the lengths of the shards.
#[verifier::external_body]
fn map_len(map: &DashMap<String, SignerSessionState, RandomState>) -> (n: usize)
    requires
        sessions_held(*map).dom().finite(),
    ensures
        n == sessions_held(*map).len(),
{
    map.len()
}

/// The state that the map holds under `id`, if any.
///
/// Calls `dashmap::DashMap::get`, and copies the state out of the reference
/// that it returns.
#[verifier::external_body]
fn map_get(map: &DashMap<String, SignerSessionState, RandomState>, id: &str) -> (state: Option<
    SignerSessionState,
>)
    ensures
        state == if sessions_held(*map).contains_key(id@) {
            Some(sessions_held(*map)[id@])
        } else {
            None
        },
{
    match map.get(id) {
        Some(entry) => Some(*entry.value()),
        None => None,
    }
}

/// Puts `state` into the map under `id`, in place of what was there.
///
/// Calls `dashmap::DashMap::insert`.
#[verifier::external_body]
fn map_insert(
    map: &mut DashMap<String, SignerSessionState, RandomState>,
    id: String,
    state: SignerSessionState,
)
    ensures
        sessions_held(*final(map)) == sessions_held(*old(map)).insert(id@, state),
{
    map.insert(id, state);
}

/// Takes the state under `id` out of the map, if there is one.
///
/// Calls `dashmap::DashMap::remove`.
#[verifier::external_body]
fn map_remove(map: &mut DashMap<String, SignerSessionState, RandomState>, id: &str) -> (state:
    Option<SignerSessionState>)
    ensures
        sessions_held(*final(map)) == sessions_held(*old(map)).remove(id@),
        state == if sessions_held(*old(map)).contains_key(id@) {
            Some(sessions_held(*old(map))[id@])
        } else {
            None
        },
{
    match map.remove(id) {
        Some((_, state)) => Some(state),
        None => None,
    }
}

/// The store of open sessions: for each session identifier at most one
/// signer state.
pub struct SessionStore {
    sessions: DashMap<String, SignerSessionState, RandomState>,
}

impl View for SessionStore {
    type V = Map<Seq<char>, SignerSessionState>;

    closed spec fn view(&self) -> Map<Seq<char>, SignerSessionState> {
        sessions_held(self.sessions)
    }
}

impl SessionStore {
    /// A store is well formed when it holds finitely many sessions.
    pub open spec fn wf(&self) -> bool {
        self@.dom().finite()
    }

    /// A store without sessions.
    pub fn new() -> (store: SessionStore)
        ensures
            store.wf(),
            store@ == Map::<Seq<char>, SignerSessionState>::empty(),
    {
        SessionStore { sessions: map_new() }
    }

    /// The number of open sessions.
    pub fn len(&self) -> (n: usize)
        requires
            self.wf(),
        ensures
            n == self@.len(),
    {
        map_len(&self.sessions)
    }

    /// Whether the session `id` is open.
    pub fn contains(&self, id: &str) -> (open: bool)
        ensures
            open == self@.contains_key(id@),
    {
        map_get(&self.sessions, id).is_some()
    }

    /// The state of the session `id`, if it is open.
    pub fn get(&self, id: &str) -> (state: Option<SignerSessionState>)
        ensures
            state == if self@.contains_key(id@) {
                Some(self@[id@])
            } else {
                None
            },
    {
        map_get(&self.sessions, id)
    }

    /// The state of the session `id`, if it is open in the scheme `S`.
    pub fn state_of<S: FourMoveBlindSig>(&self, id: &str) -> (state: Option<
        S::ServerState,
    >) where S::ServerState: SessionRecord
        ensures
            state == session_of::<S>(self@, id@),
    {
        match self.get(id) {
            Some(record) => S::ServerState::from_record(record),
            None => None,
        }
    }

    /// Opens the session `id` with `state`, or replaces its state.
    pub fn insert(&mut self, id: String, state: SignerSessionState)
        requires
            old(self).wf(),
        ensures
            final(self).wf(),
            final(self)@ == old(self)@.insert(id@, state),
    {
        map_insert(&mut self.sessions, id, state);
    }

    /// Closes the session `id` and hands its state out, if it was open.
    pub fn remove(&mut self, id: &str) -> (state: Option<SignerSessionState>)
        requires
            old(self).wf(),
        ensures
            final(self).wf(),
            final(self)@ == old(self)@.remove(id@),
            state == if old(self)@.contains_key(id@) {
                Some(old(self)@[id@])
            } else {
                None
            },
    {
        map_remove(&mut self.sessions, id)
    }
}

/// Why the signer did not serve a request.
#[derive(Clone, Copy, Debug, PartialEq, Eq)]
pub enum Refusal {
    /// The signer holds as many sessions as it may, and the request belongs
    /// to none of them. The client may send the request again later.
    Busy,
    /// The second step was asked for a session that is not open.
    MissingSession,
}

/// Whether a request of the session `id` is admitted while `sessions` are
/// open and at most `limit` may be: when there is room for one more
/// session, or when the session is open already.
pub open spec fn admits(
    sessions: Map<Seq<char>, SignerSessionState>,
    id: Seq<char>,
    limit: nat,
) -> bool {
    sessions.len() < limit || sessions.contains_key(id)
}

/// The state of scheme `S` that `sessions` hold for the session `id`.
pub open spec fn session_of<S: FourMoveBlindSig>(
    sessions: Map<Seq<char>, SignerSessionState>,
    id: Seq<char>,
) -> Option<S::ServerState> where S::ServerState: SessionRecord {
    if sessions.contains_key(id) {
        S::ServerState::recorded(sessions[id])
    } else {
        None
    }
}

/// What serving the first step of the session `id` makes of the sessions
/// `before`: an admitted request is answered with a first message of the
/// signer, and the session is open afterwards with the secrets that the
/// message commits to, beside the sessions that were open; any other
/// request is answered `Busy` and changes nothing.
pub open spec fn sign1_served<S: FourMoveBlindSig>(
    before: Map<Seq<char>, SignerSessionState>,
    id: Seq<char>,
    pubkey: S::Pubkey,
    resp: Result<S::ServerResp1, Refusal>,
    after: Map<Seq<char>, SignerSessionState>,
) -> bool where S::ServerState: SessionRecord {
    match resp {
        Ok(server_resp1) => {
            &&& admits(before, id, S::session_limit())
            &&& after.contains_key(id)
            &&& after == before.insert(id, after[id])
            &&& session_of::<S>(after, id) matches Some(state)
            &&& S::committed(pubkey, state, server_resp1)
        },
        Err(refusal) => {
            &&& !admits(before, id, S::session_limit())
            &&& refusal == Refusal::Busy
            &&& after == before
        },
    }
}

/// What serving the second step of the session `id` makes of the sessions
/// `before`: an admitted request for an open session of the scheme is
/// answered with the signer's response to the challenge, from the secrets
/// of the session, and the session is closed afterwards; an admitted
/// request for any other session is answered `MissingSession`, a request
/// that is not admitted `Busy`, and neither changes anything.
pub open spec fn sign2_served<S: FourMoveBlindSig>(
    before: Map<Seq<char>, SignerSessionState>,
    id: Seq<char>,
    privkey: S::Privkey,
    client_resp: S::ClientResp,
    resp: Result<S::ServerResp2, Refusal>,
    after: Map<Seq<char>, SignerSessionState>,
) -> bool where S::ServerState: SessionRecord {
    match resp {
        Ok(server_resp2) => {
            &&& admits(before, id, S::session_limit())
            &&& session_of::<S>(before, id) matches Some(state)
            &&& S::responded(privkey, state, client_resp, server_resp2)
            &&& after == before.remove(id)
        },
        Err(Refusal::MissingSession) => {
            &&& admits(before, id, S::session_limit())
            &&& session_of::<S>(before, id) is None
            &&& after == before
        },
        Err(Refusal::Busy) => {
            &&& !admits(before, id, S::session_limit())
            &&& after == before
        },
    }
}

/// Decides whether a request of the session `client_id` is admitted.
///
/// The answer holds of the store as it is now. A caller that shares the
/// store and asks before it takes the store for itself may find it fuller
/// when it acts; the bound on open sessions is then passed by as many
/// sessions as were admitted at once.
pub fn is_admitted(store: &SessionStore, client_id: &str, max_parallel_sessions: usize) -> (ok:
    bool)
    requires
        store.wf(),
    ensures
        ok == admits(store@, client_id@, max_parallel_sessions as nat),
{
    store.len() < max_parallel_sessions || store.contains(client_id)
}

/// Serves the first step of the session `client_id`.
///
/// An admitted request opens the session with fresh secrets, or replaces
/// the secrets of the open session, and is answered with the signer's first
/// message. A request that is not admitted is answered `Busy` and changes
/// nothing.
pub fn serve_sign1<S: FourMoveBlindSig, R: RngCore + CryptoRng>(
    store: &mut SessionStore,
    rng: &mut R,
    pubkey: &S::Pubkey,
    client_id: String,
) -> (resp: Result<S::ServerResp1, Refusal>) where S::ServerState: SessionRecord
    requires
        old(store).wf(),
    ensures
        final(store).wf(),
        sign1_served::<S>(old(store)@, client_id@, *pubkey, resp, final(store)@),
{
    proof {
        S::lemma_session_limit();
    }
    if !is_admitted(store, client_id.as_str(), S::MAX_PARALLEL_SESSIONS) {
        return Err(Refusal::Busy);
    }
    let (state, server_resp1) = S::sign1(rng, pubkey);
    store.insert(client_id, state.into_record());
    Ok(server_resp1)
}

/// Serves the second step of the session `client_id`.
///
/// An admitted request for an open session is answered with the signer's
/// response to `client_resp`, and closes the session. A request that is
/// not admitted is answered `Busy`, and an admitted request for a session
/// that is not open `MissingSession`; neither changes anything.
pub fn serve_sign2<S: FourMoveBlindSig>(
    store: &mut SessionStore,
    privkey: &S::Privkey,
    client_id: &str,
    client_resp: &S::ClientResp,
) -> (resp: Result<S::ServerResp2, Refusal>) where S::ServerState: SessionRecord
    requires
        old(store).wf(),
    ensures
        final(store).wf(),
        sign2_served::<S>(old(store)@, client_id@, *privkey, *client_resp, resp, final(store)@),
{
    proof {
        S::lemma_session_limit();
    }
    if !is_admitted(store, client_id, S::MAX_PARALLEL_SESSIONS) {
        return Err(Refusal::Busy);
    }
    match store.state_of::<S>(client_id) {
        Some(state) => {
            let server_resp2 = S::sign2(privkey, &state, client_resp);
            store.remove(client_id);
            Ok(server_resp2)
        },
        None => Err(Refusal::MissingSession),
    }
}

/// The life of a session: once the first step of a session that was not
/// open has been served, the session is open; the second step is then
/// served and closes it; and a second step that is asked once more is
/// refused and changes nothing.
pub proof fn lemma_session_lifecycle<S: FourMoveBlindSig>(
    id: Seq<char>,
    pubkey: S::Pubkey,
    privkey: S::Privkey,
    start: Map<Seq<char>, SignerSessionState>,
    resp1: Result<S::ServerResp1, Refusal>,
    opened: Map<Seq<char>, SignerSessionState>,
    challenge: S::ClientResp,
    resp2: Result<S::ServerResp2, Refusal>,
    closed: Map<Seq<char>, SignerSessionState>,
    again: S::ClientResp,
    resp3: Result<S::ServerResp2, Refusal>,
    end: Map<Seq<char>, SignerSessionState>,
) where S::ServerState: SessionRecord
    requires
        start.dom().finite(),
        !start.contains_key(id),
        resp1 is Ok,
        sign1_served::<S>(start, id, pubkey, resp1, opened),
        sign2_served::<S>(opened, id, privkey, challenge, resp2, closed),
        sign2_served::<S>(closed, id, privkey, again, resp3, end),
    ensures
        opened.contains_key(id),
        resp2 is Ok,
        !closed.contains_key(id),
        closed == start,
        resp3 is Err,
        end == closed,
{
    assert(opened.remove(id) =~= start);
}

/// The bound on open sessions: while as many sessions are open as may be,
/// the first step of another session is answered `Busy`.
pub proof fn lemma_full_store_is_busy<S: FourMoveBlindSig>(
    id: Seq<char>,
    pubkey: S::Pubkey,
    before: Map<Seq<char>, SignerSessionState>,
    resp: Result<S::ServerResp1, Refusal>,
    after: Map<Seq<char>, SignerSessionState>,
) where S::ServerState: SessionRecord
    requires
        before.dom().finite(),
        before.len() == S::session_limit(),
        !before.contains_key(id),
        sign1_served::<S>(before, id, pubkey, resp, after),
    ensures
        resp == Err::<S::ServerResp1, Refusal>(Refusal::Busy),
        after == before,
{
}

/// A request of an open session is admitted, however many sessions are
/// open: its first step is served, and its second step is served if the
/// session is one of the scheme.
pub proof fn lemma_open_session_is_served<S: FourMoveBlindSig>(
    id: Seq<char>,
    pubkey: S::Pubkey,
    privkey: S::Privkey,
    before: Map<Seq<char>, SignerSessionState>,
    resp1: Result<S::ServerResp1, Refusal>,
    after1: Map<Seq<char>, SignerSessionState>,
    challenge: S::ClientResp,
    resp2: Result<S::ServerResp2, Refusal>,
    after2: Map<Seq<char>, SignerSessionState>,
) where S::ServerState: SessionRecord
    requires
        before.contains_key(id),
        sign1_served::<S>(before, id, pubkey, resp1, after1),
        sign2_served::<S>(before, id, privkey, challenge, resp2, after2),
    ensures
        admits(before, id, S::session_limit()),
        resp1 is Ok,
        resp2 != Err::<S::ServerResp2, Refusal>(Refusal::Busy),
        session_of::<S>(before, id) is Some ==> resp2 is Ok,
{
}

/// A signer that serves its steps one at a time keeps to its bound: where
/// no more sessions are open than may be before a first step is served, no
/// more are open after it.
pub proof fn lemma_bound_is_kept<S: FourMoveBlindSig>(
    id: Seq<char>,
    pubkey: S::Pubkey,
    before: Map<Seq<char>, SignerSessionState>,
    resp: Result<S::ServerResp1, Refusal>,
    after: Map<Seq<char>, SignerSessionState>,
) where S::ServerState: SessionRecord
    requires
        before.dom().finite(),
        before.len() <= S::session_limit(),
        sign1_served::<S>(before, id, pubkey, resp, after),
    ensures
        after.dom().finite(),
        after.len() <= S::session_limit(),
{
    if resp is Ok {
        if before.contains_key(id) {
            assert(after.dom() =~= before.dom());
        } else {
            assert(after.dom() =~= before.dom().insert(id));
        }
    }
}

/// The status with which a busy signer answers.
pub const BUSY_STATUS: u16 = 409;

/// How many milliseconds a client waits before it sends a request again to
/// a signer that was busy.
pub const CLIENT_BACKOFF_TIME: u64 = 75;

/// What a signer answered to the request that a client sent last.
pub enum Reply<S: FourMoveBlindSig> {
    /// The signer was busy.
    Busy,
    /// The signer's first message.
    Commitment(S::ServerResp1),
    /// The signer's response to the challenge.
    Response(S::ServerResp2),
}

/// Where a client stands in its session with a signer.
pub enum ClientSession<S: FourMoveBlindSig> {
    /// The client asks for the signer's first message.
    Opening,
    /// The client has blinded the signer's first message, and asks for the
    /// response to its challenge.
    Challenging(S::ClientState, S::ClientResp),
    /// The client holds a signature on its message.
    Signed(S::Signature),
    /// The session failed: the signer's response was not accepted, or the
    /// signer answered what the client had not asked for.
    Aborted,
}

impl<S: FourMoveBlindSig> ClientSession<S> {
    /// What the session becomes by `reply`, for the message `m` under
    /// `pubkey`. A busy signer changes nothing. The signer's first message
    /// leads an opening session on to its challenge, and the signer's
    /// response leads a challenging session to its end: to the signature if
    /// the response is accepted, and to failure if it is not. Any other
    /// reply to an opening or challenging session fails it, and a session
    /// that has ended stays as it is.
    pub open spec fn advanced(
        self,
        pubkey: S::Pubkey,
        m: Seq<u8>,
        reply: Reply<S>,
        next: ClientSession<S>,
    ) -> bool {
        match (self, reply) {
            (ClientSession::Signed(_), _)
            | (ClientSession::Aborted, _)
            | (_, Reply::Busy) => next == self,
            (ClientSession::Opening, Reply::Commitment(server_resp1)) => {
                &&& next matches ClientSession::Challenging(state, client_resp)
                &&& S::blinded(pubkey, m, server_resp1, state, client_resp)
            },
            (ClientSession::Challenging(state, _), Reply::Response(server_resp2)) => {
                if S::accepted(pubkey, state, m, server_resp2) {
                    &&& next matches ClientSession::Signed(sig)
                    &&& S::unblinded(state, server_resp2, sig)
                    &&& S::valid(pubkey, m, sig)
                } else {
                    next is Aborted
                }
            },
            _ => next is Aborted,
        }
    }

    /// Takes the session one step on by the signer's reply to the request
    /// that the client sent last, and says how many milliseconds the client
    /// waits before it sends its next request: `CLIENT_BACKOFF_TIME` after a
    /// busy signer, and none otherwise.
    pub fn advance<R: RngCore + CryptoRng>(
        self,
        rng: &mut R,
        pubkey: &S::Pubkey,
        m: &[u8],
        reply: Reply<S>,
    ) -> (out: (ClientSession<S>, u64))
        ensures
            self.advanced(*pubkey, m@, reply, out.0),
            out.1 == if reply is Busy {
                CLIENT_BACKOFF_TIME
            } else {
                0
            },
    {
        match (self, reply) {
            (session, Reply::Busy) => (session, CLIENT_BACKOFF_TIME),
            (ClientSession::Signed(sig), _) => (ClientSession::Signed(sig), 0),
            (ClientSession::Aborted, _) => (ClientSession::Aborted, 0),
            (ClientSession::Opening, Reply::Commitment(server_resp1)) => {
                let (state, client_resp) = S::user1(rng, pubkey, m, &server_resp1);
                (ClientSession::Challenging(state, client_resp), 0)
            },
            (ClientSession::Challenging(state, _), Reply::Response(server_resp2)) => {
                match S::user2(pubkey, &state, m, &server_resp2) {
                    Some(sig) => (ClientSession::Signed(sig), 0),
                    None => (ClientSession::Aborted, 0),
                }
            },
            _ => (ClientSession::Aborted, 0),
        }
    }
}

/// The pause before a response, in milliseconds: the sampled latency, or
/// no pause where the sample is negative.
pub fn pause_millis(sampled_latency: i64) -> (millis: u64)
    ensures
        millis == if sampled_latency < 0 {
            0
        } else {
            sampled_latency
        },
{
    if sampled_latency < 0 {
        0
    } else {
        sampled_latency as u64
    }
}

} // verus!
