use vstd::prelude::*;
use crate::api::{
    decode_plain_request, encode_plain_response, CryptoBox, PlainClientRequest,
    PlainClientResponse,
};
use crate::bytes::{array32, bytes_eq, copy_bytes, zeros};
use crate::contract_error::ContractError;
use crate::crypto::{box_public_key, box_seal, box_shared_key, box_unseal, keypair_from_seed, precompute_key, ZERO_BYTES};
use crate::nonce::{
    monotonic_accepts, monotonic_nonce, nonce_counter, MonotonicNonceGenerator, NonceGenerator,
    BOX_NONCE_LEN, NONCE_CONTEXT_REQUEST, NONCE_CONTEXT_RESPONSE,
};
use crate::quote::{Quote, QUOTE_CONTEXT_SC_CLIENT_TO_CONTRACT};
use crate::random::get_random_bytes;
use crate::request::{opt_text, Request};
use crate::secure_channel::{create_box, open_box, padded, SessionState};

verus! {

/// Length of the secret seed that keypairs are derived from.
pub const SECRET_SEED_LEN: usize = 32;

/// Abstract state of a client session.
pub struct SessionView {
    /// Client short-term public key.
    pub client_public_key: Seq<u8>,
    /// Contract short-term public key.
    pub contract_public_key: Seq<u8>,
    /// Contract short-term private key.
    pub contract_private_key: Seq<u8>,
    /// Cached shared key.
    pub shared_key: Option<Seq<u8>>,
    /// Counter of the next response nonce.
    pub next_send: u64,
    /// Counter of the last accepted request nonce.
    pub last_received: Option<u64>,
    /// Session state.
    pub state: SessionState,
    /// Client MRENCLAVE, where the client attested.
    pub client_mr_enclave: Option<Seq<u8>>,
}

/// The key that boxes of a session are sealed with.
pub open spec fn session_key(s: SessionView) -> Seq<u8> {
    match s.shared_key {
        Some(k) => k,
        None => box_shared_key(s.client_public_key, s.contract_private_key),
    }
}

/// The payload of a box under `key`, or `None` where the box does not open.
pub open spec fn box_plaintext(ciphertext: Seq<u8>, nonce: Seq<u8>, key: Seq<u8>) -> Option<Seq<u8>> {
    match box_unseal(ciphertext, nonce, key) {
        Some(m) => Some(m.subrange(ZERO_BYTES as int, m.len() as int)),
        None => None,
    }
}

/// The request a session reads from a box: its method and payload, where the
/// nonce is fresh, the box opens and the plaintext is a request.
pub open spec fn request_in_box(s: SessionView, nonce: Seq<u8>, payload: Seq<u8>) -> Option<
    (Seq<char>, Seq<u8>),
> {
    if monotonic_accepts(s.last_received, nonce, NONCE_CONTEXT_REQUEST@) {
        match box_plaintext(payload, nonce, session_key(s)) {
            Some(p) => decode_plain_request(p),
            None => None,
        }
    } else {
        None
    }
}

/// Single secure channel session between a client and the contract.
pub struct ClientSession {
    client_public_key: [u8; 32],
    contract_public_key: [u8; 32],
    contract_private_key: [u8; 32],
    shared_key: Option<[u8; 32]>,
    nonce_generator: MonotonicNonceGenerator,
    state: SessionState,
    client_mr_enclave: Option<Vec<u8>>,
}

/// The view of an optional key.
pub open spec fn opt_key(k: Option<[u8; 32]>) -> Option<Seq<u8>> {
    match k {
        Some(a) => Some(a@),
        None => None,
    }
}

/// The view of an optional byte vector.
pub open spec fn opt_vec(v: Option<Vec<u8>>) -> Option<Seq<u8>> {
    match v {
        Some(a) => Some(a@),
        None => None,
    }
}

impl View for ClientSession {
    type V = SessionView;

    closed spec fn view(&self) -> SessionView {
        SessionView {
            client_public_key: self.client_public_key@,
            contract_public_key: self.contract_public_key@,
            contract_private_key: self.contract_private_key@,
            shared_key: opt_key(self.shared_key),
            next_send: self.nonce_generator.next_send(),
            last_received: self.nonce_generator.last_received(),
            state: self.state,
            client_mr_enclave: opt_vec(self.client_mr_enclave),
        }
    }
}

/// Draws a random seed.
pub(crate) fn random_seed() -> (r: Result<[u8; 32], ContractError>)
    ensures
        r matches Err(e) ==> e.message@ == "Keypair generation failed"@,
{
    let mut seed = zeros(SECRET_SEED_LEN);
    match get_random_bytes(&mut seed) {
        Ok(()) => {},
        Err(_) => return Err(ContractError::new("Keypair generation failed")),
    }
    Ok(array32(seed.as_slice()))
}

impl ClientSession {
    /// Creates a session for a client short-term public key, with a fresh
    /// contract short-term keypair and the shared key cached.
    pub fn new(public_key: [u8; 32]) -> (r: Result<ClientSession, ContractError>)
        ensures
            r matches Ok(s) ==> {
                &&& s@.client_public_key == public_key@
                &&& s@.contract_public_key == box_public_key(s@.contract_private_key)
                &&& s@.shared_key == Some(box_shared_key(public_key@, s@.contract_private_key))
                &&& forall|other: Seq<u8>|
                    other.len() == 32 && public_key@ == #[trigger] box_public_key(other)
                        ==> s@.shared_key == Some(box_shared_key(s@.contract_public_key, other))
                &&& s@.next_send == 0
                &&& s@.last_received is None
                &&& s@.state == SessionState::Init
                &&& s@.client_mr_enclave is None
            },
            r matches Err(e) ==> e.message@ == "Keypair generation failed"@,
    {
        let mut state = SessionState::Init;
        let _ = state.transition_to(SessionState::Init);
        let seed = random_seed()?;
        let (contract_public_key, contract_private_key) = keypair_from_seed(&seed);
        let shared = precompute_key(&public_key, &contract_private_key);
        Ok(ClientSession {
            client_public_key: public_key,
            contract_public_key,
            contract_private_key,
            shared_key: Some(shared),
            nonce_generator: MonotonicNonceGenerator::new(),
            state,
            client_mr_enclave: None,
        })
    }

    /// Client short-term public key.
    pub fn get_client_public_key(&self) -> (k: &[u8; 32])
        ensures
            k@ == self@.client_public_key,
    {
        &self.client_public_key
    }

    /// Contract short-term public key.
    pub fn get_contract_public_key(&self) -> (k: &[u8; 32])
        ensures
            k@ == self@.contract_public_key,
    {
        &self.contract_public_key
    }

    /// Current session state.
    pub fn get_state(&self) -> (s: SessionState)
        ensures
            s == self@.state,
    {
        self.state
    }

    /// Opens a box holding an RPC request sent over this session.
    ///
    /// Succeeds exactly where the nonce is fresh, the box opens, its
    /// plaintext is a request and the session is established; a nonce that
    /// was accepted once is never accepted again.
    pub fn open_request_box(&mut self, request: &CryptoBox) -> (r: Result<Request<Vec<u8>>, ContractError>)
        requires
            request.nonce@.len() == BOX_NONCE_LEN,
        ensures
            r is Ok <==> request_in_box(old(self)@, request.nonce@, request.payload@) is Some && old(self)@.state
                == SessionState::Established,
            r matches Ok(req) ==> {
                let (m, p) = request_in_box(old(self)@, request.nonce@, request.payload@).unwrap();
                &&& opt_text(req.method) == Some(m)
                &&& req.message@ == p
                &&& opt_vec(req.public_key) == Some(old(self)@.client_public_key)
                &&& opt_vec(req.mr_enclave) == old(self)@.client_mr_enclave
                &&& req.error is None
            },
            request_in_box(old(self)@, request.nonce@, request.payload@) is Some && old(self)@.state
                != SessionState::Established ==> (r matches Err(e) && e.message@
                == "Invalid method call in this state"@),
            final(self)@ == after_open(old(self)@, request.nonce@),
    {
        let ghost key = session_key(self@);
        let plain = open_box(
            request,
            &NONCE_CONTEXT_REQUEST,
            &mut self.nonce_generator,
            &self.client_public_key,
            &self.contract_private_key,
            &mut self.shared_key,
        );
        let plain = match plain {
            Ok(p) => p,
            Err(e) => {
                return Err(e);
            },
        };
        proof {
            let m = box_unseal(request.payload@, request.nonce@, key).unwrap();
            assert(m == padded(plain@));
            assert(m.subrange(ZERO_BYTES as int, m.len() as int) =~= plain@);
        }
        let plain_request = match PlainClientRequest::parse_from_bytes(plain.as_slice()) {
            Some(x) => x,
            None => return Err(ContractError::new("Malformed message")),
        };
        match self.state {
            SessionState::Established => {},
            _ => {
                return Err(ContractError::new("Invalid method call in this state"));
            },
        }
        let public_key = copy_bytes(self.client_public_key.as_slice());
        let mr_enclave = match &self.client_mr_enclave {
            Some(m) => Some(copy_bytes(m.as_slice())),
            None => None,
        };
        Ok(Request::new(plain_request.payload, plain_request.method, Some(public_key), mr_enclave))
    }

    /// Creates a box holding an RPC response for this session's client.
    ///
    /// The box carries the session's next response counter in the response
    /// context, and the counter then moves on by one.
    pub fn create_response_box(&mut self, response: &PlainClientResponse) -> (r: Result<
        CryptoBox,
        ContractError,
    >)
        ensures
            r matches Ok(b) ==> {
                &&& old(self)@.next_send < u64::MAX
                &&& b.nonce@ == monotonic_nonce(NONCE_CONTEXT_RESPONSE@, old(self)@.next_send)
                &&& b.public_key@.len() == 0
                &&& encode_plain_response(response.code, response.payload@).len() + ZERO_BYTES
                    <= usize::MAX
                &&& b.payload@ == box_seal(
                    padded(encode_plain_response(response.code, response.payload@)),
                    b.nonce@,
                    session_key(old(self)@),
                )
                &&& box_unseal(b.payload@, b.nonce@, session_key(old(self)@)) == Some(
                    padded(encode_plain_response(response.code, response.payload@)),
                )
                &&& final(self)@ == after_response(old(self)@)
            },
            r is Err ==> final(self)@ == old(self)@,
            old(self)@.next_send == u64::MAX ==> (r matches Err(e) && e.message@
                == "Nonce generation failed"@),
            old(self)@.next_send < u64::MAX && encode_plain_response(
                response.code,
                response.payload@,
            ).len() + ZERO_BYTES <= usize::MAX ==> r is Ok,
    {
        if !self.nonce_generator.has_nonce_left() {
            return Err(ContractError::new("Nonce generation failed"));
        }
        let bytes = response.write_to_bytes();
        if bytes.len() > usize::MAX - ZERO_BYTES {
            return Err(ContractError::new("Failed to serialize response"));
        }
        create_box(
            bytes.as_slice(),
            &NONCE_CONTEXT_RESPONSE,
            &mut self.nonce_generator,
            &self.client_public_key,
            &self.contract_private_key,
            &mut self.shared_key,
        )
    }

    /// Verifies a client attestation: the quote must be made for a client to
    /// contract channel and carry this session's client key; the client's
    /// MRENCLAVE is then recorded.
    pub fn verify_client_attestation(&mut self, quote: &Quote) -> (r: Result<(), ContractError>)
        ensures
            r is Ok <==> quote.quote_context@ == QUOTE_CONTEXT_SC_CLIENT_TO_CONTRACT@
                && quote.public_key@ == old(self)@.client_public_key,
            quote.quote_context@ != QUOTE_CONTEXT_SC_CLIENT_TO_CONTRACT@ ==> (r matches Err(e)
                && e.message@ == "Client attestation failed: invalid context"@),
            quote.quote_context@ == QUOTE_CONTEXT_SC_CLIENT_TO_CONTRACT@ && quote.public_key@
                != old(self)@.client_public_key ==> (r matches Err(e) && e.message@
                == "Client attestation failed: invalid public key"@),
            r is Ok ==> final(self)@ == (SessionView {
                client_mr_enclave: Some(quote.mr_enclave@),
                ..old(self)@
            }),
            r is Err ==> final(self)@ == old(self)@,
    {
        if !bytes_eq(quote.quote_context.as_slice(), QUOTE_CONTEXT_SC_CLIENT_TO_CONTRACT.as_slice()) {
            return Err(ContractError::new("Client attestation failed: invalid context"));
        }
        if !bytes_eq(quote.public_key.as_slice(), self.client_public_key.as_slice()) {
            return Err(ContractError::new("Client attestation failed: invalid public key"));
        }
        self.client_mr_enclave = Some(copy_bytes(quote.mr_enclave.as_slice()));
        Ok(())
    }

    /// Moves the session to a new state where the transition is allowed.
    pub fn transition_to(&mut self, new_state: SessionState) -> (r: Result<(), ContractError>)
        ensures
            r is Ok <==> crate::secure_channel::transition_allowed(old(self)@.state, new_state),
            r is Ok ==> final(self)@ == (SessionView { state: new_state, ..old(self)@ }),
            r is Err ==> final(self)@ == old(self)@,
    {
        self.state.transition_to(new_state)
    }
}

/// The state a session is in after it was asked to open a request box:
/// the nonce is recorded where it was fresh, and the shared key is cached.
pub open spec fn after_open(s: SessionView, nonce: Seq<u8>) -> SessionView {
    SessionView {
        last_received: if monotonic_accepts(s.last_received, nonce, NONCE_CONTEXT_REQUEST@) {
            Some(nonce_counter(nonce))
        } else {
            s.last_received
        },
        shared_key: Some(session_key(s)),
        ..s
    }
}

/// The state a session is in after it sealed a response: the response
/// counter moved on by one, and the shared key is cached.
pub open spec fn after_response(s: SessionView) -> SessionView {
    SessionView { next_send: (s.next_send + 1) as u64, shared_key: Some(session_key(s)), ..s }
}

/// Whether no two sessions belong to the same client key.
pub open spec fn keys_distinct(svs: Seq<SessionView>) -> bool {
    forall|i: int, j: int|
        0 <= i < svs.len() && 0 <= j < svs.len() && i != j ==> svs[i].client_public_key
            != svs[j].client_public_key
}

/// Whether some session belongs to client key `k`.
pub open spec fn has_key(svs: Seq<SessionView>, k: Seq<u8>) -> bool {
    exists|i: int| 0 <= i < svs.len() && svs[i].client_public_key == k
}

/// Sessions by client key.
pub open spec fn session_map(svs: Seq<SessionView>) -> Map<Seq<u8>, SessionView> {
    Map::new(
        |k: Seq<u8>| has_key(svs, k),
        |k: Seq<u8>| svs[choose|i: int| 0 <= i < svs.len() && svs[i].client_public_key == k],
    )
}

/// The session at a position is the one the map holds under its key.
pub(crate) proof fn lemma_map_at(svs: Seq<SessionView>, i: int)
    requires
        keys_distinct(svs),
        0 <= i < svs.len(),
    ensures
        session_map(svs).dom().contains(svs[i].client_public_key),
        session_map(svs)[svs[i].client_public_key] == svs[i],
{
    let k = svs[i].client_public_key;
    assert(has_key(svs, k));
    let j = choose|j: int| 0 <= j < svs.len() && svs[j].client_public_key == k;
    assert(j == i);
}

/// Adding a session for a new key adds it to the map.
pub(crate) proof fn lemma_map_push(svs: Seq<SessionView>, v: SessionView)
    requires
        keys_distinct(svs),
        !has_key(svs, v.client_public_key),
    ensures
        keys_distinct(svs.push(v)),
        session_map(svs.push(v)) == session_map(svs).insert(v.client_public_key, v),
{
    let t = svs.push(v);
    assert forall|i: int, j: int|
        0 <= i < t.len() && 0 <= j < t.len() && i != j implies t[i].client_public_key
            != t[j].client_public_key by {
        if i < svs.len() && j < svs.len() {
        } else if i < svs.len() {
            assert(svs[i].client_public_key != v.client_public_key);
        } else {
            assert(svs[j].client_public_key != v.client_public_key);
        }
    }
    let m = session_map(svs).insert(v.client_public_key, v);
    assert forall|k: Seq<u8>| #[trigger] session_map(t).dom().contains(k) == m.dom().contains(k) by {
        if has_key(svs, k) {
            let i = choose|i: int| 0 <= i < svs.len() && svs[i].client_public_key == k;
            assert(t[i].client_public_key == k);
        }
        if has_key(t, k) && k != v.client_public_key {
            let i = choose|i: int| 0 <= i < t.len() && t[i].client_public_key == k;
            assert(svs[i].client_public_key == k);
        }
        if k == v.client_public_key {
            assert(t[svs.len() as int].client_public_key == k);
        }
    }
    assert forall|k: Seq<u8>| #[trigger] session_map(t).dom().contains(k) implies session_map(t)[k]
        == m[k] by {
        let i = choose|i: int| 0 <= i < t.len() && t[i].client_public_key == k;
        lemma_map_at(t, i);
        if i < svs.len() {
            lemma_map_at(svs, i);
        }
    }
    assert(session_map(t) =~= m);
}

/// Replacing a session by one with the same key replaces it in the map.
pub(crate) proof fn lemma_map_update(svs: Seq<SessionView>, i: int, v: SessionView)
    requires
        keys_distinct(svs),
        0 <= i < svs.len(),
        v.client_public_key == svs[i].client_public_key,
    ensures
        keys_distinct(svs.update(i, v)),
        session_map(svs.update(i, v)) == session_map(svs).insert(v.client_public_key, v),
{
    let t = svs.update(i, v);
    assert forall|a: int, b: int|
        0 <= a < t.len() && 0 <= b < t.len() && a != b implies t[a].client_public_key
            != t[b].client_public_key by {
        assert(t[a].client_public_key == svs[a].client_public_key);
        assert(t[b].client_public_key == svs[b].client_public_key);
    }
    let m = session_map(svs).insert(v.client_public_key, v);
    assert forall|k: Seq<u8>| #[trigger] session_map(t).dom().contains(k) == m.dom().contains(k) by {
        if has_key(svs, k) {
            let a = choose|a: int| 0 <= a < svs.len() && svs[a].client_public_key == k;
            assert(t[a].client_public_key == k);
        }
        if has_key(t, k) {
            let a = choose|a: int| 0 <= a < t.len() && t[a].client_public_key == k;
            assert(svs[a].client_public_key == k);
        }
    }
    assert forall|k: Seq<u8>| #[trigger] session_map(t).dom().contains(k) implies session_map(t)[k]
        == m[k] by {
        let a = choose|a: int| 0 <= a < t.len() && t[a].client_public_key == k;
        lemma_map_at(t, a);
        lemma_map_at(svs, a);
    }
    assert(session_map(t) =~= m);
}

/// Removing a session removes its key from the map.
pub(crate) proof fn lemma_map_remove(svs: Seq<SessionView>, i: int)
    requires
        keys_distinct(svs),
        0 <= i < svs.len(),
    ensures
        keys_distinct(svs.remove(i)),
        session_map(svs.remove(i)) == session_map(svs).remove(svs[i].client_public_key),
{
    let t = svs.remove(i);
    let key = svs[i].client_public_key;
    assert forall|a: int, b: int|
        0 <= a < t.len() && 0 <= b < t.len() && a != b implies t[a].client_public_key
            != t[b].client_public_key by {
        let a2 = if a < i { a } else { a + 1 };
        let b2 = if b < i { b } else { b + 1 };
        assert(t[a] == svs[a2]);
        assert(t[b] == svs[b2]);
    }
    let m = session_map(svs).remove(key);
    assert forall|k: Seq<u8>| #[trigger] session_map(t).dom().contains(k) == m.dom().contains(k) by {
        if has_key(svs, k) && k != key {
            let a = choose|a: int| 0 <= a < svs.len() && svs[a].client_public_key == k;
            assert(a != i);
            let a2 = if a < i { a } else { a - 1 };
            assert(t[a2] == svs[a]);
        }
        if has_key(t, k) {
            let a = choose|a: int| 0 <= a < t.len() && t[a].client_public_key == k;
            let a2 = if a < i { a } else { a + 1 };
            assert(t[a] == svs[a2]);
            assert(a2 != i);
        }
    }
    assert forall|k: Seq<u8>| #[trigger] session_map(t).dom().contains(k) implies session_map(t)[k]
        == m[k] by {
        let a = choose|a: int| 0 <= a < t.len() && t[a].client_public_key == k;
        let a2 = if a < i { a } else { a + 1 };
        assert(t[a] == svs[a2]);
        lemma_map_at(t, a);
        lemma_map_at(svs, a2);
    }
    assert(session_map(t) =~= m);
}

/// A session never accepts the same request box twice: once a box opened,
/// the session refuses it.
pub proof fn law_request_replay_rejected(s: SessionView, nonce: Seq<u8>, payload: Seq<u8>)
    requires
        request_in_box(s, nonce, payload) is Some,
    ensures
        request_in_box(after_open(s, nonce), nonce, payload) is None,
{
}

} // verus!
