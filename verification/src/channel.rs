use vstd::prelude::*;
use crate::api::{
    encode_init_response_box, ChannelInitResponse, ChannelInitResponseBox, ContractInitRequest,
    ContractInitResponse, ContractRestoreRequest, ContractRestoreResponse, CryptoBox,
    PlainClientResponse,
};
use crate::bytes::{array32, bytes_eq};
use crate::codec::bytes_entry;
use crate::contract_error::ContractError;
use crate::crypto::{box_public_key, box_seal, box_shared_key, box_unseal, keypair_from_seed, ZERO_BYTES};
use crate::nonce::{nonce_prefix, RandomNonceGenerator, BOX_NONCE_LEN, NONCE_CONTEXT_INIT};
use crate::quote::{
    check_quote_request, AttestationReport, Quote, QUOTE_CONTEXT_SC_CLIENT_TO_CONTRACT,
    SGX_REPORT_DATA_SIZE,
};
use crate::bytes::zero_seq;
use crate::request::Request;
use crate::secure_channel::{create_box, padded, SessionState};
use crate::session::{
    after_open, after_response, has_key, keys_distinct, lemma_map_at, lemma_map_push,
    lemma_map_remove, lemma_map_update, random_seed, request_in_box, session_map, ClientSession,
    SessionView,
};
use crate::wire::{encode_field, encode_fields, field_tag, lemma_varint_len, SpecField, SpecFieldValue};

verus! {

/// Abstract state of the secure channel context.
pub struct ChannelView {
    /// Secret seed that the long-term keypair was derived from.
    pub seed: Seq<u8>,
    /// Long-term public key.
    pub public_key: Seq<u8>,
    /// Long-term private key.
    pub private_key: Seq<u8>,
    /// Whether a keypair has been configured.
    pub ready: bool,
    /// Sessions by client short-term public key.
    pub sessions: Map<Seq<u8>, SessionView>,
}

/// Secure channel context: the contract's long-term keypair and its
/// sessions with clients.
pub struct SecureChannelContext {
    seed: [u8; 32],
    public_key: [u8; 32],
    private_key: [u8; 32],
    ready: bool,
    sessions: Vec<ClientSession>,
    nonce_generator: RandomNonceGenerator,
    attestation_report: AttestationReport,
}

/// The views of a vector of sessions.
pub open spec fn session_views(v: Seq<ClientSession>) -> Seq<SessionView> {
    v.map_values(|s: ClientSession| s@)
}

impl View for SecureChannelContext {
    type V = ChannelView;

    closed spec fn view(&self) -> ChannelView {
        ChannelView {
            seed: self.seed@,
            public_key: self.public_key@,
            private_key: self.private_key@,
            ready: self.ready,
            sessions: session_map(session_views(self.sessions@)),
        }
    }
}

/// Whether a context view is consistent: once ready, the long-term keypair
/// is the one derived from the seed.
pub open spec fn channel_keys_wf(v: ChannelView) -> bool {
    v.ready ==> v.private_key == v.seed && v.public_key == box_public_key(v.seed)
}

impl SecureChannelContext {
    /// Internal consistency of the context.
    pub closed spec fn wf(&self) -> bool {
        &&& keys_distinct(session_views(self.sessions@))
        &&& channel_keys_wf(self@)
        &&& self.attestation_report.body@.len() == 0
        &&& self.attestation_report.signature@.len() == 0
        &&& self.attestation_report.certificates@.len() == 0
    }

    /// Creates a context that is not ready and has no sessions.
    pub fn new() -> (r: Result<SecureChannelContext, ContractError>)
        ensures
            r matches Ok(c) ==> c.wf() && !c@.ready && c@.sessions.dom().is_empty()
                && c@.seed == seq![0u8; 32],
            r matches Err(e) ==> e.message@ == "Failed to initialize random nonce generator"@,
    {
        let nonce_generator = RandomNonceGenerator::new()?;
        let c = SecureChannelContext {
            seed: [0u8; 32],
            public_key: [0u8; 32],
            private_key: [0u8; 32],
            ready: false,
            sessions: Vec::new(),
            nonce_generator,
            attestation_report: AttestationReport::new(),
        };
        assert(session_views(c.sessions@) =~= Seq::<SessionView>::empty());
        assert(c@.sessions.dom() =~= Set::<Seq<u8>>::empty());
        assert(c.seed@ =~= seq![0u8; 32]);
        Ok(c)
    }

    /// Channel readiness status.
    pub fn is_ready(&self) -> (r: bool)
        ensures
            r == self@.ready,
    {
        self.ready
    }

    /// Checks channel readiness.
    pub fn ensure_ready(&self) -> (r: Result<(), ContractError>)
        ensures
            r is Ok <==> self@.ready,
            r matches Err(e) ==> e.message@ == "Secure channel not ready"@,
    {
        if !self.ready {
            return Err(ContractError::new("Secure channel not ready"));
        }
        Ok(())
    }

    /// Configures the long-term keypair derived from `seed`; refused once a
    /// keypair is configured.
    pub fn set_keypair(&mut self, seed: &[u8; 32]) -> (r: Result<(), ContractError>)
        requires
            old(self).wf(),
        ensures
            final(self).wf(),
            r is Ok <==> !old(self)@.ready,
            r is Ok ==> final(self)@ == (ChannelView {
                seed: seed@,
                public_key: box_public_key(seed@),
                private_key: seed@,
                ready: true,
                ..old(self)@
            }),
            r is Err ==> final(self)@ == old(self)@,
            r matches Err(e) ==> e.message@ == "Secure channel already initialized"@,
    {
        if self.ready {
            return Err(ContractError::new("Secure channel already initialized"));
        }
        let (public_key, private_key) = keypair_from_seed(seed);
        self.public_key = public_key;
        self.private_key = private_key;
        self.seed = *seed;
        self.ready = true;
        Ok(())
    }

    /// Generates and configures a new random long-term keypair.
    pub fn generate_keypair(&mut self) -> (r: Result<(), ContractError>)
        requires
            old(self).wf(),
        ensures
            final(self).wf(),
            r is Ok ==> !old(self)@.ready && final(self)@.ready && final(self)@.sessions
                == old(self)@.sessions,
            r is Err ==> final(self)@ == old(self)@,
            r matches Err(e) ==> e.message@ == "Keypair generation failed"@ || (old(self)@.ready
                && e.message@ == "Secure channel already initialized"@),
            old(self)@.ready ==> r is Err,
    {
        let seed = match random_seed() {
            Ok(s) => s,
            Err(_) => return Err(ContractError::new("Keypair generation failed")),
        };
        self.set_keypair(&seed)
    }

    /// Unsealing a keypair needs SGX sealing, which this build does not have.
    pub fn unseal_keypair(&mut self, _sealed_keys: &[u8]) -> (r: Result<(), ContractError>)
        requires
            old(self).wf(),
        ensures
            final(self).wf(),
            r matches Err(e) && e.message@ == "Only supported in SGX builds"@,
            final(self)@ == old(self)@,
    {
        Err(ContractError::new("Only supported in SGX builds"))
    }

    /// Sealing the keypair needs SGX sealing, which this build does not have.
    pub fn get_sealed_keypair(&self) -> (r: Result<Vec<u8>, ContractError>)
        ensures
            r matches Err(e) && e.message@ == "Only supported in SGX builds"@,
    {
        Err(ContractError::new("Only supported in SGX builds"))
    }

    /// The contract's long-term public key.
    pub fn get_public_key(&self) -> (k: &[u8; 32])
        ensures
            k@ == self@.public_key,
    {
        &self.public_key
    }

    /// The current attestation report. Reports are only made in SGX builds,
    /// so in this build it is the empty report the context was created with.
    pub fn get_attestation_report(&self) -> (r: &AttestationReport)
        ensures
            self.wf() ==> r.body@.len() == 0 && r.signature@.len() == 0
                && r.certificates@.len() == 0,
    {
        &self.attestation_report
    }

    /// Converts a client short-term public key into a session key.
    pub fn get_session_key(public_key: &[u8]) -> (r: Result<[u8; 32], ContractError>)
        ensures
            r is Ok <==> public_key@.len() == 32,
            r matches Ok(k) ==> k@ == public_key@,
            r matches Err(e) ==> e.message@ == "Bad short-term client key"@,
    {
        if public_key.len() != 32 {
            return Err(ContractError::new("Bad short-term client key"));
        }
        Ok(array32(public_key))
    }

    /// Position of the session of a client key, if any.
    fn find_session(&self, key: &[u8; 32]) -> (r: Option<usize>)
        requires
            self.wf(),
        ensures
            r matches Some(i) ==> i < self.sessions@.len() && self.sessions@[i as int]@.client_public_key
                == key@,
            r is None <==> !self@.sessions.dom().contains(key@),
    {
        let ghost svs = session_views(self.sessions@);
        let mut i: usize = 0;
        while i < self.sessions.len()
            invariant
                i <= self.sessions@.len(),
                svs == session_views(self.sessions@),
                forall|j: int| 0 <= j < i ==> svs[j].client_public_key != key@,
            decreases self.sessions@.len() - i,
        {
            if bytes_eq(self.sessions[i].get_client_public_key().as_slice(), key.as_slice()) {
                assert(svs[i as int].client_public_key == key@);
                assert(has_key(svs, key@));
                return Some(i);
            }
            i = i + 1;
        }
        assert(!has_key(svs, key@));
        None
    }
}

/// The encoding of a channel initialization box for a thirty-two byte key is
/// short.
proof fn lemma_init_box_len(k: Seq<u8>)
    requires
        k.len() == 32,
    ensures
        encode_init_response_box(k).len() <= 52,
{
    let f = SpecField { number: 1, value: SpecFieldValue::Bytes(k) };
    assert(bytes_entry(1, k) =~= seq![f]);
    assert(seq![f].drop_first() =~= Seq::<SpecField>::empty());
    lemma_varint_len(field_tag(f));
    lemma_varint_len(32);
    assert(encode_fields(Seq::<SpecField>::empty()) =~= Seq::<u8>::empty());
    assert(encode_fields(seq![f]) =~= encode_field(f));
}

/// The MRENCLAVE that a session records for an optional client attestation.
pub open spec fn attested_enclave(q: Option<Quote>) -> Option<Seq<u8>> {
    match q {
        Some(q) => Some(q.mr_enclave@),
        None => None,
    }
}

/// Whether an optional client attestation is acceptable for client key `k`.
pub open spec fn attestation_valid(q: Option<Quote>, k: Seq<u8>) -> bool {
    match q {
        Some(q) => q.quote_context@ == QUOTE_CONTEXT_SC_CLIENT_TO_CONTRACT@ && q.public_key@ == k,
        None => true,
    }
}

/// How creating a session for a fresh thirty-two byte key `k` on a ready
/// context may fail, with `message`: drawing the session's keypair fails, or
/// the client's quote `q` is not for the secure channel, or not for the key.
pub open spec fn session_failure(q: Option<Quote>, k: Seq<u8>, message: Seq<char>) -> bool {
    ||| message == "Keypair generation failed"@
    ||| (q matches Some(quote) && quote.quote_context@ != QUOTE_CONTEXT_SC_CLIENT_TO_CONTRACT@
        && message == "Client attestation failed: invalid context"@)
    ||| (q matches Some(quote) && quote.quote_context@ == QUOTE_CONTEXT_SC_CLIENT_TO_CONTRACT@
        && quote.public_key@ != k && message == "Client attestation failed: invalid public key"@)
}

impl SecureChannelContext {
    /// Creates a new client session.
    ///
    /// Returns a cryptographic box, encrypted to the client short-term key
    /// and authenticated by the contract long-term key, that holds the
    /// contract's short-term public key for the session.
    pub fn create_session(&mut self, public_key: &[u8], client_attestation: Option<Quote>) -> (r:
        Result<CryptoBox, ContractError>)
        requires
            old(self).wf(),
        ensures
            final(self).wf(),
            !old(self)@.ready ==> (r matches Err(e) && e.message@ == "Secure channel not ready"@),
            old(self)@.ready && public_key@.len() != 32 ==> (r matches Err(e) && e.message@
                == "Bad short-term client key"@),
            old(self)@.ready && public_key@.len() == 32 && old(self)@.sessions.dom().contains(
                public_key@,
            ) ==> (r matches Err(e) && e.message@ == "Session already exists"@),
            r is Err ==> final(self)@ == old(self)@,
            old(self)@.ready && public_key@.len() == 32 && !old(self)@.sessions.dom().contains(
                public_key@,
            ) ==> (r matches Err(e) ==> session_failure(client_attestation, public_key@, e.message@)),
            r matches Ok(b) ==> {
                let s = final(self)@.sessions[public_key@];
                &&& old(self)@.ready
                &&& public_key@.len() == 32
                &&& !old(self)@.sessions.dom().contains(public_key@)
                &&& attestation_valid(client_attestation, public_key@)
                &&& final(self)@ == (ChannelView {
                    sessions: old(self)@.sessions.insert(public_key@, s),
                    ..old(self)@
                })
                &&& s.client_public_key == public_key@
                &&& s.contract_public_key == box_public_key(s.contract_private_key)
                &&& s.shared_key == Some(box_shared_key(public_key@, s.contract_private_key))
                &&& s.next_send == 0
                &&& s.last_received is None
                &&& s.state == SessionState::Established
                &&& s.client_mr_enclave == attested_enclave(client_attestation)
                &&& b.nonce@.len() == BOX_NONCE_LEN
                &&& b.public_key@.len() == 0
                &&& nonce_prefix(b.nonce@) == NONCE_CONTEXT_INIT@
                &&& b.payload@ == box_seal(
                    padded(encode_init_response_box(s.contract_public_key)),
                    b.nonce@,
                    box_shared_key(public_key@, old(self)@.private_key),
                )
                &&& forall|other: Seq<u8>|
                    other.len() == 32 && public_key@ == #[trigger] box_public_key(other) ==> {
                        &&& s.shared_key == Some(box_shared_key(s.contract_public_key, other))
                        &&& box_unseal(
                            b.payload@,
                            b.nonce@,
                            box_shared_key(old(self)@.public_key, other),
                        ) == Some(padded(encode_init_response_box(s.contract_public_key)))
                    }
            },
    {
        self.ensure_ready()?;
        let key = SecureChannelContext::get_session_key(public_key)?;
        if self.find_session(&key).is_some() {
            return Err(ContractError::new("Session already exists"));
        }
        let mut session = ClientSession::new(key)?;
        let response_box = ChannelInitResponseBox {
            short_term_public_key: crate::bytes::copy_bytes(session.get_contract_public_key().as_slice()),
        };
        match client_attestation {
            Some(report) => session.verify_client_attestation(&report)?,
            None => {},
        }
        session.transition_to(SessionState::Established)?;
        let bytes = response_box.write_to_bytes();
        proof {
            lemma_init_box_len(session@.contract_public_key);
        }
        let mut shared_key: Option<[u8; 32]> = None;
        let crypto_box = create_box(
            bytes.as_slice(),
            &NONCE_CONTEXT_INIT,
            &mut self.nonce_generator,
            session.get_client_public_key(),
            &self.private_key,
            &mut shared_key,
        )?;
        let ghost before = session_views(self.sessions@);
        let ghost sv = session@;
        self.sessions.push(session);
        proof {
            assert(session_views(self.sessions@) =~= before.push(sv));
            lemma_map_push(before, sv);
        }
        Ok(crypto_box)
    }

    /// Looks up the session of a client key.
    pub fn get_session(&self, public_key: &[u8]) -> (r: Result<&ClientSession, ContractError>)
        requires
            self.wf(),
        ensures
            r is Ok <==> self@.ready && public_key@.len() == 32 && self@.sessions.dom().contains(
                public_key@,
            ),
            r matches Ok(s) ==> s@ == self@.sessions[public_key@],
            !self@.ready ==> (r matches Err(e) && e.message@ == "Secure channel not ready"@),
            self@.ready && public_key@.len() != 32 ==> (r matches Err(e) && e.message@
                == "Bad short-term client key"@),
            self@.ready && public_key@.len() == 32 && !self@.sessions.dom().contains(public_key@)
                ==> (r matches Err(e) && e.message@ == "Client session not found"@),
    {
        self.ensure_ready()?;
        let key = SecureChannelContext::get_session_key(public_key)?;
        match self.find_session(&key) {
            Some(i) => {
                proof {
                    lemma_map_at(session_views(self.sessions@), i as int);
                }
                Ok(&self.sessions[i])
            },
            None => Err(ContractError::new("Client session not found")),
        }
    }

    /// Closes the session of a client key, if there is one.
    pub fn close_session(&mut self, public_key: &[u8]) -> (r: Result<(), ContractError>)
        requires
            old(self).wf(),
        ensures
            final(self).wf(),
            r is Ok <==> public_key@.len() == 32,
            r is Ok ==> final(self)@ == (ChannelView {
                sessions: old(self)@.sessions.remove(public_key@),
                ..old(self)@
            }),
            r is Err ==> final(self)@ == old(self)@,
            r matches Err(e) ==> e.message@ == "Bad short-term client key"@,
    {
        let key = SecureChannelContext::get_session_key(public_key)?;
        match self.find_session(&key) {
            Some(i) => {
                let ghost before = session_views(self.sessions@);
                let _ = self.sessions.remove(i);
                proof {
                    assert(session_views(self.sessions@) =~= before.remove(i as int));
                    lemma_map_remove(before, i as int);
                }
            },
            None => {
                assert(old(self)@.sessions.remove(public_key@) =~= old(self)@.sessions);
            },
        }
        Ok(())
    }
}

impl SecureChannelContext {
    /// Opens a cryptographic box holding an RPC request, in the session of
    /// the client key the box names.
    pub fn open_request_box(&mut self, request: &CryptoBox) -> (r: Result<Request<Vec<u8>>, ContractError>)
        requires
            old(self).wf(),
            old(self)@.ready && request.public_key@.len() == 32 && old(self)@.sessions.dom().contains(
                request.public_key@,
            ) ==> request.nonce@.len() == BOX_NONCE_LEN,
        ensures
            final(self).wf(),
            ({
                let k = request.public_key@;
                let found = old(self)@.ready && k.len() == 32 && old(self)@.sessions.dom().contains(k);
                let s = old(self)@.sessions[k];
                &&& !old(self)@.ready ==> (r matches Err(e) && e.message@
                    == "Secure channel not ready"@)
                &&& old(self)@.ready && k.len() != 32 ==> (r matches Err(e) && e.message@
                    == "Bad short-term client key"@)
                &&& old(self)@.ready && k.len() == 32 && !old(self)@.sessions.dom().contains(k) ==> (
                r matches Err(e) && e.message@ == "Client session not found"@)
                &&& !found ==> final(self)@ == old(self)@
                &&& found ==> final(self)@ == (ChannelView {
                    sessions: old(self)@.sessions.insert(k, after_open(s, request.nonce@)),
                    ..old(self)@
                })
                &&& r is Ok <==> found && request_in_box(s, request.nonce@, request.payload@) is Some && s.state
                    == SessionState::Established
                &&& r matches Ok(req) ==> {
                    let (m, p) = request_in_box(s, request.nonce@, request.payload@).unwrap();
                    &&& crate::request::opt_text(req.method) == Some(m)
                    &&& req.message@ == p
                    &&& crate::session::opt_vec(req.public_key) == Some(k)
                    &&& crate::session::opt_vec(req.mr_enclave) == s.client_mr_enclave
                    &&& req.error is None
                }
            }),
    {
        self.ensure_ready()?;
        let key = SecureChannelContext::get_session_key(request.public_key.as_slice())?;
        let i = match self.find_session(&key) {
            Some(i) => i,
            None => return Err(ContractError::new("Client session not found")),
        };
        proof {
            lemma_map_at(session_views(self.sessions@), i as int);
        }
        let mut session = self.sessions.remove(i);
        let r = session.open_request_box(request);
        self.sessions.insert(i, session);
        proof {
            assert(self.sessions@ =~= old(self).sessions@.update(i as int, session));
            let before = session_views(old(self).sessions@);
            assert(session_views(self.sessions@) =~= before.update(i as int, session@));
            lemma_map_update(before, i as int, session@);
        }
        r
    }

    /// Creates a cryptographic box holding an RPC response, in the session of
    /// the given client key.
    pub fn create_response_box(&mut self, public_key: &[u8], response: &PlainClientResponse) -> (r:
        Result<CryptoBox, ContractError>)
        requires
            old(self).wf(),
        ensures
            final(self).wf(),
            ({
                let k = public_key@;
                let found = old(self)@.ready && k.len() == 32 && old(self)@.sessions.dom().contains(k);
                let s = old(self)@.sessions[k];
                &&& !old(self)@.ready ==> (r matches Err(e) && e.message@
                    == "Secure channel not ready"@)
                &&& old(self)@.ready && k.len() != 32 ==> (r matches Err(e) && e.message@
                    == "Bad short-term client key"@)
                &&& old(self)@.ready && k.len() == 32 && !old(self)@.sessions.dom().contains(k) ==> (
                r matches Err(e) && e.message@ == "Client session not found"@)
                &&& r is Err ==> final(self)@ == old(self)@
                &&& found && s.next_send < u64::MAX && crate::api::encode_plain_response(
                    response.code,
                    response.payload@,
                ).len() + crate::crypto::ZERO_BYTES <= usize::MAX ==> r is Ok
                &&& r matches Ok(b) ==> {
                    &&& found
                    &&& s.next_send < u64::MAX
                    &&& b.public_key@.len() == 0
                    &&& crate::api::encode_plain_response(response.code, response.payload@).len()
                        + crate::crypto::ZERO_BYTES <= usize::MAX
                    &&& b.nonce@ == crate::nonce::monotonic_nonce(
                        crate::nonce::NONCE_CONTEXT_RESPONSE@,
                        s.next_send,
                    )
                    &&& b.payload@ == box_seal(
                        padded(crate::api::encode_plain_response(response.code, response.payload@)),
                        b.nonce@,
                        crate::session::session_key(s),
                    )
                    &&& crate::crypto::box_unseal(b.payload@, b.nonce@, crate::session::session_key(s))
                        == Some(padded(crate::api::encode_plain_response(response.code, response.payload@)))
                    &&& final(self)@ == (ChannelView {
                        sessions: old(self)@.sessions.insert(k, after_response(s)),
                        ..old(self)@
                    })
                }
            }),
    {
        self.ensure_ready()?;
        let key = SecureChannelContext::get_session_key(public_key)?;
        let i = match self.find_session(&key) {
            Some(i) => i,
            None => return Err(ContractError::new("Client session not found")),
        };
        proof {
            lemma_map_at(session_views(self.sessions@), i as int);
        }
        let mut session = self.sessions.remove(i);
        let r = session.create_response_box(response);
        self.sessions.insert(i, session);
        proof {
            assert(self.sessions@ =~= old(self).sessions@.update(i as int, session));
            let before = session_views(old(self).sessions@);
            assert(session_views(self.sessions@) =~= before.update(i as int, session@));
            lemma_map_update(before, i as int, session@);
            if r is Err {
                assert(old(self)@.sessions.insert(key@, session@) =~= old(self)@.sessions);
            }
        }
        r
    }
}

/// Copies an attestation report.
fn copy_report(r: &AttestationReport) -> (c: AttestationReport)
    ensures
        c.body@ == r.body@,
        c.signature@ == r.signature@,
        c.certificates@ == r.certificates@,
{
    AttestationReport {
        body: crate::bytes::copy_bytes(r.body.as_slice()),
        signature: crate::bytes::copy_bytes(r.signature.as_slice()),
        certificates: crate::bytes::copy_bytes(r.certificates.as_slice()),
    }
}

/// How contract initialization fails, from context `before` to context
/// `after`: the random source fails and nothing changes; or the context
/// already has a keypair and nothing changes; or a keypair is generated and
/// configured, and sealing it is refused because this build has no SGX.
pub open spec fn contract_init_failure(before: ChannelView, after: ChannelView, message: Seq<char>) -> bool {
    ||| (message == "Keypair generation failed"@ && after == before)
    ||| (before.ready && message == "Secure channel already initialized"@ && after == before)
    ||| (!before.ready && after.ready && after.sessions == before.sessions && message
        == "Only supported in SGX builds"@)
}

/// Initializes the contract: generates a long-term keypair and returns it
/// sealed. Sealing needs SGX, so in this build the call fails after the
/// keypair is generated.
pub fn contract_init(channel: &mut SecureChannelContext, _request: &ContractInitRequest) -> (r:
    Result<ContractInitResponse, ContractError>)
    requires
        old(channel).wf(),
    ensures
        final(channel).wf(),
        final(channel)@.sessions == old(channel)@.sessions,
        old(channel)@.ready ==> final(channel)@ == old(channel)@,
        r matches Err(e) && contract_init_failure(old(channel)@, final(channel)@, e.message@),
{
    channel.generate_keypair()?;
    let public_key = crate::bytes::copy_bytes(channel.get_public_key().as_slice());
    let sealed_keys = channel.get_sealed_keypair()?;
    Ok(ContractInitResponse { public_key, sealed_keys, mr_enclave: Vec::new() })
}

/// Restores the contract from a sealed keypair. Unsealing needs SGX, so in
/// this build the call fails and changes nothing.
pub fn contract_restore(channel: &mut SecureChannelContext, request: &ContractRestoreRequest) -> (r:
    Result<ContractRestoreResponse, ContractError>)
    requires
        old(channel).wf(),
    ensures
        final(channel).wf(),
        r matches Err(e) && e.message@ == "Only supported in SGX builds"@,
        final(channel)@ == old(channel)@,
{
    channel.unseal_keypair(request.sealed_keys.as_slice())?;
    let public_key = crate::bytes::copy_bytes(channel.get_public_key().as_slice());
    Ok(ContractRestoreResponse { public_key })
}

/// How initializing a secure channel goes, from context `before`, for the
/// client short-term key `k`, the quote `q` of the client's attestation
/// report (where the request carried one and it verified), and whether the
/// enclave requires client attestation: the result `r`, and `after` the
/// context afterwards.
///
/// The context must be ready; a required attestation must be there; the key
/// must be a fresh thirty-two byte key; a quote must be for the secure
/// channel and the key. Each failure is reported with its message and changes
/// nothing. Where all of that holds, the session's fresh keypair and nonce
/// are drawn at random, so success is not owed; where it comes, an
/// established session for the key is added and its short-term public key
/// goes back sealed for the client, with the context's attestation report.
pub open spec fn channel_init_result(
    before: ChannelView,
    k: Seq<u8>,
    q: Option<Quote>,
    required: bool,
    r: Result<ChannelInitResponse, ContractError>,
    after: ChannelView,
) -> bool {
    let attested = !(required && q is None);
    &&& !before.ready ==> (r matches Err(e) && e.message@ == "Secure channel not ready"@)
    &&& before.ready && !attested ==> (r matches Err(e) && e.message@
        == "Client attestation required"@)
    &&& before.ready && attested && k.len() != 32 ==> (r matches Err(e) && e.message@
        == "Bad short-term client key"@)
    &&& before.ready && attested && k.len() == 32 && before.sessions.dom().contains(k) ==> (r matches Err(
        e,
    ) && e.message@ == "Session already exists"@)
    &&& !attestation_valid(q, k) ==> r is Err
    &&& before.ready && attested && k.len() == 32 && !before.sessions.dom().contains(k) ==> (r matches Err(
        e,
    ) ==> session_failure(q, k, e.message@))
    &&& r is Err ==> after == before
    &&& r matches Ok(res) ==> {
        let s = after.sessions[k];
        &&& before.ready
        &&& attested
        &&& k.len() == 32
        &&& !before.sessions.dom().contains(k)
        &&& attestation_valid(q, k)
        &&& after == (ChannelView { sessions: before.sessions.insert(k, s), ..before })
        &&& s.state == SessionState::Established
        &&& s.client_public_key == k
        &&& s.contract_public_key == box_public_key(s.contract_private_key)
        &&& s.client_mr_enclave == attested_enclave(q)
        &&& s.next_send == 0
        &&& s.last_received is None
        &&& res.response_box.nonce@.len() == BOX_NONCE_LEN
        &&& nonce_prefix(res.response_box.nonce@) == NONCE_CONTEXT_INIT@
        &&& res.response_box.payload@ == box_seal(
            padded(encode_init_response_box(s.contract_public_key)),
            res.response_box.nonce@,
            box_shared_key(k, before.private_key),
        )
        &&& res.response_box.public_key@.len() == 0
        &&& res.contract_attestation_report.body@.len() == 0
        &&& res.contract_attestation_report.signature@.len() == 0
        &&& res.contract_attestation_report.certificates@.len() == 0
    }
}

/// Initializes a secure channel for a client short-term public key.
///
/// `client_quote` is the quote of the client's attestation report, where the
/// request carried one and the report verified. Where the enclave requires
/// client attestation, a request without a report is refused.
pub fn channel_init(
    channel: &mut SecureChannelContext,
    short_term_public_key: &[u8],
    client_quote: Option<Quote>,
    client_attestation_required: bool,
) -> (r: Result<ChannelInitResponse, ContractError>)
    requires
        old(channel).wf(),
    ensures
        final(channel).wf(),
        channel_init_result(
            old(channel)@,
            short_term_public_key@,
            client_quote,
            client_attestation_required,
            r,
            final(channel)@,
        ),
{
    let ghost q = client_quote;
    channel.ensure_ready()?;
    if client_attestation_required && client_quote.is_none() {
        return Err(ContractError::new("Client attestation required"));
    }
    let response_box = channel.create_session(short_term_public_key, client_quote)?;
    let report = copy_report(channel.get_attestation_report());
    Ok(ChannelInitResponse { contract_attestation_report: report, response_box })
}

/// The report data that a channel initialization carrying the client's
/// nonce asks the quoting enclave to sign: the contract's long-term public
/// key, the nonce, then zeros up to the SGX report data size.
pub open spec fn channel_report_data(public_key: Seq<u8>, nonce: Seq<u8>) -> Seq<u8> {
    public_key + nonce + zero_seq((SGX_REPORT_DATA_SIZE - 32 - 16) as nat)
}

/// The report data of the quote that a channel initialization carrying the
/// client's nonce and SPID asks for: the nonce is checked first, then the
/// SPID, then the context must be ready; the report data binds the contract's
/// long-term public key and the nonce.
pub fn channel_init_report_data(channel: &SecureChannelContext, nonce: &[u8], spid: &[u8]) -> (r:
    Result<Vec<u8>, ContractError>)
    ensures
        r is Ok <==> nonce@.len() == 16 && spid@.len() == 16 && channel@.ready,
        nonce@.len() != 16 ==> (r matches Err(e) && e.message@ == "Invalid nonce"@),
        nonce@.len() == 16 && spid@.len() != 16 ==> (r matches Err(e) && e.message@
            == "Invalid SPID"@),
        nonce@.len() == 16 && spid@.len() == 16 && !channel@.ready ==> (r matches Err(e)
            && e.message@ == "Secure channel not ready"@),
        r matches Ok(d) ==> d@ == channel_report_data(channel@.public_key, nonce@) && d@.len()
            == SGX_REPORT_DATA_SIZE,
{
    match check_quote_request(nonce, spid) {
        Ok(()) => {},
        Err(e) => {
            return Err(e);
        },
    }
    match channel.ensure_ready() {
        Ok(()) => {},
        Err(e) => {
            return Err(e);
        },
    }
    let mut data = crate::bytes::copy_bytes(channel.get_public_key().as_slice());
    crate::bytes::append_bytes(&mut data, nonce);
    let rest = crate::bytes::zeros(SGX_REPORT_DATA_SIZE - 32 - 16);
    crate::bytes::append_bytes(&mut data, rest.as_slice());
    Ok(data)
}

/// Answer to a channel initialization that carries the enclave's quote: the
/// quote, and the box holding the contract's short-term public key for the
/// client's session.
#[derive(Debug)]
pub struct QuotedChannelInitResponse {
    pub quote: Vec<u8>,
    pub short_term_public_key: CryptoBox,
}

/// Completes a channel initialization once the quoting enclave has given
/// `quote` for the report data that `channel_init_report_data` made: creates
/// the session for the client's short-term key and answers with the quote and
/// the session's box. Each failure is reported with its message and changes
/// nothing; the session's keypair is drawn at random, so success is not owed.
pub fn finish_quoted_channel_init(
    channel: &mut SecureChannelContext,
    short_term_public_key: &[u8],
    quote: Vec<u8>,
) -> (r: Result<QuotedChannelInitResponse, ContractError>)
    requires
        old(channel).wf(),
    ensures
        final(channel).wf(),
        ({
            let k = short_term_public_key@;
            let before = old(channel)@;
            &&& !before.ready ==> (r matches Err(e) && e.message@ == "Secure channel not ready"@)
            &&& before.ready && k.len() != 32 ==> (r matches Err(e) && e.message@
                == "Bad short-term client key"@)
            &&& before.ready && k.len() == 32 && before.sessions.dom().contains(k) ==> (r matches Err(
                e,
            ) && e.message@ == "Session already exists"@)
            &&& before.ready && k.len() == 32 && !before.sessions.dom().contains(k) ==> (r matches Err(
                e,
            ) ==> session_failure(None, k, e.message@))
            &&& r is Err ==> final(channel)@ == before
            &&& r matches Ok(res) ==> {
                let s = final(channel)@.sessions[k];
                &&& res.quote@ == quote@
                &&& before.ready
                &&& k.len() == 32
                &&& !before.sessions.dom().contains(k)
                &&& final(channel)@ == (ChannelView { sessions: before.sessions.insert(k, s), ..before })
                &&& s.state == SessionState::Established
                &&& s.client_public_key == k
                &&& s.contract_public_key == box_public_key(s.contract_private_key)
                &&& s.client_mr_enclave is None
                &&& res.short_term_public_key.nonce@.len() == BOX_NONCE_LEN
                &&& nonce_prefix(res.short_term_public_key.nonce@) == NONCE_CONTEXT_INIT@
                &&& res.short_term_public_key.payload@ == box_seal(
                    padded(encode_init_response_box(s.contract_public_key)),
                    res.short_term_public_key.nonce@,
                    box_shared_key(k, before.private_key),
                )
            }
        }),
{
    match channel.create_session(short_term_public_key, None) {
        Ok(b) => Ok(QuotedChannelInitResponse { quote, short_term_public_key: b }),
        Err(e) => Err(e),
    }
}

/// Closes the secure channel of a client key.
pub fn channel_close(channel: &mut SecureChannelContext, public_key: &[u8]) -> (r: Result<
    (),
    ContractError,
>)
    requires
        old(channel).wf(),
    ensures
        final(channel).wf(),
        r is Ok <==> public_key@.len() == 32,
        r is Ok ==> final(channel)@ == (ChannelView {
            sessions: old(channel)@.sessions.remove(public_key@),
            ..old(channel)@
        }),
        r is Err ==> final(channel)@ == old(channel)@,
{
    channel.close_session(public_key)
}

/// A client that attests is recorded as attested: where a channel
/// initialization with the client's quote `q` succeeds, the new session for
/// the client's key records the quote's MRENCLAVE, which every request over
/// that session then carries.
pub proof fn law_attested_session_records_enclave(
    before: ChannelView,
    k: Seq<u8>,
    q: Quote,
    required: bool,
    res: ChannelInitResponse,
    after: ChannelView,
)
    requires
        channel_init_result(before, k, Some(q), required, Ok(res), after),
    ensures
        after.sessions.dom().contains(k),
        after.sessions[k].client_mr_enclave == Some(q.mr_enclave@),
        after.sessions[k].client_public_key == k,
{
}

/// Without a quote, a session records no client MRENCLAVE.
pub proof fn law_unattested_session_records_none(
    before: ChannelView,
    k: Seq<u8>,
    required: bool,
    res: ChannelInitResponse,
    after: ChannelView,
)
    requires
        channel_init_result(before, k, None, required, Ok(res), after),
    ensures
        after.sessions.dom().contains(k),
        after.sessions[k].client_mr_enclave is None,
{
}

} // verus!
