use vstd::prelude::*;
use vstd::utf8::encode_utf8;
use crate::api::{
    decode_init_response_box, decode_plain_response, encode_init_response_box,
    encode_plain_request, encode_plain_response, law_plain_request_roundtrip,
    law_plain_response_roundtrip, ChannelInitResponseBox, CryptoBox, PlainClientRequest,
    PlainClientResponse, PlainClientResponseCode,
};
use crate::bytes::{array32, copy_bytes};
use crate::contract_error::ContractError;
use crate::crypto::{box_public_key, box_seal, box_shared_key, box_unseal, keypair_from_seed, ZERO_BYTES};
use crate::nonce::{
    law_monotonic_nonce_accepted, monotonic_accepts, monotonic_nonce, nonce_counter, nonce_prefix,
    MonotonicNonceGenerator, NonceGenerator, BOX_NONCE_LEN, NONCE_CONTEXT_INIT,
    NONCE_CONTEXT_REQUEST, NONCE_CONTEXT_RESPONSE,
};
use crate::secure_channel::{create_box, open_box, padded, SessionState};
use crate::session::{box_plaintext, opt_key, random_seed, request_in_box, session_key, SessionView};

verus! {

/// Abstract state of the client end of a secure channel.
pub struct ClientChannelView {
    /// Client short-term public key.
    pub client_public_key: Seq<u8>,
    /// Client short-term private key.
    pub client_private_key: Seq<u8>,
    /// Contract short-term public key, once the channel is set up.
    pub contract_public_key: Seq<u8>,
    /// Cached shared key.
    pub shared_key: Option<Seq<u8>>,
    /// Counter of the next request nonce.
    pub next_send: u64,
    /// Counter of the last accepted response nonce.
    pub last_received: Option<u64>,
    /// Channel state.
    pub state: SessionState,
    /// Whether the channel is closed.
    pub closed: bool,
}

/// The key that boxes of a client channel are sealed with.
pub open spec fn client_key(c: ClientChannelView) -> Seq<u8> {
    match c.shared_key {
        Some(k) => k,
        None => box_shared_key(c.contract_public_key, c.client_private_key),
    }
}

/// Whether a channel in state `c` opens a response box with `nonce` and
/// `payload`: the nonce is a fresh response nonce, the box opens under the
/// channel's key and holds a plain response.
pub open spec fn response_opens(c: ClientChannelView, nonce: Seq<u8>, payload: Seq<u8>) -> bool {
    &&& nonce.len() == BOX_NONCE_LEN
    &&& monotonic_accepts(c.last_received, nonce, NONCE_CONTEXT_RESPONSE@)
    &&& box_plaintext(payload, nonce, client_key(c)) matches Some(m) && decode_plain_response(m) is Some
}

/// Client end of a secure channel with a contract.
pub struct ClientChannel {
    client_public_key: [u8; 32],
    client_private_key: [u8; 32],
    contract_public_key: [u8; 32],
    shared_key: Option<[u8; 32]>,
    nonce_generator: MonotonicNonceGenerator,
    state: SessionState,
    closed: bool,
}

impl View for ClientChannel {
    type V = ClientChannelView;

    closed spec fn view(&self) -> ClientChannelView {
        ClientChannelView {
            client_public_key: self.client_public_key@,
            client_private_key: self.client_private_key@,
            contract_public_key: self.contract_public_key@,
            shared_key: opt_key(self.shared_key),
            next_send: self.nonce_generator.next_send(),
            last_received: self.nonce_generator.last_received(),
            state: self.state,
            closed: self.closed,
        }
    }
}

impl ClientChannel {
    /// A closed channel.
    pub fn new() -> (c: ClientChannel)
        ensures
            c@.closed,
            c@.state == SessionState::Init,
    {
        ClientChannel {
            client_public_key: [0u8; 32],
            client_private_key: [0u8; 32],
            contract_public_key: [0u8; 32],
            shared_key: None,
            nonce_generator: MonotonicNonceGenerator::new(),
            state: SessionState::Init,
            closed: true,
        }
    }

    /// Whether the channel is closed.
    pub fn is_closed(&self) -> (r: bool)
        ensures
            r == self@.closed,
    {
        self.closed
    }

    /// Whether requests must go encrypted: the channel is open and set up.
    pub fn must_encrypt(&self) -> (r: bool)
        ensures
            r == (!self@.closed && self@.state == SessionState::Established),
    {
        !self.closed && match self.state {
            SessionState::Established => true,
            SessionState::Init => false,
        }
    }

    /// Client short-term public key.
    pub fn get_client_public_key(&self) -> (k: &[u8; 32])
        ensures
            k@ == self@.client_public_key,
    {
        &self.client_public_key
    }

    /// Starts a new channel with a fresh short-term keypair.
    pub fn reset(&mut self) -> (r: Result<(), ContractError>)
        ensures
            r is Ok ==> {
                &&& !final(self)@.closed
                &&& final(self)@.state == SessionState::Init
                &&& final(self)@.client_public_key == box_public_key(final(self)@.client_private_key)
                &&& final(self)@.shared_key is None
                &&& final(self)@.next_send == 0
                &&& final(self)@.last_received is None
            },
            r is Err ==> final(self)@ == old(self)@,
            r matches Err(e) ==> e.message@ == "Keypair generation failed"@,
    {
        let seed = random_seed()?;
        let (public_key, private_key) = keypair_from_seed(&seed);
        self.client_public_key = public_key;
        self.client_private_key = private_key;
        self.contract_public_key = [0u8; 32];
        self.shared_key = None;
        self.nonce_generator = MonotonicNonceGenerator::new();
        self.state = SessionState::Init;
        self.closed = false;
        Ok(())
    }

    /// Sets the channel up from the contract's answer to a channel
    /// initialization: opens the box, sealed by the contract's long-term key
    /// `contract_public_key`, that holds the contract's short-term public key.
    pub fn setup(&mut self, contract_public_key: &[u8], response_box: &CryptoBox) -> (r: Result<
        (),
        ContractError,
    >)
        ensures
            r is Ok ==> {
                let key = box_shared_key(contract_public_key@, old(self)@.client_private_key);
                let short = final(self)@.contract_public_key;
                &&& contract_public_key@.len() == 32
                &&& response_box.nonce@.len() == BOX_NONCE_LEN
                &&& nonce_prefix(response_box.nonce@) == NONCE_CONTEXT_INIT@
                &&& box_plaintext(response_box.payload@, response_box.nonce@, key) matches Some(p)
                    && decode_init_response_box(p) == Some(short)
                &&& old(self)@.state == SessionState::Init
                &&& final(self)@ == (ClientChannelView {
                    contract_public_key: short,
                    shared_key: None,
                    state: SessionState::Established,
                    ..old(self)@
                })
            },
            r is Err ==> final(self)@ == old(self)@,
            forall|k: Seq<u8>|
                contract_public_key@.len() == 32 && response_box.nonce@.len() == BOX_NONCE_LEN
                    && nonce_prefix(response_box.nonce@) == NONCE_CONTEXT_INIT@ && k.len() == 32
                    && crate::crypto::box_unseal(
                    response_box.payload@,
                    response_box.nonce@,
                    box_shared_key(contract_public_key@, old(self)@.client_private_key),
                ) == Some(padded(#[trigger] encode_init_response_box(k))) && old(self)@.state
                    == SessionState::Init ==> r is Ok && final(self)@.contract_public_key == k,
    {
        proof {
            assert forall|k: Seq<u8>|
                contract_public_key@.len() == 32 && k.len() == 32 && crate::crypto::box_unseal(
                    response_box.payload@,
                    response_box.nonce@,
                    box_shared_key(contract_public_key@, old(self)@.client_private_key),
                ) == Some(padded(#[trigger] encode_init_response_box(k))) implies {
                    &&& decode_init_response_box(encode_init_response_box(k)) == Some(k)
                    &&& box_plaintext(
                        response_box.payload@,
                        response_box.nonce@,
                        box_shared_key(contract_public_key@, old(self)@.client_private_key),
                    ) == Some(encode_init_response_box(k))
                } by {
                crate::api::law_init_response_box_roundtrip(k);
                let m = padded(encode_init_response_box(k));
                assert(m.subrange(ZERO_BYTES as int, m.len() as int) =~= encode_init_response_box(k));
            }
        }
        if contract_public_key.len() != 32 {
            return Err(ContractError::new("Bad contract public key"));
        }
        if response_box.nonce.len() != BOX_NONCE_LEN {
            return Err(ContractError::new("Invalid nonce"));
        }
        let long_term_key = array32(contract_public_key);
        let mut init_nonces = MonotonicNonceGenerator::new();
        let mut init_key: Option<[u8; 32]> = None;
        let ghost key = box_shared_key(contract_public_key@, self.client_private_key@);
        let plain = open_box(
            response_box,
            &NONCE_CONTEXT_INIT,
            &mut init_nonces,
            &long_term_key,
            &self.client_private_key,
            &mut init_key,
        )?;
        proof {
            let m = crate::crypto::box_unseal(response_box.payload@, response_box.nonce@, key).unwrap();
            assert(m.subrange(ZERO_BYTES as int, m.len() as int) =~= plain@);
        }
        let contents = match ChannelInitResponseBox::parse_from_bytes(plain.as_slice()) {
            Some(c) => c,
            None => return Err(ContractError::new("Malformed message")),
        };
        if contents.short_term_public_key.len() != 32 {
            return Err(ContractError::new("Bad short-term contract key"));
        }
        let mut state = self.state;
        state.transition_to(SessionState::Established)?;
        self.contract_public_key = array32(contents.short_term_public_key.as_slice());
        self.shared_key = None;
        self.state = state;
        Ok(())
    }

    /// Seals a request for the contract, with the channel's next request
    /// nonce; the box names the client's short-term public key.
    pub fn create_request_box(&mut self, request: &PlainClientRequest) -> (r: Result<
        CryptoBox,
        ContractError,
    >)
        ensures
            r matches Ok(b) ==> {
                let key = client_key(old(self)@);
                let plain = padded(encode_plain_request(request.method@, request.payload@));
                &&& old(self)@.next_send < u64::MAX
                &&& b.nonce@ == monotonic_nonce(NONCE_CONTEXT_REQUEST@, old(self)@.next_send)
                &&& b.payload@ == box_seal(plain, b.nonce@, key)
                &&& crate::crypto::box_unseal(b.payload@, b.nonce@, key) == Some(plain)
                &&& b.public_key@ == old(self)@.client_public_key
                &&& final(self)@ == (ClientChannelView {
                    next_send: (old(self)@.next_send + 1) as u64,
                    shared_key: Some(key),
                    ..old(self)@
                })
            },
            r is Err ==> final(self)@ == old(self)@,
            r is Ok <==> (old(self)@.next_send < u64::MAX && encode_plain_request(
                request.method@,
                request.payload@,
            ).len() + ZERO_BYTES <= usize::MAX),
            r matches Err(e) ==> if old(self)@.next_send == u64::MAX {
                e.message@ == "Nonce generation failed"@
            } else {
                e.message@ == "Failed to serialize request"@
            },
    {
        if !self.nonce_generator.has_nonce_left() {
            return Err(ContractError::new("Nonce generation failed"));
        }
        let bytes = request.write_to_bytes();
        if bytes.len() > usize::MAX - ZERO_BYTES {
            return Err(ContractError::new("Failed to serialize request"));
        }
        let mut b = create_box(
            bytes.as_slice(),
            &NONCE_CONTEXT_REQUEST,
            &mut self.nonce_generator,
            &self.contract_public_key,
            &self.client_private_key,
            &mut self.shared_key,
        )?;
        b.public_key = copy_bytes(self.client_public_key.as_slice());
        Ok(b)
    }

    /// Opens a response sealed by the contract in this channel.
    pub fn open_response_box(&mut self, response: &CryptoBox) -> (r: Result<
        PlainClientResponse,
        ContractError,
    >)
        ensures
            r matches Ok(p) ==> {
                let key = client_key(old(self)@);
                &&& response.nonce@.len() == BOX_NONCE_LEN
                &&& monotonic_accepts(old(self)@.last_received, response.nonce@, NONCE_CONTEXT_RESPONSE@)
                &&& box_plaintext(response.payload@, response.nonce@, key) matches Some(m)
                    && decode_plain_response(m) == Some((p.code, p.payload@))
            },
            response.nonce@.len() == BOX_NONCE_LEN && monotonic_accepts(
                old(self)@.last_received,
                response.nonce@,
                NONCE_CONTEXT_RESPONSE@,
            ) ==> final(self)@ == (ClientChannelView {
                last_received: Some(nonce_counter(response.nonce@)),
                shared_key: Some(client_key(old(self)@)),
                ..old(self)@
            }),
            !(response.nonce@.len() == BOX_NONCE_LEN && monotonic_accepts(
                old(self)@.last_received,
                response.nonce@,
                NONCE_CONTEXT_RESPONSE@,
            )) ==> final(self)@.last_received == old(self)@.last_received
                && final(self)@.next_send == old(self)@.next_send,
            final(self)@.client_public_key == old(self)@.client_public_key,
            final(self)@.client_private_key == old(self)@.client_private_key,
            final(self)@.contract_public_key == old(self)@.contract_public_key,
            final(self)@.state == old(self)@.state,
            final(self)@.closed == old(self)@.closed,
            r is Ok <==> response_opens(old(self)@, response.nonce@, response.payload@),
            response.nonce@.len() != BOX_NONCE_LEN ==> (r matches Err(e) && e.message@
                == "Invalid nonce"@),
            response.nonce@.len() == BOX_NONCE_LEN && monotonic_accepts(
                old(self)@.last_received,
                response.nonce@,
                NONCE_CONTEXT_RESPONSE@,
            ) && (box_plaintext(response.payload@, response.nonce@, client_key(old(self)@)) matches Some(
                m,
            ) && decode_plain_response(m) is None) ==> (r matches Err(e) && e.message@
                == "Malformed message"@),
            forall|m: Seq<u8>|
                response.nonce@.len() == BOX_NONCE_LEN && monotonic_accepts(
                    old(self)@.last_received,
                    response.nonce@,
                    NONCE_CONTEXT_RESPONSE@,
                ) && crate::crypto::box_unseal(response.payload@, response.nonce@, client_key(old(self)@))
                    == Some(#[trigger] padded(m)) && decode_plain_response(m) is Some ==> r is Ok,
    {
        proof {
            assert forall|m: Seq<u8>|
                crate::crypto::box_unseal(response.payload@, response.nonce@, client_key(old(self)@))
                    == Some(#[trigger] padded(m)) implies box_plaintext(
                response.payload@,
                response.nonce@,
                client_key(old(self)@),
            ) == Some(m) by {
                assert(padded(m).subrange(ZERO_BYTES as int, padded(m).len() as int) =~= m);
            }
        }
        if response.nonce.len() != BOX_NONCE_LEN {
            return Err(ContractError::new("Invalid nonce"));
        }
        let ghost key = client_key(self@);
        let plain = open_box(
            response,
            &NONCE_CONTEXT_RESPONSE,
            &mut self.nonce_generator,
            &self.contract_public_key,
            &self.client_private_key,
            &mut self.shared_key,
        )?;
        proof {
            let m = crate::crypto::box_unseal(response.payload@, response.nonce@, key).unwrap();
            assert(m.subrange(ZERO_BYTES as int, m.len() as int) =~= plain@);
        }
        match PlainClientResponse::parse_from_bytes(plain.as_slice()) {
            Some(p) => Ok(p),
            None => Err(ContractError::new("Malformed message")),
        }
    }

    /// Closes the channel.
    pub fn close(&mut self)
        ensures
            final(self)@ == (ClientChannelView { closed: true, ..old(self)@ }),
    {
        self.closed = true;
    }
}

/// The two ends of a channel seal with the same key: the contract's session
/// for a client, whose key is agreed with the client's private key, and the
/// client's channel once set up with the session's short-term public key.
pub proof fn law_channel_keys_agree(s: SessionView, c: ClientChannelView)
    requires
        s.shared_key == Some(box_shared_key(s.contract_public_key, c.client_private_key)),
        c.contract_public_key == s.contract_public_key,
        c.shared_key is None || c.shared_key == Some(
            box_shared_key(c.contract_public_key, c.client_private_key),
        ),
    ensures
        session_key(s) == client_key(c),
{
}

/// A request that a client seals in its channel opens, in the contract's
/// session for that client, to the method and payload the client sent,
/// provided the session has not yet seen the request's counter.
pub proof fn law_request_roundtrip(
    s: SessionView,
    c: ClientChannelView,
    method: Seq<char>,
    body: Seq<u8>,
    payload: Seq<u8>,
)
    requires
        session_key(s) == client_key(c),
        box_unseal(
            payload,
            monotonic_nonce(NONCE_CONTEXT_REQUEST@, c.next_send),
            client_key(c),
        ) == Some(padded(encode_plain_request(method, body))),
        s.last_received matches Some(l) ==> l < c.next_send,
        encode_utf8(method).len() <= u64::MAX,
        body.len() <= u64::MAX,
    ensures
        request_in_box(s, monotonic_nonce(NONCE_CONTEXT_REQUEST@, c.next_send), payload) == Some(
            (method, body),
        ),
{
    let nonce = monotonic_nonce(NONCE_CONTEXT_REQUEST@, c.next_send);
    law_monotonic_nonce_accepted(NONCE_CONTEXT_REQUEST@, c.next_send, s.last_received);
    let m = padded(encode_plain_request(method, body));
    assert(m.subrange(ZERO_BYTES as int, m.len() as int) =~= encode_plain_request(method, body));
    law_plain_request_roundtrip(method, body);
}

/// A response that the contract's session seals for a client opens, in the
/// client's channel, to the code and payload the contract sent, provided the
/// client has not yet seen the response's counter.
pub proof fn law_response_roundtrip(
    s: SessionView,
    c: ClientChannelView,
    code: PlainClientResponseCode,
    body: Seq<u8>,
    payload: Seq<u8>,
)
    requires
        session_key(s) == client_key(c),
        box_unseal(
            payload,
            monotonic_nonce(NONCE_CONTEXT_RESPONSE@, s.next_send),
            session_key(s),
        ) == Some(padded(encode_plain_response(code, body))),
        c.last_received matches Some(l) ==> l < s.next_send,
        body.len() <= u64::MAX,
    ensures
        monotonic_accepts(
            c.last_received,
            monotonic_nonce(NONCE_CONTEXT_RESPONSE@, s.next_send),
            NONCE_CONTEXT_RESPONSE@,
        ),
        box_plaintext(payload, monotonic_nonce(NONCE_CONTEXT_RESPONSE@, s.next_send), client_key(c))
            == Some(encode_plain_response(code, body)),
        decode_plain_response(encode_plain_response(code, body)) == Some((code, body)),
{
    law_monotonic_nonce_accepted(NONCE_CONTEXT_RESPONSE@, s.next_send, c.last_received);
    let m = padded(encode_plain_response(code, body));
    assert(m.subrange(ZERO_BYTES as int, m.len() as int) =~= encode_plain_response(code, body));
    law_plain_response_roundtrip(code, body);
}

} // verus!
