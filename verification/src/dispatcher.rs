use vstd::prelude::*;
use crate::api::{
    decode_enclave_request, encode_api_error, encode_enclave_response, encode_plain_response,
    ApiError, ClientRequest, ClientResponse, EnclaveRequest, EnclaveResponse, PlainClientResponse,
    PlainClientResponseCode, SpecClientRequest, SpecClientResponse,
};
use crate::channel::{ChannelView, SecureChannelContext};
use crate::crypto::{box_seal, ZERO_BYTES};
use crate::entries::{
    entry_map, has_entry, keys_unique, lemma_entry_at, lemma_entry_push, lemma_entry_update,
};
use crate::nonce::{monotonic_nonce, BOX_NONCE_LEN, NONCE_CONTEXT_RESPONSE};
use crate::request::{carries_metadata_of, opt_text, DispatchError, Request};
use crate::contract_error::ContractError;
use crate::serializer::{Message, ProtocolBuffersSerializer, Serializer};
use crate::secure_channel::{padded, SessionState};
use crate::session::{after_open, after_response, opt_vec, request_in_box, session_key};
use crate::text::text_eq;

verus! {

/// Method that initializes a contract.
pub const METHOD_CONTRACT_INIT: &'static str = "_contract_init";

/// Method that restores a contract from its sealed keypair.
pub const METHOD_CONTRACT_RESTORE: &'static str = "_contract_restore";

/// Method that initializes a secure channel.
pub const METHOD_CHANNEL_INIT: &'static str = "_channel_init";

/// Method that closes a secure channel.
pub const METHOD_CHANNEL_CLOSE: &'static str = "_channel_close";

/// Message of the response sent where a secure channel response cannot be
/// sealed.
pub open spec fn secure_response_failure() -> SpecClientResponse {
    SpecClientResponse::Plain(
        PlainClientResponseCode::ErrorSecureChannel,
        encode_api_error("Failed to generate secure channel response"@),
    )
}

/// Whether `r` is how a channel in state `ch` answers, with the plain
/// response `code`/`payload`, a request whose client key is `public_key`, and
/// `ch2` the channel afterwards.
///
/// A request without a client key gets the plain response. A request with
/// one gets the response sealed in that client's session, with the
/// session's next response nonce; where the session cannot seal it, the
/// client gets a plain secure channel error and the channel is unchanged.
pub open spec fn answers(
    ch: ChannelView,
    public_key: Option<Seq<u8>>,
    code: PlainClientResponseCode,
    payload: Seq<u8>,
    r: SpecClientResponse,
    ch2: ChannelView,
) -> bool {
    match public_key {
        None => r == SpecClientResponse::Plain(code, payload) && ch2 == ch,
        Some(k) => {
            let found = ch.ready && k.len() == 32 && ch.sessions.dom().contains(k);
            let s = ch.sessions[k];
            let nonce = monotonic_nonce(NONCE_CONTEXT_RESPONSE@, s.next_send);
            if found && s.next_send < u64::MAX && encode_plain_response(code, payload).len()
                + ZERO_BYTES <= usize::MAX {
                &&& r == SpecClientResponse::Encrypted(
                    nonce,
                    box_seal(padded(encode_plain_response(code, payload)), nonce, session_key(s)),
                    Seq::empty(),
                )
                &&& ch2 == (ChannelView {
                    sessions: ch.sessions.insert(k, after_response(s)),
                    ..ch
                })
            } else {
                r == secure_response_failure() && ch2 == ch
            }
        },
    }
}

/// A response to one client request.
pub struct Response {
    message: ClientResponse,
}

impl View for Response {
    type V = SpecClientResponse;

    closed spec fn view(&self) -> SpecClientResponse {
        self.message@
    }
}

impl Response {
    /// Creates the response to `request` that carries the plain response
    /// `response`: sealed for the client where the request came over a secure
    /// channel, plain otherwise.
    pub fn new(channel: &mut SecureChannelContext, request: &Request<Vec<u8>>, response: PlainClientResponse) -> (r:
        Response)
        requires
            old(channel).wf(),
        ensures
            final(channel).wf(),
            answers(
                old(channel)@,
                opt_vec(request.public_key),
                response.code,
                response.payload@,
                r@,
                final(channel)@,
            ),
    {
        let message = match &request.public_key {
            Some(public_key) => {
                match channel.create_response_box(public_key.as_slice(), &response) {
                    Ok(response_box) => {
                        assert(response_box.public_key@ =~= Seq::<u8>::empty());
                        ClientResponse::EncryptedResponse(response_box)
                    },
                    Err(_) => ClientResponse::PlainResponse(
                        Self::generate_error(
                            PlainClientResponseCode::ErrorSecureChannel,
                            "Failed to generate secure channel response",
                        ),
                    ),
                }
            },
            None => ClientResponse::PlainResponse(response),
        };
        Response { message }
    }

    /// Creates a success response carrying a serialized payload.
    pub fn success(channel: &mut SecureChannelContext, request: &Request<Vec<u8>>, payload: Vec<u8>) -> (r:
        Response)
        requires
            old(channel).wf(),
        ensures
            final(channel).wf(),
            answers(
                old(channel)@,
                opt_vec(request.public_key),
                PlainClientResponseCode::Success,
                payload@,
                r@,
                final(channel)@,
            ),
    {
        let response = PlainClientResponse { code: PlainClientResponseCode::Success, payload };
        Self::new(channel, request, response)
    }

    /// Creates an error response.
    pub fn error(
        channel: &mut SecureChannelContext,
        request: &Request<Vec<u8>>,
        error: PlainClientResponseCode,
        message: &str,
    ) -> (r: Response)
        requires
            old(channel).wf(),
        ensures
            final(channel).wf(),
            answers(
                old(channel)@,
                opt_vec(request.public_key),
                error,
                encode_api_error(message@),
                r@,
                final(channel)@,
            ),
    {
        Self::new(channel, request, Self::generate_error(error, message))
    }

    /// The plain response that reports an error.
    pub fn generate_error(error: PlainClientResponseCode, message: &str) -> (r: PlainClientResponse)
        ensures
            r.code == error,
            r.payload@ == encode_api_error(message@),
    {
        let e = ApiError { message: message.to_owned() };
        PlainClientResponse { code: error, payload: e.write_to_bytes() }
    }

    /// Takes the response message out of the response.
    pub fn take_message(self) -> (m: ClientResponse)
        ensures
            m@ == self@,
    {
        self.message
    }
}

/// Abstract request handed to the dispatcher: a call of a method, or a
/// failure that occurred while the request was being read.
pub enum SpecRequest {
    Call {
        method: Seq<char>,
        payload: Seq<u8>,
        public_key: Option<Seq<u8>>,
        mr_enclave: Option<Seq<u8>>,
    },
    Failed { code: PlainClientResponseCode, message: Seq<char> },
}

/// The abstract request of a request.
pub open spec fn request_view(r: Request<Vec<u8>>) -> SpecRequest {
    match r.error {
        Some(e) => SpecRequest::Failed { code: e.code, message: e.message@ },
        None => SpecRequest::Call {
            method: match opt_text(r.method) {
                Some(m) => m,
                None => Seq::empty(),
            },
            payload: r.message@,
            public_key: opt_vec(r.public_key),
            mr_enclave: opt_vec(r.mr_enclave),
        },
    }
}

/// The abstract requests of a vector of requests.
pub open spec fn requests_views(v: Seq<Request<Vec<u8>>>) -> Seq<SpecRequest> {
    v.map_values(|r: Request<Vec<u8>>| request_view(r))
}

/// Method that reports a contract's metadata.
pub const METHOD_METADATA: &'static str = "_metadata";

/// Method that computes the difference of two encrypted states.
pub const METHOD_STATE_DIFF: &'static str = "_state_diff";

/// Method that applies a difference to an encrypted state.
pub const METHOD_STATE_APPLY: &'static str = "_state_apply";

/// Which methods an enclave lets clients call without a secure channel.
#[derive(Clone, Copy)]
pub enum PlainMethods {
    /// The methods that set up the contract and its secure channels.
    Setup,
    /// Those, and the methods on a contract's metadata and encrypted state.
    SetupAndState,
}

/// Whether a method may be called without a secure channel.
pub open spec fn plain_method(m: Seq<char>) -> bool {
    m == METHOD_CONTRACT_INIT@ || m == METHOD_CONTRACT_RESTORE@ || m == METHOD_CHANNEL_INIT@
}

/// Whether a method may be called without a secure channel, where the
/// plain methods are `list`.
pub open spec fn plain_method_in(list: PlainMethods, m: Seq<char>) -> bool {
    match list {
        PlainMethods::Setup => plain_method(m),
        PlainMethods::SetupAndState => plain_method(m) || m == METHOD_METADATA@ || m
            == METHOD_STATE_DIFF@ || m == METHOD_STATE_APPLY@,
    }
}

/// Whether a method may be called without a secure channel.
pub fn is_plain_method(m: &str) -> (r: bool)
    ensures
        r == plain_method(m@),
{
    text_eq(m, METHOD_CONTRACT_INIT) || text_eq(m, METHOD_CONTRACT_RESTORE) || text_eq(
        m,
        METHOD_CHANNEL_INIT,
    )
}

/// Whether a method may be called without a secure channel, where the
/// plain methods are `list`.
pub fn is_plain_method_in(list: PlainMethods, m: &str) -> (r: bool)
    ensures
        r == plain_method_in(list, m@),
{
    match list {
        PlainMethods::Setup => is_plain_method(m),
        PlainMethods::SetupAndState => is_plain_method(m) || text_eq(m, METHOD_METADATA) || text_eq(
            m,
            METHOD_STATE_DIFF,
        ) || text_eq(m, METHOD_STATE_APPLY),
    }
}

/// The failure recorded for an encrypted request that cannot be opened.
pub open spec fn unopened() -> SpecRequest {
    SpecRequest::Failed {
        code: PlainClientResponseCode::ErrorSecureChannel,
        message: "Unable to open secure channel request"@,
    }
}

/// The failure recorded for a plain call of a method that needs a secure
/// channel.
pub open spec fn needs_secure_channel() -> SpecRequest {
    SpecRequest::Failed {
        code: PlainClientResponseCode::ErrorMethodSecure,
        message: "Method call must be made over a secure channel"@,
    }
}

/// How a channel in state `ch` reads one client request, and the channel
/// afterwards.
pub open spec fn parse_step(ch: ChannelView, r: SpecClientRequest) -> (SpecRequest, ChannelView) {
    parse_step_in(PlainMethods::Setup, ch, r)
}

/// How a channel in state `ch` reads one client request, where the plain
/// methods are `list`, and the channel afterwards.
pub open spec fn parse_step_in(list: PlainMethods, ch: ChannelView, r: SpecClientRequest) -> (
    SpecRequest,
    ChannelView,
) {
    match r {
        SpecClientRequest::Encrypted(nonce, payload, k) => {
            if ch.ready && k.len() == 32 && ch.sessions.dom().contains(k) {
                let s = ch.sessions[k];
                let ch2 = ChannelView { sessions: ch.sessions.insert(k, after_open(s, nonce)), ..ch };
                match request_in_box(s, nonce, payload) {
                    Some((m, p)) => if s.state == SessionState::Established {
                        (
                            SpecRequest::Call {
                                method: m,
                                payload: p,
                                public_key: Some(k),
                                mr_enclave: s.client_mr_enclave,
                            },
                            ch2,
                        )
                    } else {
                        (unopened(), ch2)
                    },
                    None => (unopened(), ch2),
                }
            } else {
                (unopened(), ch)
            }
        },
        SpecClientRequest::Plain(m, p) => if plain_method_in(list, m) {
            (SpecRequest::Call { method: m, payload: p, public_key: None, mr_enclave: None }, ch)
        } else {
            (needs_secure_channel(), ch)
        },
    }
}

/// How a channel in state `ch` reads a batch of client requests, in order,
/// and the channel afterwards.
pub open spec fn parse_all(ch: ChannelView, rs: Seq<SpecClientRequest>) -> (Seq<SpecRequest>, ChannelView) {
    parse_all_in(PlainMethods::Setup, ch, rs)
}

/// How a channel in state `ch` reads a batch of client requests, in order,
/// where the plain methods are `list`, and the channel afterwards.
pub open spec fn parse_all_in(list: PlainMethods, ch: ChannelView, rs: Seq<SpecClientRequest>) -> (
    Seq<SpecRequest>,
    ChannelView,
)
    decreases rs.len(),
{
    if rs.len() == 0 {
        (seq![], ch)
    } else {
        let (done, ch1) = parse_all_in(list, ch, rs.drop_last());
        let (r, ch2) = parse_step_in(list, ch1, rs.last());
        (done.push(r), ch2)
    }
}

/// Whether every encrypted request that names a session of `ch` carries a
/// nonce of box length.
pub open spec fn nonces_fit(ch: ChannelView, rs: Seq<SpecClientRequest>) -> bool {
    forall|i: int|
        0 <= i < rs.len() ==> match #[trigger] rs[i] {
            SpecClientRequest::Encrypted(nonce, _, k) => ch.ready && k.len() == 32
                && ch.sessions.dom().contains(k) ==> nonce.len() == BOX_NONCE_LEN,
            SpecClientRequest::Plain(_, _) => true,
        }
}

/// Reading a batch of requests creates and removes no session, and changes
/// neither the readiness nor the long-term keys of the channel; every request
/// is read into exactly one request for dispatch.
pub proof fn law_parse_keeps_sessions(list: PlainMethods, ch: ChannelView, rs: Seq<SpecClientRequest>)
    ensures
        parse_all_in(list, ch, rs).1.ready == ch.ready,
        parse_all_in(list, ch, rs).1.sessions.dom() == ch.sessions.dom(),
        parse_all_in(list, ch, rs).1.public_key == ch.public_key,
        parse_all_in(list, ch, rs).1.private_key == ch.private_key,
        parse_all_in(list, ch, rs).0.len() == rs.len(),
    decreases rs.len(),
{
    if rs.len() > 0 {
        law_parse_keeps_sessions(list, ch, rs.drop_last());
        let ch1 = parse_all_in(list, ch, rs.drop_last()).1;
        match rs.last() {
            SpecClientRequest::Encrypted(nonce, payload, k) => {
                if ch1.ready && k.len() == 32 && ch1.sessions.dom().contains(k) {
                    assert(ch1.sessions.insert(k, after_open(ch1.sessions[k], nonce)).dom()
                        =~= ch1.sessions.dom());
                }
            },
            SpecClientRequest::Plain(_, _) => {},
        }
    }
}

/// Reads one client request.
fn parse_one(list: PlainMethods, channel: &mut SecureChannelContext, client_request: &ClientRequest) -> (r:
    Request<Vec<u8>>)
    requires
        old(channel).wf(),
        nonces_fit(old(channel)@, seq![client_request@]),
    ensures
        final(channel).wf(),
        (request_view(r), final(channel)@) == parse_step_in(list, old(channel)@, client_request@),
        dispatchable(r),
{
    assert(seq![client_request@][0] == client_request@);
    match client_request {
        ClientRequest::EncryptedRequest(b) => {
            match channel.open_request_box(b) {
                Ok(req) => req,
                Err(_) => Request::error(
                    DispatchError::new(
                        PlainClientResponseCode::ErrorSecureChannel,
                        "Unable to open secure channel request",
                    ),
                ),
            }
        },
        ClientRequest::PlainRequest(p) => {
            if is_plain_method_in(list, p.method.as_str()) {
                Request::new(
                    crate::bytes::copy_bytes(p.payload.as_slice()),
                    p.method.clone(),
                    None,
                    None,
                )
            } else {
                Request::error(
                    DispatchError::new(
                        PlainClientResponseCode::ErrorMethodSecure,
                        "Method call must be made over a secure channel",
                    ),
                )
            }
        },
    }
}

/// Parses an RPC request message into the requests it carries, opening the
/// encrypted ones in their sessions; plain calls are allowed of the methods
/// that set up the contract and its secure channels.
///
/// A malformed message is left out by the precondition: the enclave cannot
/// go on with one.
pub fn parse_request(channel: &mut SecureChannelContext, request_data: &[u8]) -> (r: Vec<Request<Vec<u8>>>)
    requires
        old(channel).wf(),
        decode_enclave_request(request_data@) is Some,
        nonces_fit(old(channel)@, decode_enclave_request(request_data@).unwrap()),
    ensures
        final(channel).wf(),
        (requests_views(r@), final(channel)@) == parse_all(
            old(channel)@,
            decode_enclave_request(request_data@).unwrap(),
        ),
        forall|j: int| 0 <= j < r@.len() ==> dispatchable(#[trigger] r@[j]),
{
    parse_requests_in(PlainMethods::Setup, channel, request_data)
}

/// Parses an RPC request message into the requests it carries, where the
/// plain methods are `list`.
pub fn parse_requests_in(list: PlainMethods, channel: &mut SecureChannelContext, request_data: &[u8]) -> (r:
    Vec<Request<Vec<u8>>>)
    requires
        old(channel).wf(),
        decode_enclave_request(request_data@) is Some,
        nonces_fit(old(channel)@, decode_enclave_request(request_data@).unwrap()),
    ensures
        final(channel).wf(),
        (requests_views(r@), final(channel)@) == parse_all_in(
            list,
            old(channel)@,
            decode_enclave_request(request_data@).unwrap(),
        ),
        forall|j: int| 0 <= j < r@.len() ==> dispatchable(#[trigger] r@[j]),
{
    let enclave_request = EnclaveRequest::parse_from_bytes(request_data).unwrap();
    parse_client_requests_in(list, channel, &enclave_request.client_request)
}

/// Reads a batch of client requests in order, opening the encrypted ones in
/// their sessions, where the plain methods are `list`.
pub fn parse_client_requests_in(
    list: PlainMethods,
    channel: &mut SecureChannelContext,
    client_requests: &Vec<ClientRequest>,
) -> (r: Vec<Request<Vec<u8>>>)
    requires
        old(channel).wf(),
        nonces_fit(old(channel)@, crate::api::requests_view(client_requests@)),
    ensures
        final(channel).wf(),
        (requests_views(r@), final(channel)@) == parse_all_in(
            list,
            old(channel)@,
            crate::api::requests_view(client_requests@),
        ),
        forall|j: int| 0 <= j < r@.len() ==> dispatchable(#[trigger] r@[j]),
{
    let ghost rs = crate::api::requests_view(client_requests@);
    let ghost ch0 = channel@;
    let mut requests: Vec<Request<Vec<u8>>> = Vec::new();
    let mut i: usize = 0;
    while i < client_requests.len()
        invariant
            channel.wf(),
            i <= rs.len(),
            rs.len() == client_requests@.len(),
            crate::api::requests_view(client_requests@) == rs,
            nonces_fit(ch0, rs),
            (requests_views(requests@), channel@) == parse_all_in(list, ch0, rs.subrange(0, i as int)),
            forall|j: int| 0 <= j < requests@.len() ==> dispatchable(#[trigger] requests@[j]),
        decreases rs.len() - i,
    {
        proof {
            law_parse_keeps_sessions(list, ch0, rs.subrange(0, i as int));
            assert(rs.subrange(0, i + 1).drop_last() =~= rs.subrange(0, i as int));
            assert(rs.subrange(0, i + 1).last() == rs[i as int]);
            assert(client_requests@[i as int]@ == rs[i as int]);
            assert(seq![rs[i as int]][0] == rs[i as int]);
        }
        let req = parse_one(list, channel, &client_requests[i]);
        let ghost before = requests@;
        requests.push(req);
        assert(requests_views(requests@) =~= requests_views(before).push(request_view(req)));
        i = i + 1;
    }
    assert(rs.subrange(0, rs.len() as int) =~= rs);
    requests
}

/// Handler of one RPC method, implemented by enclaves for their methods: it
/// performs the call on the message read from the request payload, with the
/// request's metadata, and gives the message to answer with.
pub trait ApiMethodHandler {
    /// Message the method takes.
    type Rq: Message;

    /// Message the method answers with.
    type Rs: Message;

    /// Whether handling `request` in a channel in state `before` may give
    /// `outcome` and leave the channel in state `after`. A handler that
    /// states nothing of itself may give any outcome.
    open spec fn handles(
        &self,
        before: ChannelView,
        request: Request<Self::Rq>,
        outcome: Result<Self::Rs, ContractError>,
        after: ChannelView,
    ) -> bool {
        true
    }

    /// Handles one request; the secure channel context is at hand for the
    /// methods that manage channels.
    fn handle(&self, channel: &mut SecureChannelContext, request: &Request<Self::Rq>) -> (r: Result<
        Self::Rs,
        ContractError,
    >)
        requires
            old(channel).wf(),
        ensures
            final(channel).wf(),
            self.handles(old(channel)@, *request, r, final(channel)@),
    ;
}

/// A method's name and the serializers of its request and response.
pub struct ApiMethodDescriptor {
    pub name: String,
    pub request_serializer: ProtocolBuffersSerializer,
    pub response_serializer: ProtocolBuffersSerializer,
}

impl ApiMethodDescriptor {
    /// The descriptor of a method whose messages go in Protocol Buffers form.
    pub fn new(name: String) -> (d: ApiMethodDescriptor)
        ensures
            d.name@ == name@,
    {
        ApiMethodDescriptor {
            name,
            request_serializer: ProtocolBuffersSerializer,
            response_serializer: ProtocolBuffersSerializer,
        }
    }
}

/// The plain response code and payload that report a handler's outcome: the
/// written response message, or the handler's error.
pub open spec fn handled_reply<Rs: Message>(o: Result<Rs, ContractError>) -> (
    PlainClientResponseCode,
    Seq<u8>,
) {
    match o {
        Ok(m) => (PlainClientResponseCode::Success, m.encoded()),
        Err(e) => (PlainClientResponseCode::Error, encode_api_error(e.message@)),
    }
}

/// Whether `r` answers `request`, from channel state `before` to `after`, as
/// a method with handler `h` does: a payload that does not read as the
/// method's request message is answered with a bad request error and the
/// handler is not run; otherwise the handler ran once on the message read,
/// with the request's metadata, and its outcome (the written response, or
/// its error) was answered in the request's channel.
pub open spec fn method_answers<H: ApiMethodHandler>(
    h: H,
    before: ChannelView,
    request: Request<Vec<u8>>,
    r: SpecClientResponse,
    after: ChannelView,
) -> bool {
    if H::Rq::decodable(request.message@) {
        exists|typed: Request<H::Rq>, o: Result<H::Rs, ContractError>, ch: ChannelView|
            #[trigger] h.handles(before, typed, o, ch) && H::Rq::decodes_to(
                request.message@,
                &typed.message,
            ) && carries_metadata_of(typed, typed.message, request) && answers(
                ch,
                opt_vec(request.public_key),
                handled_reply(o).0,
                handled_reply(o).1,
                r,
                after,
            )
    } else {
        answers(
            before,
            opt_vec(request.public_key),
            PlainClientResponseCode::ErrorBadRequest,
            encode_api_error("Unable to parse request payload"@),
            r,
            after,
        )
    }
}

/// Dispatches a request to a method and returns the response.
pub trait ApiMethodHandlerDispatch {
    /// Whether answering `request` with `r` may take a channel in state
    /// `before` to `after`. A dispatcher that states nothing of itself may
    /// answer anything.
    open spec fn dispatches(
        &self,
        before: ChannelView,
        request: Request<Vec<u8>>,
        r: SpecClientResponse,
        after: ChannelView,
    ) -> bool {
        true
    }

    /// Handles `request` and answers it.
    fn dispatch(&self, channel: &mut SecureChannelContext, request: &Request<Vec<u8>>) -> (r: Response)
        requires
            old(channel).wf(),
        ensures
            final(channel).wf(),
            self.dispatches(old(channel)@, *request, r@, final(channel)@),
    ;
}

/// Dispatch of a method: its descriptor and its handler.
pub struct ApiMethodHandlerDispatchImpl<H> {
    pub descriptor: ApiMethodDescriptor,
    pub handler: H,
}

impl<H: ApiMethodHandler> ApiMethodHandlerDispatch for ApiMethodHandlerDispatchImpl<H> {
    open spec fn dispatches(
        &self,
        before: ChannelView,
        request: Request<Vec<u8>>,
        r: SpecClientResponse,
        after: ChannelView,
    ) -> bool {
        method_answers(self.handler, before, request, r, after)
    }

    /// Reads the request message with the request serializer, runs the
    /// handler on it with the request's metadata, and writes its response
    /// with the response serializer.
    fn dispatch(&self, channel: &mut SecureChannelContext, request: &Request<Vec<u8>>) -> (r: Response) {
        let message: H::Rq = match self.descriptor.request_serializer.read(&request.message) {
            Ok(m) => m,
            Err(_) => {
                return Response::error(
                    channel,
                    request,
                    PlainClientResponseCode::ErrorBadRequest,
                    "Unable to parse request payload",
                );
            },
        };
        let ghost before = channel@;
        let typed = request.copy_metadata_to(message);
        let outcome = self.handler.handle(channel, &typed);
        let ghost o = outcome;
        let ghost mid = channel@;
        assert(self.handler.handles(before, typed, o, mid));
        let response = match outcome {
            Ok(response) => response,
            Err(error) => {
                let r = Response::error(
                    channel,
                    request,
                    PlainClientResponseCode::Error,
                    error.message.as_str(),
                );
                assert(handled_reply(o) == (PlainClientResponseCode::Error, encode_api_error(error.message@)));
                return r;
            },
        };
        let bytes = match self.descriptor.response_serializer.write(&response) {
            Ok(b) => b,
            Err(_) => {
                return Response::error(
                    channel,
                    request,
                    PlainClientResponseCode::Error,
                    "Unable to serialize response payload",
                );
            },
        };
        assert(handled_reply(o) == (PlainClientResponseCode::Success, response.encoded()));
        Response::success(channel, request, bytes)
    }
}

/// A named RPC method of an enclave.
pub struct EnclaveMethod<D> {
    name: String,
    dispatcher: D,
}

impl<D: ApiMethodHandlerDispatch> EnclaveMethod<D> {
    /// The method's name.
    pub closed spec fn name_view(&self) -> Seq<char> {
        self.name@
    }

    /// The method's dispatcher.
    pub closed spec fn dispatcher_view(&self) -> D {
        self.dispatcher
    }

    /// Creates a method with the given name and dispatcher.
    pub fn with_dispatcher(name: String, dispatcher: D) -> (m: EnclaveMethod<D>)
        ensures
            m.name_view() == name@,
            m.dispatcher_view() == dispatcher,
    {
        EnclaveMethod { name, dispatcher }
    }

    /// The method's name.
    pub fn get_name(&self) -> (n: &String)
        ensures
            n@ == self.name_view(),
    {
        &self.name
    }

    /// Dispatches a request to the method.
    pub fn dispatch(&self, channel: &mut SecureChannelContext, request: &Request<Vec<u8>>) -> (r: Response)
        requires
            old(channel).wf(),
        ensures
            final(channel).wf(),
            self.dispatcher_view().dispatches(old(channel)@, *request, r@, final(channel)@),
    {
        self.dispatcher.dispatch(channel, request)
    }
}

impl<H: ApiMethodHandler> EnclaveMethod<ApiMethodHandlerDispatchImpl<H>> {
    /// Creates a method from its descriptor and handler.
    pub fn new(method: ApiMethodDescriptor, handler: H) -> (m: EnclaveMethod<
        ApiMethodHandlerDispatchImpl<H>,
    >)
        ensures
            m.name_view() == method.name@,
            m.dispatcher_view().handler == handler,
    {
        let name = method.name.clone();
        EnclaveMethod { name, dispatcher: ApiMethodHandlerDispatchImpl { descriptor: method, handler } }
    }
}

/// The names and dispatchers of a vector of methods.
pub closed spec fn method_entries<D>(ms: Seq<EnclaveMethod<D>>) -> Seq<(Seq<char>, D)> {
    ms.map_values(|m: EnclaveMethod<D>| (m.name@, m.dispatcher))
}

/// The method at a position is the one the table holds under its name.
proof fn lemma_method_at<D>(ms: Seq<EnclaveMethod<D>>, i: int)
    requires
        keys_unique(method_entries(ms)),
        0 <= i < ms.len(),
    ensures
        entry_map(method_entries(ms)).dom().contains(ms[i].name@),
        entry_map(method_entries(ms))[ms[i].name@] == ms[i].dispatcher,
{
    lemma_entry_at(method_entries(ms), i);
}

/// RPC dispatcher: the methods of an enclave, by name.
pub struct Dispatcher<D> {
    methods: Vec<EnclaveMethod<D>>,
}

impl<D: ApiMethodHandlerDispatch> Dispatcher<D> {
    /// Dispatchers by method name.
    pub closed spec fn methods_view(&self) -> Map<Seq<char>, D> {
        entry_map(method_entries(self.methods@))
    }

    /// Internal consistency: no two methods share a name.
    pub closed spec fn wf(&self) -> bool {
        keys_unique(method_entries(self.methods@))
    }

    /// A dispatcher without methods.
    pub fn empty() -> (d: Dispatcher<D>)
        ensures
            d.wf(),
            d.methods_view().dom().is_empty(),
    {
        let d = Dispatcher { methods: Vec::new() };
        assert(method_entries(d.methods@) =~= Seq::<(Seq<char>, D)>::empty());
        assert(d.methods_view().dom() =~= Set::<Seq<char>>::empty());
        d
    }

    /// Position of the method with the given name, if any.
    fn find_method(&self, name: &str) -> (r: Option<usize>)
        requires
            self.wf(),
        ensures
            r matches Some(i) ==> i < self.methods@.len() && self.methods@[i as int].name@ == name@,
            r is None <==> !self.methods_view().dom().contains(name@),
    {
        let ghost es = method_entries(self.methods@);
        let mut i: usize = 0;
        while i < self.methods.len()
            invariant
                i <= self.methods@.len(),
                es == method_entries(self.methods@),
                forall|j: int| 0 <= j < i ==> es[j].0 != name@,
            decreases self.methods@.len() - i,
        {
            if text_eq(self.methods[i].name.as_str(), name) {
                assert(es[i as int].0 == name@);
                assert(has_entry(es, name@));
                return Some(i);
            }
            i = i + 1;
        }
        assert(!has_entry(es, name@));
        None
    }

    /// Registers a method, replacing any method with the same name.
    pub fn add_method(&mut self, method: EnclaveMethod<D>)
        requires
            old(self).wf(),
        ensures
            final(self).wf(),
            final(self).methods_view() == old(self).methods_view().insert(
                method.name_view(),
                method.dispatcher_view(),
            ),
    {
        let ghost before = method_entries(self.methods@);
        let ghost entry = (method.name@, method.dispatcher);
        match self.find_method(method.name.as_str()) {
            Some(i) => {
                let _ = self.methods.remove(i);
                self.methods.insert(i, method);
                proof {
                    assert(method_entries(self.methods@) =~= before.update(i as int, entry));
                    lemma_entry_update(before, i as int, entry);
                }
            },
            None => {
                self.methods.push(method);
                proof {
                    assert(method_entries(self.methods@) =~= before.push(entry));
                    lemma_entry_push(before, entry);
                }
            },
        }
    }

    /// Dispatches a request: forwards an error that occurred while it was
    /// read, answers a call of an unknown method with an error, and hands
    /// other calls to their method.
    pub fn dispatch(&self, channel: &mut SecureChannelContext, request: Request<Vec<u8>>) -> (r: Response)
        requires
            self.wf(),
            old(channel).wf(),
            request.error is None ==> request.method is Some,
        ensures
            final(channel).wf(),
            dispatch_answers(*self, old(channel)@, request, r@, final(channel)@),
    {
        if let Some(error) = &request.error {
            return Response::error(channel, &request, error.code, error.message.as_str());
        }
        let method = request.method.as_ref().expect(
            "Non-errored request without method passed to dispatcher",
        );
        match self.find_method(method.as_str()) {
            Some(i) => {
                proof {
                    lemma_method_at(self.methods@, i as int);
                }
                self.methods[i].dispatch(channel, &request)
            },
            None => Response::error(
                channel,
                &request,
                PlainClientResponseCode::ErrorMethodNotFound,
                "Method not found",
            ),
        }
    }
}

/// What `Dispatcher::dispatch` answers to `request` from channel state
/// `before`, with `after` the state afterwards: a request read with an error
/// is answered with that error; a call of a registered method is answered
/// by that method's dispatch; any other call is answered that the method is
/// not found.
pub open spec fn dispatch_answers<D: ApiMethodHandlerDispatch>(
    d: Dispatcher<D>,
    before: ChannelView,
    request: Request<Vec<u8>>,
    r: SpecClientResponse,
    after: ChannelView,
) -> bool {
    match request.error {
        Some(e) => answers(before, opt_vec(request.public_key), e.code, encode_api_error(e.message@), r, after),
        None => if d.methods_view().dom().contains(opt_text(request.method).unwrap()) {
            d.methods_view()[opt_text(request.method).unwrap()].dispatches(before, request, r, after)
        } else {
            answers(
                before,
                opt_vec(request.public_key),
                PlainClientResponseCode::ErrorMethodNotFound,
                encode_api_error("Method not found"@),
                r,
                after,
            )
        },
    }
}

/// Whether `r` is how an enclave answers `request` from channel state
/// `before`, with `after` the state afterwards: a call to close the caller's
/// secure channel is answered with success, sealed in the session before it
/// is closed; every other request is answered as `Dispatcher::dispatch`
/// answers it.
pub open spec fn request_answered<D: ApiMethodHandlerDispatch>(
    d: Dispatcher<D>,
    before: ChannelView,
    request: Request<Vec<u8>>,
    r: SpecClientResponse,
    after: ChannelView,
) -> bool {
    if request.error is None && opt_text(request.method).unwrap() == METHOD_CHANNEL_CLOSE@ {
        exists|ch: ChannelView|
            #[trigger] answers(
                before,
                opt_vec(request.public_key),
                PlainClientResponseCode::Success,
                Seq::empty(),
                r,
                ch,
            ) && match opt_vec(request.public_key) {
                Some(k) => after == if k.len() == 32 {
                    ChannelView { sessions: ch.sessions.remove(k), ..ch }
                } else {
                    ch
                },
                None => after == ch,
            }
    } else {
        dispatch_answers(d, before, request, r, after)
    }
}

/// Handles one request for the enclave: a call to close the caller's secure
/// channel is answered first and the channel is then closed, whatever
/// methods are registered; every other request goes to the dispatcher.
pub fn handle_request<D: ApiMethodHandlerDispatch>(
    dispatcher: &Dispatcher<D>,
    channel: &mut SecureChannelContext,
    request: Request<Vec<u8>>,
) -> (r: Response)
    requires
        dispatcher.wf(),
        old(channel).wf(),
        request.error is None ==> request.method is Some,
    ensures
        final(channel).wf(),
        request_answered(*dispatcher, old(channel)@, request, r@, final(channel)@),
{
    if request.error.is_none() {
        let method = request.method.as_ref().unwrap();
        if text_eq(method.as_str(), METHOD_CHANNEL_CLOSE) {
            // The response goes out in the session that is being closed, so
            // it is sealed before the session goes.
            let empty: Vec<u8> = Vec::new();
            assert(empty@ =~= Seq::<u8>::empty());
            let response = Response::success(channel, &request, empty);
            let ghost ch = channel@;
            if let Some(public_key) = &request.public_key {
                let _ = crate::channel::channel_close(channel, public_key.as_slice());
            }
            assert(answers(
                old(channel)@,
                opt_vec(request.public_key),
                PlainClientResponseCode::Success,
                Seq::empty(),
                response@,
                ch,
            ));
            return response;
        }
    }
    dispatcher.dispatch(channel, request)
}

/// The abstract messages of a vector of responses.
pub open spec fn responses_views(v: Seq<Response>) -> Seq<SpecClientResponse> {
    v.map_values(|r: Response| r@)
}

/// Whether a request is fit for dispatch: a request without an error names
/// its method.
pub open spec fn dispatchable(r: Request<Vec<u8>>) -> bool {
    r.error is None ==> r.method is Some
}

/// Serializes the responses to a batch of requests into an RPC response
/// message, in order.
pub fn return_response(responses: Vec<Response>) -> (r: Vec<u8>)
    ensures
        r@ == encode_enclave_response(responses_views(responses@)),
{
    let ghost views = responses_views(responses@);
    let mut rest = responses;
    let mut client_response: Vec<ClientResponse> = Vec::new();
    while rest.len() > 0
        invariant
            crate::api::responses_view(client_response@) + responses_views(rest@) == views,
        decreases rest@.len(),
    {
        let ghost before = client_response@;
        let ghost rest_before = rest@;
        let response = rest.remove(0);
        client_response.push(response.take_message());
        assert(crate::api::responses_view(client_response@) =~= crate::api::responses_view(before).push(
            rest_before[0]@,
        ));
        assert(responses_views(rest_before) =~= seq![rest_before[0]@] + responses_views(rest@));
        assert(crate::api::responses_view(client_response@) + responses_views(rest@) =~= views);
    }
    assert(responses_views(rest@) =~= Seq::<SpecClientResponse>::empty());
    assert(crate::api::responses_view(client_response@) =~= views);
    let enclave_response = EnclaveResponse { client_response };
    enclave_response.write_to_bytes()
}

/// Whether `rs` answers `reqs` in order, each with `request_answered`, with
/// the channel going through the states `chs`: `chs[i]` before the i-th
/// request and `chs[i + 1]` after it.
pub open spec fn answered_in_order<D: ApiMethodHandlerDispatch>(
    d: Dispatcher<D>,
    reqs: Seq<Request<Vec<u8>>>,
    rs: Seq<SpecClientResponse>,
    chs: Seq<ChannelView>,
) -> bool {
    &&& rs.len() == reqs.len()
    &&& chs.len() == reqs.len() + 1
    &&& forall|i: int|
        0 <= i < reqs.len() ==> #[trigger] request_answered(d, chs[i], reqs[i], rs[i], chs[i + 1])
}

/// Handles one RPC call: parses the request message, answers each request in
/// order with `handle_request` and serializes the responses, one for each
/// request.
pub fn rpc_call<D: ApiMethodHandlerDispatch>(
    dispatcher: &Dispatcher<D>,
    channel: &mut SecureChannelContext,
    request_data: &[u8],
) -> (r: Vec<u8>)
    requires
        dispatcher.wf(),
        old(channel).wf(),
        decode_enclave_request(request_data@) is Some,
        nonces_fit(old(channel)@, decode_enclave_request(request_data@).unwrap()),
    ensures
        final(channel).wf(),
        exists|reqs: Seq<Request<Vec<u8>>>, rs: Seq<SpecClientResponse>, chs: Seq<ChannelView>|
            #[trigger] answered_in_order(*dispatcher, reqs, rs, chs) && {
                let parsed = parse_all(old(channel)@, decode_enclave_request(request_data@).unwrap());
                &&& requests_views(reqs) == parsed.0
                &&& chs[0] == parsed.1
                &&& chs.last() == final(channel)@
                &&& r@ == encode_enclave_response(rs)
            },
{
    let requests = parse_request(channel, request_data);
    let ghost all = requests@;
    let ghost n = requests@.len();
    let ghost ch0 = channel@;
    let ghost mut chs: Seq<ChannelView> = seq![channel@];
    let mut responses: Vec<Response> = Vec::new();
    let mut requests = requests;
    while requests.len() > 0
        invariant
            channel.wf(),
            dispatcher.wf(),
            responses@.len() + requests@.len() == n,
            all.len() == n,
            requests@ == all.subrange(responses@.len() as int, n as int),
            chs.len() == responses@.len() + 1,
            chs[0] == ch0,
            chs.last() == channel@,
            forall|j: int| 0 <= j < requests@.len() ==> dispatchable(#[trigger] requests@[j]),
            answered_in_order(
                *dispatcher,
                all.subrange(0, responses@.len() as int),
                responses_views(responses@),
                chs,
            ),
        decreases requests@.len(),
    {
        let ghost before = requests@;
        let ghost k: int = responses@.len() as int;
        let ghost ch_before = channel@;
        let request = requests.remove(0);
        assert(request == all[k as int]);
        assert(dispatchable(before[0]));
        assert forall|j: int| 0 <= j < requests@.len() implies dispatchable(#[trigger] requests@[j]) by {
            assert(requests@[j] == before[j + 1]);
        }
        assert(requests@ =~= all.subrange(k + 1, n as int));
        let ghost req = request;
        let response = handle_request(dispatcher, channel, request);
        let ghost done = responses@;
        responses.push(response);
        proof {
            let old_chs = chs;
            chs = chs.push(channel@);
            let reqs = all.subrange(0, k + 1);
            let rs = responses_views(responses@);
            assert(rs =~= responses_views(done).push(response@));
            assert forall|i: int| 0 <= i < reqs.len() implies #[trigger] request_answered(
                *dispatcher,
                chs[i],
                reqs[i],
                rs[i],
                chs[i + 1],
            ) by {
                if i < k {
                    assert(reqs[i] == all.subrange(0, k)[i]);
                    assert(rs[i] == responses_views(done)[i]);
                    assert(chs[i] == old_chs[i]);
                    assert(chs[i + 1] == old_chs[i + 1]);
                } else {
                    assert(reqs[i] == req);
                    assert(chs[i] == ch_before);
                }
            }
        }
    }
    let r = return_response(responses);
    proof {
        law_parse_keeps_sessions(PlainMethods::Setup, old(channel)@, decode_enclave_request(request_data@).unwrap());
        assert(all.subrange(0, n as int) =~= all);
        assert(answered_in_order(*dispatcher, all, responses_views(responses@), chs));
    }
    r
}

/// An enclave lets exactly three methods be called without a secure
/// channel: `_contract_init`, `_contract_restore` and `_channel_init`. A plain
/// request of one of them is read into a call of that method with its
/// payload and no client key or MRENCLAVE; a plain request of any other
/// method is read into the error that the method must be called over a secure
/// channel. Neither changes the channel.
pub proof fn law_plain_setup_methods(ch: ChannelView, m: Seq<char>, p: Seq<u8>)
    ensures
        parse_step(ch, SpecClientRequest::Plain(m, p)) == if m == "_contract_init"@ || m
            == "_contract_restore"@ || m == "_channel_init"@ {
            (SpecRequest::Call { method: m, payload: p, public_key: None, mr_enclave: None }, ch)
        } else {
            (
                SpecRequest::Failed {
                    code: PlainClientResponseCode::ErrorMethodSecure,
                    message: "Method call must be made over a secure channel"@,
                },
                ch,
            )
        },
{
}

/// A contract enclave lets exactly six methods be called without a secure
/// channel: `_metadata`, `_contract_init`, `_contract_restore`,
/// `_channel_init`, `_state_diff` and `_state_apply`. A plain request of one
/// of them is read into a call of that method with its payload and no client
/// key or MRENCLAVE; a plain request of any other method is read into the
/// error that the method must be called over a secure channel.
pub proof fn law_plain_contract_methods(ch: ChannelView, m: Seq<char>, p: Seq<u8>)
    ensures
        parse_step_in(PlainMethods::SetupAndState, ch, SpecClientRequest::Plain(m, p)) == if m
            == "_metadata"@ || m == "_contract_init"@ || m == "_contract_restore"@ || m
            == "_channel_init"@ || m == "_state_diff"@ || m == "_state_apply"@ {
            (SpecRequest::Call { method: m, payload: p, public_key: None, mr_enclave: None }, ch)
        } else {
            (
                SpecRequest::Failed {
                    code: PlainClientResponseCode::ErrorMethodSecure,
                    message: "Method call must be made over a secure channel"@,
                },
                ch,
            )
        },
{
}

} // verus!
