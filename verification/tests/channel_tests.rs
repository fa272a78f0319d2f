use ekiden::api::{ContractEnclaveRequest, CryptoSecretbox};
use ekiden::api::PlainClientRequest;
use ekiden::dispatcher::Response;
use ekiden::api::{ClientRequest, ClientResponse, EnclaveRequest, EnclaveResponse, PlainClientResponseCode, ApiError};
use ekiden::channel::{channel_close, channel_init, contract_init, contract_restore, SecureChannelContext};
use ekiden::api::{ContractInitRequest, ContractRestoreRequest};
use ekiden::client::{
    begin_close_secure_channel, begin_init_secure_channel, finish_close_secure_channel,
    finish_init_secure_channel, plain_call_request, prepare_call, read_call_response,
};
use ekiden::client_channel::ClientChannel;
use ekiden::dispatcher::{
    rpc_call, ApiMethodDescriptor, ApiMethodHandler, ApiMethodHandlerDispatch, ApiMethodHandlerDispatchImpl,
    Dispatcher, EnclaveMethod,
};
use ekiden::quote::{Quote, QUOTE_CONTEXT_SC_CLIENT_TO_CONTRACT};
use ekiden::request::Request;
use ekiden::api::{ChannelInitRequest, ChannelInitResponse};
use ekiden::contract_error::ContractError;
use ekiden::internal::{AttestationVerifier, Method};
use ekiden::quote::AttestationReport;

/// Test method: takes a text message and answers with the text reversed;
/// fails on an empty text.
struct Reverse;

impl ApiMethodHandler for Reverse {
    type Rq = ApiError;
    type Rs = ApiError;

    fn handle(&self, _channel: &mut SecureChannelContext, request: &Request<ApiError>) -> Result<ApiError, ContractError> {
        if request.message.message.is_empty() {
            return Err(ContractError::new("empty payload"));
        }
        Ok(ApiError { message: request.message.message.chars().rev().collect() })
    }
}

/// The payload of a text message.
fn text(s: &str) -> Vec<u8> {
    ApiError { message: s.to_string() }.write_to_bytes()
}

/// The text of a payload.
fn read_text(b: &[u8]) -> String {
    ApiError::parse_from_bytes(b).unwrap().message
}

type ReverseMethod = ApiMethodHandlerDispatchImpl<Reverse>;

fn server() -> (SecureChannelContext, Dispatcher<ReverseMethod>) {
    let mut ctx = SecureChannelContext::new().unwrap();
    ctx.generate_keypair().unwrap();
    let mut dispatcher = Dispatcher::empty();
    dispatcher.add_method(EnclaveMethod::new(ApiMethodDescriptor::new(String::from("reverse")), Reverse));
    (ctx, dispatcher)
}

fn connect(ctx: &mut SecureChannelContext) -> ClientChannel {
    let mut client = ClientChannel::new();
    let client_key = begin_init_secure_channel(&mut client).unwrap().unwrap();
    let response = channel_init(ctx, &client_key, None, false).unwrap();
    let quote = Quote {
        quote_context: vec![],
        public_key: ctx.get_public_key().to_vec(),
        mr_enclave: vec![1u8; 32],
    };
    finish_init_secure_channel(&mut client, &[1u8; 32], &quote, &response.response_box).unwrap();
    client
}

/// Sends one client request through the enclave entry point and returns the
/// client response.
fn send(
    ctx: &mut SecureChannelContext,
    dispatcher: &Dispatcher<ReverseMethod>,
    request: ClientRequest,
) -> ClientResponse {
    let enclave_request = EnclaveRequest { client_request: vec![request] };
    let bytes = enclave_request.write_to_bytes();
    let response_bytes = rpc_call(dispatcher, ctx, &bytes);
    let mut response = EnclaveResponse::parse_from_bytes(&response_bytes).unwrap();
    assert_eq!(response.client_response.len(), 1);
    response.client_response.remove(0)
}

#[test]
fn secure_call_round_trip() {
    let (mut ctx, dispatcher) = server();
    let mut client = connect(&mut ctx);
    assert!(client.must_encrypt());
    for (payload, expected) in [("hello", "olleh"), ("abc", "cba")] {
        let request = prepare_call(&mut client, plain_call_request("reverse", text(payload))).unwrap();
        assert!(matches!(request, ClientRequest::EncryptedRequest(_)));
        let response = send(&mut ctx, &dispatcher, request);
        assert!(matches!(response, ClientResponse::EncryptedResponse(_)));
        assert_eq!(read_text(&read_call_response(&mut client, "reverse", response).unwrap()), expected);
    }
}

#[test]
fn handler_errors_reach_the_client() {
    let (mut ctx, dispatcher) = server();
    let mut client = connect(&mut ctx);
    let request = prepare_call(&mut client, plain_call_request("reverse", text(""))).unwrap();
    let response = send(&mut ctx, &dispatcher, request);
    assert_eq!(read_call_response(&mut client, "reverse", response).unwrap_err().message, "empty payload");
    let request = prepare_call(&mut client, plain_call_request("reverse", vec![0xff])).unwrap();
    let response = send(&mut ctx, &dispatcher, request);
    assert_eq!(
        read_call_response(&mut client, "reverse", response).unwrap_err().message,
        "Unable to parse request payload"
    );
    let request = prepare_call(&mut client, plain_call_request("missing", vec![1])).unwrap();
    let response = send(&mut ctx, &dispatcher, request);
    assert_eq!(read_call_response(&mut client, "missing", response).unwrap_err().message, "Method not found");
}

#[test]
fn replayed_request_closes_the_channel() {
    let (mut ctx, dispatcher) = server();
    let mut client = connect(&mut ctx);
    let request = prepare_call(&mut client, plain_call_request("reverse", text("xy"))).unwrap();
    let copy = match &request {
        ClientRequest::EncryptedRequest(b) => ClientRequest::EncryptedRequest(ekiden::api::CryptoBox {
            nonce: b.nonce.clone(),
            payload: b.payload.clone(),
            public_key: b.public_key.clone(),
        }),
        _ => unreachable!(),
    };
    let response = send(&mut ctx, &dispatcher, request);
    assert_eq!(read_text(&read_call_response(&mut client, "reverse", response).unwrap()), "yx");
    // The same box again: the server refuses it in plain text.
    let response = send(&mut ctx, &dispatcher, copy);
    match &response {
        ClientResponse::PlainResponse(p) => {
            assert_eq!(p.code, PlainClientResponseCode::ErrorSecureChannel);
            let e = ApiError::parse_from_bytes(&p.payload).unwrap();
            assert_eq!(e.message, "Unable to open secure channel request");
        }
        _ => panic!("expected a plain response"),
    }
    assert_eq!(read_call_response(&mut client, "reverse", response).unwrap_err().message, "Secure channel closed");
    assert!(client.is_closed());
}

#[test]
fn plain_calls_need_a_plain_method() {
    let (mut ctx, dispatcher) = server();
    let mut client = ClientChannel::new();
    let request = prepare_call(&mut client, plain_call_request("reverse", b"ab".to_vec())).unwrap();
    assert!(matches!(request, ClientRequest::PlainRequest(_)));
    let response = send(&mut ctx, &dispatcher, request);
    assert_eq!(
        read_call_response(&mut client, "reverse", response).unwrap_err().message,
        "Method call must be made over a secure channel"
    );
    // A plain method that is not registered.
    let request = prepare_call(&mut client, plain_call_request("_channel_init", vec![])).unwrap();
    let response = send(&mut ctx, &dispatcher, request);
    assert_eq!(read_call_response(&mut client, "_channel_init", response).unwrap_err().message, "Method not found");
}

#[test]
fn session_rules() {
    let mut ctx = SecureChannelContext::new().unwrap();
    assert!(!ctx.is_ready());
    assert_eq!(ctx.create_session(&[0u8; 32], None).unwrap_err().message, "Secure channel not ready");
    ctx.generate_keypair().unwrap();
    assert!(ctx.is_ready());
    assert_eq!(ctx.generate_keypair().unwrap_err().message, "Secure channel already initialized");
    assert_eq!(ctx.set_keypair(&[2u8; 32]).unwrap_err().message, "Secure channel already initialized");
    assert_eq!(ctx.create_session(&[1u8; 31], None).unwrap_err().message, "Bad short-term client key");
    assert!(ctx.create_session(&[1u8; 32], None).is_ok());
    assert_eq!(ctx.create_session(&[1u8; 32], None).unwrap_err().message, "Session already exists");
    assert!(ctx.get_session(&[1u8; 32]).is_ok());
    assert_eq!(ctx.get_session(&[2u8; 32]).err().unwrap().message, "Client session not found");
    assert!(channel_close(&mut ctx, &[1u8; 32]).is_ok());
    assert_eq!(ctx.get_session(&[1u8; 32]).err().unwrap().message, "Client session not found");
    assert_eq!(channel_close(&mut ctx, &[1u8; 3]).unwrap_err().message, "Bad short-term client key");
    assert_eq!(ctx.get_sealed_keypair().unwrap_err().message, "Only supported in SGX builds");
    assert_eq!(ctx.unseal_keypair(&[]).unwrap_err().message, "Only supported in SGX builds");
}

#[test]
fn client_attestation_is_checked() {
    let mut ctx = SecureChannelContext::new().unwrap();
    ctx.generate_keypair().unwrap();
    let key = [4u8; 32];
    let bad_context = Quote { quote_context: b"EkQ-CoCl".to_vec(), public_key: key.to_vec(), mr_enclave: vec![7; 32] };
    assert_eq!(
        ctx.create_session(&key, Some(bad_context)).unwrap_err().message,
        "Client attestation failed: invalid context"
    );
    let bad_key = Quote { quote_context: QUOTE_CONTEXT_SC_CLIENT_TO_CONTRACT.to_vec(), public_key: vec![5; 32], mr_enclave: vec![7; 32] };
    assert_eq!(
        ctx.create_session(&key, Some(bad_key)).unwrap_err().message,
        "Client attestation failed: invalid public key"
    );
    let good = Quote { quote_context: QUOTE_CONTEXT_SC_CLIENT_TO_CONTRACT.to_vec(), public_key: key.to_vec(), mr_enclave: vec![7; 32] };
    assert!(ctx.create_session(&key, Some(good)).is_ok());
    assert_eq!(ctx.get_session(&key).ok().unwrap().get_contract_public_key().len(), 32);
}

#[test]
fn channel_init_requires_ready_channel_and_matching_enclave() {
    let mut ctx = SecureChannelContext::new().unwrap();
    assert_eq!(channel_init(&mut ctx, &[1u8; 32], None, false).err().unwrap().message, "Secure channel not ready");
    ctx.generate_keypair().unwrap();
    let mut client = ClientChannel::new();
    let client_key = begin_init_secure_channel(&mut client).unwrap().unwrap();
    // Already open: nothing to do.
    assert_eq!(begin_init_secure_channel(&mut client).unwrap(), None);
    let response = channel_init(&mut ctx, &client_key, None, false).unwrap();
    let quote = Quote { quote_context: vec![], public_key: ctx.get_public_key().to_vec(), mr_enclave: vec![2u8; 32] };
    let e = finish_init_secure_channel(&mut client, &[1u8; 32], &quote, &response.response_box).unwrap_err();
    assert_eq!(e.message, "Secure channel initialization failed: MRENCLAVE mismatch");
    assert!(!client.must_encrypt());
    // Wrong contract key: the box does not open.
    let wrong = Quote { quote_context: vec![], public_key: vec![9u8; 32], mr_enclave: vec![1u8; 32] };
    assert!(finish_init_secure_channel(&mut client, &[1u8; 32], &wrong, &response.response_box).is_err());
    assert!(begin_close_secure_channel(&client));
    finish_close_secure_channel(&mut client);
    assert!(!begin_close_secure_channel(&client));
}

#[test]
fn contract_init_and_restore_need_sgx() {
    let mut ctx = SecureChannelContext::new().unwrap();
    let e = contract_init(&mut ctx, &ContractInitRequest {}).err().unwrap();
    assert_eq!(e.message, "Only supported in SGX builds");
    // The keypair was generated before sealing failed.
    assert!(ctx.is_ready());
    let e = contract_restore(&mut ctx, &ContractRestoreRequest { sealed_keys: vec![1, 2] }).err().unwrap();
    assert_eq!(e.message, "Only supported in SGX builds");
}

/// Test verifier: accepts every report and reads its body as the quoted
/// public key.
struct AcceptAll;

impl AttestationVerifier for AcceptAll {
    fn verify(&self, report: &AttestationReport) -> Result<Quote, ContractError> {
        Ok(Quote {
            quote_context: QUOTE_CONTEXT_SC_CLIENT_TO_CONTRACT.to_vec(),
            public_key: report.body.clone(),
            mr_enclave: report.signature.clone(),
        })
    }
}

fn send_to<D: ApiMethodHandlerDispatch>(
    ctx: &mut SecureChannelContext,
    dispatcher: &Dispatcher<D>,
    request: ClientRequest,
) -> ClientResponse {
    let enclave_request = EnclaveRequest { client_request: vec![request] };
    let response_bytes = rpc_call(dispatcher, ctx, &enclave_request.write_to_bytes());
    let mut response = EnclaveResponse::parse_from_bytes(&response_bytes).unwrap();
    response.client_response.remove(0)
}

#[test]
fn channel_init_through_the_dispatcher() {
    let mut ctx = SecureChannelContext::new().unwrap();
    ctx.generate_keypair().unwrap();
    let mut dispatcher: Dispatcher<Method<AcceptAll, ReverseMethod>> = Dispatcher::new(AcceptAll, true);
    dispatcher.add_method(EnclaveMethod::with_dispatcher(
        String::from("reverse"),
        Method::Custom(ApiMethodHandlerDispatchImpl {
            descriptor: ApiMethodDescriptor::new(String::from("reverse")),
            handler: Reverse,
        }),
    ));

    let mut client = ClientChannel::new();
    let client_key = begin_init_secure_channel(&mut client).unwrap().unwrap();
    let init = ChannelInitRequest {
        short_term_public_key: client_key.clone(),
        client_attestation_report: Some(AttestationReport {
            body: client_key.clone(),
            signature: vec![6u8; 32],
            certificates: vec![],
        }),
    };
    let request = prepare_call(&mut client, plain_call_request("_channel_init", init.write_to_bytes())).unwrap();
    let response = send_to(&mut ctx, &dispatcher, request);
    let payload = read_call_response(&mut client, "_channel_init", response).unwrap();
    let init_response = ChannelInitResponse::parse_from_bytes(&payload).unwrap();
    let quote = Quote { quote_context: vec![], public_key: ctx.get_public_key().to_vec(), mr_enclave: vec![1u8; 32] };
    finish_init_secure_channel(&mut client, &[1u8; 32], &quote, &init_response.response_box).unwrap();
    assert!(client.must_encrypt());

    // The session records the client's attested enclave.
    let request = prepare_call(&mut client, plain_call_request("reverse", text("123"))).unwrap();
    let response = send_to(&mut ctx, &dispatcher, request);
    assert_eq!(read_text(&read_call_response(&mut client, "reverse", response).unwrap()), "321");

    // Closing: the answer is sealed before the session goes.
    let request = prepare_call(&mut client, plain_call_request("_channel_close", vec![])).unwrap();
    let response = send_to(&mut ctx, &dispatcher, request);
    assert!(matches!(response, ClientResponse::EncryptedResponse(_)));
    assert_eq!(read_call_response(&mut client, "_channel_close", response).unwrap(), Vec::<u8>::new());
    finish_close_secure_channel(&mut client);
    assert_eq!(ctx.get_session(&client_key).err().unwrap().message, "Client session not found");

    // Restore needs SGX; a malformed restore request is refused.
    let mut plain = ClientChannel::new();
    let request = prepare_call(&mut plain, plain_call_request("_contract_restore", vec![0x0a, 0x01, 7])).unwrap();
    let response = send_to(&mut ctx, &dispatcher, request);
    assert_eq!(read_call_response(&mut plain, "_contract_restore", response).unwrap_err().message, "Only supported in SGX builds");
    let request = prepare_call(&mut plain, plain_call_request("_contract_restore", vec![0xff])).unwrap();
    let response = send_to(&mut ctx, &dispatcher, request);
    assert_eq!(read_call_response(&mut plain, "_contract_restore", response).unwrap_err().message, "Unable to parse request payload");
}

#[test]
fn new_dispatcher_has_the_internal_methods() {
    let mut ctx = SecureChannelContext::new().unwrap();
    ctx.generate_keypair().unwrap();
    let dispatcher: Dispatcher<Method<AcceptAll, ReverseMethod>> = Dispatcher::new(AcceptAll, false);
    let code_of = |r: Response| match r.take_message() {
        ClientResponse::PlainResponse(p) => p.code,
        ClientResponse::EncryptedResponse(_) => panic!("plain request answered encrypted"),
    };
    let unknown = Request::new(vec![], String::from("reverse"), None, None);
    assert_eq!(code_of(dispatcher.dispatch(&mut ctx, unknown)), PlainClientResponseCode::ErrorMethodNotFound);
    let restore = Request::new(vec![0xff], String::from("_contract_restore"), None, None);
    assert_eq!(code_of(dispatcher.dispatch(&mut ctx, restore)), PlainClientResponseCode::ErrorBadRequest);
    let init = Request::new(vec![0xff], String::from("_channel_init"), None, None);
    assert_eq!(code_of(dispatcher.dispatch(&mut ctx, init)), PlainClientResponseCode::ErrorBadRequest);
    let contract = Request::new(vec![], String::from("_contract_init"), None, None);
    assert_eq!(code_of(dispatcher.dispatch(&mut ctx, contract)), PlainClientResponseCode::Error);
}

#[test]
fn required_client_attestation_refuses_unattested_clients() {
    let mut ctx = SecureChannelContext::new().unwrap();
    ctx.generate_keypair().unwrap();
    let key = [3u8; 32];
    assert_eq!(channel_init(&mut ctx, &key, None, true).err().unwrap().message, "Client attestation required");
    assert_eq!(ctx.get_session(&key).err().unwrap().message, "Client session not found");
    assert!(channel_init(&mut ctx, &key, None, false).is_ok());
    assert_eq!(channel_init(&mut ctx, &key, None, false).err().unwrap().message, "Session already exists");
    assert_eq!(channel_init(&mut ctx, &[3u8; 5], None, false).err().unwrap().message, "Bad short-term client key");
}

#[test]
fn contract_enclaves_take_plain_state_calls() {
    let mut ctx = SecureChannelContext::new().unwrap();
    let request = || ClientRequest::PlainRequest(PlainClientRequest { method: String::from("_state_diff"), payload: vec![1] });
    let bytes = ContractEnclaveRequest { client_request: vec![request()], encrypted_state: None }.write_to_bytes();
    let (state, parsed) = ekiden::contract_dispatch::parse_request(&mut ctx, &bytes);
    assert!(state.is_none());
    assert_eq!(parsed.len(), 1);
    assert!(parsed[0].error.is_none());
    assert_eq!(parsed[0].method.as_deref(), Some("_state_diff"));
    let rpc_bytes = EnclaveRequest { client_request: vec![request()] }.write_to_bytes();
    let parsed = ekiden::dispatcher::parse_request(&mut ctx, &rpc_bytes);
    assert_eq!(parsed[0].error.as_ref().unwrap().message, "Method call must be made over a secure channel");
}

#[test]
fn contract_enclaves_pass_the_encrypted_state_on() {
    let mut ctx = SecureChannelContext::new().unwrap();
    let state = CryptoSecretbox { ciphertext: vec![5u8; 40], nonce: vec![6u8; 24] };
    let bytes = ContractEnclaveRequest {
        client_request: vec![],
        encrypted_state: Some(CryptoSecretbox { ciphertext: state.ciphertext.clone(), nonce: state.nonce.clone() }),
    }
    .write_to_bytes();
    let (got, parsed) = ekiden::contract_dispatch::parse_request(&mut ctx, &bytes);
    assert!(parsed.is_empty());
    let got = got.unwrap();
    assert_eq!(got.ciphertext, state.ciphertext);
    assert_eq!(got.nonce, state.nonce);
    // The response carries the state back next to the answers.
    let with_state = ekiden::contract_dispatch::return_response(Some(got), vec![]);
    let without = ekiden::contract_dispatch::return_response(None, vec![]);
    assert!(without.is_empty());
    assert!(with_state.len() > 64);
}

#[test]
fn channel_init_report_data_checks_nonce_spid_then_readiness() {
    let mut ctx = SecureChannelContext::new().unwrap();
    let nonce = [7u8; 16];
    let spid = [1u8; 16];
    assert_eq!(ekiden::channel::channel_init_report_data(&ctx, &[7u8; 3], &[1u8; 2]).unwrap_err().message, "Invalid nonce");
    assert_eq!(ekiden::channel::channel_init_report_data(&ctx, &nonce, &[1u8; 2]).unwrap_err().message, "Invalid SPID");
    assert_eq!(ekiden::channel::channel_init_report_data(&ctx, &nonce, &spid).unwrap_err().message, "Secure channel not ready");
    ctx.generate_keypair().unwrap();
    let data = ekiden::channel::channel_init_report_data(&ctx, &nonce, &spid).unwrap();
    assert_eq!(&data[..32], &ctx.get_public_key()[..]);
    assert_eq!(&data[32..48], &nonce[..]);
    assert_eq!(data.len(), 64);
    assert!(data[48..].iter().all(|b| *b == 0));
}

#[test]
fn quoted_channel_init_answers_with_the_quote_and_the_session_box() {
    let mut ctx = SecureChannelContext::new().unwrap();
    let key = [8u8; 32];
    assert_eq!(
        ekiden::channel::finish_quoted_channel_init(&mut ctx, &key, vec![1, 2, 3]).unwrap_err().message,
        "Secure channel not ready"
    );
    ctx.generate_keypair().unwrap();
    let response = ekiden::channel::finish_quoted_channel_init(&mut ctx, &key, vec![1, 2, 3]).unwrap();
    assert_eq!(response.quote, vec![1, 2, 3]);
    assert_eq!(response.short_term_public_key.nonce.len(), 24);
    assert!(ctx.get_session(&key).is_ok());
    assert_eq!(
        ekiden::channel::finish_quoted_channel_init(&mut ctx, &key, vec![]).unwrap_err().message,
        "Session already exists"
    );
}
