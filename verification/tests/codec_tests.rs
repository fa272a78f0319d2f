use ekiden::api::{
    ApiError, BsdiffPatch, ChannelInitResponseBox, ClientRequest, ClientResponse, CryptoBox,
    EnclaveRequest, EnclaveResponse, PlainClientRequest, PlainClientResponse,
    PlainClientResponseCode,
};
use ekiden::enclave::{plain_enclave_request, read_plain_enclave_response, EnclaveError};
use ekiden::serializer::{ProtocolBuffersSerializer, Serializer};

#[test]
fn crypto_box_round_trip_and_exact_bytes() {
    let b = CryptoBox { nonce: vec![1, 2], payload: vec![3], public_key: vec![] };
    let bytes = b.write_to_bytes();
    // field 1 (nonce), field 2 (payload); the empty key is left out.
    assert_eq!(bytes, vec![0x0a, 0x02, 1, 2, 0x12, 0x01, 3]);
    let back = CryptoBox::parse_from_bytes(&bytes).unwrap();
    assert_eq!(back.nonce, vec![1, 2]);
    assert_eq!(back.payload, vec![3]);
    assert!(back.public_key.is_empty());
    assert!(CryptoBox::parse_from_bytes(&[0x0a, 0x05, 1]).is_none());
    assert!(CryptoBox::parse_from_bytes(&[0x08, 0x01]).is_none());
}

#[test]
fn plain_request_round_trip() {
    let r = PlainClientRequest { method: String::from("_channel_init"), payload: vec![9, 9] };
    let back = PlainClientRequest::parse_from_bytes(&r.write_to_bytes()).unwrap();
    assert_eq!(back.method, "_channel_init");
    assert_eq!(back.payload, vec![9, 9]);
    // A method name that is not UTF-8.
    assert!(PlainClientRequest::parse_from_bytes(&[0x0a, 0x01, 0xff]).is_none());
}

#[test]
fn plain_response_codes() {
    for (code, n) in [
        (PlainClientResponseCode::Success, 0u64),
        (PlainClientResponseCode::Error, 1),
        (PlainClientResponseCode::ErrorBadRequest, 2),
        (PlainClientResponseCode::ErrorMethodNotFound, 3),
        (PlainClientResponseCode::ErrorSecureChannel, 4),
        (PlainClientResponseCode::ErrorMethodSecure, 5),
    ] {
        assert_eq!(code.to_number(), n);
        assert_eq!(PlainClientResponseCode::from_number(n), Some(code));
        let r = PlainClientResponse { code, payload: vec![n as u8] };
        let back = PlainClientResponse::parse_from_bytes(&r.write_to_bytes()).unwrap();
        assert_eq!(back.code, code);
        assert_eq!(back.payload, vec![n as u8]);
    }
    assert_eq!(PlainClientResponseCode::from_number(6), None);
}

#[test]
fn api_error_and_boxes_round_trip() {
    let e = ApiError { message: String::from("Method not found") };
    assert_eq!(ApiError::parse_from_bytes(&e.write_to_bytes()).unwrap().message, "Method not found");
    let b = ChannelInitResponseBox { short_term_public_key: vec![5; 32] };
    let back = ChannelInitResponseBox::parse_from_bytes(&b.write_to_bytes()).unwrap();
    assert_eq!(back.short_term_public_key, vec![5; 32]);
    let p = BsdiffPatch { new_length: 300, patch_bz2: vec![1, 2, 3] };
    let back = BsdiffPatch::parse_from_bytes(&p.write_to_bytes()).unwrap();
    assert_eq!(back.new_length, 300);
    assert_eq!(back.patch_bz2, vec![1, 2, 3]);
}

#[test]
fn enclave_batches_round_trip() {
    let requests = EnclaveRequest {
        client_request: vec![
            ClientRequest::PlainRequest(PlainClientRequest { method: String::from("a"), payload: vec![1] }),
            ClientRequest::EncryptedRequest(CryptoBox { nonce: vec![2; 24], payload: vec![3], public_key: vec![4; 32] }),
        ],
    };
    let back = EnclaveRequest::parse_from_bytes(&requests.write_to_bytes()).unwrap();
    assert_eq!(back.client_request.len(), 2);
    match &back.client_request[1] {
        ClientRequest::EncryptedRequest(b) => assert_eq!(b.public_key, vec![4; 32]),
        _ => panic!("expected an encrypted request"),
    }
    let responses = EnclaveResponse {
        client_response: vec![ClientResponse::PlainResponse(PlainClientResponse {
            code: PlainClientResponseCode::ErrorMethodSecure,
            payload: vec![],
        })],
    };
    let back = EnclaveResponse::parse_from_bytes(&responses.write_to_bytes()).unwrap();
    assert_eq!(back.client_response.len(), 1);
    let empty = EnclaveRequest::parse_from_bytes(&[]).unwrap();
    assert!(empty.client_request.is_empty());
}

#[test]
fn serializer_reads_what_it_writes() {
    let s = ProtocolBuffersSerializer;
    let r = PlainClientRequest { method: String::from("m"), payload: vec![7] };
    let bytes = Serializer::<PlainClientRequest>::write(&s, &r).unwrap();
    let back: PlainClientRequest = s.read(&bytes).unwrap();
    assert_eq!(back.method, "m");
    let e = Serializer::<CryptoBox>::read(&s, &vec![0xff]).err().unwrap();
    assert_eq!(e.message, "Malformed message");
}

#[test]
fn plain_enclave_call_messages() {
    let bytes = plain_enclave_request("_contract_init", vec![]);
    let parsed = EnclaveRequest::parse_from_bytes(&bytes).unwrap();
    assert_eq!(parsed.client_request.len(), 1);
    let ok = EnclaveResponse {
        client_response: vec![ClientResponse::PlainResponse(PlainClientResponse {
            code: PlainClientResponseCode::Success,
            payload: vec![1, 2],
        })],
    };
    assert_eq!(read_plain_enclave_response(&ok.write_to_bytes()).ok().unwrap(), vec![1, 2]);
    let failed = EnclaveResponse {
        client_response: vec![ClientResponse::PlainResponse(PlainClientResponse {
            code: PlainClientResponseCode::Error,
            payload: ApiError { message: String::from("boom") }.write_to_bytes(),
        })],
    };
    match read_plain_enclave_response(&failed.write_to_bytes()) {
        Err(EnclaveError::ResponseError(code, message)) => {
            assert_eq!(code, PlainClientResponseCode::Error);
            assert_eq!(message, "boom");
        }
        _ => panic!("expected a response error"),
    }
    assert!(matches!(read_plain_enclave_response(&[0xff]), Err(EnclaveError::ParseError)));
    assert_eq!(EnclaveError::SgxError.description(), "SGX execution error");
}
