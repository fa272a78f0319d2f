use vstd::prelude::*;
use crate::api::{
    decode_api_error, decode_channel_init_request, decode_channel_init_response,
    decode_contract_restore_request, decode_crypto_box, decode_init_response_box,
    decode_plain_request, decode_plain_response, encode_api_error, encode_channel_init_request,
    encode_channel_init_response, encode_crypto_box, encode_init_response_box,
    encode_plain_request, encode_plain_response, opt_report, report_view, ApiError,
    ChannelInitRequest, ChannelInitResponse, ChannelInitResponseBox, ContractInitRequest,
    ContractInitResponse, ContractRestoreRequest, ContractRestoreResponse, CryptoBox,
    PlainClientRequest, PlainClientResponse,
};
use crate::bytes::copy_bytes;
use crate::wire::{decode_field_list, parse_fields};
use crate::contract_error::ContractError;

verus! {

/// A message with a wire encoding.
pub trait Message: Sized {
    /// The encoding of the message.
    spec fn encoded(&self) -> Seq<u8>;

    /// Whether `b` decodes to a message.
    spec fn decodable(b: Seq<u8>) -> bool;

    /// Whether `b` decodes to `m`.
    spec fn decodes_to(b: Seq<u8>, m: &Self) -> bool;

    /// Encodes the message.
    fn encode(&self) -> (r: Vec<u8>)
        ensures
            r@ == self.encoded(),
    ;

    /// Decodes a message.
    fn decode(b: &[u8]) -> (r: Option<Self>)
        ensures
            r is Some <==> Self::decodable(b@),
            r matches Some(m) ==> Self::decodes_to(b@, &m),
    ;
}

impl Message for CryptoBox {
    open spec fn encoded(&self) -> Seq<u8> {
        encode_crypto_box(self.nonce@, self.payload@, self.public_key@)
    }

    open spec fn decodable(b: Seq<u8>) -> bool {
        decode_crypto_box(b) is Some
    }

    open spec fn decodes_to(b: Seq<u8>, m: &Self) -> bool {
        decode_crypto_box(b) == Some((m.nonce@, m.payload@, m.public_key@))
    }

    fn encode(&self) -> (r: Vec<u8>) {
        self.write_to_bytes()
    }

    fn decode(b: &[u8]) -> (r: Option<Self>) {
        CryptoBox::parse_from_bytes(b)
    }
}

impl Message for PlainClientRequest {
    open spec fn encoded(&self) -> Seq<u8> {
        encode_plain_request(self.method@, self.payload@)
    }

    open spec fn decodable(b: Seq<u8>) -> bool {
        decode_plain_request(b) is Some
    }

    open spec fn decodes_to(b: Seq<u8>, m: &Self) -> bool {
        decode_plain_request(b) == Some((m.method@, m.payload@))
    }

    fn encode(&self) -> (r: Vec<u8>) {
        self.write_to_bytes()
    }

    fn decode(b: &[u8]) -> (r: Option<Self>) {
        PlainClientRequest::parse_from_bytes(b)
    }
}

impl Message for PlainClientResponse {
    open spec fn encoded(&self) -> Seq<u8> {
        encode_plain_response(self.code, self.payload@)
    }

    open spec fn decodable(b: Seq<u8>) -> bool {
        decode_plain_response(b) is Some
    }

    open spec fn decodes_to(b: Seq<u8>, m: &Self) -> bool {
        decode_plain_response(b) == Some((m.code, m.payload@))
    }

    fn encode(&self) -> (r: Vec<u8>) {
        self.write_to_bytes()
    }

    fn decode(b: &[u8]) -> (r: Option<Self>) {
        PlainClientResponse::parse_from_bytes(b)
    }
}

impl Message for ApiError {
    open spec fn encoded(&self) -> Seq<u8> {
        encode_api_error(self.message@)
    }

    open spec fn decodable(b: Seq<u8>) -> bool {
        decode_api_error(b) is Some
    }

    open spec fn decodes_to(b: Seq<u8>, m: &Self) -> bool {
        decode_api_error(b) == Some(m.message@)
    }

    fn encode(&self) -> (r: Vec<u8>) {
        self.write_to_bytes()
    }

    fn decode(b: &[u8]) -> (r: Option<Self>) {
        ApiError::parse_from_bytes(b)
    }
}

impl Message for ContractInitRequest {
    open spec fn encoded(&self) -> Seq<u8> {
        Seq::empty()
    }

    open spec fn decodable(b: Seq<u8>) -> bool {
        parse_fields(b) is Some
    }

    open spec fn decodes_to(b: Seq<u8>, m: &Self) -> bool {
        parse_fields(b) is Some
    }

    fn encode(&self) -> (r: Vec<u8>) {
        Vec::new()
    }

    fn decode(b: &[u8]) -> (r: Option<Self>) {
        match decode_field_list(b) {
            Some(_) => Some(ContractInitRequest {}),
            None => None,
        }
    }
}

impl Message for ContractInitResponse {
    open spec fn encoded(&self) -> Seq<u8> {
        encode_crypto_box(self.public_key@, self.sealed_keys@, self.mr_enclave@)
    }

    open spec fn decodable(b: Seq<u8>) -> bool {
        decode_crypto_box(b) is Some
    }

    open spec fn decodes_to(b: Seq<u8>, m: &Self) -> bool {
        decode_crypto_box(b) == Some((m.public_key@, m.sealed_keys@, m.mr_enclave@))
    }

    fn encode(&self) -> (r: Vec<u8>) {
        self.write_to_bytes()
    }

    fn decode(b: &[u8]) -> (r: Option<Self>) {
        match CryptoBox::parse_from_bytes(b) {
            Some(x) => Some(
                ContractInitResponse {
                    public_key: x.nonce,
                    sealed_keys: x.payload,
                    mr_enclave: x.public_key,
                },
            ),
            None => None,
        }
    }
}

impl Message for ContractRestoreRequest {
    open spec fn encoded(&self) -> Seq<u8> {
        encode_init_response_box(self.sealed_keys@)
    }

    open spec fn decodable(b: Seq<u8>) -> bool {
        decode_contract_restore_request(b) is Some
    }

    open spec fn decodes_to(b: Seq<u8>, m: &Self) -> bool {
        decode_contract_restore_request(b) == Some(m.sealed_keys@)
    }

    fn encode(&self) -> (r: Vec<u8>) {
        ChannelInitResponseBox { short_term_public_key: copy_bytes(self.sealed_keys.as_slice()) }.write_to_bytes()
    }

    fn decode(b: &[u8]) -> (r: Option<Self>) {
        ContractRestoreRequest::parse_from_bytes(b)
    }
}

impl Message for ContractRestoreResponse {
    open spec fn encoded(&self) -> Seq<u8> {
        encode_init_response_box(self.public_key@)
    }

    open spec fn decodable(b: Seq<u8>) -> bool {
        decode_init_response_box(b) is Some
    }

    open spec fn decodes_to(b: Seq<u8>, m: &Self) -> bool {
        decode_init_response_box(b) == Some(m.public_key@)
    }

    fn encode(&self) -> (r: Vec<u8>) {
        self.write_to_bytes()
    }

    fn decode(b: &[u8]) -> (r: Option<Self>) {
        match ChannelInitResponseBox::parse_from_bytes(b) {
            Some(x) => Some(ContractRestoreResponse { public_key: x.short_term_public_key }),
            None => None,
        }
    }
}

impl Message for ChannelInitRequest {
    open spec fn encoded(&self) -> Seq<u8> {
        encode_channel_init_request(
            self.short_term_public_key@,
            opt_report(self.client_attestation_report),
        )
    }

    open spec fn decodable(b: Seq<u8>) -> bool {
        decode_channel_init_request(b) is Some
    }

    open spec fn decodes_to(b: Seq<u8>, m: &Self) -> bool {
        decode_channel_init_request(b) == Some(
            (m.short_term_public_key@, opt_report(m.client_attestation_report)),
        )
    }

    fn encode(&self) -> (r: Vec<u8>) {
        self.write_to_bytes()
    }

    fn decode(b: &[u8]) -> (r: Option<Self>) {
        ChannelInitRequest::parse_from_bytes(b)
    }
}

impl Message for ChannelInitResponse {
    open spec fn encoded(&self) -> Seq<u8> {
        encode_channel_init_response(
            report_view(self.contract_attestation_report),
            (self.response_box.nonce@, self.response_box.payload@, self.response_box.public_key@),
        )
    }

    open spec fn decodable(b: Seq<u8>) -> bool {
        decode_channel_init_response(b) is Some
    }

    open spec fn decodes_to(b: Seq<u8>, m: &Self) -> bool {
        decode_channel_init_response(b) == Some(
            (
                report_view(m.contract_attestation_report),
                (m.response_box.nonce@, m.response_box.payload@, m.response_box.public_key@),
            ),
        )
    }

    fn encode(&self) -> (r: Vec<u8>) {
        self.write_to_bytes()
    }

    fn decode(b: &[u8]) -> (r: Option<Self>) {
        ChannelInitResponse::parse_from_bytes(b)
    }
}

/// A serializer for a specific message type.
pub trait Serializer<M: Message> {
    /// Serializes a message into bytes.
    fn write(&self, message: &M) -> (r: Result<Vec<u8>, ContractError>)
        ensures
            r matches Ok(b) && b@ == message.encoded(),
    ;

    /// Deserializes a message from bytes; fails on bytes that are not an
    /// encoding of one.
    fn read(&self, bytes: &Vec<u8>) -> (r: Result<M, ContractError>)
        ensures
            r is Ok <==> M::decodable(bytes@),
            r matches Ok(m) ==> M::decodes_to(bytes@, &m),
            r matches Err(e) ==> e.message@ == "Malformed message"@,
    ;
}

/// Protocol Buffers serializer.
pub struct ProtocolBuffersSerializer;

impl<M: Message> Serializer<M> for ProtocolBuffersSerializer {
    fn write(&self, message: &M) -> (r: Result<Vec<u8>, ContractError>) {
        Ok(message.encode())
    }

    fn read(&self, bytes: &Vec<u8>) -> (r: Result<M, ContractError>) {
        match M::decode(bytes.as_slice()) {
            Some(m) => Ok(m),
            None => Err(ContractError::new("Malformed message")),
        }
    }
}

} // verus!
