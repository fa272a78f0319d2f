use vstd::prelude::*;
use crate::api::{
    decode_api_error, decode_enclave_response, encode_enclave_request, ApiError, ClientRequest,
    ClientResponse, EnclaveRequest, EnclaveResponse, PlainClientRequest, PlainClientResponseCode,
    SpecClientRequest, SpecClientResponse,
};

verus! {

/// Error of a call into an enclave from the untrusted side.
#[derive(Debug)]
pub enum EnclaveError {
    ParseError,
    RpcRouterInvalidEndpoint,
    RpcRouterCallFailed,
    ResponseError(PlainClientResponseCode, String),
    SgxError,
    OtherError(String),
}

impl EnclaveError {
    /// Short description of the error.
    pub fn description(&self) -> (d: &'static str)
        ensures
            d@ == match *self {
                EnclaveError::ParseError => "RPC message parse error"@,
                EnclaveError::RpcRouterInvalidEndpoint => "RPC router: invalid endpoint"@,
                EnclaveError::RpcRouterCallFailed => "RPC router: call failed"@,
                EnclaveError::ResponseError(_, _) => "RPC call returned an error"@,
                EnclaveError::SgxError => "SGX execution error"@,
                EnclaveError::OtherError(_) => "Other error"@,
            },
    {
        match self {
            EnclaveError::ParseError => "RPC message parse error",
            EnclaveError::RpcRouterInvalidEndpoint => "RPC router: invalid endpoint",
            EnclaveError::RpcRouterCallFailed => "RPC router: call failed",
            EnclaveError::ResponseError(_, _) => "RPC call returned an error",
            EnclaveError::SgxError => "SGX execution error",
            EnclaveError::OtherError(_) => "Other error",
        }
    }
}

/// The RPC request message of a plain call of `method` with a serialized
/// payload.
pub fn plain_enclave_request(method: &str, payload: Vec<u8>) -> (r: Vec<u8>)
    ensures
        r@ == encode_enclave_request(seq![SpecClientRequest::Plain(method@, payload@)]),
{
    let plain_request = PlainClientRequest { method: method.to_owned(), payload };
    let mut client_request: Vec<ClientRequest> = Vec::new();
    client_request.push(ClientRequest::PlainRequest(plain_request));
    let enclave_request = EnclaveRequest { client_request };
    assert(crate::api::requests_view(enclave_request.client_request@) =~= seq![
        SpecClientRequest::Plain(method@, payload@),
    ]);
    enclave_request.write_to_bytes()
}

/// Whether an enclave's answer to a plain call starts with a plain response,
/// as an answer to a plain request must.
pub open spec fn answers_plainly(b: Seq<u8>) -> bool {
    match decode_enclave_response(b) {
        Some(rs) => rs.len() > 0 && rs[0] is Plain,
        None => true,
    }
}

/// Reads the enclave's answer to a plain call: the serialized response
/// payload on success, the reported error otherwise.
pub fn read_plain_enclave_response(response: &[u8]) -> (r: Result<Vec<u8>, EnclaveError>)
    requires
        answers_plainly(response@),
    ensures
        match decode_enclave_response(response@) {
            None => r matches Err(EnclaveError::ParseError),
            Some(rs) => match rs[0] {
                SpecClientResponse::Plain(code, payload) => if code
                    == PlainClientResponseCode::Success {
                    r matches Ok(p) && p@ == payload
                } else {
                    match decode_api_error(payload) {
                        Some(m) => r matches Err(EnclaveError::ResponseError(c, t)) && c == code
                            && t@ == m,
                        None => r matches Err(EnclaveError::ResponseError(c, t)) && c == code
                            && t@ == "<Unable to parse error payload>"@,
                    }
                },
                SpecClientResponse::Encrypted(_, _, _) => false,
            },
        },
{
    let enclave_response = match EnclaveResponse::parse_from_bytes(response) {
        Some(r) => r,
        None => return Err(EnclaveError::ParseError),
    };
    let mut responses = enclave_response.client_response;
    let first = responses.remove(0);
    let plain = match first {
        ClientResponse::PlainResponse(p) => p,
        ClientResponse::EncryptedResponse(_) => vstd::pervasive::unreached(),
    };
    match plain.code {
        PlainClientResponseCode::Success => Ok(plain.payload),
        code => match ApiError::parse_from_bytes(plain.payload.as_slice()) {
            Some(error) => Err(EnclaveError::ResponseError(code, error.message)),
            None => Err(
                EnclaveError::ResponseError(code, "<Unable to parse error payload>".to_string()),
            ),
        },
    }
}

} // verus!
