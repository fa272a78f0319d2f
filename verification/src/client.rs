use vstd::prelude::*;
use crate::api::{
    decode_api_error, decode_init_response_box, decode_plain_response, encode_init_response_box,
    encode_plain_request, ApiError, ClientRequest, ClientResponse, CryptoBox, PlainClientRequest,
    PlainClientResponse, PlainClientResponseCode, SpecClientResponse,
};
use crate::crypto::{box_seal, box_shared_key, box_unseal, ZERO_BYTES};
use crate::nonce::{
    monotonic_accepts, monotonic_nonce, nonce_prefix, BOX_NONCE_LEN, NONCE_CONTEXT_INIT,
    NONCE_CONTEXT_REQUEST, NONCE_CONTEXT_RESPONSE,
};
use crate::secure_channel::padded;
use crate::bytes::{bytes_eq, copy_bytes};
use crate::client_channel::{client_key, response_opens, ClientChannel, ClientChannelView};
use crate::contract_error::ContractError;
use crate::dispatcher::METHOD_CHANNEL_INIT;
use crate::quote::Quote;
use crate::secure_channel::SessionState;
use crate::session::box_plaintext;
use crate::text::text_eq;

verus! {

/// Prepares the request of a call: sealed in the channel where it is set
/// up, plain otherwise.
pub fn prepare_call(channel: &mut ClientChannel, plain_request: PlainClientRequest) -> (r: Result<
    ClientRequest,
    ContractError,
>)
    ensures
        !(!old(channel)@.closed && old(channel)@.state == SessionState::Established) ==> (r matches Ok(
            ClientRequest::PlainRequest(p),
        ) && p.method@ == plain_request.method@ && p.payload@ == plain_request.payload@
            && final(channel)@ == old(channel)@),
        !old(channel)@.closed && old(channel)@.state == SessionState::Established ==> {
            &&& r is Ok <==> (old(channel)@.next_send < u64::MAX && encode_plain_request(
                plain_request.method@,
                plain_request.payload@,
            ).len() + ZERO_BYTES <= usize::MAX)
            &&& match r {
                Ok(ClientRequest::EncryptedRequest(b)) => {
                    let key = client_key(old(channel)@);
                    let nonce = monotonic_nonce(NONCE_CONTEXT_REQUEST@, old(channel)@.next_send);
                    &&& b.nonce@ == nonce
                    &&& b.payload@ == box_seal(
                        padded(encode_plain_request(plain_request.method@, plain_request.payload@)),
                        nonce,
                        key,
                    )
                    &&& box_unseal(b.payload@, nonce, key) == Some(
                        padded(encode_plain_request(plain_request.method@, plain_request.payload@)),
                    )
                    &&& b.public_key@ == old(channel)@.client_public_key
                    &&& final(channel)@ == (ClientChannelView {
                        next_send: (old(channel)@.next_send + 1) as u64,
                        shared_key: Some(key),
                        ..old(channel)@
                    })
                },
                Ok(ClientRequest::PlainRequest(_)) => false,
                Err(e) => final(channel)@ == old(channel)@ && if old(channel)@.next_send
                    == u64::MAX {
                    e.message@ == "Nonce generation failed"@
                } else {
                    e.message@ == "Failed to serialize request"@
                },
            }
        },
{
    if channel.must_encrypt() {
        match channel.create_request_box(&plain_request) {
            Ok(b) => Ok(ClientRequest::EncryptedRequest(b)),
            Err(e) => Err(e),
        }
    } else {
        Ok(ClientRequest::PlainRequest(plain_request))
    }
}

/// The outcome of a call as the response reports it: the payload on success,
/// otherwise the error message carried in the payload, or "Unknown error"
/// where the payload is not an error message.
pub open spec fn call_outcome(code: PlainClientResponseCode, payload: Seq<u8>) -> Result<Seq<u8>, Seq<char>> {
    if code == PlainClientResponseCode::Success {
        Ok(payload)
    } else {
        match decode_api_error(payload) {
            Some(m) => Err(m),
            None => Err("Unknown error"@),
        }
    }
}

/// Whether `r` reports the call outcome `o`.
pub open spec fn reports(r: Result<Vec<u8>, ContractError>, o: Result<Seq<u8>, Seq<char>>) -> bool {
    match o {
        Ok(p) => r matches Ok(v) && v@ == p,
        Err(m) => r matches Err(e) && e.message@ == m,
    }
}

/// Reads the payload of a plain response.
fn plain_outcome(response: PlainClientResponse) -> (r: Result<Vec<u8>, ContractError>)
    ensures
        reports(r, call_outcome(response.code, response.payload@)),
{
    match response.code {
        PlainClientResponseCode::Success => Ok(response.payload),
        _ => match ApiError::parse_from_bytes(response.payload.as_slice()) {
            Some(error) => Err(ContractError { message: error.message }),
            None => Err(ContractError::new("Unknown error")),
        },
    }
}

/// Reads the response to a call of `method` made over `channel`.
///
/// An encrypted response is opened in the channel. Where the channel is set
/// up, a plain response is refused; a plain secure channel error to any call
/// but a channel initialization closes the channel, so that it is set up
/// again on the next call.
pub fn read_call_response(channel: &mut ClientChannel, method: &str, response: ClientResponse) -> (r:
    Result<Vec<u8>, ContractError>)
    ensures
        ({
            let encrypting = !old(channel)@.closed && old(channel)@.state
                == SessionState::Established;
            match response@ {
                SpecClientResponse::Plain(code, payload) => if encrypting {
                    if code == PlainClientResponseCode::ErrorSecureChannel && method@
                        != METHOD_CHANNEL_INIT@ {
                        &&& r matches Err(e) && e.message@ == "Secure channel closed"@
                        &&& final(channel)@ == (ClientChannelView { closed: true, ..old(channel)@ })
                    } else {
                        &&& r matches Err(e) && e.message@
                            == "Contract returned plain response for encrypted request"@
                        &&& final(channel)@ == old(channel)@
                    }
                } else {
                    reports(r, call_outcome(code, payload)) && final(channel)@ == old(channel)@
                },
                SpecClientResponse::Encrypted(nonce, payload, _) => if response_opens(
                    old(channel)@,
                    nonce,
                    payload,
                ) {
                    box_plaintext(payload, nonce, client_key(old(channel)@)) matches Some(m)
                        && decode_plain_response(m) matches Some((c, p)) && reports(
                        r,
                        call_outcome(c, p),
                    )
                } else {
                    &&& r is Err
                    &&& nonce.len() != BOX_NONCE_LEN ==> (r matches Err(e) && e.message@
                        == "Invalid nonce"@)
                    &&& nonce.len() == BOX_NONCE_LEN && monotonic_accepts(
                        old(channel)@.last_received,
                        nonce,
                        NONCE_CONTEXT_RESPONSE@,
                    ) && (box_plaintext(payload, nonce, client_key(old(channel)@)) matches Some(m)
                        && decode_plain_response(m) is None) ==> (r matches Err(e) && e.message@
                        == "Malformed message"@)
                },
            }
        }),
{
    let encrypting = channel.must_encrypt();
    match response {
        ClientResponse::EncryptedResponse(b) => {
            match channel.open_response_box(&b) {
                Ok(plain) => plain_outcome(plain),
                Err(e) => Err(e),
            }
        },
        ClientResponse::PlainResponse(plain) => {
            if encrypting {
                let is_secure_channel_error = match plain.code {
                    PlainClientResponseCode::ErrorSecureChannel => true,
                    _ => false,
                };
                if is_secure_channel_error && !text_eq(method, METHOD_CHANNEL_INIT) {
                    channel.close();
                    return Err(ContractError::new("Secure channel closed"));
                }
                return Err(
                    ContractError::new("Contract returned plain response for encrypted request"),
                );
            }
            plain_outcome(plain)
        },
    }
}

/// First step of a channel initialization: nothing to do where the channel
/// is open; otherwise the channel restarts with a fresh keypair and the
/// short-term public key to send to the contract is returned.
pub fn begin_init_secure_channel(channel: &mut ClientChannel) -> (r: Result<
    Option<Vec<u8>>,
    ContractError,
>)
    ensures
        !old(channel)@.closed ==> (r matches Ok(None) && final(channel)@ == old(channel)@),
        old(channel)@.closed ==> match r {
            Ok(Some(k)) => k@ == final(channel)@.client_public_key && !final(channel)@.closed
                && final(channel)@.state == SessionState::Init,
            Ok(None) => false,
            Err(e) => e.message@ == "Keypair generation failed"@ && final(channel)@ == old(
                channel,
            )@,
        },
{
    if !channel.is_closed() {
        return Ok(None);
    }
    channel.reset()?;
    Ok(Some(copy_bytes(channel.get_client_public_key().as_slice())))
}

/// Last step of a channel initialization: the contract's attested enclave
/// must be the expected one, and the channel is then set up from the box in
/// the contract's answer, under the public key in the contract's quote.
pub fn finish_init_secure_channel(
    channel: &mut ClientChannel,
    mr_enclave: &[u8],
    quote: &Quote,
    response_box: &CryptoBox,
) -> (r: Result<(), ContractError>)
    ensures
        quote.mr_enclave@ != mr_enclave@ ==> (r matches Err(e) && e.message@
            == "Secure channel initialization failed: MRENCLAVE mismatch"@),
        r is Err ==> final(channel)@ == old(channel)@,
        r is Ok ==> {
            let key = box_shared_key(quote.public_key@, old(channel)@.client_private_key);
            let short = final(channel)@.contract_public_key;
            &&& quote.mr_enclave@ == mr_enclave@
            &&& quote.public_key@.len() == 32
            &&& response_box.nonce@.len() == BOX_NONCE_LEN
            &&& nonce_prefix(response_box.nonce@) == NONCE_CONTEXT_INIT@
            &&& box_plaintext(response_box.payload@, response_box.nonce@, key) matches Some(p)
                && decode_init_response_box(p) == Some(short)
            &&& old(channel)@.state == SessionState::Init
            &&& final(channel)@ == (ClientChannelView {
                contract_public_key: short,
                shared_key: None,
                state: SessionState::Established,
                ..old(channel)@
            })
        },
        forall|k: Seq<u8>|
            quote.mr_enclave@ == mr_enclave@ && quote.public_key@.len() == 32
                && response_box.nonce@.len() == BOX_NONCE_LEN && nonce_prefix(response_box.nonce@)
                == NONCE_CONTEXT_INIT@ && k.len() == 32 && box_unseal(
                response_box.payload@,
                response_box.nonce@,
                box_shared_key(quote.public_key@, old(channel)@.client_private_key),
            ) == Some(padded(#[trigger] encode_init_response_box(k))) && old(channel)@.state
                == SessionState::Init ==> r is Ok && final(channel)@.contract_public_key == k,
{
    if !bytes_eq(quote.mr_enclave.as_slice(), mr_enclave) {
        return Err(ContractError::new("Secure channel initialization failed: MRENCLAVE mismatch"));
    }
    channel.setup(quote.public_key.as_slice(), response_box)
}

/// Whether closing the channel needs a call to the contract: only an open
/// channel does.
pub fn begin_close_secure_channel(channel: &ClientChannel) -> (r: bool)
    ensures
        r == !channel@.closed,
{
    !channel.is_closed()
}

/// Last step of closing the channel, after the contract answered.
pub fn finish_close_secure_channel(channel: &mut ClientChannel)
    ensures
        final(channel)@ == (ClientChannelView { closed: true, ..old(channel)@ }),
{
    channel.close()
}

/// The plain request of a call.
pub fn plain_call_request(method: &str, payload: Vec<u8>) -> (r: PlainClientRequest)
    ensures
        r.method@ == method@,
        r.payload@ == payload@,
{
    PlainClientRequest { method: method.to_owned(), payload }
}

} // verus!
