use vstd::prelude::*;
use crate::api::{
    decode_contract_enclave_request, encode_contract_enclave_response, opt_secretbox,
    ClientResponse, ContractEnclaveRequest, ContractEnclaveResponse, CryptoSecretbox,
};
use crate::channel::SecureChannelContext;
use crate::dispatcher::{
    dispatchable, nonces_fit, parse_all_in, parse_client_requests_in, requests_views,
    responses_views, PlainMethods, Response,
};
use crate::request::Request;

verus! {

/// Parses the RPC request message of a contract enclave: the encrypted
/// contract state it carries, if any, and the requests it carries, opening
/// the encrypted ones in their sessions. A contract enclave also takes plain
/// calls of its metadata and encrypted-state methods (`_metadata`,
/// `_state_diff`, `_state_apply`), besides those that set up the contract
/// and its secure channels; a plain call of any other method is recorded as
/// one that must go over a secure channel.
///
/// A malformed message is left out by the precondition: the enclave cannot
/// go on with one.
pub fn parse_request(channel: &mut SecureChannelContext, request_data: &[u8]) -> (r: (
    Option<CryptoSecretbox>,
    Vec<Request<Vec<u8>>>,
))
    requires
        old(channel).wf(),
        decode_contract_enclave_request(request_data@) is Some,
        nonces_fit(old(channel)@, decode_contract_enclave_request(request_data@).unwrap().0),
    ensures
        final(channel).wf(),
        opt_secretbox(r.0) == decode_contract_enclave_request(request_data@).unwrap().1,
        (requests_views(r.1@), final(channel)@) == parse_all_in(
            PlainMethods::SetupAndState,
            old(channel)@,
            decode_contract_enclave_request(request_data@).unwrap().0,
        ),
        forall|j: int| 0 <= j < r.1@.len() ==> dispatchable(#[trigger] r.1@[j]),
{
    let enclave_request = ContractEnclaveRequest::parse_from_bytes(request_data).unwrap();
    let requests = parse_client_requests_in(
        PlainMethods::SetupAndState,
        channel,
        &enclave_request.client_request,
    );
    (enclave_request.encrypted_state, requests)
}

/// Serializes the responses to a batch of requests to a contract enclave,
/// in order, with the encrypted contract state, if any.
pub fn return_response(encrypted_state: Option<CryptoSecretbox>, responses: Vec<Response>) -> (r:
    Vec<u8>)
    ensures
        r@ == encode_contract_enclave_response(
            responses_views(responses@),
            opt_secretbox(encrypted_state),
        ),
{
    let ghost views = responses_views(responses@);
    let mut rest = responses;
    let mut client_response: Vec<ClientResponse> = Vec::new();
    while rest.len() > 0
        invariant
            crate::api::responses_view(client_response@) + responses_views(rest@) == views,
        decreases rest@.len(),
    {
        let ghost before = client_response@;
        let ghost rest_before = rest@;
        let response = rest.remove(0);
        client_response.push(response.take_message());
        assert(crate::api::responses_view(client_response@) =~= crate::api::responses_view(
            before,
        ).push(rest_before[0]@));
        assert(responses_views(rest_before) =~= seq![rest_before[0]@] + responses_views(rest@));
        assert(crate::api::responses_view(client_response@) + responses_views(rest@) =~= views);
    }
    assert(responses_views(rest@) =~= Seq::<crate::api::SpecClientResponse>::empty());
    assert(crate::api::responses_view(client_response@) =~= views);
    let enclave_response = ContractEnclaveResponse { client_response, encrypted_state };
    enclave_response.write_to_bytes()
}

} // verus!
