use vstd::prelude::*;
use crate::bytes::{append_bytes, zero_seq, zeros};
use crate::contract_error::ContractError;

verus! {

/// Length of a quote context.
pub const QUOTE_CONTEXT_LEN: usize = 8;

/// Length of SGX report data.
pub const SGX_REPORT_DATA_SIZE: usize = 64;

/// Length of the report data that follows the quote context.
pub const REPORT_DATA_LEN: usize = 56;

/// Length of an MRENCLAVE.
pub const MRENCLAVE_LEN: usize = 32;

/// Quote context of a secure channel attestation from contract to client
/// (`EkQ-CoCl`).
pub const QUOTE_CONTEXT_SC_CONTRACT_TO_CLIENT: [u8; 8] = [69, 107, 81, 45, 67, 111, 67, 108];

/// Quote context of a secure channel attestation from client to contract
/// (`EkQ-ClCo`).
pub const QUOTE_CONTEXT_SC_CLIENT_TO_CONTRACT: [u8; 8] = [69, 107, 81, 45, 67, 108, 67, 111];

/// Attestation report as issued by the attestation service.
#[derive(Debug)]
pub struct AttestationReport {
    pub body: Vec<u8>,
    pub signature: Vec<u8>,
    pub certificates: Vec<u8>,
}

impl AttestationReport {
    /// An empty report.
    pub fn new() -> (r: AttestationReport)
        ensures
            r.body@.len() == 0,
            r.signature@.len() == 0,
            r.certificates@.len() == 0,
    {
        AttestationReport { body: Vec::new(), signature: Vec::new(), certificates: Vec::new() }
    }
}

/// The parts of a quote that attestation checks read.
#[derive(Debug)]
pub struct Quote {
    /// Context the quote was made for.
    pub quote_context: Vec<u8>,
    /// Public key carried in the report data.
    pub public_key: Vec<u8>,
    /// MRENCLAVE of the quoted enclave.
    pub mr_enclave: Vec<u8>,
}

/// Report data binding a public key and a nonce: the key, the nonce, then
/// zeros up to the report data length.
pub open spec fn report_data_for(public_key: Seq<u8>, nonce: Seq<u8>) -> Seq<u8> {
    public_key + nonce + zero_seq((REPORT_DATA_LEN - 32 - 16) as nat)
}

/// Creates report data containing a public key and a nonce.
///
/// This type of report data is used when creating quotes for attestation of
/// enclaves.
pub fn create_report_data_for_public_key(nonce: &[u8], public_key: &[u8; 32]) -> (r: Result<
    Vec<u8>,
    ContractError,
>)
    ensures
        r is Ok <==> nonce@.len() == 16,
        r matches Ok(d) ==> d@ == report_data_for(public_key@, nonce@) && d@.len()
            == REPORT_DATA_LEN,
        r matches Err(e) ==> e.message@ == "Invalid nonce"@,
{
    if nonce.len() != 16 {
        return Err(ContractError::new("Invalid nonce"));
    }
    let mut report_data: Vec<u8> = Vec::new();
    append_bytes(&mut report_data, public_key.as_slice());
    append_bytes(&mut report_data, nonce);
    let rest = zeros(REPORT_DATA_LEN - 32 - 16);
    append_bytes(&mut report_data, rest.as_slice());
    Ok(report_data)
}

/// The full report data of a quote: the quote context followed by the report
/// data proper.
pub fn context_report_data(quote_context: &[u8; 8], report_data: &[u8]) -> (r: Vec<u8>)
    requires
        report_data@.len() == REPORT_DATA_LEN,
    ensures
        r@ == quote_context@ + report_data@,
        r@.len() == SGX_REPORT_DATA_SIZE,
{
    let mut data: Vec<u8> = Vec::new();
    append_bytes(&mut data, quote_context.as_slice());
    append_bytes(&mut data, report_data);
    data
}

/// Checks the length of an SPID before a quote is requested.
pub fn check_spid(spid: &[u8]) -> (r: Result<(), ContractError>)
    ensures
        r is Ok <==> spid@.len() == 16,
        r matches Err(e) ==> e.message@ == "Invalid SPID"@,
{
    if spid.len() != 16 {
        return Err(ContractError::new("Invalid SPID"));
    }
    Ok(())
}

/// Checks a request for a quote of the enclave, as a channel initialization
/// that carries the client's nonce and SPID does before anything else: the
/// nonce must be sixteen bytes, then the SPID too.
pub fn check_quote_request(nonce: &[u8], spid: &[u8]) -> (r: Result<(), ContractError>)
    ensures
        r is Ok <==> nonce@.len() == 16 && spid@.len() == 16,
        nonce@.len() != 16 ==> (r matches Err(e) && e.message@ == "Invalid nonce"@),
        nonce@.len() == 16 && spid@.len() != 16 ==> (r matches Err(e) && e.message@
            == "Invalid SPID"@),
{
    if nonce.len() != 16 {
        return Err(ContractError::new("Invalid nonce"));
    }
    check_spid(spid)
}

} // verus!
