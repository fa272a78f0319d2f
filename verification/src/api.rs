use vstd::prelude::*;
use vstd::utf8::encode_utf8;
use crate::bytes::copy_bytes;
use crate::codec::{
    all_bytes, all_varint, bytes_entry, bytes_field, get_bytes_field, get_varint_field,
    get_repeated_bytes, has_field, last_field, lemma_all_append, lemma_repeated_roundtrip, repeated_bytes, repeated_entries, lemma_entry_lookups, lemma_last_field_append,
    lemma_utf8_roundtrip, message_entry, push_bytes_entry, push_varint_entry, text_from_utf8,
    text_to_utf8, utf8_text, varint_entry, varint_field,
};
use crate::wire::{
    decode_field_list, encode_field_list, encode_fields, field_wf, fields_view,
    lemma_fields_roundtrip, parse_fields, SpecField, WireField,
};

verus! {

/// Whether every field of a list can be encoded.
pub open spec fn all_wf(fs: Seq<SpecField>) -> bool {
    forall|i: int| 0 <= i < fs.len() ==> field_wf(#[trigger] fs[i])
}

/// The encoding of a field list whose view is `fs`.
fn encode_list(fields: &Vec<WireField>, Ghost(fs): Ghost<Seq<SpecField>>) -> (r: Vec<u8>)
    requires
        fields_view(fields@) == fs,
        all_wf(fs),
    ensures
        r@ == encode_fields(fs),
{
    assert forall|i: int| 0 <= i < fields@.len() implies field_wf(#[trigger] fields@[i]@) by {
        assert(fields_view(fields@)[i] == fields@[i]@);
    }
    encode_field_list(fields)
}

/// Encoded entries are well formed where the field numbers are valid and the
/// lengths fit in 64 bits.
proof fn lemma_entries_wf(a: Seq<SpecField>, b: Seq<SpecField>)
    requires
        all_wf(a),
        all_wf(b),
    ensures
        all_wf(a + b),
{
    assert forall|i: int| 0 <= i < (a + b).len() implies field_wf(#[trigger] (a + b)[i]) by {
        if i < a.len() {
            assert((a + b)[i] == a[i]);
        } else {
            assert((a + b)[i] == b[i - a.len()]);
        }
    }
}

/// Entries with a valid number and a length that fits in 64 bits can be encoded.
proof fn lemma_entry_wf(n: u64, b: Seq<u8>, x: u64)
    requires
        1 <= n <= crate::wire::MAX_FIELD_NUMBER,
        b.len() <= u64::MAX,
    ensures
        all_wf(bytes_entry(n, b)),
        all_wf(message_entry(n, b)),
        all_wf(varint_entry(n, x)),
{
}

/// Field lookups in a two-entry list.
proof fn lemma_lookup2(e1: Seq<SpecField>, e2: Seq<SpecField>, number: u64)
    ensures
        last_field(e1 + e2, number) == match last_field(e2, number) {
            Some(v) => Some(v),
            None => last_field(e1, number),
        },
        all_bytes(e1 + e2, number) == (all_bytes(e1, number) && all_bytes(e2, number)),
        all_varint(e1 + e2, number) == (all_varint(e1, number) && all_varint(e2, number)),
{
    lemma_last_field_append(e1, e2, number);
    lemma_all_append(e1, e2, number);
}

// ---------------------------------------------------------------------------
// CryptoBox

/// Encrypted and authenticated box exchanged over a secure channel.
#[derive(Debug)]
pub struct CryptoBox {
    /// Box nonce (context prefix followed by the counter or random bytes).
    pub nonce: Vec<u8>,
    /// Ciphertext, including the authenticator.
    pub payload: Vec<u8>,
    /// Short-term public key of the sender, where the receiver needs it.
    pub public_key: Vec<u8>,
}

/// Fields of a crypto box: nonce (1), payload (2), public key (3).
pub open spec fn crypto_box_fields(nonce: Seq<u8>, payload: Seq<u8>, public_key: Seq<u8>) -> Seq<SpecField> {
    bytes_entry(1, nonce) + bytes_entry(2, payload) + bytes_entry(3, public_key)
}

/// Encoding of a crypto box.
pub open spec fn encode_crypto_box(nonce: Seq<u8>, payload: Seq<u8>, public_key: Seq<u8>) -> Seq<u8> {
    encode_fields(crypto_box_fields(nonce, payload, public_key))
}

/// Decoding of a crypto box: its nonce, payload and public key.
pub open spec fn decode_crypto_box(b: Seq<u8>) -> Option<(Seq<u8>, Seq<u8>, Seq<u8>)> {
    match parse_fields(b) {
        Some(fs) => if all_bytes(fs, 1) && all_bytes(fs, 2) && all_bytes(fs, 3) {
            Some((bytes_field(fs, 1), bytes_field(fs, 2), bytes_field(fs, 3)))
        } else {
            None
        },
        None => None,
    }
}

impl CryptoBox {
    /// An empty box.
    pub fn new() -> (b: CryptoBox)
        ensures
            b.nonce@.len() == 0,
            b.payload@.len() == 0,
            b.public_key@.len() == 0,
    {
        CryptoBox { nonce: Vec::new(), payload: Vec::new(), public_key: Vec::new() }
    }

    /// Serializes the box.
    pub fn write_to_bytes(&self) -> (r: Vec<u8>)
        ensures
            r@ == encode_crypto_box(self.nonce@, self.payload@, self.public_key@),
    {
        let mut fields: Vec<WireField> = Vec::new();
        push_bytes_entry(&mut fields, 1, copy_bytes(self.nonce.as_slice()));
        push_bytes_entry(&mut fields, 2, copy_bytes(self.payload.as_slice()));
        push_bytes_entry(&mut fields, 3, copy_bytes(self.public_key.as_slice()));
        let ghost fs = crypto_box_fields(self.nonce@, self.payload@, self.public_key@);
        assert(fields_view(fields@) =~= fs);
        proof {
            assert(self.nonce@.len() == self.nonce.len());
            assert(self.payload@.len() == self.payload.len());
            assert(self.public_key@.len() == self.public_key.len());
            lemma_entry_wf(1, self.nonce@, 0);
            lemma_entry_wf(2, self.payload@, 0);
            lemma_entry_wf(3, self.public_key@, 0);
            lemma_entries_wf(bytes_entry(1, self.nonce@), bytes_entry(2, self.payload@));
            lemma_entries_wf(
                bytes_entry(1, self.nonce@) + bytes_entry(2, self.payload@),
                bytes_entry(3, self.public_key@),
            );
        }
        encode_list(&fields, Ghost(fs))
    }

    /// Parses a box from its encoding.
    pub fn parse_from_bytes(b: &[u8]) -> (r: Option<CryptoBox>)
        ensures
            match decode_crypto_box(b@) {
                Some((n, p, k)) => r matches Some(x) && x.nonce@ == n && x.payload@ == p
                    && x.public_key@ == k,
                None => r is None,
            },
    {
        let fields = match decode_field_list(b) {
            Some(f) => f,
            None => return None,
        };
        let nonce = match get_bytes_field(&fields, 1) {
            Some(v) => v,
            None => return None,
        };
        let payload = match get_bytes_field(&fields, 2) {
            Some(v) => v,
            None => return None,
        };
        let public_key = match get_bytes_field(&fields, 3) {
            Some(v) => v,
            None => return None,
        };
        Some(CryptoBox { nonce, payload, public_key })
    }
}

/// Decoding an encoded crypto box gives back its nonce, payload and public key.
pub proof fn law_crypto_box_roundtrip(nonce: Seq<u8>, payload: Seq<u8>, public_key: Seq<u8>)
    requires
        nonce.len() <= u64::MAX,
        payload.len() <= u64::MAX,
        public_key.len() <= u64::MAX,
    ensures
        decode_crypto_box(encode_crypto_box(nonce, payload, public_key)) == Some(
            (nonce, payload, public_key),
        ),
{
    let e1 = bytes_entry(1, nonce);
    let e2 = bytes_entry(2, payload);
    let e3 = bytes_entry(3, public_key);
    let fs = e1 + e2 + e3;
    lemma_entry_wf(1, nonce, 0);
    lemma_entry_wf(2, payload, 0);
    lemma_entry_wf(3, public_key, 0);
    lemma_entries_wf(e1, e2);
    lemma_entries_wf(e1 + e2, e3);
    lemma_fields_roundtrip(fs);
    lemma_entry_lookups(1, nonce, 0, 1);
    lemma_entry_lookups(2, payload, 0, 1);
    lemma_entry_lookups(3, public_key, 0, 1);
    lemma_entry_lookups(1, nonce, 0, 2);
    lemma_entry_lookups(2, payload, 0, 2);
    lemma_entry_lookups(3, public_key, 0, 2);
    lemma_entry_lookups(1, nonce, 0, 3);
    lemma_entry_lookups(2, payload, 0, 3);
    lemma_entry_lookups(3, public_key, 0, 3);
    lemma_lookup2(e1, e2, 1);
    lemma_lookup2(e1, e2, 2);
    lemma_lookup2(e1, e2, 3);
    lemma_lookup2(e1 + e2, e3, 1);
    lemma_lookup2(e1 + e2, e3, 2);
    lemma_lookup2(e1 + e2, e3, 3);
}

/// Symmetrically encrypted box (used for contract state).
#[derive(Debug)]
pub struct CryptoSecretbox {
    pub ciphertext: Vec<u8>,
    pub nonce: Vec<u8>,
}

/// Request to initialize a contract.
#[derive(Debug)]
pub struct ContractInitRequest {}

/// Answer to a contract initialization: the long-term public key, the
/// sealed keypair and the contract's MRENCLAVE.
#[derive(Debug)]
pub struct ContractInitResponse {
    pub public_key: Vec<u8>,
    pub sealed_keys: Vec<u8>,
    pub mr_enclave: Vec<u8>,
}

/// Request to restore a contract from its sealed keypair.
#[derive(Debug)]
pub struct ContractRestoreRequest {
    pub sealed_keys: Vec<u8>,
}

/// Answer to a contract restore: the long-term public key.
#[derive(Debug)]
pub struct ContractRestoreResponse {
    pub public_key: Vec<u8>,
}

/// Answer to a channel initialization: the contract's attestation report and
/// the box holding the contract's short-term public key.
#[derive(Debug)]
pub struct ChannelInitResponse {
    pub contract_attestation_report: crate::quote::AttestationReport,
    pub response_box: CryptoBox,
}

/// Request for the diff between two encrypted states.
#[derive(Debug)]
pub struct StateDiffRequest {
    pub old: CryptoSecretbox,
    pub new: CryptoSecretbox,
}

/// Encrypted diff between two states.
#[derive(Debug)]
pub struct StateDiffResponse {
    pub diff: CryptoSecretbox,
}

/// Request to apply an encrypted diff to an encrypted state.
#[derive(Debug)]
pub struct StateApplyRequest {
    pub old: CryptoSecretbox,
    pub diff: CryptoSecretbox,
}

/// Encrypted state that applying a diff gave.
#[derive(Debug)]
pub struct StateApplyResponse {
    pub new: CryptoSecretbox,
}


// ---------------------------------------------------------------------------
// PlainClientRequest

/// Plain-text request: method name and serialized request payload.
#[derive(Debug)]
pub struct PlainClientRequest {
    pub method: String,
    pub payload: Vec<u8>,
}

/// Fields of a plain request: method (1), payload (2).
pub open spec fn plain_request_fields(method: Seq<char>, payload: Seq<u8>) -> Seq<SpecField> {
    bytes_entry(1, encode_utf8(method)) + bytes_entry(2, payload)
}

/// Encoding of a plain request.
pub open spec fn encode_plain_request(method: Seq<char>, payload: Seq<u8>) -> Seq<u8> {
    encode_fields(plain_request_fields(method, payload))
}

/// Decoding of a plain request: its method and payload.
pub open spec fn decode_plain_request(b: Seq<u8>) -> Option<(Seq<char>, Seq<u8>)> {
    match parse_fields(b) {
        Some(fs) => if all_bytes(fs, 1) && all_bytes(fs, 2) {
            match utf8_text(bytes_field(fs, 1)) {
                Some(m) => Some((m, bytes_field(fs, 2))),
                None => None,
            }
        } else {
            None
        },
        None => None,
    }
}

impl PlainClientRequest {
    /// Serializes the request.
    pub fn write_to_bytes(&self) -> (r: Vec<u8>)
        ensures
            r@ == encode_plain_request(self.method@, self.payload@),
    {
        let method = text_to_utf8(&self.method);
        let mut fields: Vec<WireField> = Vec::new();
        push_bytes_entry(&mut fields, 1, method);
        push_bytes_entry(&mut fields, 2, copy_bytes(self.payload.as_slice()));
        let ghost fs = plain_request_fields(self.method@, self.payload@);
        assert(fields_view(fields@) =~= fs);
        proof {
            assert(self.payload@.len() == self.payload.len());
            assert(method@.len() == method.len());
            lemma_entry_wf(1, encode_utf8(self.method@), 0);
            lemma_entry_wf(2, self.payload@, 0);
            lemma_entries_wf(bytes_entry(1, encode_utf8(self.method@)), bytes_entry(2, self.payload@));
        }
        encode_list(&fields, Ghost(fs))
    }

    /// Parses a request from its encoding.
    pub fn parse_from_bytes(b: &[u8]) -> (r: Option<PlainClientRequest>)
        ensures
            match decode_plain_request(b@) {
                Some((m, p)) => r matches Some(x) && x.method@ == m && x.payload@ == p,
                None => r is None,
            },
    {
        let fields = match decode_field_list(b) {
            Some(f) => f,
            None => return None,
        };
        let method_bytes = match get_bytes_field(&fields, 1) {
            Some(v) => v,
            None => return None,
        };
        let payload = match get_bytes_field(&fields, 2) {
            Some(v) => v,
            None => return None,
        };
        let method = match text_from_utf8(method_bytes.as_slice()) {
            Some(m) => m,
            None => return None,
        };
        Some(PlainClientRequest { method, payload })
    }
}

/// Decoding an encoded plain request gives back its method and payload.
pub proof fn law_plain_request_roundtrip(method: Seq<char>, payload: Seq<u8>)
    requires
        encode_utf8(method).len() <= u64::MAX,
        payload.len() <= u64::MAX,
    ensures
        decode_plain_request(encode_plain_request(method, payload)) == Some((method, payload)),
{
    let m = encode_utf8(method);
    let e1 = bytes_entry(1, m);
    let e2 = bytes_entry(2, payload);
    lemma_entry_wf(1, m, 0);
    lemma_entry_wf(2, payload, 0);
    lemma_entries_wf(e1, e2);
    lemma_fields_roundtrip(e1 + e2);
    lemma_entry_lookups(1, m, 0, 1);
    lemma_entry_lookups(2, payload, 0, 1);
    lemma_entry_lookups(1, m, 0, 2);
    lemma_entry_lookups(2, payload, 0, 2);
    lemma_lookup2(e1, e2, 1);
    lemma_lookup2(e1, e2, 2);
    lemma_utf8_roundtrip(method);
    if m.len() == 0 {
        lemma_utf8_roundtrip(Seq::<char>::empty());
        assert(encode_utf8(Seq::<char>::empty()) =~= Seq::<u8>::empty());
    }
}

// ---------------------------------------------------------------------------
// PlainClientResponse

/// Outcome code of a plain response.
#[derive(Debug, Copy, Clone, PartialEq, Eq, Structural)]
pub enum PlainClientResponseCode {
    Success,
    Error,
    ErrorBadRequest,
    ErrorMethodNotFound,
    ErrorSecureChannel,
    ErrorMethodSecure,
}

/// Wire number of a response code.
pub open spec fn code_number(c: PlainClientResponseCode) -> u64 {
    match c {
        PlainClientResponseCode::Success => 0,
        PlainClientResponseCode::Error => 1,
        PlainClientResponseCode::ErrorBadRequest => 2,
        PlainClientResponseCode::ErrorMethodNotFound => 3,
        PlainClientResponseCode::ErrorSecureChannel => 4,
        PlainClientResponseCode::ErrorMethodSecure => 5,
    }
}

/// Response code with a given wire number, if any.
pub open spec fn code_of_number(x: u64) -> Option<PlainClientResponseCode> {
    if x == 0 {
        Some(PlainClientResponseCode::Success)
    } else if x == 1 {
        Some(PlainClientResponseCode::Error)
    } else if x == 2 {
        Some(PlainClientResponseCode::ErrorBadRequest)
    } else if x == 3 {
        Some(PlainClientResponseCode::ErrorMethodNotFound)
    } else if x == 4 {
        Some(PlainClientResponseCode::ErrorSecureChannel)
    } else if x == 5 {
        Some(PlainClientResponseCode::ErrorMethodSecure)
    } else {
        None
    }
}

impl PlainClientResponseCode {
    /// Wire number of the code.
    pub fn to_number(&self) -> (x: u64)
        ensures
            x == code_number(*self),
    {
        match self {
            PlainClientResponseCode::Success => 0,
            PlainClientResponseCode::Error => 1,
            PlainClientResponseCode::ErrorBadRequest => 2,
            PlainClientResponseCode::ErrorMethodNotFound => 3,
            PlainClientResponseCode::ErrorSecureChannel => 4,
            PlainClientResponseCode::ErrorMethodSecure => 5,
        }
    }

    /// Code with the given wire number, if any.
    pub fn from_number(x: u64) -> (c: Option<PlainClientResponseCode>)
        ensures
            c == code_of_number(x),
    {
        if x == 0 {
            Some(PlainClientResponseCode::Success)
        } else if x == 1 {
            Some(PlainClientResponseCode::Error)
        } else if x == 2 {
            Some(PlainClientResponseCode::ErrorBadRequest)
        } else if x == 3 {
            Some(PlainClientResponseCode::ErrorMethodNotFound)
        } else if x == 4 {
            Some(PlainClientResponseCode::ErrorSecureChannel)
        } else if x == 5 {
            Some(PlainClientResponseCode::ErrorMethodSecure)
        } else {
            None
        }
    }
}

/// Plain-text response: outcome code and serialized payload.
#[derive(Debug)]
pub struct PlainClientResponse {
    pub code: PlainClientResponseCode,
    pub payload: Vec<u8>,
}

/// Fields of a plain response: code (1), payload (2).
pub open spec fn plain_response_fields(code: PlainClientResponseCode, payload: Seq<u8>) -> Seq<SpecField> {
    varint_entry(1, code_number(code)) + bytes_entry(2, payload)
}

/// Encoding of a plain response.
pub open spec fn encode_plain_response(code: PlainClientResponseCode, payload: Seq<u8>) -> Seq<u8> {
    encode_fields(plain_response_fields(code, payload))
}

/// Decoding of a plain response: its code and payload.
pub open spec fn decode_plain_response(b: Seq<u8>) -> Option<(PlainClientResponseCode, Seq<u8>)> {
    match parse_fields(b) {
        Some(fs) => if all_varint(fs, 1) && all_bytes(fs, 2) {
            match code_of_number(varint_field(fs, 1)) {
                Some(c) => Some((c, bytes_field(fs, 2))),
                None => None,
            }
        } else {
            None
        },
        None => None,
    }
}

impl PlainClientResponse {
    /// Serializes the response.
    pub fn write_to_bytes(&self) -> (r: Vec<u8>)
        ensures
            r@ == encode_plain_response(self.code, self.payload@),
    {
        let mut fields: Vec<WireField> = Vec::new();
        push_varint_entry(&mut fields, 1, self.code.to_number());
        push_bytes_entry(&mut fields, 2, copy_bytes(self.payload.as_slice()));
        let ghost fs = plain_response_fields(self.code, self.payload@);
        assert(fields_view(fields@) =~= fs);
        proof {
            assert(self.payload@.len() == self.payload.len());
            lemma_entry_wf(1, self.payload@, code_number(self.code));
            lemma_entry_wf(2, self.payload@, 0);
            lemma_entries_wf(varint_entry(1, code_number(self.code)), bytes_entry(2, self.payload@));
        }
        encode_list(&fields, Ghost(fs))
    }

    /// Parses a response from its encoding.
    pub fn parse_from_bytes(b: &[u8]) -> (r: Option<PlainClientResponse>)
        ensures
            match decode_plain_response(b@) {
                Some((c, p)) => r matches Some(x) && x.code == c && x.payload@ == p,
                None => r is None,
            },
    {
        let fields = match decode_field_list(b) {
            Some(f) => f,
            None => return None,
        };
        let code = match get_varint_field(&fields, 1) {
            Some(v) => v,
            None => return None,
        };
        let payload = match get_bytes_field(&fields, 2) {
            Some(v) => v,
            None => return None,
        };
        let code = match PlainClientResponseCode::from_number(code) {
            Some(c) => c,
            None => return None,
        };
        Some(PlainClientResponse { code, payload })
    }
}

/// Decoding an encoded plain response gives back its code and payload.
pub proof fn law_plain_response_roundtrip(code: PlainClientResponseCode, payload: Seq<u8>)
    requires
        payload.len() <= u64::MAX,
    ensures
        decode_plain_response(encode_plain_response(code, payload)) == Some((code, payload)),
{
    let x = code_number(code);
    let e1 = varint_entry(1, x);
    let e2 = bytes_entry(2, payload);
    lemma_entry_wf(1, payload, x);
    lemma_entry_wf(2, payload, 0);
    lemma_entries_wf(e1, e2);
    lemma_fields_roundtrip(e1 + e2);
    lemma_entry_lookups(1, payload, x, 1);
    lemma_entry_lookups(2, payload, x, 1);
    lemma_entry_lookups(1, payload, x, 2);
    lemma_entry_lookups(2, payload, x, 2);
    lemma_lookup2(e1, e2, 1);
    lemma_lookup2(e1, e2, 2);
}


// ---------------------------------------------------------------------------
// Error, ChannelInitResponseBox, BsdiffPatch

/// Error payload of a failed call.
#[derive(Debug)]
pub struct ApiError {
    pub message: String,
}

/// Encoding of an error payload: message (1).
pub open spec fn encode_api_error(message: Seq<char>) -> Seq<u8> {
    encode_fields(bytes_entry(1, encode_utf8(message)))
}

/// Decoding of an error payload.
pub open spec fn decode_api_error(b: Seq<u8>) -> Option<Seq<char>> {
    match parse_fields(b) {
        Some(fs) => if all_bytes(fs, 1) {
            utf8_text(bytes_field(fs, 1))
        } else {
            None
        },
        None => None,
    }
}

impl ApiError {
    /// Serializes the error.
    pub fn write_to_bytes(&self) -> (r: Vec<u8>)
        ensures
            r@ == encode_api_error(self.message@),
    {
        let message = text_to_utf8(&self.message);
        let mut fields: Vec<WireField> = Vec::new();
        push_bytes_entry(&mut fields, 1, message);
        let ghost fs = bytes_entry(1, encode_utf8(self.message@));
        proof {
            assert(message@.len() == message.len());
            lemma_entry_wf(1, encode_utf8(self.message@), 0);
            assert(fields_view(fields@) =~= fs);
        }
        encode_list(&fields, Ghost(fs))
    }

    /// Parses an error from its encoding.
    pub fn parse_from_bytes(b: &[u8]) -> (r: Option<ApiError>)
        ensures
            match decode_api_error(b@) {
                Some(m) => r matches Some(x) && x.message@ == m,
                None => r is None,
            },
    {
        let fields = match decode_field_list(b) {
            Some(f) => f,
            None => return None,
        };
        let message_bytes = match get_bytes_field(&fields, 1) {
            Some(v) => v,
            None => return None,
        };
        match text_from_utf8(message_bytes.as_slice()) {
            Some(message) => Some(ApiError { message }),
            None => None,
        }
    }
}

/// Decoding an encoded error payload gives back its message.
pub proof fn law_api_error_roundtrip(message: Seq<char>)
    requires
        encode_utf8(message).len() <= u64::MAX,
    ensures
        decode_api_error(encode_api_error(message)) == Some(message),
{
    let m = encode_utf8(message);
    lemma_entry_wf(1, m, 0);
    lemma_fields_roundtrip(bytes_entry(1, m));
    lemma_entry_lookups(1, m, 0, 1);
    lemma_utf8_roundtrip(message);
    if m.len() == 0 {
        lemma_utf8_roundtrip(Seq::<char>::empty());
        assert(encode_utf8(Seq::<char>::empty()) =~= Seq::<u8>::empty());
    }
}

/// Contents of the box that answers a channel initialization: the
/// contract's short-term public key.
#[derive(Debug)]
pub struct ChannelInitResponseBox {
    pub short_term_public_key: Vec<u8>,
}

/// Encoding of a channel initialization box: short-term public key (1).
pub open spec fn encode_init_response_box(key: Seq<u8>) -> Seq<u8> {
    encode_fields(bytes_entry(1, key))
}

/// Decoding of a channel initialization box.
pub open spec fn decode_init_response_box(b: Seq<u8>) -> Option<Seq<u8>> {
    match parse_fields(b) {
        Some(fs) => if all_bytes(fs, 1) {
            Some(bytes_field(fs, 1))
        } else {
            None
        },
        None => None,
    }
}

impl ChannelInitResponseBox {
    /// Serializes the box contents.
    pub fn write_to_bytes(&self) -> (r: Vec<u8>)
        ensures
            r@ == encode_init_response_box(self.short_term_public_key@),
    {
        let mut fields: Vec<WireField> = Vec::new();
        push_bytes_entry(&mut fields, 1, copy_bytes(self.short_term_public_key.as_slice()));
        let ghost fs = bytes_entry(1, self.short_term_public_key@);
        proof {
            assert(self.short_term_public_key@.len() == self.short_term_public_key.len());
            lemma_entry_wf(1, self.short_term_public_key@, 0);
            assert(fields_view(fields@) =~= fs);
        }
        encode_list(&fields, Ghost(fs))
    }

    /// Parses the box contents from their encoding.
    pub fn parse_from_bytes(b: &[u8]) -> (r: Option<ChannelInitResponseBox>)
        ensures
            match decode_init_response_box(b@) {
                Some(k) => r matches Some(x) && x.short_term_public_key@ == k,
                None => r is None,
            },
    {
        let fields = match decode_field_list(b) {
            Some(f) => f,
            None => return None,
        };
        match get_bytes_field(&fields, 1) {
            Some(k) => Some(ChannelInitResponseBox { short_term_public_key: k }),
            None => None,
        }
    }
}

/// Decoding an encoded channel initialization box gives back the key.
pub proof fn law_init_response_box_roundtrip(key: Seq<u8>)
    requires
        key.len() <= u64::MAX,
    ensures
        decode_init_response_box(encode_init_response_box(key)) == Some(key),
{
    lemma_entry_wf(1, key, 0);
    lemma_fields_roundtrip(bytes_entry(1, key));
    lemma_entry_lookups(1, key, 0, 1);
}

/// A binary patch: the length of the new data and the bzip2-compressed
/// bsdiff patch.
#[derive(Debug)]
pub struct BsdiffPatch {
    pub new_length: u64,
    pub patch_bz2: Vec<u8>,
}

/// Fields of a patch: new length (1), compressed patch (2).
pub open spec fn bsdiff_patch_fields(new_length: u64, patch: Seq<u8>) -> Seq<SpecField> {
    varint_entry(1, new_length) + bytes_entry(2, patch)
}

/// Encoding of a patch.
pub open spec fn encode_bsdiff_patch(new_length: u64, patch: Seq<u8>) -> Seq<u8> {
    encode_fields(bsdiff_patch_fields(new_length, patch))
}

/// Decoding of a patch: its new length and compressed patch.
pub open spec fn decode_bsdiff_patch(b: Seq<u8>) -> Option<(u64, Seq<u8>)> {
    match parse_fields(b) {
        Some(fs) => if all_varint(fs, 1) && all_bytes(fs, 2) {
            Some((varint_field(fs, 1), bytes_field(fs, 2)))
        } else {
            None
        },
        None => None,
    }
}

impl BsdiffPatch {
    /// Serializes the patch.
    pub fn write_to_bytes(&self) -> (r: Vec<u8>)
        ensures
            r@ == encode_bsdiff_patch(self.new_length, self.patch_bz2@),
    {
        let mut fields: Vec<WireField> = Vec::new();
        push_varint_entry(&mut fields, 1, self.new_length);
        push_bytes_entry(&mut fields, 2, copy_bytes(self.patch_bz2.as_slice()));
        let ghost fs = bsdiff_patch_fields(self.new_length, self.patch_bz2@);
        assert(fields_view(fields@) =~= fs);
        proof {
            assert(self.patch_bz2@.len() == self.patch_bz2.len());
            lemma_entry_wf(1, self.patch_bz2@, self.new_length);
            lemma_entry_wf(2, self.patch_bz2@, 0);
            lemma_entries_wf(varint_entry(1, self.new_length), bytes_entry(2, self.patch_bz2@));
        }
        encode_list(&fields, Ghost(fs))
    }

    /// Parses a patch from its encoding.
    pub fn parse_from_bytes(b: &[u8]) -> (r: Option<BsdiffPatch>)
        ensures
            match decode_bsdiff_patch(b@) {
                Some((n, p)) => r matches Some(x) && x.new_length == n && x.patch_bz2@ == p,
                None => r is None,
            },
    {
        let fields = match decode_field_list(b) {
            Some(f) => f,
            None => return None,
        };
        let new_length = match get_varint_field(&fields, 1) {
            Some(v) => v,
            None => return None,
        };
        match get_bytes_field(&fields, 2) {
            Some(patch_bz2) => Some(BsdiffPatch { new_length, patch_bz2 }),
            None => None,
        }
    }
}

/// Decoding an encoded patch gives back its new length and compressed patch.
pub proof fn law_bsdiff_patch_roundtrip(new_length: u64, patch: Seq<u8>)
    requires
        patch.len() <= u64::MAX,
    ensures
        decode_bsdiff_patch(encode_bsdiff_patch(new_length, patch)) == Some((new_length, patch)),
{
    let e1 = varint_entry(1, new_length);
    let e2 = bytes_entry(2, patch);
    lemma_entry_wf(1, patch, new_length);
    lemma_entry_wf(2, patch, 0);
    lemma_entries_wf(e1, e2);
    lemma_fields_roundtrip(e1 + e2);
    lemma_entry_lookups(1, patch, new_length, 1);
    lemma_entry_lookups(2, patch, new_length, 1);
    lemma_entry_lookups(1, patch, new_length, 2);
    lemma_entry_lookups(2, patch, new_length, 2);
    lemma_lookup2(e1, e2, 1);
    lemma_lookup2(e1, e2, 2);
}


// ---------------------------------------------------------------------------
// ClientRequest and EnclaveRequest

/// Abstract client request: an encrypted box (nonce, payload, public key) or
/// a plain request (method, payload).
pub enum SpecClientRequest {
    Encrypted(Seq<u8>, Seq<u8>, Seq<u8>),
    Plain(Seq<char>, Seq<u8>),
}

/// Request of one client, encrypted or plain.
#[derive(Debug)]
pub enum ClientRequest {
    EncryptedRequest(CryptoBox),
    PlainRequest(PlainClientRequest),
}

impl View for ClientRequest {
    type V = SpecClientRequest;

    open spec fn view(&self) -> SpecClientRequest {
        match self {
            ClientRequest::EncryptedRequest(b) => SpecClientRequest::Encrypted(
                b.nonce@,
                b.payload@,
                b.public_key@,
            ),
            ClientRequest::PlainRequest(p) => SpecClientRequest::Plain(p.method@, p.payload@),
        }
    }
}

/// Fields of a client request: encrypted request (1) or plain request (2).
pub open spec fn client_request_fields(r: SpecClientRequest) -> Seq<SpecField> {
    match r {
        SpecClientRequest::Encrypted(n, p, k) => message_entry(1, encode_crypto_box(n, p, k)),
        SpecClientRequest::Plain(m, p) => message_entry(2, encode_plain_request(m, p)),
    }
}

/// Encoding of a client request.
pub open spec fn encode_client_request(r: SpecClientRequest) -> Seq<u8> {
    encode_fields(client_request_fields(r))
}

/// Decoding of a client request: encrypted where field 1 occurs, plain
/// otherwise (an absent plain request decodes as the empty one).
pub open spec fn decode_client_request(b: Seq<u8>) -> Option<SpecClientRequest> {
    match parse_fields(b) {
        Some(fs) => if all_bytes(fs, 1) && all_bytes(fs, 2) {
            if last_field(fs, 1) is Some {
                match decode_crypto_box(bytes_field(fs, 1)) {
                    Some((n, p, k)) => Some(SpecClientRequest::Encrypted(n, p, k)),
                    None => None,
                }
            } else {
                match decode_plain_request(bytes_field(fs, 2)) {
                    Some((m, p)) => Some(SpecClientRequest::Plain(m, p)),
                    None => None,
                }
            }
        } else {
            None
        },
        None => None,
    }
}

/// Encodings of any size fit in the 64-bit length of a field.
proof fn lemma_vec_len_fits(v: Vec<u8>)
    ensures
        v@.len() <= u64::MAX,
{
    assert(v@.len() == v.len());
}

impl ClientRequest {
    /// Serializes the request.
    pub fn write_to_bytes(&self) -> (r: Vec<u8>)
        ensures
            r@ == encode_client_request(self@),
    {
        let mut fields: Vec<WireField> = Vec::new();
        let number: u64;
        let inner = match self {
            ClientRequest::EncryptedRequest(b) => {
                number = 1;
                b.write_to_bytes()
            },
            ClientRequest::PlainRequest(p) => {
                number = 2;
                p.write_to_bytes()
            },
        };
        let ghost inner_view = inner@;
        proof {
            lemma_vec_len_fits(inner);
            lemma_entry_wf(number, inner@, 0);
        }
        fields.push(WireField { number, value: crate::wire::FieldValue::Bytes(inner) });
        let ghost fs = client_request_fields(self@);
        assert(fields_view(fields@) =~= fs);
        encode_list(&fields, Ghost(fs))
    }

    /// Parses a request from its encoding.
    pub fn parse_from_bytes(b: &[u8]) -> (r: Option<ClientRequest>)
        ensures
            match decode_client_request(b@) {
                Some(x) => r matches Some(y) && y@ == x,
                None => r is None,
            },
    {
        let fields = match decode_field_list(b) {
            Some(f) => f,
            None => return None,
        };
        let encrypted = match get_bytes_field(&fields, 1) {
            Some(v) => v,
            None => return None,
        };
        let plain = match get_bytes_field(&fields, 2) {
            Some(v) => v,
            None => return None,
        };
        if has_field(&fields, 1) {
            match CryptoBox::parse_from_bytes(encrypted.as_slice()) {
                Some(x) => Some(ClientRequest::EncryptedRequest(x)),
                None => None,
            }
        } else {
            match PlainClientRequest::parse_from_bytes(plain.as_slice()) {
                Some(x) => Some(ClientRequest::PlainRequest(x)),
                None => None,
            }
        }
    }
}

/// Whether the parts of an abstract request fit in 64-bit lengths.
pub open spec fn client_request_fits(r: SpecClientRequest) -> bool {
    match r {
        SpecClientRequest::Encrypted(n, p, k) => n.len() <= u64::MAX && p.len() <= u64::MAX
            && k.len() <= u64::MAX && encode_crypto_box(n, p, k).len() <= u64::MAX,
        SpecClientRequest::Plain(m, p) => encode_utf8(m).len() <= u64::MAX && p.len()
            <= u64::MAX && encode_plain_request(m, p).len() <= u64::MAX,
    }
}

/// Decoding an encoded client request gives back the request.
pub proof fn law_client_request_roundtrip(r: SpecClientRequest)
    requires
        client_request_fits(r),
    ensures
        decode_client_request(encode_client_request(r)) == Some(r),
{
    let fs = client_request_fields(r);
    match r {
        SpecClientRequest::Encrypted(n, p, k) => {
            let inner = encode_crypto_box(n, p, k);
            lemma_entry_wf(1, inner, 0);
            lemma_fields_roundtrip(fs);
            lemma_entry_lookups(1, inner, 0, 1);
            lemma_entry_lookups(1, inner, 0, 2);
            law_crypto_box_roundtrip(n, p, k);
        },
        SpecClientRequest::Plain(m, p) => {
            let inner = encode_plain_request(m, p);
            lemma_entry_wf(2, inner, 0);
            lemma_fields_roundtrip(fs);
            lemma_entry_lookups(2, inner, 0, 1);
            lemma_entry_lookups(2, inner, 0, 2);
            law_plain_request_roundtrip(m, p);
        },
    }
}

/// Batch of client requests handed to an enclave.
#[derive(Debug)]
pub struct EnclaveRequest {
    pub client_request: Vec<ClientRequest>,
}

/// The abstract requests of a vector of requests.
pub open spec fn requests_view(v: Seq<ClientRequest>) -> Seq<SpecClientRequest> {
    v.map_values(|r: ClientRequest| r@)
}

/// Decoding of each encoded client request, or `None` where one fails.
pub open spec fn decode_client_requests(items: Seq<Seq<u8>>) -> Option<Seq<SpecClientRequest>>
    decreases items.len(),
{
    if items.len() == 0 {
        Some(seq![])
    } else {
        match decode_client_requests(items.drop_last()) {
            Some(init) => match decode_client_request(items.last()) {
                Some(x) => Some(init.push(x)),
                None => None,
            },
            None => None,
        }
    }
}

/// Once a prefix fails to decode, every longer prefix fails too.
proof fn lemma_decode_client_requests_none(items: Seq<Seq<u8>>, k: int)
    requires
        0 <= k <= items.len(),
        decode_client_requests(items.subrange(0, k)) is None,
    ensures
        decode_client_requests(items) is None,
    decreases items.len() - k,
{
    if k == items.len() {
        assert(items.subrange(0, k) =~= items);
    } else {
        assert(items.subrange(0, k + 1).drop_last() =~= items.subrange(0, k));
        lemma_decode_client_requests_none(items, k + 1);
    }
}

/// Decoding of an enclave request: its client requests (field 1, repeated).
pub open spec fn decode_enclave_request(b: Seq<u8>) -> Option<Seq<SpecClientRequest>> {
    match parse_fields(b) {
        Some(fs) => if all_bytes(fs, 1) {
            decode_client_requests(repeated_bytes(fs, 1))
        } else {
            None
        },
        None => None,
    }
}

/// Encoding of an enclave request.
pub open spec fn encode_enclave_request(rs: Seq<SpecClientRequest>) -> Seq<u8> {
    encode_fields(repeated_entries(1, rs.map_values(|r: SpecClientRequest| encode_client_request(r))))
}

impl EnclaveRequest {
    /// Serializes the batch.
    pub fn write_to_bytes(&self) -> (r: Vec<u8>)
        ensures
            r@ == encode_enclave_request(requests_view(self.client_request@)),
    {
        let ghost items = requests_view(self.client_request@).map_values(
            |r: SpecClientRequest| encode_client_request(r),
        );
        let mut fields: Vec<WireField> = Vec::new();
        let mut i: usize = 0;
        while i < self.client_request.len()
            invariant
                i <= self.client_request@.len(),
                items.len() == self.client_request@.len(),
                items == requests_view(self.client_request@).map_values(
                    |r: SpecClientRequest| encode_client_request(r),
                ),
                fields_view(fields@) == repeated_entries(1, items.subrange(0, i as int)),
                all_wf(fields_view(fields@)),
            decreases self.client_request@.len() - i,
        {
            let inner = self.client_request[i].write_to_bytes();
            let ghost inner_view = inner@;
            proof {
                lemma_vec_len_fits(inner);
                lemma_entry_wf(1, inner@, 0);
            }
            let ghost before = fields_view(fields@);
            fields.push(WireField { number: 1, value: crate::wire::FieldValue::Bytes(inner) });
            proof {
                assert(fields_view(fields@) =~= before + message_entry(1, inner_view));
                lemma_entries_wf(before, message_entry(1, inner_view));
                assert(repeated_entries(1, items.subrange(0, i + 1)) =~= before + message_entry(
                    1,
                    inner_view,
                ));
            }
            i = i + 1;
        }
        assert(items.subrange(0, items.len() as int) =~= items);
        encode_list(&fields, Ghost(repeated_entries(1, items)))
    }

    /// Parses a batch from its encoding.
    pub fn parse_from_bytes(b: &[u8]) -> (r: Option<EnclaveRequest>)
        ensures
            match decode_enclave_request(b@) {
                Some(rs) => r matches Some(x) && requests_view(x.client_request@) == rs,
                None => r is None,
            },
    {
        let fields = match decode_field_list(b) {
            Some(f) => f,
            None => return None,
        };
        let items = match get_repeated_bytes(&fields, 1) {
            Some(v) => v,
            None => return None,
        };
        match Self::parse_each(&items) {
            Some(out) => Some(EnclaveRequest { client_request: out }),
            None => None,
        }
    }

    /// Parses each encoded item of a batch, failing where one fails.
    pub(crate) fn parse_each(items: &Vec<Vec<u8>>) -> (r: Option<Vec<ClientRequest>>)
        ensures
            match decode_client_requests(items@.map_values(|b: Vec<u8>| b@)) {
                Some(rs) => r matches Some(v) && requests_view(v@) == rs,
                None => r is None,
            },
    {
        let ghost iv = items@.map_values(|b: Vec<u8>| b@);
        let mut out: Vec<ClientRequest> = Vec::new();
        let mut i: usize = 0;
        while i < items.len()
            invariant
                i <= items@.len(),
                iv == items@.map_values(|b: Vec<u8>| b@),
                decode_client_requests(iv.subrange(0, i as int)) == Some(requests_view(out@)),
            decreases items@.len() - i,
        {
            assert(iv.subrange(0, i + 1).drop_last() =~= iv.subrange(0, i as int));
            assert(iv.subrange(0, i + 1).last() == items@[i as int]@);
            match ClientRequest::parse_from_bytes(items[i].as_slice()) {
                Some(x) => {
                    let ghost before = out@;
                    out.push(x);
                    assert(requests_view(out@) =~= requests_view(before).push(x@));
                },
                None => {
                    proof {
                        lemma_decode_client_requests_none(iv, i + 1);
                    }
                    return None;
                },
            }
            i = i + 1;
        }
        assert(iv.subrange(0, iv.len() as int) =~= iv);
        Some(out)
    }
}

/// Decoding each encoding of a list of requests gives back the list.
proof fn lemma_decode_encoded_requests(rs: Seq<SpecClientRequest>)
    requires
        forall|i: int| 0 <= i < rs.len() ==> client_request_fits(#[trigger] rs[i]),
    ensures
        decode_client_requests(rs.map_values(|r: SpecClientRequest| encode_client_request(r)))
            == Some(rs),
    decreases rs.len(),
{
    if rs.len() > 0 {
        let items = rs.map_values(|r: SpecClientRequest| encode_client_request(r));
        let init = rs.drop_last();
        assert(items.drop_last() =~= init.map_values(|r: SpecClientRequest| encode_client_request(r)));
        lemma_decode_encoded_requests(init);
        law_client_request_roundtrip(rs.last());
        assert(init.push(rs.last()) =~= rs);
    }
}

/// Decoding an encoded batch of requests gives back the batch, provided
/// every request fits the wire format's lengths.
pub proof fn law_enclave_request_roundtrip(rs: Seq<SpecClientRequest>)
    requires
        forall|i: int| 0 <= i < rs.len() ==> client_request_fits(#[trigger] rs[i]),
        forall|i: int|
            0 <= i < rs.len() ==> (#[trigger] encode_client_request(rs[i])).len() <= u64::MAX,
    ensures
        decode_enclave_request(encode_enclave_request(rs)) == Some(rs),
{
    let items = rs.map_values(|r: SpecClientRequest| encode_client_request(r));
    let fs = repeated_entries(1, items);
    assert forall|i: int| 0 <= i < fs.len() implies crate::wire::field_wf(#[trigger] fs[i]) by {
        assert(items[i] == encode_client_request(rs[i]));
    }
    lemma_fields_roundtrip(fs);
    lemma_repeated_roundtrip(1, items);
    lemma_decode_encoded_requests(rs);
}

// ---------------------------------------------------------------------------
// ClientResponse and EnclaveResponse

/// Abstract client response: an encrypted box or a plain response.
pub enum SpecClientResponse {
    Encrypted(Seq<u8>, Seq<u8>, Seq<u8>),
    Plain(PlainClientResponseCode, Seq<u8>),
}

/// Response to one client, encrypted or plain.
#[derive(Debug)]
pub enum ClientResponse {
    EncryptedResponse(CryptoBox),
    PlainResponse(PlainClientResponse),
}

impl View for ClientResponse {
    type V = SpecClientResponse;

    open spec fn view(&self) -> SpecClientResponse {
        match self {
            ClientResponse::EncryptedResponse(b) => SpecClientResponse::Encrypted(
                b.nonce@,
                b.payload@,
                b.public_key@,
            ),
            ClientResponse::PlainResponse(p) => SpecClientResponse::Plain(p.code, p.payload@),
        }
    }
}

/// Fields of a client response: encrypted response (1) or plain response (2).
pub open spec fn client_response_fields(r: SpecClientResponse) -> Seq<SpecField> {
    match r {
        SpecClientResponse::Encrypted(n, p, k) => message_entry(1, encode_crypto_box(n, p, k)),
        SpecClientResponse::Plain(c, p) => message_entry(2, encode_plain_response(c, p)),
    }
}

/// Encoding of a client response.
pub open spec fn encode_client_response(r: SpecClientResponse) -> Seq<u8> {
    encode_fields(client_response_fields(r))
}

/// Decoding of a client response: encrypted where field 1 occurs, plain
/// otherwise.
pub open spec fn decode_client_response(b: Seq<u8>) -> Option<SpecClientResponse> {
    match parse_fields(b) {
        Some(fs) => if all_bytes(fs, 1) && all_bytes(fs, 2) {
            if last_field(fs, 1) is Some {
                match decode_crypto_box(bytes_field(fs, 1)) {
                    Some((n, p, k)) => Some(SpecClientResponse::Encrypted(n, p, k)),
                    None => None,
                }
            } else {
                match decode_plain_response(bytes_field(fs, 2)) {
                    Some((c, p)) => Some(SpecClientResponse::Plain(c, p)),
                    None => None,
                }
            }
        } else {
            None
        },
        None => None,
    }
}

impl ClientResponse {
    /// Serializes the response.
    pub fn write_to_bytes(&self) -> (r: Vec<u8>)
        ensures
            r@ == encode_client_response(self@),
    {
        let mut fields: Vec<WireField> = Vec::new();
        let number: u64;
        let inner = match self {
            ClientResponse::EncryptedResponse(b) => {
                number = 1;
                b.write_to_bytes()
            },
            ClientResponse::PlainResponse(p) => {
                number = 2;
                p.write_to_bytes()
            },
        };
        proof {
            lemma_vec_len_fits(inner);
            lemma_entry_wf(number, inner@, 0);
        }
        fields.push(WireField { number, value: crate::wire::FieldValue::Bytes(inner) });
        let ghost fs = client_response_fields(self@);
        assert(fields_view(fields@) =~= fs);
        encode_list(&fields, Ghost(fs))
    }

    /// Parses a response from its encoding.
    pub fn parse_from_bytes(b: &[u8]) -> (r: Option<ClientResponse>)
        ensures
            match decode_client_response(b@) {
                Some(x) => r matches Some(y) && y@ == x,
                None => r is None,
            },
    {
        let fields = match decode_field_list(b) {
            Some(f) => f,
            None => return None,
        };
        let encrypted = match get_bytes_field(&fields, 1) {
            Some(v) => v,
            None => return None,
        };
        let plain = match get_bytes_field(&fields, 2) {
            Some(v) => v,
            None => return None,
        };
        if has_field(&fields, 1) {
            match CryptoBox::parse_from_bytes(encrypted.as_slice()) {
                Some(x) => Some(ClientResponse::EncryptedResponse(x)),
                None => None,
            }
        } else {
            match PlainClientResponse::parse_from_bytes(plain.as_slice()) {
                Some(x) => Some(ClientResponse::PlainResponse(x)),
                None => None,
            }
        }
    }
}

/// Whether the parts of an abstract response fit in 64-bit lengths.
pub open spec fn client_response_fits(r: SpecClientResponse) -> bool {
    match r {
        SpecClientResponse::Encrypted(n, p, k) => n.len() <= u64::MAX && p.len() <= u64::MAX
            && k.len() <= u64::MAX && encode_crypto_box(n, p, k).len() <= u64::MAX,
        SpecClientResponse::Plain(c, p) => p.len() <= u64::MAX && encode_plain_response(c, p).len()
            <= u64::MAX,
    }
}

/// Decoding an encoded client response gives back the response.
pub proof fn law_client_response_roundtrip(r: SpecClientResponse)
    requires
        client_response_fits(r),
    ensures
        decode_client_response(encode_client_response(r)) == Some(r),
{
    let fs = client_response_fields(r);
    match r {
        SpecClientResponse::Encrypted(n, p, k) => {
            let inner = encode_crypto_box(n, p, k);
            lemma_entry_wf(1, inner, 0);
            lemma_fields_roundtrip(fs);
            lemma_entry_lookups(1, inner, 0, 1);
            lemma_entry_lookups(1, inner, 0, 2);
            law_crypto_box_roundtrip(n, p, k);
        },
        SpecClientResponse::Plain(c, p) => {
            let inner = encode_plain_response(c, p);
            lemma_entry_wf(2, inner, 0);
            lemma_fields_roundtrip(fs);
            lemma_entry_lookups(2, inner, 0, 1);
            lemma_entry_lookups(2, inner, 0, 2);
            law_plain_response_roundtrip(c, p);
        },
    }
}

/// Batch of client responses returned by an enclave.
#[derive(Debug)]
pub struct EnclaveResponse {
    pub client_response: Vec<ClientResponse>,
}

/// The abstract responses of a vector of responses.
pub open spec fn responses_view(v: Seq<ClientResponse>) -> Seq<SpecClientResponse> {
    v.map_values(|r: ClientResponse| r@)
}

/// Encoding of an enclave response: its client responses (field 1, repeated).
pub open spec fn encode_enclave_response(rs: Seq<SpecClientResponse>) -> Seq<u8> {
    encode_fields(repeated_entries(1, rs.map_values(|r: SpecClientResponse| encode_client_response(r))))
}

/// Decoding of each encoded client response, or `None` where one fails.
pub open spec fn decode_client_responses(items: Seq<Seq<u8>>) -> Option<Seq<SpecClientResponse>>
    decreases items.len(),
{
    if items.len() == 0 {
        Some(seq![])
    } else {
        match decode_client_responses(items.drop_last()) {
            Some(init) => match decode_client_response(items.last()) {
                Some(x) => Some(init.push(x)),
                None => None,
            },
            None => None,
        }
    }
}

/// Once a prefix fails to decode, every longer prefix fails too.
proof fn lemma_decode_client_responses_none(items: Seq<Seq<u8>>, k: int)
    requires
        0 <= k <= items.len(),
        decode_client_responses(items.subrange(0, k)) is None,
    ensures
        decode_client_responses(items) is None,
    decreases items.len() - k,
{
    if k == items.len() {
        assert(items.subrange(0, k) =~= items);
    } else {
        assert(items.subrange(0, k + 1).drop_last() =~= items.subrange(0, k));
        lemma_decode_client_responses_none(items, k + 1);
    }
}

/// Decoding of an enclave response.
pub open spec fn decode_enclave_response(b: Seq<u8>) -> Option<Seq<SpecClientResponse>> {
    match parse_fields(b) {
        Some(fs) => if all_bytes(fs, 1) {
            decode_client_responses(repeated_bytes(fs, 1))
        } else {
            None
        },
        None => None,
    }
}

impl EnclaveResponse {
    /// Serializes the batch.
    pub fn write_to_bytes(&self) -> (r: Vec<u8>)
        ensures
            r@ == encode_enclave_response(responses_view(self.client_response@)),
    {
        let ghost items = responses_view(self.client_response@).map_values(
            |r: SpecClientResponse| encode_client_response(r),
        );
        let mut fields: Vec<WireField> = Vec::new();
        let mut i: usize = 0;
        while i < self.client_response.len()
            invariant
                i <= self.client_response@.len(),
                items.len() == self.client_response@.len(),
                items == responses_view(self.client_response@).map_values(
                    |r: SpecClientResponse| encode_client_response(r),
                ),
                fields_view(fields@) == repeated_entries(1, items.subrange(0, i as int)),
                all_wf(fields_view(fields@)),
            decreases self.client_response@.len() - i,
        {
            let inner = self.client_response[i].write_to_bytes();
            let ghost inner_view = inner@;
            proof {
                lemma_vec_len_fits(inner);
                lemma_entry_wf(1, inner@, 0);
            }
            let ghost before = fields_view(fields@);
            fields.push(WireField { number: 1, value: crate::wire::FieldValue::Bytes(inner) });
            proof {
                assert(fields_view(fields@) =~= before + message_entry(1, inner_view));
                lemma_entries_wf(before, message_entry(1, inner_view));
                assert(repeated_entries(1, items.subrange(0, i + 1)) =~= before + message_entry(
                    1,
                    inner_view,
                ));
            }
            i = i + 1;
        }
        assert(items.subrange(0, items.len() as int) =~= items);
        encode_list(&fields, Ghost(repeated_entries(1, items)))
    }

    /// Parses a batch from its encoding.
    pub fn parse_from_bytes(b: &[u8]) -> (r: Option<EnclaveResponse>)
        ensures
            match decode_enclave_response(b@) {
                Some(rs) => r matches Some(x) && responses_view(x.client_response@) == rs,
                None => r is None,
            },
    {
        let fields = match decode_field_list(b) {
            Some(f) => f,
            None => return None,
        };
        let items = match get_repeated_bytes(&fields, 1) {
            Some(v) => v,
            None => return None,
        };
        match Self::parse_each(&items) {
            Some(out) => Some(EnclaveResponse { client_response: out }),
            None => None,
        }
    }

    /// Parses each encoded item of a batch, failing where one fails.
    fn parse_each(items: &Vec<Vec<u8>>) -> (r: Option<Vec<ClientResponse>>)
        ensures
            match decode_client_responses(items@.map_values(|b: Vec<u8>| b@)) {
                Some(rs) => r matches Some(v) && responses_view(v@) == rs,
                None => r is None,
            },
    {
        let ghost iv = items@.map_values(|b: Vec<u8>| b@);
        let mut out: Vec<ClientResponse> = Vec::new();
        let mut i: usize = 0;
        while i < items.len()
            invariant
                i <= items@.len(),
                iv == items@.map_values(|b: Vec<u8>| b@),
                decode_client_responses(iv.subrange(0, i as int)) == Some(responses_view(out@)),
            decreases items@.len() - i,
        {
            assert(iv.subrange(0, i + 1).drop_last() =~= iv.subrange(0, i as int));
            assert(iv.subrange(0, i + 1).last() == items@[i as int]@);
            match ClientResponse::parse_from_bytes(items[i].as_slice()) {
                Some(x) => {
                    let ghost before = out@;
                    out.push(x);
                    assert(responses_view(out@) =~= responses_view(before).push(x@));
                },
                None => {
                    proof {
                        lemma_decode_client_responses_none(iv, i + 1);
                    }
                    return None;
                },
            }
            i = i + 1;
        }
        assert(iv.subrange(0, iv.len() as int) =~= iv);
        Some(out)
    }
}

/// Decoding each encoding of a list of responses gives back the list.
proof fn lemma_decode_encoded_responses(rs: Seq<SpecClientResponse>)
    requires
        forall|i: int| 0 <= i < rs.len() ==> client_response_fits(#[trigger] rs[i]),
    ensures
        decode_client_responses(rs.map_values(|r: SpecClientResponse| encode_client_response(r)))
            == Some(rs),
    decreases rs.len(),
{
    if rs.len() > 0 {
        let items = rs.map_values(|r: SpecClientResponse| encode_client_response(r));
        let init = rs.drop_last();
        assert(items.drop_last() =~= init.map_values(
            |r: SpecClientResponse| encode_client_response(r),
        ));
        lemma_decode_encoded_responses(init);
        law_client_response_roundtrip(rs.last());
        assert(init.push(rs.last()) =~= rs);
    }
}

/// Decoding an encoded batch of responses gives back the batch, provided
/// every response fits the wire format's lengths.
pub proof fn law_enclave_response_roundtrip(rs: Seq<SpecClientResponse>)
    requires
        forall|i: int| 0 <= i < rs.len() ==> client_response_fits(#[trigger] rs[i]),
        forall|i: int|
            0 <= i < rs.len() ==> (#[trigger] encode_client_response(rs[i])).len() <= u64::MAX,
    ensures
        decode_enclave_response(encode_enclave_response(rs)) == Some(rs),
{
    let items = rs.map_values(|r: SpecClientResponse| encode_client_response(r));
    let fs = repeated_entries(1, items);
    assert forall|i: int| 0 <= i < fs.len() implies crate::wire::field_wf(#[trigger] fs[i]) by {
        assert(items[i] == encode_client_response(rs[i]));
    }
    lemma_fields_roundtrip(fs);
    lemma_repeated_roundtrip(1, items);
    lemma_decode_encoded_responses(rs);
}

// ---------------------------------------------------------------------------
// Enclave messages of the contract runtime, which carry encrypted state

/// Decoding of an encrypted state box: its ciphertext (1) and nonce (2).
pub open spec fn decode_secretbox(b: Seq<u8>) -> Option<(Seq<u8>, Seq<u8>)> {
    match decode_crypto_box(b) {
        Some((c, n, _)) => Some((c, n)),
        None => None,
    }
}

/// Encoding of an encrypted state box.
pub open spec fn encode_secretbox(ciphertext: Seq<u8>, nonce: Seq<u8>) -> Seq<u8> {
    encode_crypto_box(ciphertext, nonce, Seq::empty())
}

/// The abstract value of an optional encrypted state box.
pub open spec fn opt_secretbox(b: Option<CryptoSecretbox>) -> Option<(Seq<u8>, Seq<u8>)> {
    match b {
        Some(x) => Some((x.ciphertext@, x.nonce@)),
        None => None,
    }
}

/// The field list entry of an optional encrypted state (field 2).
pub open spec fn state_entry(st: Option<(Seq<u8>, Seq<u8>)>) -> Seq<SpecField> {
    match st {
        Some((c, n)) => message_entry(2, encode_secretbox(c, n)),
        None => seq![],
    }
}

/// Reads the optional encrypted state (field 2) of a field list: absent,
/// present and decodable, or present and malformed (`None`).
pub open spec fn decode_state_field(fs: Seq<SpecField>) -> Option<Option<(Seq<u8>, Seq<u8>)>> {
    if last_field(fs, 2) is Some {
        match decode_secretbox(bytes_field(fs, 2)) {
            Some(st) => Some(Some(st)),
            None => None,
        }
    } else {
        Some(None)
    }
}

/// Reads the optional encrypted state (field 2) of a field list.
fn get_state_field(fields: &Vec<WireField>) -> (r: Option<Option<CryptoSecretbox>>)
    requires
        all_bytes(fields_view(fields@), 2),
    ensures
        match decode_state_field(fields_view(fields@)) {
            Some(st) => r matches Some(x) && opt_secretbox(x) == st,
            None => r is None,
        },
{
    if !has_field(fields, 2) {
        return Some(None);
    }
    let bytes = get_bytes_field(fields, 2).unwrap();
    match CryptoBox::parse_from_bytes(bytes.as_slice()) {
        Some(b) => Some(Some(CryptoSecretbox { ciphertext: b.nonce, nonce: b.payload })),
        None => None,
    }
}

/// Decoding of a contract enclave request: its client requests (field 1,
/// repeated) and the encrypted contract state it carries, if any (field 2).
pub open spec fn decode_contract_enclave_request(b: Seq<u8>) -> Option<
    (Seq<SpecClientRequest>, Option<(Seq<u8>, Seq<u8>)>),
> {
    match parse_fields(b) {
        Some(fs) => if all_bytes(fs, 1) && all_bytes(fs, 2) {
            match (decode_client_requests(repeated_bytes(fs, 1)), decode_state_field(fs)) {
                (Some(rs), Some(st)) => Some((rs, st)),
                _ => None,
            }
        } else {
            None
        },
        None => None,
    }
}

/// Encoding of a contract enclave request.
pub open spec fn encode_contract_enclave_request(
    rs: Seq<SpecClientRequest>,
    st: Option<(Seq<u8>, Seq<u8>)>,
) -> Seq<u8> {
    encode_fields(
        repeated_entries(1, rs.map_values(|r: SpecClientRequest| encode_client_request(r)))
            + state_entry(st),
    )
}

/// Batch of client requests to a contract enclave, with the encrypted
/// contract state they run against, if any.
#[derive(Debug)]
pub struct ContractEnclaveRequest {
    pub client_request: Vec<ClientRequest>,
    pub encrypted_state: Option<CryptoSecretbox>,
}

/// Pushes the optional encrypted state entry (field 2).
fn push_state_entry(fields: &mut Vec<WireField>, st: &Option<CryptoSecretbox>)
    requires
        all_wf(fields_view(old(fields)@)),
    ensures
        fields_view(final(fields)@) == fields_view(old(fields)@) + state_entry(opt_secretbox(*st)),
        all_wf(fields_view(final(fields)@)),
{
    match st {
        Some(b) => {
            let x = CryptoBox {
                nonce: copy_bytes(b.ciphertext.as_slice()),
                payload: copy_bytes(b.nonce.as_slice()),
                public_key: Vec::new(),
            };
            assert(x.public_key@ =~= Seq::<u8>::empty());
            let inner = x.write_to_bytes();
            let ghost before = fields_view(fields@);
            proof {
                lemma_vec_len_fits(inner);
                lemma_entry_wf(2, inner@, 0);
                lemma_entries_wf(before, message_entry(2, inner@));
            }
            fields.push(WireField { number: 2, value: crate::wire::FieldValue::Bytes(inner) });
            assert(fields_view(fields@) =~= before + message_entry(2, inner@));
        },
        None => {
            assert(fields_view(fields@) =~= fields_view(old(fields)@) + state_entry(None));
        },
    }
}

impl ContractEnclaveRequest {
    /// Serializes the batch.
    pub fn write_to_bytes(&self) -> (r: Vec<u8>)
        ensures
            r@ == encode_contract_enclave_request(
                requests_view(self.client_request@),
                opt_secretbox(self.encrypted_state),
            ),
    {
        let ghost items = requests_view(self.client_request@).map_values(
            |r: SpecClientRequest| encode_client_request(r),
        );
        let mut fields: Vec<WireField> = Vec::new();
        let mut i: usize = 0;
        while i < self.client_request.len()
            invariant
                i <= self.client_request@.len(),
                items.len() == self.client_request@.len(),
                items == requests_view(self.client_request@).map_values(
                    |r: SpecClientRequest| encode_client_request(r),
                ),
                fields_view(fields@) == repeated_entries(1, items.subrange(0, i as int)),
                all_wf(fields_view(fields@)),
            decreases self.client_request@.len() - i,
        {
            let inner = self.client_request[i].write_to_bytes();
            let ghost inner_view = inner@;
            proof {
                lemma_vec_len_fits(inner);
                lemma_entry_wf(1, inner@, 0);
            }
            let ghost before = fields_view(fields@);
            fields.push(WireField { number: 1, value: crate::wire::FieldValue::Bytes(inner) });
            proof {
                assert(fields_view(fields@) =~= before + message_entry(1, inner_view));
                lemma_entries_wf(before, message_entry(1, inner_view));
                assert(repeated_entries(1, items.subrange(0, i + 1)) =~= before + message_entry(
                    1,
                    inner_view,
                ));
            }
            i = i + 1;
        }
        assert(items.subrange(0, items.len() as int) =~= items);
        push_state_entry(&mut fields, &self.encrypted_state);
        encode_list(
            &fields,
            Ghost(repeated_entries(1, items) + state_entry(opt_secretbox(self.encrypted_state))),
        )
    }

    /// Parses a batch from its encoding.
    pub fn parse_from_bytes(b: &[u8]) -> (r: Option<ContractEnclaveRequest>)
        ensures
            match decode_contract_enclave_request(b@) {
                Some((rs, st)) => r matches Some(x) && requests_view(x.client_request@) == rs
                    && opt_secretbox(x.encrypted_state) == st,
                None => r is None,
            },
    {
        let fields = match decode_field_list(b) {
            Some(f) => f,
            None => return None,
        };
        let items = match get_repeated_bytes(&fields, 1) {
            Some(v) => v,
            None => return None,
        };
        if get_bytes_field(&fields, 2).is_none() {
            return None;
        }
        let client_request = match EnclaveRequest::parse_each(&items) {
            Some(out) => out,
            None => return None,
        };
        match get_state_field(&fields) {
            Some(encrypted_state) => Some(ContractEnclaveRequest { client_request, encrypted_state }),
            None => None,
        }
    }
}

/// Appending fields of another number leaves the values of a repeated
/// field unchanged.
proof fn lemma_repeated_skip(a: Seq<SpecField>, b: Seq<SpecField>, number: u64)
    requires
        forall|i: int| 0 <= i < b.len() ==> (#[trigger] b[i]).number != number,
    ensures
        repeated_bytes(a + b, number) == repeated_bytes(a, number),
    decreases b.len(),
{
    if b.len() > 0 {
        assert((a + b).drop_last() =~= a + b.drop_last());
        assert((a + b).last() == b.last());
        assert(b.last() == b[b.len() - 1]);
        lemma_repeated_skip(a, b.drop_last(), number);
    }
}

/// Repeated entries hold no field of another number.
proof fn lemma_repeated_entries_no_field(number: u64, items: Seq<Seq<u8>>, other: u64)
    requires
        number != other,
    ensures
        last_field(repeated_entries(number, items), other) is None,
    decreases items.len(),
{
    if items.len() > 0 {
        assert(repeated_entries(number, items).drop_last() =~= repeated_entries(
            number,
            items.drop_last(),
        ));
        lemma_repeated_entries_no_field(number, items.drop_last(), other);
    }
}

/// Decoding an encoded contract enclave request gives back its client
/// requests and the encrypted state it carries, provided every request and
/// the state fit the wire format's lengths.
pub proof fn law_contract_enclave_request_roundtrip(
    rs: Seq<SpecClientRequest>,
    st: Option<(Seq<u8>, Seq<u8>)>,
)
    requires
        forall|i: int| 0 <= i < rs.len() ==> client_request_fits(#[trigger] rs[i]),
        forall|i: int|
            0 <= i < rs.len() ==> (#[trigger] encode_client_request(rs[i])).len() <= u64::MAX,
        st matches Some((c, n)) ==> c.len() <= u64::MAX && n.len() <= u64::MAX
            && encode_secretbox(c, n).len() <= u64::MAX,
    ensures
        decode_contract_enclave_request(encode_contract_enclave_request(rs, st)) == Some((rs, st)),
{
    let items = rs.map_values(|r: SpecClientRequest| encode_client_request(r));
    let a = repeated_entries(1, items);
    let b = state_entry(st);
    let fs = a + b;
    assert forall|i: int| 0 <= i < a.len() implies crate::wire::field_wf(#[trigger] a[i]) by {
        assert(items[i] == encode_client_request(rs[i]));
    }
    match st {
        Some((c, n)) => {
            lemma_entry_wf(2, encode_secretbox(c, n), 0);
            law_crypto_box_roundtrip(c, n, Seq::empty());
        },
        None => {},
    }
    lemma_entries_wf(a, b);
    lemma_fields_roundtrip(fs);
    lemma_repeated_roundtrip(1, items);
    lemma_repeated_skip(a, b, 1);
    lemma_all_append(a, b, 1);
    lemma_all_append(a, b, 2);
    assert(all_bytes(a, 2));
    lemma_last_field_append(a, b, 2);
    lemma_repeated_entries_no_field(1, items, 2);
    lemma_decode_encoded_requests(rs);
}

/// Encoding of a contract enclave response: its client responses (field 1,
/// repeated) and the encrypted contract state, if any (field 2).
pub open spec fn encode_contract_enclave_response(
    rs: Seq<SpecClientResponse>,
    st: Option<(Seq<u8>, Seq<u8>)>,
) -> Seq<u8> {
    encode_fields(
        repeated_entries(1, rs.map_values(|r: SpecClientResponse| encode_client_response(r)))
            + state_entry(st),
    )
}

/// Batch of client responses from a contract enclave, with the encrypted
/// contract state after the requests, if it changed.
#[derive(Debug)]
pub struct ContractEnclaveResponse {
    pub client_response: Vec<ClientResponse>,
    pub encrypted_state: Option<CryptoSecretbox>,
}

impl ContractEnclaveResponse {
    /// Serializes the batch.
    pub fn write_to_bytes(&self) -> (r: Vec<u8>)
        ensures
            r@ == encode_contract_enclave_response(
                responses_view(self.client_response@),
                opt_secretbox(self.encrypted_state),
            ),
    {
        let ghost items = responses_view(self.client_response@).map_values(
            |r: SpecClientResponse| encode_client_response(r),
        );
        let mut fields: Vec<WireField> = Vec::new();
        let mut i: usize = 0;
        while i < self.client_response.len()
            invariant
                i <= self.client_response@.len(),
                items.len() == self.client_response@.len(),
                items == responses_view(self.client_response@).map_values(
                    |r: SpecClientResponse| encode_client_response(r),
                ),
                fields_view(fields@) == repeated_entries(1, items.subrange(0, i as int)),
                all_wf(fields_view(fields@)),
            decreases self.client_response@.len() - i,
        {
            let inner = self.client_response[i].write_to_bytes();
            let ghost inner_view = inner@;
            proof {
                lemma_vec_len_fits(inner);
                lemma_entry_wf(1, inner@, 0);
            }
            let ghost before = fields_view(fields@);
            fields.push(WireField { number: 1, value: crate::wire::FieldValue::Bytes(inner) });
            proof {
                assert(fields_view(fields@) =~= before + message_entry(1, inner_view));
                lemma_entries_wf(before, message_entry(1, inner_view));
                assert(repeated_entries(1, items.subrange(0, i + 1)) =~= before + message_entry(
                    1,
                    inner_view,
                ));
            }
            i = i + 1;
        }
        assert(items.subrange(0, items.len() as int) =~= items);
        push_state_entry(&mut fields, &self.encrypted_state);
        encode_list(
            &fields,
            Ghost(repeated_entries(1, items) + state_entry(opt_secretbox(self.encrypted_state))),
        )
    }
}

// ---------------------------------------------------------------------------
// Secure channel and contract lifecycle messages

/// Encoding of an attestation report: body (1), signature (2), certificates
/// (3), laid out as a crypto box is.
pub open spec fn encode_report(body: Seq<u8>, signature: Seq<u8>, certificates: Seq<u8>) -> Seq<u8> {
    encode_crypto_box(body, signature, certificates)
}

/// Decoding of an attestation report.
pub open spec fn decode_report(b: Seq<u8>) -> Option<(Seq<u8>, Seq<u8>, Seq<u8>)> {
    decode_crypto_box(b)
}

/// The parts of an attestation report.
pub open spec fn report_view(r: crate::quote::AttestationReport) -> (Seq<u8>, Seq<u8>, Seq<u8>) {
    (r.body@, r.signature@, r.certificates@)
}

impl crate::quote::AttestationReport {
    /// Serializes the report.
    pub fn write_to_bytes(&self) -> (r: Vec<u8>)
        ensures
            r@ == encode_report(self.body@, self.signature@, self.certificates@),
    {
        let b = CryptoBox {
            nonce: copy_bytes(self.body.as_slice()),
            payload: copy_bytes(self.signature.as_slice()),
            public_key: copy_bytes(self.certificates.as_slice()),
        };
        b.write_to_bytes()
    }

    /// Parses a report from its encoding.
    pub fn parse_from_bytes(b: &[u8]) -> (r: Option<crate::quote::AttestationReport>)
        ensures
            match decode_report(b@) {
                Some(v) => r matches Some(x) && report_view(x) == v,
                None => r is None,
            },
    {
        match CryptoBox::parse_from_bytes(b) {
            Some(x) => Some(
                crate::quote::AttestationReport {
                    body: x.nonce,
                    signature: x.payload,
                    certificates: x.public_key,
                },
            ),
            None => None,
        }
    }
}

/// Request to initialize a secure channel: the client's short-term public
/// key and, where the client attests, its attestation report.
#[derive(Debug)]
pub struct ChannelInitRequest {
    pub short_term_public_key: Vec<u8>,
    pub client_attestation_report: Option<crate::quote::AttestationReport>,
}

/// Fields of a channel initialization request: short-term public key (1),
/// client attestation report (2).
pub open spec fn channel_init_request_fields(
    key: Seq<u8>,
    report: Option<(Seq<u8>, Seq<u8>, Seq<u8>)>,
) -> Seq<SpecField> {
    bytes_entry(1, key) + match report {
        Some((b, s, c)) => message_entry(2, encode_report(b, s, c)),
        None => seq![],
    }
}

/// Encoding of a channel initialization request.
pub open spec fn encode_channel_init_request(
    key: Seq<u8>,
    report: Option<(Seq<u8>, Seq<u8>, Seq<u8>)>,
) -> Seq<u8> {
    encode_fields(channel_init_request_fields(key, report))
}

/// Decoding of a channel initialization request.
pub open spec fn decode_channel_init_request(b: Seq<u8>) -> Option<
    (Seq<u8>, Option<(Seq<u8>, Seq<u8>, Seq<u8>)>),
> {
    match parse_fields(b) {
        Some(fs) => if all_bytes(fs, 1) && all_bytes(fs, 2) {
            if last_field(fs, 2) is Some {
                match decode_report(bytes_field(fs, 2)) {
                    Some(r) => Some((bytes_field(fs, 1), Some(r))),
                    None => None,
                }
            } else {
                Some((bytes_field(fs, 1), None))
            }
        } else {
            None
        },
        None => None,
    }
}

/// The optional report of a channel initialization request.
pub open spec fn opt_report(r: Option<crate::quote::AttestationReport>) -> Option<
    (Seq<u8>, Seq<u8>, Seq<u8>),
> {
    match r {
        Some(x) => Some(report_view(x)),
        None => None,
    }
}

impl ChannelInitRequest {
    /// Serializes the request.
    pub fn write_to_bytes(&self) -> (r: Vec<u8>)
        ensures
            r@ == encode_channel_init_request(
                self.short_term_public_key@,
                opt_report(self.client_attestation_report),
            ),
    {
        let mut fields: Vec<WireField> = Vec::new();
        push_bytes_entry(&mut fields, 1, copy_bytes(self.short_term_public_key.as_slice()));
        proof {
            assert(self.short_term_public_key@.len() == self.short_term_public_key.len());
            lemma_entry_wf(1, self.short_term_public_key@, 0);
        }
        let ghost first = fields_view(fields@);
        match &self.client_attestation_report {
            Some(report) => {
                let inner = report.write_to_bytes();
                proof {
                    lemma_vec_len_fits(inner);
                    lemma_entry_wf(2, inner@, 0);
                    lemma_entries_wf(first, message_entry(2, inner@));
                }
                fields.push(WireField { number: 2, value: crate::wire::FieldValue::Bytes(inner) });
            },
            None => {},
        }
        let ghost fs = channel_init_request_fields(
            self.short_term_public_key@,
            opt_report(self.client_attestation_report),
        );
        assert(fields_view(fields@) =~= fs);
        encode_list(&fields, Ghost(fs))
    }

    /// Parses a request from its encoding.
    pub fn parse_from_bytes(b: &[u8]) -> (r: Option<ChannelInitRequest>)
        ensures
            match decode_channel_init_request(b@) {
                Some((k, rep)) => r matches Some(x) && x.short_term_public_key@ == k && opt_report(
                    x.client_attestation_report,
                ) == rep,
                None => r is None,
            },
    {
        let fields = match decode_field_list(b) {
            Some(f) => f,
            None => return None,
        };
        let key = match get_bytes_field(&fields, 1) {
            Some(v) => v,
            None => return None,
        };
        let report_bytes = match get_bytes_field(&fields, 2) {
            Some(v) => v,
            None => return None,
        };
        if has_field(&fields, 2) {
            match crate::quote::AttestationReport::parse_from_bytes(report_bytes.as_slice()) {
                Some(report) => Some(
                    ChannelInitRequest {
                        short_term_public_key: key,
                        client_attestation_report: Some(report),
                    },
                ),
                None => None,
            }
        } else {
            Some(ChannelInitRequest { short_term_public_key: key, client_attestation_report: None })
        }
    }
}

/// Fields of a channel initialization response: contract attestation
/// report (1), response box (2).
pub open spec fn channel_init_response_fields(
    report: (Seq<u8>, Seq<u8>, Seq<u8>),
    bx: (Seq<u8>, Seq<u8>, Seq<u8>),
) -> Seq<SpecField> {
    message_entry(1, encode_report(report.0, report.1, report.2)) + message_entry(
        2,
        encode_crypto_box(bx.0, bx.1, bx.2),
    )
}

/// Encoding of a channel initialization response.
pub open spec fn encode_channel_init_response(
    report: (Seq<u8>, Seq<u8>, Seq<u8>),
    bx: (Seq<u8>, Seq<u8>, Seq<u8>),
) -> Seq<u8> {
    encode_fields(channel_init_response_fields(report, bx))
}

/// Decoding of a channel initialization response.
pub open spec fn decode_channel_init_response(b: Seq<u8>) -> Option<
    ((Seq<u8>, Seq<u8>, Seq<u8>), (Seq<u8>, Seq<u8>, Seq<u8>)),
> {
    match parse_fields(b) {
        Some(fs) => if all_bytes(fs, 1) && all_bytes(fs, 2) {
            match (decode_report(bytes_field(fs, 1)), decode_crypto_box(bytes_field(fs, 2))) {
                (Some(r), Some(x)) => Some((r, x)),
                _ => None,
            }
        } else {
            None
        },
        None => None,
    }
}

impl ChannelInitResponse {
    /// Serializes the response.
    pub fn write_to_bytes(&self) -> (r: Vec<u8>)
        ensures
            r@ == encode_channel_init_response(
                report_view(self.contract_attestation_report),
                (
                    self.response_box.nonce@,
                    self.response_box.payload@,
                    self.response_box.public_key@,
                ),
            ),
    {
        let mut fields: Vec<WireField> = Vec::new();
        let report = self.contract_attestation_report.write_to_bytes();
        let bx = self.response_box.write_to_bytes();
        proof {
            lemma_vec_len_fits(report);
            lemma_vec_len_fits(bx);
            lemma_entry_wf(1, report@, 0);
            lemma_entry_wf(2, bx@, 0);
            lemma_entries_wf(message_entry(1, report@), message_entry(2, bx@));
        }
        fields.push(WireField { number: 1, value: crate::wire::FieldValue::Bytes(report) });
        fields.push(WireField { number: 2, value: crate::wire::FieldValue::Bytes(bx) });
        let ghost fs = channel_init_response_fields(
            report_view(self.contract_attestation_report),
            (self.response_box.nonce@, self.response_box.payload@, self.response_box.public_key@),
        );
        assert(fields_view(fields@) =~= fs);
        encode_list(&fields, Ghost(fs))
    }

    /// Parses a response from its encoding.
    pub fn parse_from_bytes(b: &[u8]) -> (r: Option<ChannelInitResponse>)
        ensures
            match decode_channel_init_response(b@) {
                Some((rep, bx)) => r matches Some(x) && report_view(x.contract_attestation_report)
                    == rep && (x.response_box.nonce@, x.response_box.payload@, x.response_box.public_key@)
                    == bx,
                None => r is None,
            },
    {
        let fields = match decode_field_list(b) {
            Some(f) => f,
            None => return None,
        };
        let report_bytes = match get_bytes_field(&fields, 1) {
            Some(v) => v,
            None => return None,
        };
        let box_bytes = match get_bytes_field(&fields, 2) {
            Some(v) => v,
            None => return None,
        };
        let report = match crate::quote::AttestationReport::parse_from_bytes(report_bytes.as_slice()) {
            Some(r) => r,
            None => return None,
        };
        match CryptoBox::parse_from_bytes(box_bytes.as_slice()) {
            Some(response_box) => Some(ChannelInitResponse { contract_attestation_report: report, response_box }),
            None => None,
        }
    }
}

/// Decoding an encoded channel initialization request gives back its key
/// and report.
pub proof fn law_channel_init_request_roundtrip(
    key: Seq<u8>,
    report: Option<(Seq<u8>, Seq<u8>, Seq<u8>)>,
)
    requires
        key.len() <= u64::MAX,
        report matches Some((b, s, c)) ==> b.len() <= u64::MAX && s.len() <= u64::MAX && c.len()
            <= u64::MAX && encode_report(b, s, c).len() <= u64::MAX,
    ensures
        decode_channel_init_request(encode_channel_init_request(key, report)) == Some((key, report)),
{
    let e1 = bytes_entry(1, key);
    lemma_entry_wf(1, key, 0);
    lemma_entry_lookups(1, key, 0, 1);
    lemma_entry_lookups(1, key, 0, 2);
    match report {
        Some((b, s, c)) => {
            let inner = encode_report(b, s, c);
            let e2 = message_entry(2, inner);
            lemma_entry_wf(2, inner, 0);
            lemma_entries_wf(e1, e2);
            lemma_fields_roundtrip(e1 + e2);
            lemma_entry_lookups(2, inner, 0, 1);
            lemma_entry_lookups(2, inner, 0, 2);
            lemma_lookup2(e1, e2, 1);
            lemma_lookup2(e1, e2, 2);
            law_crypto_box_roundtrip(b, s, c);
        },
        None => {
            assert(channel_init_request_fields(key, report) =~= e1);
            lemma_fields_roundtrip(e1);
        },
    }
}

/// Decoding an encoded channel initialization response gives back its
/// report and box.
pub proof fn law_channel_init_response_roundtrip(
    report: (Seq<u8>, Seq<u8>, Seq<u8>),
    bx: (Seq<u8>, Seq<u8>, Seq<u8>),
)
    requires
        report.0.len() <= u64::MAX,
        report.1.len() <= u64::MAX,
        report.2.len() <= u64::MAX,
        bx.0.len() <= u64::MAX,
        bx.1.len() <= u64::MAX,
        bx.2.len() <= u64::MAX,
        encode_report(report.0, report.1, report.2).len() <= u64::MAX,
        encode_crypto_box(bx.0, bx.1, bx.2).len() <= u64::MAX,
    ensures
        decode_channel_init_response(encode_channel_init_response(report, bx)) == Some((report, bx)),
{
    let r = encode_report(report.0, report.1, report.2);
    let x = encode_crypto_box(bx.0, bx.1, bx.2);
    let e1 = message_entry(1, r);
    let e2 = message_entry(2, x);
    lemma_entry_wf(1, r, 0);
    lemma_entry_wf(2, x, 0);
    lemma_entries_wf(e1, e2);
    lemma_fields_roundtrip(e1 + e2);
    lemma_entry_lookups(1, r, 0, 1);
    lemma_entry_lookups(1, r, 0, 2);
    lemma_entry_lookups(2, x, 0, 1);
    lemma_entry_lookups(2, x, 0, 2);
    lemma_lookup2(e1, e2, 1);
    lemma_lookup2(e1, e2, 2);
    law_crypto_box_roundtrip(report.0, report.1, report.2);
    law_crypto_box_roundtrip(bx.0, bx.1, bx.2);
}

impl ContractInitResponse {
    /// Serializes the response: public key (1), sealed keys (2), MRENCLAVE (3).
    pub fn write_to_bytes(&self) -> (r: Vec<u8>)
        ensures
            r@ == encode_crypto_box(self.public_key@, self.sealed_keys@, self.mr_enclave@),
    {
        let b = CryptoBox {
            nonce: copy_bytes(self.public_key.as_slice()),
            payload: copy_bytes(self.sealed_keys.as_slice()),
            public_key: copy_bytes(self.mr_enclave.as_slice()),
        };
        b.write_to_bytes()
    }
}

/// Decoding of a contract restore request: its sealed keys (field 1), laid
/// out as the single bytes field that a channel initialization response box
/// holds.
pub open spec fn decode_contract_restore_request(b: Seq<u8>) -> Option<Seq<u8>> {
    decode_init_response_box(b)
}

impl ContractRestoreRequest {
    /// Parses a request: sealed keys (1).
    pub fn parse_from_bytes(b: &[u8]) -> (r: Option<ContractRestoreRequest>)
        ensures
            match decode_contract_restore_request(b@) {
                Some(k) => r matches Some(x) && x.sealed_keys@ == k,
                None => r is None,
            },
    {
        match ChannelInitResponseBox::parse_from_bytes(b) {
            Some(x) => Some(ContractRestoreRequest { sealed_keys: x.short_term_public_key }),
            None => None,
        }
    }
}

impl ContractRestoreResponse {
    /// Serializes the response: public key (1).
    pub fn write_to_bytes(&self) -> (r: Vec<u8>)
        ensures
            r@ == encode_init_response_box(self.public_key@),
    {
        let b = ChannelInitResponseBox { short_term_public_key: copy_bytes(self.public_key.as_slice()) };
        b.write_to_bytes()
    }
}

} // verus!
