use vstd::prelude::*;
use crate::api::PlainClientResponseCode;

verus! {

/// Error that occurred while a request was being processed.
#[derive(Debug)]
pub struct DispatchError {
    /// Error code.
    pub code: PlainClientResponseCode,
    /// Human-readable message.
    pub message: String,
}

impl DispatchError {
    /// Creates a new dispatch error.
    pub fn new(code: PlainClientResponseCode, message: &str) -> (e: DispatchError)
        ensures
            e.code == code,
            e.message@ == message@,
    {
        DispatchError { code, message: message.to_owned() }
    }
}

/// A request with its metadata: the message (the serialized payload, or the
/// message read from it) and method, the client's short-term public key where
/// the request came over a secure channel, the client's MRENCLAVE where the
/// channel is mutually attested, and the error that occurred while it was
/// being processed, if any.
#[derive(Debug)]
pub struct Request<T> {
    pub message: T,
    pub method: Option<String>,
    pub public_key: Option<Vec<u8>>,
    pub mr_enclave: Option<Vec<u8>>,
    pub error: Option<DispatchError>,
}

/// The view of an optional string.
pub open spec fn opt_text(s: Option<String>) -> Option<Seq<char>> {
    match s {
        Some(t) => Some(t@),
        None => None,
    }
}

/// Whether `r` carries `message` with the metadata of `request`: its method,
/// client public key and MRENCLAVE, and no error.
pub open spec fn carries_metadata_of<T, M>(r: Request<M>, message: M, request: Request<T>) -> bool {
    &&& r.message == message
    &&& opt_text(r.method) == opt_text(request.method)
    &&& crate::session::opt_vec(r.public_key) == crate::session::opt_vec(request.public_key)
    &&& crate::session::opt_vec(r.mr_enclave) == crate::session::opt_vec(request.mr_enclave)
    &&& r.error is None
}

impl<T> Request<T> {
    /// Creates a request from its message and metadata.
    pub fn new(
        message: T,
        method: String,
        public_key: Option<Vec<u8>>,
        mr_enclave: Option<Vec<u8>>,
    ) -> (r: Request<T>)
        ensures
            r.message == message,
            opt_text(r.method) == Some(method@),
            r.public_key == public_key,
            r.mr_enclave == mr_enclave,
            r.error is None,
    {
        Request { message, method: Some(method), public_key, mr_enclave, error: None }
    }

    /// A request with another message and the metadata of this one.
    pub fn copy_metadata_to<M>(&self, message: M) -> (r: Request<M>)
        ensures
            carries_metadata_of(r, message, *self),
    {
        let method = match &self.method {
            Some(m) => Some(m.clone()),
            None => None,
        };
        let public_key = match &self.public_key {
            Some(k) => Some(crate::bytes::copy_bytes(k.as_slice())),
            None => None,
        };
        let mr_enclave = match &self.mr_enclave {
            Some(m) => Some(crate::bytes::copy_bytes(m.as_slice())),
            None => None,
        };
        Request { message, method, public_key, mr_enclave, error: None }
    }

    /// Short-term public key of the client making this request; `None` where
    /// the request was made over a non-secure channel.
    pub fn get_client_public_key(&self) -> (r: &Option<Vec<u8>>)
        ensures
            *r == self.public_key,
    {
        &self.public_key
    }

    /// MRENCLAVE of the client making this request; `None` where the channel
    /// has no client attestation.
    pub fn get_client_mr_enclave(&self) -> (r: &Option<Vec<u8>>)
        ensures
            *r == self.mr_enclave,
    {
        &self.mr_enclave
    }

    /// Method being called, where known.
    pub fn get_method(&self) -> (r: &Option<String>)
        ensures
            *r == self.method,
    {
        &self.method
    }

    /// Error that occurred during dispatch, if any.
    pub fn get_error(&self) -> (r: &Option<DispatchError>)
        ensures
            *r == self.error,
    {
        &self.error
    }
}

impl Request<Vec<u8>> {
    /// Creates a request that carries only a dispatch error.
    pub fn error(error: DispatchError) -> (r: Request<Vec<u8>>)
        ensures
            r.message@.len() == 0,
            r.method is None,
            r.public_key is None,
            r.mr_enclave is None,
            r.error == Some(error),
    {
        Request {
            message: Vec::new(),
            method: None,
            public_key: None,
            mr_enclave: None,
            error: Some(error),
        }
    }
}

} // verus!
