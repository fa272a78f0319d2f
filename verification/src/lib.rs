//! Verified core of the Ekiden confidential-contract runtime: secure channels
//! between clients and contract enclaves, encrypted contract state, state
//! diffs, RPC request dispatch, the key manager client and the storage node
//! state.

// Byte strings, text and the wire format of messages.
pub mod bytes;
pub mod byte_order;
pub mod text;
pub mod wire;
pub mod codec;
pub mod api;
pub mod serializer;
pub mod entries;

// Errors, addresses and contracts.
pub mod contract_error;
pub mod address;
pub mod contract;

// Randomness, cryptography and nonces.
pub mod random;
pub mod crypto;
pub mod nonce;
pub mod quote;

// Secure channels: the contract's end and the client's end.
pub mod secure_channel;
pub mod session;
pub mod channel;
pub mod client_channel;
pub mod client;

// Requests, responses and dispatch inside the enclave.
pub mod request;
pub mod dispatcher;
pub mod internal;
pub mod contract_dispatch;

// Contract state.
pub mod state_crypto;
pub mod state_diffs;
pub mod key_manager;

// Untrusted side: enclave calls, routing and build settings.
pub mod enclave;
pub mod router;
pub mod build_mode;

// Storage node.
pub mod storage;
pub mod tendermint;
