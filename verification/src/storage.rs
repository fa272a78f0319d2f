use vstd::prelude::*;
use crate::bytes::copy_bytes;
use crate::crypto::opt_bytes;

verus! {

/// State held by a storage node: the latest stored payload, if any.
pub struct State {
    latest: Option<Vec<u8>>,
}

impl State {
    /// The latest stored payload.
    pub closed spec fn latest_view(&self) -> Option<Seq<u8>> {
        opt_bytes(self.latest)
    }

    /// A state that holds nothing yet.
    pub fn new() -> (s: State)
        ensures
            s.latest_view() is None,
    {
        State { latest: None }
    }

    /// Checks a transaction before it is broadcast; every transaction passes.
    pub fn check_tx(_tx: &[u8]) -> (r: Result<(), String>)
        ensures
            r is Ok,
    {
        Ok(())
    }

    /// A copy of the latest stored payload.
    pub fn get_latest(&self) -> (r: Option<Vec<u8>>)
        ensures
            opt_bytes(r) == self.latest_view(),
    {
        match &self.latest {
            Some(val) => Some(copy_bytes(val.as_slice())),
            None => None,
        }
    }

    /// Replaces the latest stored payload.
    pub fn set_latest(&mut self, latest: Vec<u8>)
        ensures
            final(self).latest_view() == Some(latest@),
    {
        self.latest = Some(latest);
    }
}

/// Answer of a storage node to a read: the latest payload, or an error while
/// nothing has been stored.
pub fn handle_get(state: &State) -> (r: Result<Vec<u8>, String>)
    ensures
        match state.latest_view() {
            Some(p) => r matches Ok(v) && v@ == p,
            None => r matches Err(m) && m@ == "State not initialized."@,
        },
{
    match state.get_latest() {
        Some(val) => Ok(val),
        None => Err("State not initialized.".to_string()),
    }
}

/// Decision of a storage node on a write: the payload to broadcast where it
/// passes the transaction check, an error otherwise.
pub fn handle_set(payload: &[u8]) -> (r: Result<Vec<u8>, String>)
    ensures
        r matches Ok(v) && v@ == payload@,
{
    match State::check_tx(payload) {
        Ok(()) => Ok(copy_bytes(payload)),
        Err(_) => Err("Invalid payload fails check_tx".to_string()),
    }
}

/// Storage server: holds the latest payload, empty when created.
pub struct StorageServer {
    latest: Option<Vec<u8>>,
}

impl StorageServer {
    /// The latest payload the server holds.
    pub closed spec fn latest_view(&self) -> Option<Seq<u8>> {
        opt_bytes(self.latest)
    }

    /// A server that holds nothing yet.
    pub fn new() -> (s: StorageServer)
        ensures
            s.latest_view() is None,
    {
        StorageServer { latest: None }
    }
}

/// Tendermint application of the storage node.
#[derive(Clone, Copy)]
pub struct Ekidenmint;

impl Ekidenmint {
    /// Creates the application.
    pub fn new() -> (a: Ekidenmint) {
        Ekidenmint
    }

    /// Answer to an echo request: the message itself.
    pub fn echo(&self, message: &String) -> (r: String)
        ensures
            r@ == message@,
    {
        message.clone()
    }
}

} // verus!
