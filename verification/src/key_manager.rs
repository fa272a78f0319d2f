use vstd::prelude::*;
use crate::bytes::copy_bytes;
use crate::contract_error::ContractError;
use crate::entries::{entry_map, has_entry, keys_unique, lemma_entry_at, lemma_entry_push};
use crate::quote::MRENCLAVE_LEN;
use crate::text::{push_text, text_eq};

verus! {

/// Request to the key manager contract for a named key.
#[derive(Debug)]
pub struct GetOrCreateKeyRequest {
    pub name: String,
    pub size: u32,
}

/// What a key lookup needs: the key from the local cache, or a request to
/// the key manager contract.
#[derive(Debug)]
pub enum KeyLookup {
    Cached(Vec<u8>),
    Fetch(GetOrCreateKeyRequest),
}

/// Abstract state of the key manager client.
pub struct KeyManagerView {
    /// MRENCLAVE of the key manager contract.
    pub mr_enclave: Seq<u8>,
    /// Whether a client connection to the key manager exists.
    pub connected: bool,
    /// Locally cached keys by name.
    pub cache: Map<Seq<char>, Seq<u8>>,
}

/// Key manager client: connection state and local key cache.
///
/// The calls to the key manager contract go over the network; this type
/// takes the decisions around them and keeps the cache.
pub struct KeyManager {
    mr_enclave: [u8; 32],
    connected: bool,
    cache: Vec<(String, Vec<u8>)>,
}

/// The cache entries as names and keys.
pub closed spec fn cache_entries(v: Seq<(String, Vec<u8>)>) -> Seq<(Seq<char>, Seq<u8>)> {
    v.map_values(|e: (String, Vec<u8>)| (e.0@, e.1@))
}

impl View for KeyManager {
    type V = KeyManagerView;

    closed spec fn view(&self) -> KeyManagerView {
        KeyManagerView {
            mr_enclave: self.mr_enclave@,
            connected: self.connected,
            cache: entry_map(cache_entries(self.cache@)),
        }
    }
}

/// Whether an MRENCLAVE is all zeroes, as the key manager's own is.
pub open spec fn is_zero_enclave(m: Seq<u8>) -> bool {
    forall|i: int| 0 <= i < m.len() ==> m[i] == 0
}

impl KeyManager {
    /// Internal consistency: no name is cached twice.
    pub closed spec fn wf(&self) -> bool {
        keys_unique(cache_entries(self.cache@))
    }

    /// A client of the key manager contract with the given MRENCLAVE, not
    /// connected and with an empty cache.
    pub fn new(mr_enclave: [u8; 32]) -> (k: KeyManager)
        ensures
            k.wf(),
            k@.mr_enclave == mr_enclave@,
            !k@.connected,
            k@.cache.dom().is_empty(),
    {
        let k = KeyManager { mr_enclave, connected: false, cache: Vec::new() };
        assert(cache_entries(k.cache@) =~= Seq::<(Seq<char>, Seq<u8>)>::empty());
        assert(k@.cache.dom() =~= Set::<Seq<char>>::empty());
        k
    }

    /// Whether this client runs inside the key manager itself, which is
    /// recognized by the key manager's MRENCLAVE being all zeroes.
    pub fn is_self(&self) -> (r: bool)
        ensures
            r == is_zero_enclave(self@.mr_enclave),
    {
        let mut i: usize = 0;
        while i < MRENCLAVE_LEN
            invariant
                i <= MRENCLAVE_LEN,
                self.mr_enclave@.len() == MRENCLAVE_LEN,
                forall|j: int| 0 <= j < i ==> self.mr_enclave@[j] == 0,
            decreases MRENCLAVE_LEN - i,
        {
            if self.mr_enclave[i] != 0 {
                return false;
            }
            i = i + 1;
        }
        true
    }

    /// Decides how to connect: refused inside the key manager itself, nothing
    /// to do where connected, and `Ok(true)` where a client must be created.
    pub fn connect(&self) -> (r: Result<bool, ContractError>)
        ensures
            is_zero_enclave(self@.mr_enclave) ==> (r matches Err(e) && e.message@
                == "Tried to call key manager from inside the key manager itself"@),
            !is_zero_enclave(self@.mr_enclave) ==> r == Ok::<bool, ContractError>(!self@.connected),
    {
        if self.is_self() {
            return Err(
                ContractError::new("Tried to call key manager from inside the key manager itself"),
            );
        }
        Ok(!self.connected)
    }

    /// Records the outcome of creating the client connection.
    pub fn finish_connect(&mut self, outcome: Result<(), String>) -> (r: Result<(), ContractError>)
        requires
            old(self).wf(),
        ensures
            final(self).wf(),
            match outcome {
                Ok(()) => r is Ok && final(self)@ == (KeyManagerView {
                    connected: true,
                    ..old(self)@
                }),
                Err(m) => (r matches Err(e) && e.message@ == "Failed to create key manager client: "@
                    + m@) && final(self)@ == old(self)@,
            },
    {
        match outcome {
            Ok(()) => {
                self.connected = true;
                Ok(())
            },
            Err(m) => {
                let mut message = String::new();
                push_text(&mut message, "Failed to create key manager client: ");
                push_text(&mut message, m.as_str());
                Err(ContractError { message })
            },
        }
    }

    /// Clears the local key cache, so that keys are fetched again.
    pub fn clear_cache(&mut self)
        requires
            old(self).wf(),
        ensures
            final(self).wf(),
            final(self)@ == (KeyManagerView { cache: Map::empty(), ..old(self)@ }),
    {
        self.cache = Vec::new();
        assert(cache_entries(self.cache@) =~= Seq::<(Seq<char>, Seq<u8>)>::empty());
        assert(self@.cache =~= Map::<Seq<char>, Seq<u8>>::empty());
    }

    /// Position of the cached key with the given name, if any.
    fn find_key(&self, name: &str) -> (r: Option<usize>)
        requires
            self.wf(),
        ensures
            r matches Some(i) ==> i < self.cache@.len() && self.cache@[i as int].0@ == name@,
            r is None <==> !self@.cache.dom().contains(name@),
    {
        let ghost es = cache_entries(self.cache@);
        let mut i: usize = 0;
        while i < self.cache.len()
            invariant
                i <= self.cache@.len(),
                es == cache_entries(self.cache@),
                forall|j: int| 0 <= j < i ==> es[j].0 != name@,
            decreases self.cache@.len() - i,
        {
            if text_eq(self.cache[i].0.as_str(), name) {
                assert(es[i as int].0 == name@);
                assert(has_entry(es, name@));
                return Some(i);
            }
            i = i + 1;
        }
        assert(!has_entry(es, name@));
        None
    }

    /// Looks up a named key: from the cache where it is there, otherwise the
    /// request to send to the key manager, which generates the key if it
    /// does not exist yet.
    pub fn get_or_create_key(&self, name: &str, size: usize) -> (r: KeyLookup)
        requires
            self.wf(),
        ensures
            self@.cache.dom().contains(name@) ==> (r matches KeyLookup::Cached(k) && k@
                == self@.cache[name@]),
            !self@.cache.dom().contains(name@) ==> (r matches KeyLookup::Fetch(q) && q.name@
                == name@ && q.size == size as u32),
    {
        match self.find_key(name) {
            Some(i) => {
                proof {
                    lemma_entry_at(cache_entries(self.cache@), i as int);
                }
                KeyLookup::Cached(copy_bytes(self.cache[i].1.as_slice()))
            },
            None => KeyLookup::Fetch(
                GetOrCreateKeyRequest { name: name.to_owned(), size: size as u32 },
            ),
        }
    }

    /// Records the key manager's answer to a fetch of a named key: the key
    /// is cached and returned, or the failure is reported.
    pub fn finish_get_or_create_key(&mut self, name: &str, response: Result<Vec<u8>, String>) -> (r:
        Result<Vec<u8>, ContractError>)
        requires
            old(self).wf(),
            !old(self)@.cache.dom().contains(name@),
        ensures
            final(self).wf(),
            match response {
                Ok(k) => (r matches Ok(v) && v@ == k@) && final(self)@ == (KeyManagerView {
                    cache: old(self)@.cache.insert(name@, k@),
                    ..old(self)@
                }),
                Err(m) => (r matches Err(e) && e.message@ == "Failed to call key manager: "@
                    + m@) && final(self)@ == old(self)@,
            },
    {
        match response {
            Ok(key) => {
                let ghost before = cache_entries(self.cache@);
                let result = copy_bytes(key.as_slice());
                let entry = (name.to_owned(), key);
                let ghost e = (entry.0@, entry.1@);
                self.cache.push(entry);
                proof {
                    assert(cache_entries(self.cache@) =~= before.push(e));
                    lemma_entry_push(before, e);
                }
                Ok(result)
            },
            Err(m) => {
                let mut message = String::new();
                push_text(&mut message, "Failed to call key manager: ");
                push_text(&mut message, m.as_str());
                Err(ContractError { message })
            },
        }
    }
}

/// The key manager is recognized by an MRENCLAVE of all zero bytes: an
/// MRENCLAVE with any non-zero byte is never the key manager itself, so a
/// contract with a real key manager hash always connects to it, and the
/// all-zero MRENCLAVE always is.
pub proof fn law_only_zero_enclave_is_self(m: Seq<u8>)
    ensures
        (exists|i: int| 0 <= i < m.len() && m[i] != 0u8) ==> !is_zero_enclave(m),
        m == Seq::new(m.len(), |i: int| 0u8) ==> is_zero_enclave(m),
{
    if exists|i: int| 0 <= i < m.len() && m[i] != 0u8 {
        let i = choose|i: int| 0 <= i < m.len() && m[i] != 0u8;
        assert(m[i] != 0u8);
    }
    if m == Seq::new(m.len(), |i: int| 0u8) {
        assert forall|i: int| 0 <= i < m.len() implies m[i] == 0 by {
            assert(m[i] == Seq::new(m.len(), |j: int| 0u8)[i]);
        }
    }
}

} // verus!
