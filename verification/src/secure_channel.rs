use vstd::prelude::*;
use crate::api::CryptoBox;
use crate::bytes::{append_bytes, bytes_from, zero_seq, zeros};
use crate::contract_error::ContractError;
use crate::crypto::{
    box_public_key, box_seal, box_shared_key, box_unseal, open_afternm, precompute_key, seal_afternm,
    zero_padded, ZERO_BYTES,
};
use crate::nonce::{nonce_prefix, NonceGenerator, BOX_NONCE_LEN};

verus! {

/// Current state of a secure channel session.
#[derive(Debug, Copy, Clone, PartialEq, Eq, Structural)]
pub enum SessionState {
    /// Session is being initialized; from here it may become `Established`.
    Init,
    /// Secure channel is established.
    Established,
}

/// Whether a session may move from `from` to `to`: any state may return to
/// `Init`, and only `Init` may become `Established`.
pub open spec fn transition_allowed(from: SessionState, to: SessionState) -> bool {
    to == SessionState::Init || from == SessionState::Init
}

impl SessionState {
    /// Moves the session to `new_state` where the transition is allowed.
    pub fn transition_to(&mut self, new_state: SessionState) -> (r: Result<(), ContractError>)
        ensures
            r is Ok <==> transition_allowed(*old(self), new_state),
            r is Ok ==> *final(self) == new_state,
            r is Err ==> *final(self) == *old(self),
            r matches Err(e) ==> e.message@
                == "Invalid secure channel state transition: (Established, Established)"@,
    {
        match (*self, new_state) {
            (_, SessionState::Init) => {},
            (SessionState::Init, SessionState::Established) => {},
            _ => {
                return Err(
                    ContractError::new(
                        "Invalid secure channel state transition: (Established, Established)",
                    ),
                );
            },
        }
        *self = new_state;
        Ok(())
    }
}

impl Default for SessionState {
    fn default() -> (s: SessionState)
        ensures
            s == SessionState::Init,
    {
        SessionState::Init
    }
}

/// The key a box operation uses: the cached shared key, or the key derived
/// from the peer's public key and our secret key when none is cached yet.
pub open spec fn channel_key(shared_key: Option<[u8; 32]>, public_key: Seq<u8>, private_key: Seq<u8>) -> Seq<u8> {
    match shared_key {
        Some(k) => k@,
        None => box_shared_key(public_key, private_key),
    }
}

/// The padded message that a box holding `payload` seals.
pub open spec fn padded(payload: Seq<u8>) -> Seq<u8> {
    zero_seq(ZERO_BYTES as nat) + payload
}

/// Ensures that a shared key is cached, deriving it where none is.
fn ensure_shared_key(public_key: &[u8; 32], private_key: &[u8; 32], shared_key: &mut Option<[u8; 32]>) -> (k: [u8; 32])
    ensures
        k@ == channel_key(*old(shared_key), public_key@, private_key@),
        *final(shared_key) == Some(k),
        *old(shared_key) is None ==> forall|other: Seq<u8>|
            other.len() == 32 && public_key@ == #[trigger] box_public_key(other) ==> k@
                == box_shared_key(box_public_key(private_key@), other),
{
    match *shared_key {
        Some(k) => k,
        None => {
            let k = precompute_key(public_key, private_key);
            *shared_key = Some(k);
            k
        },
    }
}

/// Creates a cryptographic box (encrypted and authenticated) holding `payload`.
pub fn create_box<NG: NonceGenerator>(
    payload: &[u8],
    nonce_context: &[u8; 16],
    nonce_generator: &mut NG,
    public_key: &[u8; 32],
    private_key: &[u8; 32],
    shared_key: &mut Option<[u8; 32]>,
) -> (r: Result<CryptoBox, ContractError>)
    requires
        old(nonce_generator).can_issue(),
        payload@.len() + ZERO_BYTES <= usize::MAX,
    ensures
        r is Ok ==> (*final(shared_key) matches Some(k) && k@ == channel_key(
            *old(shared_key),
            public_key@,
            private_key@,
        )),
        r is Err ==> *final(shared_key) == *old(shared_key),
        r matches Ok(b) ==> {
            &&& b.nonce@.len() == BOX_NONCE_LEN
            &&& nonce_prefix(b.nonce@) == nonce_context@
            &&& b.payload@ == box_seal(
                padded(payload@),
                b.nonce@,
                channel_key(*old(shared_key), public_key@, private_key@),
            )
            &&& b.payload@.len() == payload@.len() + ZERO_BYTES
            &&& box_unseal(
                b.payload@,
                b.nonce@,
                channel_key(*old(shared_key), public_key@, private_key@),
            ) == Some(padded(payload@))
            &&& b.public_key@.len() == 0
            &&& old(nonce_generator).issues(b.nonce@, nonce_context@)
            &&& old(nonce_generator).after_issue(&*final(nonce_generator))
        },
        r is Err ==> *final(nonce_generator) == *old(nonce_generator),
        old(nonce_generator).issue_succeeds() ==> r is Ok,
        r is Ok && *old(shared_key) is None ==> forall|other: Seq<u8>|
            other.len() == 32 && public_key@ == #[trigger] box_public_key(other) ==> box_unseal(
                r.unwrap().payload@,
                r.unwrap().nonce@,
                box_shared_key(box_public_key(private_key@), other),
            ) == Some(padded(payload@)),
{
    let mut crypto_box = CryptoBox::new();
    let nonce = match nonce_generator.get_nonce(nonce_context) {
        Ok(n) => n,
        Err(e) => return Err(e),
    };
    let key = ensure_shared_key(public_key, private_key, shared_key);
    // The first 32 bytes stay zero, as the box operation requires.
    let mut key_with_payload = zeros(ZERO_BYTES);
    append_bytes(&mut key_with_payload, payload);
    assert(key_with_payload@.subrange(0, ZERO_BYTES as int) =~= zero_seq(ZERO_BYTES as nat));
    assert(key_with_payload@ =~= padded(payload@));
    let encrypted = match seal_afternm(key_with_payload.as_slice(), nonce.as_slice(), &key) {
        Ok(c) => c,
        Err(_) => return Err(ContractError::new("Box operation failed")),
    };
    crypto_box.nonce = nonce;
    crypto_box.payload = encrypted;
    Ok(crypto_box)
}

/// Opens a cryptographic box, returning its payload.
///
/// A box that `create_box` sealed under the same key opens to the payload it
/// was created with whenever the nonce generator accepts its nonce.
pub fn open_box<NG: NonceGenerator>(
    crypto_box: &CryptoBox,
    nonce_context: &[u8; 16],
    nonce_generator: &mut NG,
    public_key: &[u8; 32],
    private_key: &[u8; 32],
    shared_key: &mut Option<[u8; 32]>,
) -> (r: Result<Vec<u8>, ContractError>)
    requires
        crypto_box.nonce@.len() == BOX_NONCE_LEN,
    ensures
        *final(shared_key) matches Some(k) && k@ == channel_key(
            *old(shared_key),
            public_key@,
            private_key@,
        ),
        ({
            let key = channel_key(*old(shared_key), public_key@, private_key@);
            &&& r is Ok <==> old(nonce_generator).accepts(crypto_box.nonce@, nonce_context@)
                && box_unseal(crypto_box.payload@, crypto_box.nonce@, key) is Some
            &&& r matches Ok(p) ==> box_unseal(crypto_box.payload@, crypto_box.nonce@, key)
                == Some(padded(p@))
            &&& forall|p: Seq<u8>|
                old(nonce_generator).accepts(crypto_box.nonce@, nonce_context@)
                    && crypto_box.payload@ == #[trigger] box_seal(padded(p), crypto_box.nonce@, key)
                    ==> (r matches Ok(v) && v@ == p)
        }),
        final(nonce_generator).can_issue() == old(nonce_generator).can_issue(),
        old(nonce_generator).accepts(crypto_box.nonce@, nonce_context@)
            ==> old(nonce_generator).after_accept(crypto_box.nonce@, &*final(nonce_generator)),
        !old(nonce_generator).accepts(crypto_box.nonce@, nonce_context@)
            ==> *final(nonce_generator) == *old(nonce_generator),
        nonce_prefix(crypto_box.nonce@) != nonce_context@ ==> r is Err,
{
    let key = ensure_shared_key(public_key, private_key, shared_key);
    let nonce = match nonce_generator.unpack_nonce(crypto_box, nonce_context) {
        Ok(n) => n,
        Err(e) => return Err(e),
    };
    let ghost k = key@;
    match open_afternm(crypto_box.payload.as_slice(), nonce.as_slice(), &key) {
        Some(payload) => {
            // Trim the leading zero bytes that made room for the key.
            let trimmed = bytes_from(payload.as_slice(), ZERO_BYTES);
            assert(payload@ =~= padded(trimmed@));
            proof {
                assert forall|p: Seq<u8>|
                    crypto_box.payload@ == #[trigger] box_seal(padded(p), crypto_box.nonce@, k)
                        implies trimmed@ == p by {
                    assert(zero_padded(padded(p))) by {
                        assert(padded(p).subrange(0, ZERO_BYTES as int) =~= zero_seq(
                            ZERO_BYTES as nat,
                        ));
                    }
                    assert(padded(p).subrange(ZERO_BYTES as int, padded(p).len() as int) =~= p);
                }
            }
            Ok(trimmed)
        },
        None => {
            proof {
                assert forall|p: Seq<u8>|
                    !(crypto_box.payload@ == #[trigger] box_seal(padded(p), crypto_box.nonce@, k)) by {
                    if crypto_box.payload@ == box_seal(padded(p), crypto_box.nonce@, k) {
                        assert(padded(p).subrange(0, ZERO_BYTES as int) =~= zero_seq(
                            ZERO_BYTES as nat,
                        ));
                        assert(zero_padded(padded(p)));
                    }
                }
            }
            Err(ContractError::new("Failed to open box"))
        },
    }
}

/// Both ends of a box use one key: where the sender's cached key is empty or
/// the key it derives from the receiver's public key and its own private
/// key, the receiver's likewise, and the two derived keys agree (as
/// `box_beforenm` makes them for two keypairs), the key `create_box` seals
/// with is the key `open_box` opens with. A box sealed by `create_box`
/// therefore opens with `open_box` to the payload it holds, for a receiver
/// that accepts its nonce (the last clause of `open_box`'s contract).
pub proof fn law_box_keys_agree(
    sender_cache: Option<[u8; 32]>,
    receiver_public_key: Seq<u8>,
    sender_private_key: Seq<u8>,
    receiver_cache: Option<[u8; 32]>,
    sender_public_key: Seq<u8>,
    receiver_private_key: Seq<u8>,
)
    requires
        sender_cache matches Some(k) ==> k@ == box_shared_key(receiver_public_key, sender_private_key),
        receiver_cache matches Some(k) ==> k@ == box_shared_key(sender_public_key, receiver_private_key),
        box_shared_key(receiver_public_key, sender_private_key) == box_shared_key(
            sender_public_key,
            receiver_private_key,
        ),
    ensures
        channel_key(sender_cache, receiver_public_key, sender_private_key) == channel_key(
            receiver_cache,
            sender_public_key,
            receiver_private_key,
        ),
{
}

} // verus!
