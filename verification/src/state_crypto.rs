use vstd::prelude::*;
use crate::api::CryptoSecretbox;
use crate::bytes::{append_bytes, array32, bytes_from, zero_seq, zeros};
use crate::contract_error::ContractError;
use crate::crypto::{
    secretbox_open_bytes, secretbox_seal, secretbox_seal_bytes, secretbox_unseal, zero_padded,
    ZERO_BYTES,
};
use crate::random::get_random_bytes;
use crate::secure_channel::padded;

verus! {

/// Length of a secretbox key.
pub const SECRETBOX_KEY_LEN: usize = 32;

/// Length of a secretbox nonce.
pub const SECRETBOX_NONCE_LEN: usize = 24;

/// The state key: fails inside the key manager itself, and otherwise is the
/// thirty-two byte key that the key manager handed out under the name
/// `"state"`.
pub fn get_state_key(is_self: bool, key: &[u8]) -> (r: Result<[u8; 32], ContractError>)
    requires
        !is_self ==> key@.len() == SECRETBOX_KEY_LEN,
    ensures
        r is Ok <==> !is_self,
        r matches Ok(k) ==> k@ == key@,
        r matches Err(e) ==> e.message@ == "State for key manager not yet implemented"@,
{
    if is_self {
        return Err(ContractError::new("State for key manager not yet implemented"));
    }
    Ok(array32(key))
}

/// Encrypts serialized contract state under `key` with a fresh random nonce.
///
/// The box holds the state behind thirty-two zero bytes, sealed with
/// `secretbox` under the nonce it carries.
pub fn encrypt_state(key: &[u8; 32], state: &[u8]) -> (r: Result<CryptoSecretbox, ContractError>)
    requires
        state@.len() + ZERO_BYTES <= usize::MAX,
    ensures
        r matches Ok(b) ==> {
            &&& b.nonce@.len() == SECRETBOX_NONCE_LEN
            &&& b.ciphertext@ == secretbox_seal(padded(state@), b.nonce@, key@)
            &&& b.ciphertext@.len() == state@.len() + ZERO_BYTES
        },
        r matches Err(e) ==> e.message@ == "Random bytes failed"@,
{
    let mut state_raw_padded = zeros(ZERO_BYTES);
    append_bytes(&mut state_raw_padded, state);
    assert(state_raw_padded@ =~= padded(state@));
    assert(state_raw_padded@.subrange(0, ZERO_BYTES as int) =~= zero_seq(ZERO_BYTES as nat));
    let mut nonce = zeros(SECRETBOX_NONCE_LEN);
    match get_random_bytes(&mut nonce) {
        Ok(()) => {},
        Err(e) => return Err(e),
    }
    let ciphertext = match secretbox_seal_bytes(state_raw_padded.as_slice(), nonce.as_slice(), key) {
        Ok(c) => c,
        Err(()) => return Err(ContractError::new("Failed to create state box")),
    };
    Ok(CryptoSecretbox { ciphertext, nonce })
}

/// Opens an encrypted state box under `key`, returning the serialized state.
///
/// A box that `encrypt_state` produced under the same key opens to the
/// state it was made from.
pub fn decrypt_state(key: &[u8; 32], encrypted_state: &CryptoSecretbox) -> (r: Result<
    Vec<u8>,
    ContractError,
>)
    requires
        encrypted_state.nonce@.len() == SECRETBOX_NONCE_LEN,
    ensures
        ({
            let opened = secretbox_unseal(
                encrypted_state.ciphertext@,
                encrypted_state.nonce@,
                key@,
            );
            &&& r is Ok <==> opened is Some
            &&& r matches Ok(s) ==> opened == Some(padded(s@))
        }),
        r matches Err(e) ==> e.message@ == "Failed to open state box"@,
        forall|s: Seq<u8>|
            encrypted_state.ciphertext@ == #[trigger] secretbox_seal(
                padded(s),
                encrypted_state.nonce@,
                key@,
            ) ==> (r matches Ok(v) && v@ == s),
{
    match secretbox_open_bytes(
        encrypted_state.ciphertext.as_slice(),
        encrypted_state.nonce.as_slice(),
        key,
    ) {
        Some(state_raw_padded) => {
            let state = bytes_from(state_raw_padded.as_slice(), ZERO_BYTES);
            assert(state_raw_padded@ =~= padded(state@));
            proof {
                assert forall|s: Seq<u8>|
                    encrypted_state.ciphertext@ == #[trigger] secretbox_seal(
                        padded(s),
                        encrypted_state.nonce@,
                        key@,
                    ) implies state@ == s by {
                    assert(padded(s).subrange(0, ZERO_BYTES as int) =~= zero_seq(
                        ZERO_BYTES as nat,
                    ));
                    assert(zero_padded(padded(s)));
                    assert(padded(s).subrange(ZERO_BYTES as int, padded(s).len() as int) =~= s);
                }
            }
            Ok(state)
        },
        None => {
            proof {
                assert forall|s: Seq<u8>|
                    !(encrypted_state.ciphertext@ == #[trigger] secretbox_seal(
                        padded(s),
                        encrypted_state.nonce@,
                        key@,
                    )) by {
                    assert(padded(s).subrange(0, ZERO_BYTES as int) =~= zero_seq(
                        ZERO_BYTES as nat,
                    ));
                    assert(zero_padded(padded(s)));
                }
            }
            Err(ContractError::new("Failed to open state box"))
        },
    }
}

} // verus!
