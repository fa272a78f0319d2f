use vstd::prelude::*;
use crate::bytes::zero_seq;

verus! {

/// Public key that `sodalite::box_keypair_seed` derives from a seed.
pub uninterp spec fn box_public_key(seed: Seq<u8>) -> Seq<u8>;

/// Precomputed key that `sodalite::box_beforenm` derives from a public key
/// and a secret key.
pub uninterp spec fn box_shared_key(public_key: Seq<u8>, secret_key: Seq<u8>) -> Seq<u8>;

/// Ciphertext that `sodalite::box_afternm` produces.
pub uninterp spec fn box_seal(message: Seq<u8>, nonce: Seq<u8>, key: Seq<u8>) -> Seq<u8>;

/// Outcome of `sodalite::box_open_afternm`: the padded plaintext, or `None`
/// where authentication fails.
pub uninterp spec fn box_unseal(ciphertext: Seq<u8>, nonce: Seq<u8>, key: Seq<u8>) -> Option<Seq<u8>>;

/// Ciphertext that `sodalite::secretbox` produces.
pub uninterp spec fn secretbox_seal(message: Seq<u8>, nonce: Seq<u8>, key: Seq<u8>) -> Seq<u8>;

/// Outcome of `sodalite::secretbox_open`.
pub uninterp spec fn secretbox_unseal(ciphertext: Seq<u8>, nonce: Seq<u8>, key: Seq<u8>) -> Option<Seq<u8>>;

/// Length of the zero padding that NaCl boxes put in front of a message.
pub const ZERO_BYTES: usize = 32;

/// Whether `m` starts with the thirty-two zero bytes that NaCl boxes need.
pub open spec fn zero_padded(m: Seq<u8>) -> bool {
    m.len() >= ZERO_BYTES && m.subrange(0, ZERO_BYTES as int) == zero_seq(ZERO_BYTES as nat)
}

/// The view of an optional byte vector.
pub open spec fn opt_bytes(v: Option<Vec<u8>>) -> Option<Seq<u8>> {
    match v {
        Some(b) => Some(b@),
        None => None,
    }
}

/// Calls `sodalite::box_keypair_seed`. Its source copies the seed into the
/// secret key and derives the public key from it by scalar multiplication
/// with the base point; the contract states the first and names the second.
#[verifier::external_body]
pub(crate) fn keypair_from_seed(seed: &[u8; 32]) -> (r: ([u8; 32], [u8; 32]))
    ensures
        r.0@ == box_public_key(seed@),
        r.1@ == seed@,
{
    let mut pk = [0u8; 32];
    let mut sk = [0u8; 32];
    sodalite::box_keypair_seed(&mut pk, &mut sk, seed);
    (pk, sk)
}

/// Calls `sodalite::box_beforenm`; its result is named. The source hashes
/// the X25519 product of the secret key and the public key, so two parties
/// agree on the key: where `public_key` is the public key that
/// `box_keypair_seed` derives from `other`, the result is the key that the
/// other party computes from the public key of `secret_key` and `other`.
#[verifier::external_body]
pub(crate) fn precompute_key(public_key: &[u8; 32], secret_key: &[u8; 32]) -> (k: [u8; 32])
    ensures
        k@ == box_shared_key(public_key@, secret_key@),
        forall|other: Seq<u8>|
            other.len() == 32 && public_key@ == #[trigger] box_public_key(other) ==> k@
                == box_shared_key(box_public_key(secret_key@), other),
{
    let mut k = [0u8; 32];
    sodalite::box_beforenm(&mut k, public_key, secret_key);
    k
}

/// Calls `sodalite::box_afternm`, which panics unless the message starts
/// with thirty-two zero bytes and otherwise always returns `Ok` with a
/// ciphertext as long as the message (the source asserts both). The
/// ciphertext itself is named; `box_open_afternm` under the same nonce and
/// key opens it to the message.
#[verifier::external_body]
pub(crate) fn seal_afternm(message: &[u8], nonce: &[u8], key: &[u8; 32]) -> (r: Result<Vec<u8>, ()>)
    requires
        zero_padded(message@),
        nonce@.len() == 24,
    ensures
        r is Ok,
        r.unwrap()@ == box_seal(message@, nonce@, key@),
        r.unwrap()@.len() == message@.len(),
        box_unseal(r.unwrap()@, nonce@, key@) == Some(message@),
{
    let mut c = vec![0u8; message.len()];
    let n: &[u8; 24] = nonce.try_into().unwrap();
    match sodalite::box_afternm(&mut c, message, n, key) {
        Ok(()) => Ok(c),
        Err(()) => Err(()),
    }
}

/// Calls `sodalite::box_open_afternm` (which is `secretbox_open`) into a
/// buffer as long as the ciphertext. The source fails on ciphertexts shorter
/// than thirty-two bytes, and on success zeroes the first thirty-two bytes of
/// the output. It undoes `box_afternm` under the same nonce and key: the
/// authenticator that `box_afternm` computes verifies, and the stream cipher
/// is an involution, so a sealed padded message comes back unchanged.
#[verifier::external_body]
pub(crate) fn open_afternm(ciphertext: &[u8], nonce: &[u8], key: &[u8; 32]) -> (r: Option<Vec<u8>>)
    requires
        nonce@.len() == 24,
    ensures
        opt_bytes(r) == box_unseal(ciphertext@, nonce@, key@),
        ciphertext@.len() < ZERO_BYTES ==> r is None,
        r is Some ==> r.unwrap()@.len() == ciphertext@.len() && zero_padded(r.unwrap()@),
        forall|m: Seq<u8>|
            zero_padded(m) && ciphertext@ == #[trigger] box_seal(m, nonce@, key@) ==> opt_bytes(r)
                == Some(m),
{
    let mut m = vec![0u8; ciphertext.len()];
    let n: &[u8; 24] = nonce.try_into().unwrap();
    match sodalite::box_open_afternm(&mut m, ciphertext, n, key) {
        Ok(()) => Some(m),
        Err(()) => None,
    }
}

/// Calls `sodalite::secretbox`, which panics unless the message starts with
/// thirty-two zero bytes and otherwise always returns `Ok` with a ciphertext
/// as long as the message. The ciphertext itself is named.
#[verifier::external_body]
pub(crate) fn secretbox_seal_bytes(message: &[u8], nonce: &[u8], key: &[u8; 32]) -> (r: Result<
    Vec<u8>,
    (),
>)
    requires
        zero_padded(message@),
        nonce@.len() == 24,
    ensures
        r is Ok,
        r.unwrap()@ == secretbox_seal(message@, nonce@, key@),
        r.unwrap()@.len() == message@.len(),
{
    let mut c = vec![0u8; message.len()];
    let n: &[u8; 24] = nonce.try_into().unwrap();
    match sodalite::secretbox(&mut c, message, n, key) {
        Ok(()) => Ok(c),
        Err(()) => Err(()),
    }
}

/// Calls `sodalite::secretbox_open` into a buffer as long as the ciphertext.
/// As its source shows, it fails on ciphertexts shorter than thirty-two
/// bytes, zeroes the first thirty-two output bytes on success, and gives
/// back a padded message that `secretbox` sealed under the same nonce and key.
#[verifier::external_body]
pub(crate) fn secretbox_open_bytes(ciphertext: &[u8], nonce: &[u8], key: &[u8; 32]) -> (r: Option<
    Vec<u8>,
>)
    requires
        nonce@.len() == 24,
    ensures
        opt_bytes(r) == secretbox_unseal(ciphertext@, nonce@, key@),
        ciphertext@.len() < ZERO_BYTES ==> r is None,
        r is Some ==> r.unwrap()@.len() == ciphertext@.len() && zero_padded(r.unwrap()@),
        forall|m: Seq<u8>|
            zero_padded(m) && ciphertext@ == #[trigger] secretbox_seal(m, nonce@, key@)
                ==> opt_bytes(r) == Some(m),
{
    let mut m = vec![0u8; ciphertext.len()];
    let n: &[u8; 24] = nonce.try_into().unwrap();
    match sodalite::secretbox_open(&mut m, ciphertext, n, key) {
        Ok(()) => Some(m),
        Err(()) => None,
    }
}

} // verus!
