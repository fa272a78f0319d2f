use ekiden::api::BsdiffPatch;
use ekiden::api::{CryptoSecretbox, StateApplyRequest, StateDiffRequest};
use ekiden::state_crypto::{decrypt_state, encrypt_state, get_state_key};
use ekiden::state_diffs::{apply, apply_internal, diff, diff_internal};

#[test]
fn state_key_comes_from_key_manager() {
    let key = [5u8; 32];
    assert_eq!(get_state_key(false, &key).unwrap(), key);
    let e = get_state_key(true, &[]).unwrap_err();
    assert_eq!(e.message, "State for key manager not yet implemented");
}

#[test]
fn encrypted_state_opens_to_the_state() {
    let key = [3u8; 32];
    let state = b"contract state".to_vec();
    let boxed = encrypt_state(&key, &state).unwrap();
    assert_eq!(boxed.nonce.len(), 24);
    assert_eq!(boxed.ciphertext.len(), state.len() + 32);
    assert_ne!(&boxed.ciphertext[32..], &state[..]);
    assert_eq!(decrypt_state(&key, &boxed).unwrap(), state);
}

#[test]
fn encrypted_state_does_not_open_under_another_key() {
    let boxed = encrypt_state(&[3u8; 32], b"secret").unwrap();
    let e = decrypt_state(&[4u8; 32], &boxed).unwrap_err();
    assert_eq!(e.message, "Failed to open state box");
    let mut tampered = CryptoSecretbox { ciphertext: boxed.ciphertext.clone(), nonce: boxed.nonce.clone() };
    tampered.ciphertext[35] ^= 1;
    assert!(decrypt_state(&[3u8; 32], &tampered).is_err());
    let short = CryptoSecretbox { ciphertext: vec![0; 10], nonce: vec![0; 24] };
    assert!(decrypt_state(&[3u8; 32], &short).is_err());
}

#[test]
fn empty_state_round_trips() {
    let key = [1u8; 32];
    let boxed = encrypt_state(&key, &[]).unwrap();
    assert_eq!(decrypt_state(&key, &boxed).unwrap(), Vec::<u8>::new());
}

#[test]
fn applying_a_diff_recreates_the_new_state() {
    let old = b"The quick brown fox jumps over the lazy dog".to_vec();
    let new = b"The quick brown cat jumps over the lazy dog, twice".to_vec();
    let d = diff_internal(&old, &new).unwrap();
    assert_eq!(apply_internal(&old, &d).unwrap(), new);
    let same = diff_internal(&old, &old).unwrap();
    assert_eq!(apply_internal(&old, &same).unwrap(), old);
    let from_empty = diff_internal(&[], &new).unwrap();
    assert_eq!(apply_internal(&[], &from_empty).unwrap(), new);
}

#[test]
fn malformed_diff_is_rejected() {
    let e = apply_internal(b"old", &[0xff, 0xff, 0xff]).unwrap_err();
    assert_eq!(e.message, "Malformed message");
    // A well-formed patch message whose compressed patch is not bzip2.
    assert!(apply_internal(b"old", &[0x08, 0x03, 0x12, 0x02, 0x01, 0x02]).is_err());
}

#[test]
fn encrypted_diff_and_apply() {
    let key = [9u8; 32];
    let old = b"state version one".to_vec();
    let new = b"state version two, longer".to_vec();
    let old_box = encrypt_state(&key, &old).unwrap();
    let new_box = encrypt_state(&key, &new).unwrap();
    let d = diff(&key, &StateDiffRequest { old: old_box, new: new_box }).unwrap();
    let old_box = encrypt_state(&key, &old).unwrap();
    let applied = apply(&key, &StateApplyRequest { old: old_box, diff: d.diff }).unwrap();
    assert_eq!(decrypt_state(&key, &applied.new).unwrap(), new);
}

#[test]
fn encrypted_diff_needs_openable_states() {
    let key = [9u8; 32];
    let old_box = encrypt_state(&[1u8; 32], b"a").unwrap();
    let new_box = encrypt_state(&key, b"b").unwrap();
    let e = diff(&key, &StateDiffRequest { old: old_box, new: new_box }).err().unwrap();
    assert_eq!(e.message, "Failed to open state box");
}

#[test]
fn patch_must_give_the_declared_length() {
    let old = b"hello world".to_vec();
    let new = b"hello there world".to_vec();
    let d = diff_internal(&old, &new).unwrap();
    let mut m = BsdiffPatch::parse_from_bytes(&d).unwrap();
    assert_eq!(m.new_length, new.len() as u64);
    m.new_length = 3;
    let bad = m.write_to_bytes();
    assert_eq!(apply_internal(&old, &bad).unwrap_err().message, "Corrupt patch");
    assert_eq!(apply_internal(&old, &d).unwrap(), new);
}

#[test]
fn encrypted_apply_reports_each_failure() {
    let key = [8u8; 32];
    let old = encrypt_state(&key, b"old state").unwrap();
    let garbage = encrypt_state(&key, &[0xff, 0xff, 0xff]).unwrap();
    let req = StateApplyRequest { old, diff: garbage };
    assert_eq!(apply(&key, &req).unwrap_err().message, "Malformed message");
    let req = StateApplyRequest { old: encrypt_state(&[9u8; 32], b"x").unwrap(), diff: encrypt_state(&key, b"y").unwrap() };
    assert_eq!(apply(&key, &req).unwrap_err().message, "Failed to open state box");
    let req = StateDiffRequest { old: encrypt_state(&key, b"a").unwrap(), new: encrypt_state(&[9u8; 32], b"b").unwrap() };
    assert_eq!(diff(&key, &req).unwrap_err().message, "Failed to open state box");
}
