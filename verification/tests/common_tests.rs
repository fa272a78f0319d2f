use ekiden::address::Address;
use ekiden::build_mode::SgxMode;
use ekiden::contract_error::ContractError;
use ekiden::nonce::{
    MonotonicNonceGenerator, NonceGenerator, RandomNonceGenerator, NONCE_CONTEXT_INIT,
    NONCE_CONTEXT_REQUEST, NONCE_CONTEXT_RESPONSE,
};
use ekiden::api::CryptoBox;
use ekiden::quote::{check_spid, context_report_data, create_report_data_for_public_key,
    QUOTE_CONTEXT_SC_CLIENT_TO_CONTRACT};
use ekiden::secure_channel::SessionState;
use ekiden::text::push_decimal;

#[test]
fn lib_trusted_it_works() {
    assert_eq!(2 + 2, 4);
}

#[test]
fn lib_untrusted_it_works() {
    assert_eq!(2 + 2, 4);
}

#[test]
fn address_keeps_its_text() {
    let a = Address::from(String::from("0xdeadbeef"));
    assert_eq!(a.as_str(), "0xdeadbeef");
    assert_eq!(a.to_string(), String::from("0xdeadbeef"));
}

#[test]
fn contract_error_carries_message() {
    let e = ContractError::new("Malformed message");
    assert_eq!(e.message, "Malformed message");
}

#[test]
fn nonce_contexts_spell_their_names() {
    assert_eq!(&NONCE_CONTEXT_INIT, b"EkidenS-----Init");
    assert_eq!(&NONCE_CONTEXT_REQUEST, b"EkidenS--Request");
    assert_eq!(&NONCE_CONTEXT_RESPONSE, b"EkidenS-Response");
}

#[test]
fn monotonic_nonces_count_up_from_zero() {
    let mut g = MonotonicNonceGenerator::new();
    let n0 = g.get_nonce(&NONCE_CONTEXT_REQUEST).unwrap();
    let n1 = g.get_nonce(&NONCE_CONTEXT_REQUEST).unwrap();
    assert_eq!(n0.len(), 24);
    assert_eq!(&n0[..16], &NONCE_CONTEXT_REQUEST[..]);
    assert_eq!(&n0[16..], &[0u8, 0, 0, 0, 0, 0, 0, 0][..]);
    assert_eq!(&n1[16..], &[1u8, 0, 0, 0, 0, 0, 0, 0][..]);
}

#[test]
fn monotonic_receiver_rejects_replay_and_old_nonces() {
    let mut sender = MonotonicNonceGenerator::new();
    let mut receiver = MonotonicNonceGenerator::new();
    let n0 = sender.get_nonce(&NONCE_CONTEXT_REQUEST).unwrap();
    let n1 = sender.get_nonce(&NONCE_CONTEXT_REQUEST).unwrap();
    let b0 = CryptoBox { nonce: n0, payload: vec![], public_key: vec![] };
    let b1 = CryptoBox { nonce: n1, payload: vec![], public_key: vec![] };
    assert!(receiver.unpack_nonce(&b1, &NONCE_CONTEXT_REQUEST).is_ok());
    // Replay of the same nonce.
    let e = receiver.unpack_nonce(&b1, &NONCE_CONTEXT_REQUEST).unwrap_err();
    assert_eq!(e.message, "Invalid nonce");
    // A nonce older than the last one accepted.
    assert!(receiver.unpack_nonce(&b0, &NONCE_CONTEXT_REQUEST).is_err());
}

#[test]
fn nonce_in_wrong_context_is_rejected() {
    let mut sender = MonotonicNonceGenerator::new();
    let mut receiver = MonotonicNonceGenerator::new();
    let n = sender.get_nonce(&NONCE_CONTEXT_RESPONSE).unwrap();
    let b = CryptoBox { nonce: n, payload: vec![], public_key: vec![] };
    assert_eq!(receiver.unpack_nonce(&b, &NONCE_CONTEXT_REQUEST).unwrap_err().message, "Invalid nonce");
    let mut random = RandomNonceGenerator::new().unwrap();
    assert!(random.unpack_nonce(&b, &NONCE_CONTEXT_REQUEST).is_err());
    assert!(random.unpack_nonce(&b, &NONCE_CONTEXT_RESPONSE).is_ok());
}

#[test]
fn random_nonce_carries_context() {
    let mut g = RandomNonceGenerator::new().unwrap();
    let n = g.get_nonce(&NONCE_CONTEXT_INIT).unwrap();
    assert_eq!(n.len(), 24);
    assert_eq!(&n[..16], &NONCE_CONTEXT_INIT[..]);
}

#[test]
fn session_state_transitions() {
    let mut s = SessionState::Init;
    assert!(s.transition_to(SessionState::Established).is_ok());
    assert_eq!(s, SessionState::Established);
    let e = s.transition_to(SessionState::Established).unwrap_err();
    assert_eq!(e.message, "Invalid secure channel state transition: (Established, Established)");
    assert_eq!(s, SessionState::Established);
    assert!(s.transition_to(SessionState::Init).is_ok());
    assert_eq!(s, SessionState::Init);
    assert!(s.transition_to(SessionState::Init).is_ok());
    assert_eq!(SessionState::default(), SessionState::Init);
}

#[test]
fn sgx_mode_from_setting() {
    assert_eq!(SgxMode::from_setting("HW"), SgxMode::Hardware);
    assert_eq!(SgxMode::from_setting("SW"), SgxMode::Simulation);
    assert_eq!(SgxMode::from_setting(""), SgxMode::Simulation);
    assert_eq!(SgxMode::Hardware.urts_library_name(), "sgx_urts");
    assert_eq!(SgxMode::Simulation.urts_library_name(), "sgx_urts_sim");
    assert!(SgxMode::Simulation.is_simulation());
    assert!(!SgxMode::Hardware.is_simulation());
}

#[test]
fn report_data_binds_key_and_nonce() {
    let key = [7u8; 32];
    let nonce = [9u8; 16];
    let data = create_report_data_for_public_key(&nonce, &key).unwrap();
    assert_eq!(data.len(), 56);
    assert_eq!(&data[..32], &key[..]);
    assert_eq!(&data[32..48], &nonce[..]);
    assert_eq!(&data[48..], &[0u8; 8][..]);
    let e = create_report_data_for_public_key(&[1u8; 15], &key).unwrap_err();
    assert_eq!(e.message, "Invalid nonce");
    let full = context_report_data(&QUOTE_CONTEXT_SC_CLIENT_TO_CONTRACT, &data);
    assert_eq!(full.len(), 64);
    assert_eq!(&full[..8], b"EkQ-ClCo");
    assert!(check_spid(&[0u8; 16]).is_ok());
    assert_eq!(check_spid(&[0u8; 3]).unwrap_err().message, "Invalid SPID");
}

#[test]
fn decimal_text() {
    let mut s = String::from("h=");
    push_decimal(&mut s, 0);
    assert_eq!(s, "h=0");
    let mut s = String::new();
    push_decimal(&mut s, 1234567890);
    assert_eq!(s, "1234567890");
    let mut s = String::new();
    push_decimal(&mut s, u64::MAX);
    assert_eq!(s, "18446744073709551615");
}

#[test]
fn quote_requests_check_nonce_then_spid() {
    assert_eq!(ekiden::quote::check_quote_request(&[0u8; 15], &[0u8; 3]).unwrap_err().message, "Invalid nonce");
    assert_eq!(ekiden::quote::check_quote_request(&[0u8; 16], &[0u8; 3]).unwrap_err().message, "Invalid SPID");
    assert!(ekiden::quote::check_quote_request(&[0u8; 16], &[0u8; 16]).is_ok());
}

#[test]
fn boxes_open_at_the_peer_and_runs_of_nonces_are_accepted_in_order() {
    let (mut pk_a, mut sk_a, mut pk_b, mut sk_b) = ([0u8; 32], [0u8; 32], [0u8; 32], [0u8; 32]);
    sodalite::box_keypair_seed(&mut pk_a, &mut sk_a, &[1u8; 32]);
    sodalite::box_keypair_seed(&mut pk_b, &mut sk_b, &[2u8; 32]);
    let mut sender = MonotonicNonceGenerator::new();
    let mut receiver = MonotonicNonceGenerator::new();
    let (mut cache_a, mut cache_b) = (None, None);
    let mut boxes = vec![];
    for payload in [b"one".to_vec(), b"two".to_vec(), b"three".to_vec()] {
        let b = ekiden::secure_channel::create_box(&payload, &NONCE_CONTEXT_REQUEST, &mut sender, &pk_b, &sk_a, &mut cache_a).unwrap();
        let opened = ekiden::secure_channel::open_box(&b, &NONCE_CONTEXT_REQUEST, &mut receiver, &pk_a, &sk_b, &mut cache_b).unwrap();
        assert_eq!(opened, payload);
        assert_eq!(cache_a, cache_b);
        boxes.push(b);
    }
    // Once accepted, none of the run is accepted again.
    for b in &boxes {
        let e = ekiden::secure_channel::open_box(b, &NONCE_CONTEXT_REQUEST, &mut receiver, &pk_a, &sk_b, &mut cache_b).unwrap_err();
        assert_eq!(e.message, "Invalid nonce");
    }
}
