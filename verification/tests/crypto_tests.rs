use ekiden::api::PlainClientResponse;
use ekiden::api::PlainClientResponseCode;
use ekiden::channel::SecureChannelContext;
use ekiden::client::begin_init_secure_channel;
use ekiden::client_channel::ClientChannel;
use ekiden::random::get_random_bytes;
use ekiden::session::ClientSession;
use ekiden::state_diffs::diff_internal;
use ekiden::api::BsdiffPatch;

fn hex(s: &str) -> Vec<u8> {
    (0..s.len()).step_by(2).map(|i| u8::from_str_radix(&s[i..i + 2], 16).unwrap()).collect()
}

#[test]
fn long_term_key_is_derived_from_the_seed() {
    // X25519 key pair from RFC 7748, section 6.1.
    let secret = hex("77076d0a7318a57d3c16c17251b26645df4c2f87ebc0992ab177fba51db92c2a");
    let public = hex("8520f0098930a754748b7ddcb43ef75a0dbf3a0d26381af4eba4a98eaa9b4e6a");
    let mut seed = [0u8; 32];
    seed.copy_from_slice(&secret);
    let mut ctx = SecureChannelContext::new().unwrap();
    ctx.set_keypair(&seed).unwrap();
    assert_eq!(ctx.get_public_key().to_vec(), public);
}

#[test]
fn sessions_get_fresh_keys_and_seal_responses() {
    let client = [9u8; 32];
    let mut s1 = ClientSession::new(client).unwrap();
    let s2 = ClientSession::new(client).unwrap();
    assert_ne!(s1.get_contract_public_key(), s2.get_contract_public_key());
    assert_eq!(s1.get_client_public_key(), &client);
    let response = PlainClientResponse { code: PlainClientResponseCode::Success, payload: vec![42; 10] };
    let b = s1.create_response_box(&response).unwrap();
    assert_eq!(b.nonce.len(), 24);
    assert_eq!(&b.nonce[..16], b"EkidenS-Response");
    let plain = response.write_to_bytes();
    assert_eq!(b.payload.len(), plain.len() + 32);
    assert_ne!(&b.payload[32..], &plain[..]);
    let b2 = s1.create_response_box(&response).unwrap();
    assert_eq!(&b2.nonce[16..], &[1u8, 0, 0, 0, 0, 0, 0, 0][..]);
}

#[test]
fn client_keys_are_random() {
    let mut a = ClientChannel::new();
    let mut b = ClientChannel::new();
    let ka = begin_init_secure_channel(&mut a).unwrap().unwrap();
    let kb = begin_init_secure_channel(&mut b).unwrap().unwrap();
    assert_eq!(ka.len(), 32);
    assert_ne!(ka, kb);
    let mut bytes = vec![0u8; 32];
    get_random_bytes(&mut bytes).unwrap();
    assert_eq!(bytes.len(), 32);
    assert_ne!(bytes, vec![0u8; 32]);
}

#[test]
fn diff_is_a_compressed_patch() {
    let old = vec![1u8; 1000];
    let mut new = old.clone();
    new[500] = 2;
    let d = diff_internal(&old, &new).unwrap();
    let patch = BsdiffPatch::parse_from_bytes(&d).unwrap();
    assert_eq!(patch.new_length, 1000);
    // A bzip2 stream starts with "BZh".
    assert_eq!(&patch.patch_bz2[..3], b"BZh");
    assert!(d.len() < new.len());
}
