use ekiden::storage::{handle_get, handle_set, Ekidenmint, State, StorageServer};
use ekiden::tendermint::{
    broadcast_tx_async_uri, broadcast_tx_commit_uri, broadcast_tx_sync_uri, commit_uri, help_uri,
};

/// Stores a payload the way the storage node does on a write.
fn set(state: &mut State, payload: Vec<u8>) {
    let checked = handle_set(&payload).unwrap();
    state.set_latest(checked);
}

#[test]
fn exercise1() {
    let mut state = State::new();

    // Set state to `helloworld`
    set(&mut state, String::from("helloworld").into_bytes());
    assert_eq!(handle_get(&state).unwrap(), String::from("helloworld").as_bytes());

    // Set state to `successor`
    set(&mut state, String::from("successor").into_bytes());
    assert_eq!(handle_get(&state).unwrap(), String::from("successor").as_bytes());

    // Set state to a sequence of all byte values
    let mut scale: Vec<u8> = vec![0; 256];
    for i in 0..256 {
        scale[i] = i as u8;
    }
    set(&mut state, scale.clone());
    assert_eq!(handle_get(&state).unwrap(), &scale[..]);
}

#[test]
fn read_before_any_write_fails() {
    let state = State::new();
    assert_eq!(state.get_latest(), None);
    assert_eq!(handle_get(&state).unwrap_err(), "State not initialized.");
    assert!(State::check_tx(b"anything").is_ok());
    let _server = StorageServer::new();
}

#[test]
fn ekidenmint_echoes() {
    let app = Ekidenmint::new();
    assert_eq!(app.echo(&String::from("ping")), "ping");
}

#[test]
fn broadcast_uris() {
    let prefix = String::from("http://localhost:46657");
    assert_eq!(
        broadcast_tx_commit_uri(&prefix, b"abc").unwrap(),
        "http://localhost:46657/broadcast_tx_commit?tx=\"abc\""
    );
    assert_eq!(
        broadcast_tx_async_uri(&prefix, b"x=1").unwrap(),
        "http://localhost:46657/broadcast_tx_async?tx=\"x=1\""
    );
    assert_eq!(
        broadcast_tx_sync_uri(&prefix, b"").unwrap(),
        "http://localhost:46657/broadcast_tx_sync?tx=\"\""
    );
    assert_eq!(broadcast_tx_commit_uri(&prefix, &[0xff, 0xfe]), None);
    assert_eq!(commit_uri(&prefix, 42), "http://localhost:46657/commit?height=42");
    assert_eq!(help_uri(&prefix), prefix);
}
