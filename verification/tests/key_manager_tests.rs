use ekiden::key_manager::{KeyLookup, KeyManager};

#[test]
fn key_manager_caches_fetched_keys() {
    let mut km = KeyManager::new([1u8; 32]);
    assert!(!km.is_self());
    assert_eq!(km.connect().unwrap(), true);
    assert!(km.finish_connect(Ok(())).is_ok());
    assert_eq!(km.connect().unwrap(), false);
    match km.get_or_create_key("state", 32) {
        KeyLookup::Fetch(request) => {
            assert_eq!(request.name, "state");
            assert_eq!(request.size, 32);
        }
        KeyLookup::Cached(_) => panic!("nothing is cached yet"),
    }
    assert_eq!(km.finish_get_or_create_key("state", Ok(vec![7u8; 32])).unwrap(), vec![7u8; 32]);
    match km.get_or_create_key("state", 32) {
        KeyLookup::Cached(key) => assert_eq!(key, vec![7u8; 32]),
        KeyLookup::Fetch(_) => panic!("the key is cached"),
    }
    km.clear_cache();
    assert!(matches!(km.get_or_create_key("state", 32), KeyLookup::Fetch(_)));
}

#[test]
fn key_manager_errors() {
    let km = KeyManager::new([0u8; 32]);
    assert!(km.is_self());
    assert_eq!(
        km.connect().unwrap_err().message,
        "Tried to call key manager from inside the key manager itself"
    );
    let mut km = KeyManager::new([3u8; 32]);
    let e = km.finish_connect(Err(String::from("timeout"))).unwrap_err();
    assert_eq!(e.message, "Failed to create key manager client: timeout");
    let e = km.finish_get_or_create_key("state", Err(String::from("denied"))).unwrap_err();
    assert_eq!(e.message, "Failed to call key manager: denied");
    assert!(matches!(km.get_or_create_key("state", 32), KeyLookup::Fetch(_)));
}
