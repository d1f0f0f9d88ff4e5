use ac_cloud_server_manager::manager::error::ServerManagerError;
use ac_cloud_server_manager::manager::profiles::{
    find_profile, remove_profiles_with_id, upsert_profile, ConnectionProfile, ProfileManager,
};

fn profile(id: &str, name: &str) -> ConnectionProfile {
    ConnectionProfile {
        id: id.to_string(),
        name: name.to_string(),
        host: format!("{}.example.org", id),
        username: "root".to_string(),
        key_path: "~/.ssh/id_ed25519".to_string(),
    }
}

#[test]
fn fresh_key_is_returned_as_lowercase_hex() {
    let (_, stored) = ProfileManager::new(None, &[0xABu8; 32]);
    assert_eq!(stored, Some("ab".repeat(32)));
}

#[test]
fn stored_key_is_not_stored_again() {
    let hex = "0f".repeat(32);
    let (_, stored) = ProfileManager::new(Some(hex.as_str()), &[0u8; 32]);
    assert!(stored.is_none());
}

#[test]
fn saved_profiles_load_back() {
    let (manager, _) = ProfileManager::new(None, &[7u8; 32]);
    let json = b"[{\"id\":\"a\"}]";
    let payload = manager.save_profiles(json, &[1u8; 12]).ok().unwrap();
    assert_eq!(payload.len(), 12 + json.len() + 16);
    assert_eq!(&payload[..12], &[1u8; 12]);
    let loaded = manager.load_profiles(&payload).ok().unwrap();
    assert_eq!(loaded, Some(json.to_vec()));
}

#[test]
fn stored_hex_key_opens_what_the_fresh_key_sealed() {
    let (first, hex) = ProfileManager::new(None, &[9u8; 32]);
    let payload = first.save_profiles(b"[]", &[2u8; 12]).ok().unwrap();
    let (second, _) = ProfileManager::new(Some(hex.unwrap().as_str()), &[0u8; 32]);
    assert_eq!(second.load_profiles(&payload).ok().unwrap(), Some(b"[]".to_vec()));
}

#[test]
fn other_key_gives_no_profiles() {
    let (a, _) = ProfileManager::new(None, &[1u8; 32]);
    let (b, _) = ProfileManager::new(None, &[2u8; 32]);
    let payload = a.save_profiles(b"[]", &[3u8; 12]).ok().unwrap();
    assert_eq!(b.load_profiles(&payload).ok().unwrap(), None);
}

#[test]
fn invalid_stored_key_falls_back_to_zero_key() {
    let (bad, _) = ProfileManager::new(Some("not hex"), &[5u8; 32]);
    let (short, _) = ProfileManager::new(Some("abcd"), &[5u8; 32]);
    let (zero, _) = ProfileManager::new(Some("00".repeat(32).as_str()), &[5u8; 32]);
    let payload = zero.save_profiles(b"x", &[0u8; 12]).ok().unwrap();
    assert_eq!(bad.load_profiles(&payload).ok().unwrap(), Some(b"x".to_vec()));
    assert_eq!(short.load_profiles(&payload).ok().unwrap(), Some(b"x".to_vec()));
}

#[test]
fn short_payload_is_a_crypto_error() {
    let (m, _) = ProfileManager::new(None, &[1u8; 32]);
    match m.load_profiles(&[0u8; 11]) {
        Err(ServerManagerError::CryptoError(msg)) => assert_eq!(msg, "Payload too short"),
        _ => panic!("expected a crypto error"),
    }
}

#[test]
fn tampered_payload_gives_no_profiles() {
    let (m, _) = ProfileManager::new(None, &[1u8; 32]);
    let mut payload = m.save_profiles(b"[1,2,3]", &[4u8; 12]).ok().unwrap();
    let last = payload.len() - 1;
    payload[last] ^= 1;
    assert_eq!(m.load_profiles(&payload).ok().unwrap(), None);
}

#[test]
fn upsert_replaces_profile_with_same_id() {
    let mut ps = vec![profile("a", "first"), profile("b", "second")];
    upsert_profile(&mut ps, profile("a", "renamed"));
    assert_eq!(ps.len(), 2);
    assert_eq!(ps[0].name, "renamed");
    assert_eq!(ps[1].name, "second");
    upsert_profile(&mut ps, profile("c", "third"));
    assert_eq!(ps.len(), 3);
    assert_eq!(find_profile(&ps, "c").unwrap().name, "third");
}

#[test]
fn removed_profile_is_not_found() {
    let mut ps = vec![profile("a", "1"), profile("b", "2"), profile("a", "3")];
    remove_profiles_with_id(&mut ps, "a");
    assert_eq!(ps.len(), 1);
    assert_eq!(ps[0].id, "b");
    assert!(find_profile(&ps, "a").is_none());
    assert_eq!(find_profile(&ps, "b").unwrap().host, "b.example.org");
}

#[test]
fn find_returns_first_profile_with_id() {
    let ps = vec![profile("x", "one"), profile("x", "two")];
    assert_eq!(find_profile(&ps, "x").unwrap().name, "one");
    assert!(find_profile(&ps, "y").is_none());
}
