use backlog_sync::errors::AppError;
use backlog_sync::sync::{pick_api_key, resolve_api_key, AppState};

#[test]
fn pick_api_key_prefers_cache() {
    let key = pick_api_key(Some("cached-key".to_string()), Some("loaded-key".to_string()))
        .expect("should select cached key");
    assert_eq!(key, "cached-key");
}

#[test]
fn pick_api_key_uses_loaded_when_cache_missing() {
    let key = pick_api_key(None, Some("loaded-key".to_string()))
        .expect("should select loaded key");
    assert_eq!(key, "loaded-key");
}

#[test]
fn pick_api_key_rejects_empty_values() {
    let err = pick_api_key(Some("   ".to_string()), Some("".to_string()))
        .expect_err("empty values should fail");
    assert!(err.message().contains("API key is not configured"));
}

#[test]
fn resolve_uses_cache_without_store() {
    let mut state = AppState::new();
    state.api_key_cache = Some("cached-key".to_string());
    assert!(!state.needs_keychain_load());
    // whatever the store would have answered is ignored
    let key = resolve_api_key(&mut state, Some("other-key".to_string()))
        .expect("cached key should win");
    assert_eq!(key, "cached-key");
    assert_eq!(state.api_key_cache.as_deref(), Some("cached-key"));
}

#[test]
fn resolve_caches_loaded_key_once() {
    let mut state = AppState::new();
    assert!(state.needs_keychain_load());
    let key = resolve_api_key(&mut state, Some("loaded-key".to_string()))
        .expect("loaded key should be used");
    assert_eq!(key, "loaded-key");
    // the store's answer is now cached: no further load is needed, and a
    // second resolution answers from the cache alone
    assert!(!state.needs_keychain_load());
    let again = resolve_api_key(&mut state, None).expect("cached key should answer");
    assert_eq!(again, "loaded-key");
}

#[test]
fn resolve_without_any_key_fails() {
    let mut state = AppState::new();
    let err = resolve_api_key(&mut state, None).expect_err("nothing to resolve");
    assert!(matches!(err, AppError::Keychain(_)));
    assert!(state.needs_keychain_load());
}
