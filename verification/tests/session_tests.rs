use rig::auth::{AuthClient, AuthToken};
use rig::http::HttpClient;
use rig::store::CredentialStore;
use rig::RigError;

fn client() -> HttpClient {
    HttpClient::new("https://api.max.dev", 30, 3).unwrap()
}

#[test]
fn test_login_stores_record_and_authenticates() {
    let mut session = AuthClient::new(client()).unwrap();
    let r = session.login_with_response(200, "{\"token\":\"abc123\",\"expires_at\":\"9999999999\"}");
    assert!(r.is_ok());
    assert_eq!(
        session.store.raw().as_deref(),
        Some("{\"token\":\"abc123\",\"expires_at\":9999999999}")
    );
    assert_eq!(session.is_authenticated(1000).unwrap(), true);
}

#[test]
fn test_login_without_expiry_authenticates_forever() {
    let mut session = AuthClient::new(client()).unwrap();
    session.login_with_response(200, "{\"token\":\"t1\"}").unwrap();
    assert_eq!(
        session.store.raw().as_deref(),
        Some("{\"token\":\"t1\",\"expires_at\":null}")
    );
    assert_eq!(session.is_authenticated(u64::MAX).unwrap(), true);
}

#[test]
fn test_expired_login_reports_unauthenticated_and_purges() {
    let mut session = AuthClient::new(client()).unwrap();
    let r = session.login_with_response(200, "{\"token\":\"abc123\",\"expires_at\":\"0\"}");
    assert!(r.is_ok());
    assert_eq!(session.is_authenticated(1000).unwrap(), false);
    assert!(session.store.raw().is_none());
}

#[test]
fn test_rejected_login_keeps_store_unchanged() {
    let mut session = AuthClient::new(client()).unwrap();
    let r = session.login_with_response(401, "{\"token\":\"abc123\"}");
    let err = r.unwrap_err();
    assert!(matches!(err, RigError::Auth(_)));
    assert_eq!(err.message(), "Authentication failed with status: 401");
    assert!(session.store.raw().is_none());
}

#[test]
fn test_success_status_with_unreadable_body_is_serialization_error() {
    let mut session = AuthClient::new(client()).unwrap();
    let r = session.login_with_response(200, "{\"nonsense\":true}");
    assert!(matches!(r.unwrap_err(), RigError::Serialization(_)));
    assert!(session.store.raw().is_none());
}

#[test]
fn test_expired_record_is_purged_on_check() {
    let mut store = CredentialStore::new();
    store
        .put(&AuthToken { token: "t".to_string(), expires_at: Some(100) })
        .unwrap();
    let mut session = AuthClient::with_store(client(), store);
    assert_eq!(session.is_authenticated(100).unwrap(), false);
    assert!(session.store.raw().is_none());
    assert!(session.store.get().unwrap().is_none());
}

#[test]
fn test_future_expiry_still_authenticated() {
    let mut store = CredentialStore::new();
    store
        .put(&AuthToken { token: "t".to_string(), expires_at: Some(100) })
        .unwrap();
    let mut session = AuthClient::with_store(client(), store);
    assert_eq!(session.is_authenticated(99).unwrap(), true);
    assert!(session.store.raw().is_some());
}

#[test]
fn test_logout_is_idempotent() {
    let mut session = AuthClient::new(client()).unwrap();
    assert!(session.logout().is_ok());
    assert!(session.logout().is_ok());
    session.login_with_response(200, "{\"token\":\"t\"}").unwrap();
    assert!(session.logout().is_ok());
    assert!(session.store.raw().is_none());
    assert!(session.logout().is_ok());
}

#[test]
fn test_put_get_roundtrip_preserves_record() {
    let mut store = CredentialStore::new();
    store
        .put(&AuthToken { token: "plain".to_string(), expires_at: Some(42) })
        .unwrap();
    let got = store.get().unwrap().unwrap();
    assert_eq!(got.token, "plain");
    assert_eq!(got.expires_at, Some(42));

    store
        .put(&AuthToken { token: "a\"b\\c\nd\u{1}".to_string(), expires_at: None })
        .unwrap();
    let got = store.get().unwrap().unwrap();
    assert_eq!(got.token, "a\"b\\c\nd\u{1}");
    assert_eq!(got.expires_at, None);

    store
        .put(&AuthToken { token: "héllo→".to_string(), expires_at: Some(u64::MAX) })
        .unwrap();
    let got = store.get().unwrap().unwrap();
    assert_eq!(got.token, "héllo→");
    assert_eq!(got.expires_at, Some(u64::MAX));
}

#[test]
fn test_malformed_stored_record_is_serialization_error() {
    let store = CredentialStore::from_raw(Some("{\"token\"".to_string()));
    let err = store.get().unwrap_err();
    assert!(matches!(err, RigError::Serialization(_)));

    let store = CredentialStore::from_raw(Some("{\"token\":\"x\",\"expires_at\":01}".to_string()));
    assert!(store.get().is_err());

    let store = CredentialStore::from_raw(None);
    assert!(store.get().unwrap().is_none());
}

#[test]
fn test_token_expiry_boundary() {
    let t = AuthToken { token: "x".to_string(), expires_at: Some(10) };
    assert!(t.is_expired_at(10));
    assert!(t.is_expired_at(11));
    assert!(!t.is_expired_at(9));
    let t = AuthToken { token: "x".to_string(), expires_at: None };
    assert!(!t.is_expired_at(u64::MAX));
}

#[test]
fn test_unparsable_expiry_text_means_no_expiry() {
    let mut session = AuthClient::new(client()).unwrap();
    session
        .login_with_response(200, "{\"token\":\"t\",\"expires_at\":\"soon\"}")
        .unwrap();
    assert_eq!(
        session.store.raw().as_deref(),
        Some("{\"token\":\"t\",\"expires_at\":null}")
    );
    assert_eq!(session.is_authenticated(u64::MAX).unwrap(), true);
}

#[test]
fn test_login_accepts_whitespace_and_reordered_response() {
    let mut session = AuthClient::new(client()).unwrap();
    session
        .login_with_response(200, "{ \"expires_at\" : \"9999999999\", \"token\" : \"abc123\" }")
        .unwrap();
    assert_eq!(
        session.store.raw().as_deref(),
        Some("{\"token\":\"abc123\",\"expires_at\":9999999999}")
    );
    assert_eq!(session.is_authenticated(1000).unwrap(), true);
}
