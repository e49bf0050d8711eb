use stream_watch::token::{token_from_grant, REFRESH_MARGIN_SECS};
use stream_watch::{AuthManager, AuthToken, TokenAction};

fn token(expires_at: i64) -> AuthToken {
    AuthToken {
        client_id: "cid".to_string(),
        access_token: "tok".to_string(),
        expires_at,
    }
}

#[test]
fn no_refresh_while_margin_remains() {
    let t = token(1000);
    assert_eq!(REFRESH_MARGIN_SECS, 5);
    assert!(!t.needs_refresh(0));
    assert!(!t.needs_refresh(994));
    let m = AuthManager::with_token("cid".to_string(), "secret".to_string(), t);
    assert_eq!(m.ensure_valid(994), TokenAction::Keep);
}

#[test]
fn refresh_once_margin_reached() {
    let t = token(1000);
    assert!(t.needs_refresh(995));
    assert!(t.needs_refresh(1000));
    assert!(t.needs_refresh(5000));
    let m = AuthManager::with_token("cid".to_string(), "secret".to_string(), t);
    assert_eq!(m.ensure_valid(995), TokenAction::Refresh);
    assert_eq!(m.ensure_valid(1001), TokenAction::Refresh);
}

#[test]
fn refresh_decision_at_extreme_instants() {
    assert!(token(i64::MIN).needs_refresh(i64::MIN));
    assert!(!token(i64::MAX).needs_refresh(i64::MAX - 6));
    assert!(token(i64::MAX).needs_refresh(i64::MAX - 5));
}

#[test]
fn usable_strictly_before_expiry() {
    let t = token(1000);
    assert!(t.is_usable_at(999));
    assert!(!t.is_usable_at(1000));
    assert!(!t.is_usable_at(1001));
}

#[test]
fn grant_sets_expiry_from_lifetime() {
    let t = token_from_grant("cid", "abc".to_string(), 3600, 1_000_000).unwrap();
    assert_eq!(t.client_id, "cid");
    assert_eq!(t.access_token, "abc");
    assert_eq!(t.expires_at, 1_003_600);
    assert!(token_from_grant("cid", "abc".to_string(), 10, i64::MAX - 5).is_none());
    assert_eq!(
        token_from_grant("cid", "abc".to_string(), 5, i64::MAX - 5).unwrap().expires_at,
        i64::MAX
    );
}

#[test]
fn manager_starts_from_cache_or_asks_fresh() {
    assert!(AuthManager::from_cache("c".to_string(), "s".to_string(), None).is_none());
    let m = AuthManager::from_cache("c".to_string(), "s".to_string(), Some(token(77))).unwrap();
    assert_eq!(m.current.expires_at, 77);
    assert_eq!(m.client_id, "c");
    assert_eq!(m.client_secret, "s");
}

#[test]
fn replace_installs_new_token() {
    let mut m = AuthManager::with_token("c".to_string(), "s".to_string(), token(10));
    assert_eq!(m.ensure_valid(8), TokenAction::Refresh);
    m.replace_token(token(5000));
    assert_eq!(m.current.expires_at, 5000);
    assert_eq!(m.ensure_valid(8), TokenAction::Keep);
    assert_eq!(m.client_id, "c");
}
