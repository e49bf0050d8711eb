use stream_watch::cache::token_from_members;
use stream_watch::{decode_cached_token, encode_token, AuthToken};

const NOW: i64 = 1_700_000_000;

fn token(expires_at: i64) -> AuthToken {
    AuthToken {
        client_id: "my-client".to_string(),
        access_token: "tok-0123456789".to_string(),
        expires_at,
    }
}

#[test]
fn unexpired_token_reads_back_unchanged() {
    let t = token(NOW + 3600);
    let text = encode_token(&t).unwrap();
    let back = decode_cached_token(&text, NOW).unwrap();
    assert_eq!(back.client_id, t.client_id);
    assert_eq!(back.access_token, t.access_token);
    assert_eq!(back.expires_at, t.expires_at);
}

#[test]
fn expired_token_reads_back_absent() {
    let t = token(NOW);
    let text = encode_token(&t).unwrap();
    assert!(decode_cached_token(&text, NOW).is_none());
    assert!(decode_cached_token(&text, NOW + 1).is_none());
    assert!(decode_cached_token(&text, NOW - 1).is_some());
}

#[test]
fn corrupt_cache_reads_absent() {
    assert!(decode_cached_token("this is { not json", NOW).is_none());
    assert!(decode_cached_token("", NOW).is_none());
    assert!(decode_cached_token("[1, 2, 3]", NOW).is_none());
}

#[test]
fn incomplete_record_reads_absent() {
    let missing = r#"{"client_id":"a","access_token":"b"}"#;
    assert!(decode_cached_token(missing, NOW).is_none());
    let not_text = r#"{"client_id":"a","access_token":7,"expires_at":"2100-01-01T00:00:00Z"}"#;
    assert!(decode_cached_token(not_text, NOW).is_none());
    let bad_date = r#"{"client_id":"a","access_token":"b","expires_at":"tomorrow"}"#;
    assert!(decode_cached_token(bad_date, NOW).is_none());
}

#[test]
fn record_written_by_hand_is_read() {
    let text = r#"{"client_id":"a","access_token":"b","expires_at":"2030-01-01T00:00:00Z","extra":1}"#;
    let t = decode_cached_token(text, NOW).unwrap();
    assert_eq!(t.client_id, "a");
    assert_eq!(t.access_token, "b");
    assert_eq!(t.expires_at, 1_893_456_000);
    let offset = r#"{"client_id":"a","access_token":"b","expires_at":"2030-01-01T02:00:00+02:00"}"#;
    assert_eq!(decode_cached_token(offset, NOW).unwrap().expires_at, 1_893_456_000);
}

#[test]
fn encoded_record_names_each_member() {
    let text = encode_token(&token(1_893_456_000)).unwrap();
    assert!(text.contains("\"client_id\":\"my-client\""));
    assert!(text.contains("\"access_token\":\"tok-0123456789\""));
    assert!(text.contains("\"expires_at\":\"2030-01-01T00:00:00Z\""));
}

#[test]
fn members_are_looked_up_by_name() {
    let members = vec![
        ("expires_at".to_string(), Some("2030-01-01T00:00:00Z".to_string())),
        ("access_token".to_string(), Some("b".to_string())),
        ("client_id".to_string(), Some("a".to_string())),
    ];
    let t = token_from_members(&members, NOW).unwrap();
    assert_eq!(t.client_id, "a");
    assert_eq!(t.access_token, "b");
    assert!(token_from_members(&members, 1_893_456_000).is_none());
    let partial = vec![("client_id".to_string(), None)];
    assert!(token_from_members(&partial, NOW).is_none());
}
