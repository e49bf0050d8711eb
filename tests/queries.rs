use stream_watch::api::{login_query, streams_query, token_request_query, users_query};

fn pairs(v: &[(&str, &str)]) -> Vec<(String, String)> {
    v.iter().map(|(a, b)| (a.to_string(), b.to_string())).collect()
}

#[test]
fn users_query_repeats_login() {
    let logins = vec!["alice".to_string(), "bob".to_string()];
    assert_eq!(users_query(&logins), pairs(&[("login", "alice"), ("login", "bob")]));
}

#[test]
fn streams_query_repeats_user_login() {
    let logins = vec!["bob".to_string(), "alice".to_string(), "bob".to_string()];
    assert_eq!(
        streams_query(&logins),
        pairs(&[("user_login", "bob"), ("user_login", "alice"), ("user_login", "bob")])
    );
    assert!(login_query("x", &Vec::new()).is_empty());
}

#[test]
fn grant_query_has_credentials() {
    assert_eq!(
        token_request_query("id1", "sec"),
        pairs(&[("client_id", "id1"), ("client_secret", "sec"), ("grant_type", "client_credentials")])
    );
}
