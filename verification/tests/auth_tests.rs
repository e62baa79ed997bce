use twitch_reader::auth::{
    callback_address, callback_url, code_and_state, finish_auth, first_query_value,
    last_query_value, oauth_success_page, stored_refresh_token, AuthError, AuthStore, Config,
};

fn pairs(v: &[(&str, &str)]) -> Vec<(String, String)> {
    v.iter().map(|(k, x)| (k.to_string(), x.to_string())).collect()
}

#[test]
fn stored_refresh_token_is_trimmed() {
    let store = AuthStore::from_tokens(Some("acc"), Some("  ref \n"));
    assert_eq!(store.access_token.as_deref(), Some("acc"));
    assert_eq!(store.refresh_token.as_deref(), Some("  ref \n"));
    assert_eq!(stored_refresh_token(store), Some("ref".to_string()));
}

#[test]
fn blank_or_missing_refresh_token_is_unusable() {
    assert_eq!(stored_refresh_token(AuthStore::from_tokens(Some("a"), Some(" \t"))), None);
    assert_eq!(stored_refresh_token(AuthStore::from_tokens(Some("a"), None)), None);
    assert_eq!(stored_refresh_token(AuthStore::from_tokens(None, None)), None);
}

#[test]
fn finish_auth_stores_only_with_refresh_token() {
    let (data, store) = finish_auth("tok".to_string(), "ref".to_string());
    assert_eq!(data.access_token, "tok");
    let store = store.unwrap();
    assert_eq!(store.access_token.as_deref(), Some("tok"));
    assert_eq!(store.refresh_token.as_deref(), Some("ref"));
    let (data, store) = finish_auth("tok2".to_string(), String::new());
    assert_eq!(data.access_token, "tok2");
    assert!(store.is_none());
}

#[test]
fn callback_address_defaults() {
    assert_eq!(callback_address(Some("localhost"), Some(3000)), "localhost:3000");
    assert_eq!(callback_address(None, Some(8080)), "127.0.0.1:8080");
    assert_eq!(callback_address(Some("example.com"), None), "example.com:80");
    assert_eq!(callback_address(None, None), "127.0.0.1:80");
}

#[test]
fn callback_url_joins_parts() {
    assert_eq!(
        callback_url("http://localhost:3000", "/callback?code=x&state=y"),
        "http://localhost:3000/callback?code=x&state=y"
    );
}

#[test]
fn success_page_names_the_channel() {
    assert_eq!(
        oauth_success_page("<h1>__TWITCH_CHANNEL__</h1><p>__TWITCH_CHANNEL__</p>", "alpha"),
        "<h1>alpha</h1><p>alpha</p>"
    );
    assert_eq!(oauth_success_page("no marker", "alpha"), "no marker");
}

#[test]
fn code_and_state_from_query() {
    let q = pairs(&[("code", "c1"), ("scope", "chat"), ("state", "s1")]);
    assert_eq!(code_and_state(&q), Ok(("c1".to_string(), "s1".to_string())));
    let q = pairs(&[("code", "c1"), ("code", "c2"), ("state", "s1")]);
    assert_eq!(code_and_state(&q), Ok(("c2".to_string(), "s1".to_string())));
}

#[test]
fn code_and_state_errors() {
    assert_eq!(code_and_state(&pairs(&[("state", "s")])), Err(AuthError::NoCode));
    assert_eq!(code_and_state(&pairs(&[])), Err(AuthError::NoCode));
    assert_eq!(code_and_state(&pairs(&[("code", "c")])), Err(AuthError::NoState));
}

#[test]
fn query_value_lookups() {
    let q = pairs(&[("a", "1"), ("b", "2"), ("a", "3")]);
    assert_eq!(first_query_value(&q, "a"), Some("1".to_string()));
    assert_eq!(last_query_value(&q, "a"), Some("3".to_string()));
    assert_eq!(first_query_value(&q, "c"), None);
    assert_eq!(last_query_value(&q, "c"), None);
}

#[test]
fn config_default_is_empty() {
    let c = Config::default();
    assert_eq!(c.client_id, "");
    assert_eq!(c.client_secret, "");
    assert!(c.refresh_token.is_none());
}
