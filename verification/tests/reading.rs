use axum::http::{HeaderMap, HeaderValue};
use connect4::request::{accept_session, choose_name, client_ip, session_of, session_param};

fn headers(fields: &[(&'static str, &'static str)]) -> HeaderMap {
    let mut map = HeaderMap::new();
    for &(name, value) in fields {
        map.append(name, HeaderValue::from_static(value));
    }
    map
}

fn query(pairs: &[(&str, &str)]) -> Vec<(String, String)> {
    pairs.iter().map(|&(k, v)| (k.to_string(), v.to_string())).collect()
}

#[test]
fn the_proxy_names_the_client() {
    assert_eq!(client_ip(&headers(&[("x-real-ip", "1.2.3.4")]), "9.9.9.9"), "1.2.3.4");
    assert_eq!(client_ip(&headers(&[]), "9.9.9.9"), "9.9.9.9");
    assert_eq!(client_ip(&headers(&[("x-other", "1.2.3.4")]), "9.9.9.9"), "9.9.9.9");
}

#[test]
fn the_first_of_several_values_counts() {
    let map = headers(&[("x-real-ip", "1.1.1.1"), ("x-real-ip", "2.2.2.2")]);
    assert_eq!(client_ip(&map, "9.9.9.9"), "1.1.1.1");
}

#[test]
fn field_names_are_looked_up_in_any_case() {
    let mut map = HeaderMap::new();
    let name = axum::http::HeaderName::from_bytes(b"X-Session").unwrap();
    map.insert(name, HeaderValue::from_static("abc"));
    assert_eq!(session_of(&map), Some("abc".to_string()));
}

#[test]
fn a_value_that_is_not_text_is_passed_over() {
    let mut map = HeaderMap::new();
    map.insert("x-real-ip", HeaderValue::from_bytes(b"caf\xe9").unwrap());
    map.insert("x-session", HeaderValue::from_bytes(b"caf\xe9").unwrap());
    assert_eq!(client_ip(&map, "9.9.9.9"), "9.9.9.9");
    assert_eq!(session_of(&map), None);
    map.insert("x-session", HeaderValue::from_bytes(b"a\tb c").unwrap());
    assert_eq!(session_of(&map), Some("a\tb c".to_string()));
}

#[test]
fn a_session_is_neither_empty_nor_long() {
    assert_eq!(session_of(&headers(&[("x-session", "tab-1")])), Some("tab-1".to_string()));
    assert_eq!(session_of(&headers(&[("x-session", "")])), None);
    assert_eq!(session_of(&headers(&[])), None);
    let longest = "x".repeat(64);
    assert_eq!(accept_session(Some(&longest)), Some(longest.clone()));
    assert_eq!(accept_session(Some(&"x".repeat(65))), None);
    assert_eq!(accept_session(None), None);
}

#[test]
fn the_length_of_a_session_is_in_bytes() {
    let umlauts = "\u{e4}".repeat(32);
    assert_eq!(accept_session(Some(&umlauts)), Some(umlauts.clone()));
    assert_eq!(accept_session(Some(&"\u{e4}".repeat(33))), None);
}

#[test]
fn the_query_names_a_session() {
    assert_eq!(session_param(&query(&[("session", "a")])), Some("a".to_string()));
    assert_eq!(session_param(&query(&[("x", "b"), ("session", "a"), ("y", "c")])), Some("a".to_string()));
    assert_eq!(session_param(&query(&[("Session", "a")])), None);
    assert_eq!(session_param(&query(&[("session", "")])), None);
    assert_eq!(session_param(&query(&[])), None);
}

#[test]
fn the_last_of_several_sessions_counts() {
    assert_eq!(session_param(&query(&[("session", "a"), ("session", "b")])), Some("b".to_string()));
    assert_eq!(session_param(&query(&[("session", "a"), ("session", "")])), None);
}

#[test]
fn a_name_falls_back_to_the_peer() {
    assert_eq!(choose_name(Some("1.2.3.4"), "9.9.9.9"), "1.2.3.4");
    assert_eq!(choose_name(None, "9.9.9.9"), "9.9.9.9");
}
