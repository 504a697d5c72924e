use edge_proxy::error::ProxyError;
use edge_proxy::headers::{translate_request_headers, translate_response_headers, MAX_HEADER_NAME_LEN};
use edge_proxy::method::HttpMethod;
use edge_proxy::pipeline::{prepare_request, translate_response};
use edge_proxy::relay::{BodyRelay, RelayAction, RelayEvent};
use edge_proxy::rewrite::{rewrite, UrlParts, UPSTREAM_HOST};

fn url(scheme: &str, host: Option<&str>, port: Option<u16>, path: &str, query: Option<&str>) -> UrlParts {
    UrlParts {
        scheme: scheme.to_string(),
        username: String::new(),
        password: None,
        host: host.map(|h| h.to_string()),
        port,
        path: path.to_string(),
        query: query.map(|q| q.to_string()),
        fragment: None,
        cannot_be_a_base: false,
    }
}

fn pairs(items: &[(&str, &str)]) -> Vec<(String, String)> {
    items.iter().map(|(n, v)| (n.to_string(), v.to_string())).collect()
}

#[test]
fn rewrite_keeps_path_and_query() {
    let u = url("http", Some("proxy.example.dev"), None, "/v1/models:generateContent", Some("key=X"));
    let r = rewrite(&u).unwrap();
    assert_eq!(
        r.to_url_string(),
        "https://generativelanguage.googleapis.com/v1/models:generateContent?key=X"
    );
    assert_eq!(r.host.as_deref(), Some(UPSTREAM_HOST));
    assert_eq!(r.scheme, "https");
    assert_eq!(r.path, u.path);
    assert_eq!(r.query, u.query);
}

#[test]
fn rewrite_upgrades_secure_scheme_and_keeps_fragment() {
    let mut u = url("https", Some("a.example"), None, "/", None);
    u.fragment = Some("top".to_string());
    let r = rewrite(&u).unwrap();
    assert_eq!(r.to_url_string(), "https://generativelanguage.googleapis.com/#top");
}

#[test]
fn rewrite_keeps_explicit_port() {
    let u = url("http", Some("localhost"), Some(8787), "/v1beta/models", Some("alt=sse"));
    let r = rewrite(&u).unwrap();
    assert_eq!(r.port, Some(8787));
    assert_eq!(
        r.to_url_string(),
        "https://generativelanguage.googleapis.com:8787/v1beta/models?alt=sse"
    );
}

#[test]
fn rewrite_drops_default_secure_port() {
    let u = url("http", Some("localhost"), Some(443), "/x", None);
    let r = rewrite(&u).unwrap();
    assert_eq!(r.port, None);
    assert_eq!(r.to_url_string(), "https://generativelanguage.googleapis.com/x");
}

#[test]
fn rewrite_keeps_credentials() {
    let mut u = url("ws", Some("h"), Some(9), "/p", None);
    u.username = "user".to_string();
    u.password = Some("pw".to_string());
    let r = rewrite(&u).unwrap();
    assert_eq!(r.to_url_string(), "https://user:pw@generativelanguage.googleapis.com:9/p");
}

#[test]
fn rewrite_accepts_file_scheme() {
    let u = url("file", None, None, "/tmp/a", None);
    let r = rewrite(&u).unwrap();
    assert_eq!(r.to_url_string(), "https://generativelanguage.googleapis.com/tmp/a");
}

#[test]
fn rewrite_rejects_non_special_scheme() {
    let u = url("foo", Some("h"), None, "/p", None);
    assert!(matches!(rewrite(&u), Err(ProxyError::UrlRewrite)));
}

#[test]
fn rewrite_rejects_url_without_base() {
    let mut u = url("mailto", None, None, "someone@example.com", None);
    u.cannot_be_a_base = true;
    assert!(matches!(rewrite(&u), Err(ProxyError::UrlRewrite)));
}

#[test]
fn method_table_is_total_and_distinct() {
    let all = [
        (HttpMethod::Get, "GET"),
        (HttpMethod::Post, "POST"),
        (HttpMethod::Put, "PUT"),
        (HttpMethod::Delete, "DELETE"),
        (HttpMethod::Head, "HEAD"),
        (HttpMethod::Connect, "CONNECT"),
        (HttpMethod::Options, "OPTIONS"),
        (HttpMethod::Trace, "TRACE"),
        (HttpMethod::Patch, "PATCH"),
    ];
    for (m, t) in all.iter() {
        assert_eq!(m.outbound_token(), *t);
    }
    for (i, (a, _)) in all.iter().enumerate() {
        for (j, (b, _)) in all.iter().enumerate() {
            assert_eq!(i == j, a.outbound_token() == b.outbound_token());
        }
    }
}

#[test]
fn request_headers_keep_duplicates_and_order() {
    let hs = pairs(&[("accept", "a"), ("x-goog-api-key", "k1"), ("accept", "b")]);
    let out = translate_request_headers(&hs).unwrap();
    assert_eq!(out, hs);
}

#[test]
fn request_header_names_are_lowered() {
    let hs = pairs(&[("Content-Type", "application/json")]);
    let out = translate_request_headers(&hs).unwrap();
    assert_eq!(out, pairs(&[("content-type", "application/json")]));
}

#[test]
fn request_header_values_allow_tab_and_non_ascii() {
    let hs = pairs(&[("x-a", "one\ttwo"), ("x-b", "café")]);
    let out = translate_request_headers(&hs).unwrap();
    assert_eq!(out, hs);
}

#[test]
fn request_header_control_character_rejects_all() {
    let hs = pairs(&[("accept", "a"), ("x-bad", "line\nbreak"), ("x-other", "\u{1}")]);
    match translate_request_headers(&hs) {
        Err(ProxyError::HeaderTranslation { name }) => assert_eq!(name, "x-bad"),
        other => panic!("unexpected {:?}", other),
    }
}

#[test]
fn request_header_delete_character_rejected() {
    let hs = pairs(&[("x-del", "a\u{7f}")]);
    assert!(matches!(translate_request_headers(&hs), Err(ProxyError::HeaderTranslation { .. })));
}

#[test]
fn request_header_bad_names_rejected() {
    for name in ["", "bad name", "x:y", "é"] {
        let hs = pairs(&[(name, "v")]);
        match translate_request_headers(&hs) {
            Err(ProxyError::HeaderTranslation { name: n }) => assert_eq!(n, name),
            other => panic!("unexpected {:?}", other),
        }
    }
}

#[test]
fn request_header_name_length_limit() {
    let longest = "a".repeat(MAX_HEADER_NAME_LEN);
    let hs = vec![(longest.clone(), "v".to_string())];
    assert_eq!(translate_request_headers(&hs).unwrap(), hs);
    let too_long = "a".repeat(MAX_HEADER_NAME_LEN + 1);
    let hs = vec![(too_long, "v".to_string())];
    assert!(matches!(translate_request_headers(&hs), Err(ProxyError::HeaderTranslation { .. })));
}

#[test]
fn request_headers_empty() {
    let hs: Vec<(String, String)> = Vec::new();
    assert_eq!(translate_request_headers(&hs).unwrap(), hs);
}

#[test]
fn prepare_request_builds_outbound() {
    let u = url("http", Some("proxy.example.dev"), None, "/v1/models", Some("key=X"));
    let hs = pairs(&[("Accept", "*/*"), ("accept", "text/plain")]);
    let o = prepare_request(HttpMethod::Post, &u, &hs).unwrap();
    assert_eq!(o.method, HttpMethod::Post);
    assert_eq!(o.method_token, "POST");
    assert_eq!(o.url, "https://generativelanguage.googleapis.com/v1/models?key=X");
    assert_eq!(o.headers, pairs(&[("accept", "*/*"), ("accept", "text/plain")]));
}

#[test]
fn prepare_request_header_rejection_gives_no_request() {
    let u = url("https", Some("h"), None, "/", None);
    let hs = pairs(&[("x-ok", "1"), ("x-ctl", "a\u{0}b")]);
    match prepare_request(HttpMethod::Get, &u, &hs) {
        Err(ProxyError::HeaderTranslation { name }) => assert_eq!(name, "x-ctl"),
        other => panic!("unexpected {:?}", other),
    }
}

#[test]
fn prepare_request_url_error_comes_first() {
    let u = url("foo", Some("h"), None, "/", None);
    let hs = pairs(&[("x-ctl", "a\u{0}b")]);
    assert!(matches!(prepare_request(HttpMethod::Get, &u, &hs), Err(ProxyError::UrlRewrite)));
}

#[test]
fn response_header_with_bad_bytes_dropped() {
    let hs = vec![
        ("content-type".to_string(), b"text/plain".to_vec()),
        ("x-bin".to_string(), vec![b'a', 0x80, b'b']),
        ("set-cookie".to_string(), b"a=1".to_vec()),
        ("set-cookie".to_string(), b"b=2".to_vec()),
    ];
    let head = translate_response(206, &hs);
    assert_eq!(head.status, 206);
    assert_eq!(head.headers, pairs(&[("content-type", "text/plain"), ("set-cookie", "a=1"), ("set-cookie", "b=2")]));
}

#[test]
fn response_header_control_and_tab_values() {
    let hs = vec![
        ("x-tab".to_string(), b"a\tb".to_vec()),
        ("x-ctl".to_string(), vec![b'a', 0x01]),
        ("x-del".to_string(), vec![0x7f]),
        ("x-empty".to_string(), Vec::new()),
    ];
    let out = translate_response_headers(&hs);
    assert_eq!(out, pairs(&[("x-tab", "a\tb"), ("x-empty", "")]));
}

fn run(events: Vec<RelayEvent>) -> (Vec<RelayAction>, bool) {
    let mut relay = BodyRelay::new();
    let mut actions = Vec::new();
    for ev in events {
        actions.push(relay.step(ev));
    }
    (actions, relay.is_open())
}

fn forwarded(actions: &[RelayAction]) -> Vec<u8> {
    let mut body = Vec::new();
    for a in actions {
        if let RelayAction::Forward(c) = a {
            body.extend_from_slice(c);
        }
    }
    body
}

#[test]
fn relay_forwards_chunks_in_order() {
    let chunks: Vec<Vec<u8>> = vec![vec![1, 2, 3], vec![], vec![4], (5..=20).collect()];
    let mut events: Vec<RelayEvent> = chunks.iter().cloned().map(RelayEvent::Chunk).collect();
    events.push(RelayEvent::Finished);
    let (actions, open) = run(events);
    assert!(!open);
    assert_eq!(actions.len(), 5);
    for (a, c) in actions.iter().zip(chunks.iter()) {
        match a {
            RelayAction::Forward(d) => assert_eq!(d, c),
            other => panic!("unexpected {:?}", other),
        }
    }
    assert!(matches!(actions[4], RelayAction::End));
    assert_eq!(forwarded(&actions), chunks.concat());
}

#[test]
fn relay_read_failure_truncates() {
    let events = vec![
        RelayEvent::Chunk(b"ab".to_vec()),
        RelayEvent::ReadFailed,
        RelayEvent::Chunk(b"cd".to_vec()),
        RelayEvent::Finished,
    ];
    let (actions, open) = run(events);
    assert!(!open);
    assert!(matches!(actions[1], RelayAction::Truncate));
    assert!(matches!(actions[2], RelayAction::Stopped));
    assert!(matches!(actions[3], RelayAction::Stopped));
    assert_eq!(forwarded(&actions), b"ab".to_vec());
}

#[test]
fn relay_downstream_close_cancels() {
    let events = vec![RelayEvent::Chunk(vec![9]), RelayEvent::DownstreamClosed, RelayEvent::Chunk(vec![8])];
    let (actions, open) = run(events);
    assert!(!open);
    assert!(matches!(actions[1], RelayAction::Cancel));
    assert!(matches!(actions[2], RelayAction::Stopped));
    assert_eq!(forwarded(&actions), vec![9]);
}

#[test]
fn relay_empty_body() {
    let (actions, open) = run(vec![RelayEvent::Finished]);
    assert!(!open);
    assert!(matches!(actions[0], RelayAction::End));
    assert!(BodyRelay::new().is_open());
}
