use arazzo_runtime::json::Json;
use arazzo_runtime::json_text::parse_json;
use arazzo_runtime::redaction::{
    is_sensitive_key, redact_dry_run_request, redact_headers, redact_json_object,
    redact_json_value, redact_text_patterns, redact_url_query, redacted_dry_run_request, REDACTED,
};
use arazzo_runtime::text_map::TextMap;
use arazzo_runtime::trace::DryRunRequest;

fn text_map(list: &[(&str, &str)]) -> TextMap<String> {
    let mut map = TextMap::new();
    for (name, value) in list {
        map.insert((*name).to_string(), (*value).to_string());
    }
    map
}

fn j(text: &str) -> Json {
    match parse_json(text.as_bytes()) {
        Some(value) => value,
        None => panic!("parsing {text}"),
    }
}

#[test]
fn dry_run_request_redacts_sensitive_parts() {
    let mut req = DryRunRequest {
        step_id: "s1".to_string(),
        method: "POST".to_string(),
        url: "https://example.com/items?token=abc&page=1".to_string(),
        headers: text_map(&[("Authorization", "Bearer abc"), ("Accept", "application/json")]),
        body: Some(j(r#"{ "clientSecret": "shh", "safeName": "alice", "nested": { "dbPassword": "hunter2" } }"#)),
        warnings: Vec::new(),
    };

    redact_dry_run_request(&mut req);

    assert_eq!(req.url, "https://example.com/items?token=[REDACTED]&page=1");
    assert_eq!(
        req.headers.get("Authorization").map(String::as_str),
        Some(REDACTED)
    );
    assert_eq!(
        req.headers.get("Accept").map(String::as_str),
        Some("application/json")
    );
    assert_eq!(
        req.body
            .as_ref()
            .and_then(|body| body.pointer("/clientSecret")),
        Some(&Json::Text(REDACTED.to_string()))
    );
    assert_eq!(
        req.body.as_ref().and_then(|body| body.pointer("/safeName")),
        Some(&j(r#""alice""#))
    );
    assert_eq!(
        req.body
            .as_ref()
            .and_then(|body| body.pointer("/nested/dbPassword")),
        Some(&Json::Text(REDACTED.to_string()))
    );
}

#[test]
fn text_redaction_preserves_non_secret_text() {
    assert_eq!(
        redact_text_patterns("Bearer abc123.xyz"),
        "Bearer [REDACTED]"
    );
    assert_eq!(
        redact_text_patterns("token=secret123 name=alice"),
        "token=[REDACTED] name=alice"
    );
    assert_eq!(
        redact_text_patterns("password: hunter2"),
        "password: [REDACTED]"
    );
    assert_eq!(redact_text_patterns("no secrets here"), "no secrets here");
}

#[test]
fn sensitive_names_are_told_by_their_stems() {
    for name in ["Authorization", "set-cookie", "X-API-Key", "dbPassword", "clientSecret", "session"] {
        assert!(is_sensitive_key(name), "{name}");
    }
    for name in ["Accept", "page", "safeName"] {
        assert!(!is_sensitive_key(name), "{name}");
    }
}

#[test]
fn redacting_again_changes_nothing() {
    let mut headers = text_map(&[("Cookie", "a=b"), ("Accept", "x")]);
    redact_headers(&mut headers);
    let once = headers.get("Cookie").cloned();
    redact_headers(&mut headers);
    assert_eq!(headers.get("Cookie").cloned(), once);
    assert_eq!(once, Some(REDACTED.to_string()));

    let mut url = "https://a.example/?token=t&q=1#frag".to_string();
    redact_url_query(&mut url);
    let first = url.clone();
    redact_url_query(&mut url);
    assert_eq!(url, first);
    assert!(!first.contains("token=t"));
    assert!(first.contains("q=1"));

    let mut value = j(r#"{"list":[{"token":"x"}],"n":1}"#);
    redact_json_value(&mut value);
    assert_eq!(value, j(r#"{"list":[{"token":"[REDACTED]"}],"n":1}"#));
    redact_json_value(&mut value);
    assert_eq!(value, j(r#"{"list":[{"token":"[REDACTED]"}],"n":1}"#));
}

#[test]
fn maps_of_values_are_redacted_by_name() {
    let mut map = TextMap::new();
    map.insert("password".to_string(), j("1"));
    map.insert("inner".to_string(), j(r#"{"apiKey":"k","ok":true}"#));
    redact_json_object(&mut map);
    assert_eq!(map.get("password"), Some(&Json::Text(REDACTED.to_string())));
    assert_eq!(map.get("inner").map(|v| v.text()), Some(r#"{"apiKey":"[REDACTED]","ok":true}"#.to_string()));
}

#[test]
fn a_redacted_copy_is_the_redacted_request() {
    let request = DryRunRequest {
        step_id: "s".to_string(),
        method: "GET".to_string(),
        url: "https://a.example/?password=p".to_string(),
        headers: text_map(&[("X-Api-Key", "k")]),
        body: None,
        warnings: Vec::new(),
    };
    let shown = redacted_dry_run_request(request);
    assert_eq!(shown.url, "https://a.example/?password=[REDACTED]");
    assert_eq!(shown.headers.get("X-Api-Key"), Some(&REDACTED.to_string()));
}

#[test]
fn secret_values_leave_no_trace() {
    let redacted = |url: &str| {
        let mut url = url.to_string();
        redact_url_query(&mut url);
        url
    };
    let a = redacted("https://a/x?Token=one=two&page=2&pwd=&session_id=%20");
    let b = redacted("https://a/x?Token=&page=2&pwd=three&session_id=four");
    assert_eq!(a, b);
    assert_eq!(
        a,
        format!("https://a/x?Token={REDACTED}&page=2&pwd={REDACTED}&session_id={REDACTED}")
    );
}
