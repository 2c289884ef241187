use arazzo_runtime::error::RuntimeErrorKind;
use arazzo_runtime::hosts::{is_loopback_host, split_host_port};
use arazzo_runtime::redirects::{
    accept_chunk, assemble_response, check_content_length, error_chain_mentions_certificate,
    merge_headers, next_hop, send_error, start_request, HopStep, RequestHop,
};
use arazzo_runtime::replay::RequestConfig;
use arazzo_runtime::step_refs::NameSet;
use arazzo_runtime::text_map::TextMap;
use arazzo_runtime::trace::ContentType;
use arazzo_runtime::transport::{
    decide_redirect, host_port_label, is_cross_host_hop, make_referer, matched_insecure_entry,
    url_host_key, warn_cleartext_credentials, ClientChoice, RedirectDecision, TransportPolicy,
    TransportState, DEFAULT_MAX_REDIRECTS,
};

fn names(list: &[&str]) -> NameSet {
    let mut set = TextMap::new();
    for name in list {
        set.insert((*name).to_string(), ());
    }
    set
}

fn headers(list: &[(&str, &str)]) -> TextMap<String> {
    let mut map = TextMap::new();
    for (name, value) in list {
        map.insert((*name).to_string(), (*value).to_string());
    }
    map
}

fn request(method: &str, url: &str, list: &[(&str, &str)], body: Option<&[u8]>) -> RequestConfig {
    RequestConfig {
        workflow_id: "wf".to_string(),
        step_id: "s1".to_string(),
        method: method.to_string(),
        url: url.to_string(),
        headers: headers(list),
        body: body.map(|b| b.to_vec()),
    }
}

fn plain_policy() -> TransportPolicy {
    let mut policy = TransportPolicy::default();
    policy.default_headers = TextMap::new();
    policy
}

fn started(policy: &TransportPolicy, cfg: RequestConfig) -> RequestHop {
    match start_request(policy, cfg) {
        Ok(hop) => hop,
        Err(err) => panic!("starting the request: {}", err.message),
    }
}

fn names_of(hop: &RequestHop) -> Vec<String> {
    hop.headers.iter().map(|h| h.0.clone()).collect()
}

fn u(raw: &str) -> url::Url {
    match url::Url::parse(raw) {
        Ok(url) => url,
        Err(err) => panic!("parsing test URL {raw}: {err}"),
    }
}

#[test]
fn loopback_hosts_by_text_alone() {
    for host in [
        "localhost",
        "LOCALHOST",
        "api.localhost",
        "127.0.0.1",
        "127.9.8.7",
        "[::1]",
        "::1",
    ] {
        assert!(is_loopback_host(host), "{host} should be loopback");
    }
    for host in ["example.com", "192.0.2.1", "10.0.0.1", "[::2]", "128.0.0.1"] {
        assert!(!is_loopback_host(host), "{host} should not be loopback");
    }
}

#[test]
fn decide_redirect_scheme_matrix() {
    let cases = [
        ("https://a/", "https://a/b", RedirectDecision::Follow),
        ("http://a/", "http://a/b", RedirectDecision::Follow),
        ("http://a/", "https://a/b", RedirectDecision::Follow),
        (
            "https://a/",
            "http://a/b",
            RedirectDecision::RefuseDowngrade,
        ),
    ];
    for (prev, next, expected) in cases {
        assert_eq!(
            decide_redirect(&u(prev), &u(next), 0, false, DEFAULT_MAX_REDIRECTS),
            expected,
            "{prev} -> {next}"
        );
    }
    // The downgrade follows once explicitly allowed.
    assert_eq!(
        decide_redirect(&u("https://a/"), &u("http://a/b"), 0, true, 10),
        RedirectDecision::Follow
    );
}

#[test]
fn decide_redirect_hop_limits() {
    let prev = u("http://a/");
    let next = u("http://a/b");
    assert_eq!(
        decide_redirect(&prev, &next, 1, false, 2),
        RedirectDecision::Follow
    );
    assert_eq!(
        decide_redirect(&prev, &next, 2, false, 2),
        RedirectDecision::RefuseLimit
    );
    assert_eq!(
        decide_redirect(&prev, &next, 0, false, 0),
        RedirectDecision::RefuseLimit
    );
    // Downgrade refusal outranks the hop limit.
    assert_eq!(
        decide_redirect(&u("https://a/"), &u("http://a/b"), 5, false, 2),
        RedirectDecision::RefuseDowngrade
    );
}

#[test]
fn insecure_entry_matching_rules() {
    let hosts = names(&["bare.example", "Exact.Example:8443", "[::1]:8443"]);

    // Bare host entries match any port.
    assert!(matched_insecure_entry(&hosts, &u("https://bare.example/")).is_some());
    assert!(matched_insecure_entry(&hosts, &u("https://bare.example:9999/")).is_some());
    // host:port entries match exactly, case-insensitively, including
    // the scheme-default port for URLs without an explicit one.
    assert!(matched_insecure_entry(&hosts, &u("https://exact.example:8443/")).is_some());
    assert!(matched_insecure_entry(&hosts, &u("https://EXACT.example:8443/")).is_some());
    assert!(matched_insecure_entry(&hosts, &u("https://exact.example:8444/")).is_none());
    assert!(matched_insecure_entry(&hosts, &u("https://exact.example/")).is_none());
    // IPv6 literals stay bracketed.
    assert!(matched_insecure_entry(&hosts, &u("https://[::1]:8443/")).is_some());
    assert!(matched_insecure_entry(&hosts, &u("https://[::1]:8444/")).is_none());
    // Unlisted hosts never match.
    assert!(matched_insecure_entry(&hosts, &u("https://other.example/")).is_none());
}

#[test]
fn ipv6_url_hosts_normalize_to_bracketed_keys() {
    assert_eq!(
        url_host_key(&u("https://[::1]:8443/")).as_deref(),
        Some("[::1]")
    );
    assert_eq!(
        url_host_key(&u("https://example.com/")).as_deref(),
        Some("example.com")
    );
}

#[test]
fn cross_host_hop_predicate_matches_reqwest_baseline() {
    assert!(!is_cross_host_hop(&u("http://a:1/x"), &u("http://a:1/y")));
    assert!(is_cross_host_hop(&u("http://a:1/"), &u("http://a:2/")));
    assert!(is_cross_host_hop(&u("http://a/"), &u("http://b/")));
    // Scheme change flips the known-default port (80 vs 443).
    assert!(is_cross_host_hop(&u("http://a/"), &u("https://a/")));
    // Explicit ports equal across a scheme change: same effective
    // authority, not cross-host (reqwest's predicate).
    assert!(!is_cross_host_hop(
        &u("https://a:9000/"),
        &u("http://a:9000/")
    ));
}

#[test]
fn split_host_port_entries() {
    assert_eq!(split_host_port("host:8443"), Some(("host".to_string(), 8443)));
    assert_eq!(split_host_port("host"), None);
    assert_eq!(split_host_port("[::1]:8443"), Some(("[::1]".to_string(), 8443)));
    assert_eq!(split_host_port("[::1]"), None);
    assert_eq!(split_host_port("::1"), None);
    assert_eq!(split_host_port("host:notaport"), None);
}

#[test]
fn more_loopback_forms() {
    for host in ["0:0:0:0:0:0:0:1", "::0001", "0::1", "::0.0.0.1", "[0:0::1]"] {
        assert!(is_loopback_host(host), "{host} should be loopback");
    }
    for host in [
        "127.0.0.01", "127.0.0.256", "127.0.0", "127.0.0.0.1", "::", ":::1", "1::2::3",
        "0:0:0:0:0:0:0:0:1", "localhost.example", "::1:0", "::10.0.0.1", "12345::1",
    ] {
        assert!(!is_loopback_host(host), "{host} should not be loopback");
    }
}

#[test]
fn a_first_hop_lists_defaults_before_its_own_headers() {
    let policy = TransportPolicy::default();
    let hop = started(
        &policy,
        request("POST", "https://a.example/x", &[("User-Agent", "mine"), ("X-Key", "k")], Some(b"b")),
    );
    assert_eq!(
        hop.headers,
        vec![
            ("user-agent".to_string(), "arazzo-cli/0.1".to_string()),
            ("user-agent".to_string(), "mine".to_string()),
            ("x-key".to_string(), "k".to_string()),
        ]
    );
    assert_eq!(hop.method, "POST");
    assert_eq!(hop.url.as_str(), "https://a.example/x");
    assert_eq!(hop.body, Some(b"b".to_vec()));
    assert!(hop.hops.is_empty());
}

#[test]
fn bad_methods_urls_and_headers_are_refused() {
    let policy = plain_policy();
    let bad_method = start_request(&policy, request("GE T", "https://a/", &[], None));
    assert!(matches!(&bad_method, Err(e) if e.kind == RuntimeErrorKind::InvalidHttpMethod
        && e.message == "invalid HTTP method GE T: invalid HTTP method"));
    let bad_url = start_request(&policy, request("GET", "/relative", &[], None));
    assert!(matches!(&bad_url, Err(e) if e.kind == RuntimeErrorKind::HttpRequest
        && e.message.starts_with("executing request: invalid URL \"/relative\": ")));
    let bad_name = start_request(&policy, request("GET", "https://a/", &[("a b", "v")], None));
    assert!(matches!(&bad_name, Err(e)
        if e.message == "executing request: invalid header name \"a b\": invalid HTTP header name"));
    let bad_value = start_request(&policy, request("GET", "https://a/", &[("x", "a\nb")], None));
    assert!(matches!(&bad_value, Err(e)
        if e.message == "executing request: invalid value for header \"x\": failed to parse header value"));
    let tab = start_request(&policy, request("GET", "https://a/", &[("x", "a\tb")], None));
    assert!(tab.is_ok());
}

#[test]
fn a_303_becomes_a_get_without_body_and_keeps_a_referer() {
    let policy = plain_policy();
    let hop = started(
        &policy,
        request(
            "POST",
            "https://u:p@a.example/x#frag",
            &[("Content-Type", "application/json"), ("X-Key", "k")],
            Some(b"{}"),
        ),
    );
    match next_hop(hop, 303, Some("/y"), &policy) {
        HopStep::Follow(next) => {
            assert_eq!(next.method, "GET");
            assert_eq!(next.body, None);
            assert_eq!(next.url.as_str(), "https://u:p@a.example/y");
            assert_eq!(
                next.headers,
                vec![
                    ("x-key".to_string(), "k".to_string()),
                    ("referer".to_string(), "https://a.example/x".to_string()),
                ]
            );
            assert_eq!(next.hops.len(), 1);
            assert_eq!(next.hops[0].status_code, 303);
            assert_eq!(next.hops[0].to, "https://u:p@a.example/y");
        }
        _ => panic!("the redirect is followed"),
    }
}

#[test]
fn a_307_keeps_method_and_body_and_head_stays_head() {
    let policy = plain_policy();
    let hop = started(&policy, request("PUT", "https://a.example/x", &[], Some(b"body")));
    match next_hop(hop, 307, Some("https://a.example/z"), &policy) {
        HopStep::Follow(next) => {
            assert_eq!(next.method, "PUT");
            assert_eq!(next.body, Some(b"body".to_vec()));
        }
        _ => panic!("the redirect is followed"),
    }
    let head = started(&policy, request("HEAD", "https://a.example/x", &[], None));
    match next_hop(head, 302, Some("/z"), &policy) {
        HopStep::Follow(next) => assert_eq!(next.method, "HEAD"),
        _ => panic!("the redirect is followed"),
    }
}

#[test]
fn credentials_do_not_follow_to_another_host() {
    let policy = plain_policy();
    let list = [("Authorization", "Bearer t"), ("Cookie", "a=b"), ("X-Key", "k")];
    let hop = started(&policy, request("GET", "https://a.example/x", &list, None));
    match next_hop(hop, 302, Some("https://b.example/"), &policy) {
        HopStep::Follow(next) => assert_eq!(names_of(&next), vec!["x-key", "referer"]),
        _ => panic!("the redirect is followed"),
    }
    let same = started(&policy, request("GET", "https://a.example/x", &list, None));
    match next_hop(same, 302, Some("/y"), &policy) {
        HopStep::Follow(next) => {
            assert_eq!(names_of(&next), vec!["authorization", "cookie", "x-key", "referer"])
        }
        _ => panic!("the redirect is followed"),
    }
}

#[test]
fn redirects_that_lead_nowhere_end_the_chain() {
    let policy = plain_policy();
    for (status, location) in [(200, Some("/y")), (304, Some("/y")), (302, None), (302, Some("http://["))] {
        let hop = started(&policy, request("GET", "https://a.example/x", &[], None));
        assert!(matches!(next_hop(hop, status, location, &policy), HopStep::Done(_)));
    }
}

#[test]
fn downgrades_and_long_chains_are_refused() {
    let mut policy = plain_policy();
    let hop = started(&policy, request("GET", "https://a.example/x", &[], None));
    match next_hop(hop, 302, Some("http://a.example/y"), &policy) {
        HopStep::Refused(err) => {
            assert_eq!(err.kind, RuntimeErrorKind::RedirectDowngradeRefused);
            assert_eq!(
                err.message,
                "refusing https→http downgrade redirect from \"https://a.example/x\" to \"http://a.example/y\" (pass --allow-downgrade-redirects to follow it)"
            );
        }
        _ => panic!("the downgrade is refused"),
    }
    policy.max_redirects = 0;
    let hop = started(&policy, request("GET", "https://a.example/x", &[], None));
    match next_hop(hop, 302, Some("/y"), &policy) {
        HopStep::Refused(err) => {
            assert_eq!(err.kind, RuntimeErrorKind::RedirectLimitExceeded);
            assert_eq!(
                err.message,
                "redirect limit of 0 exceeded at \"https://a.example/y\" (raise --max-redirects to follow further)"
            );
        }
        _ => panic!("the redirect is one too many"),
    }
    policy.max_redirects = 10;
    policy.allow_downgrade_redirects = true;
    let hop = started(&policy, request("GET", "https://a.example/x", &[], None));
    match next_hop(hop, 302, Some("http://a.example/y"), &policy) {
        HopStep::Follow(next) => assert!(names_of(&next).is_empty()),
        _ => panic!("the downgrade is allowed"),
    }
}

#[test]
fn a_referer_hides_credentials_and_is_not_sent_on_a_downgrade() {
    assert_eq!(
        make_referer(&u("https://u:p@a.example/x?q=1#f"), &u("https://a.example/y")),
        Some("https://a.example/x?q=1".to_string())
    );
    assert_eq!(make_referer(&u("https://a.example/x"), &u("http://a.example/y")), None);
}

#[test]
fn labels_name_host_and_port() {
    assert_eq!(host_port_label(&u("https://A.example/")), "a.example:443");
    assert_eq!(host_port_label(&u("http://[::1]:8080/")), "[::1]:8080");
    assert_eq!(host_port_label(&u("data:text/plain,x")), "data:text/plain,x");
}

#[test]
fn clients_are_chosen_by_exceptions_and_unused_ones_are_known() {
    let mut policy = plain_policy();
    policy.insecure_hosts = names(&["used.example", "unused.example"]);
    let mut state = TransportState::default();
    assert_eq!(
        state.select_client(&policy, &u("https://used.example/")),
        ClientChoice::Insecure
    );
    assert_eq!(
        state.select_client(&policy, &u("https://other.example/")),
        ClientChoice::Verified
    );
    assert_eq!(state.unused_insecure_entries(&policy), vec!["unused.example"]);
    policy.insecure_all = true;
    assert_eq!(
        state.select_client(&policy, &u("https://other.example/")),
        ClientChoice::Insecure
    );
    assert!(state.unused_insecure_entries(&policy).is_empty());
}

#[test]
fn cleartext_credentials_are_warned_about_once_per_host() {
    let policy = plain_policy();
    let mut state = TransportState::default();
    let auth = headers(&[("authorization", "x")]);
    match warn_cleartext_credentials(&mut state, &policy, "http://api.example/x", &auth) {
        Some(warning) => {
            assert_eq!(warning.hosts, vec!["api.example"]);
            assert_eq!(
                warning.message,
                "credentials (Authorization/Cookie header) sent over cleartext http to non-loopback host \"api.example\""
            );
        }
        None => panic!("the first request warns"),
    }
    assert!(warn_cleartext_credentials(&mut state, &policy, "http://api.example/y", &auth).is_none());
    for url in ["https://other.example/", "http://localhost/", "not a url"] {
        assert!(warn_cleartext_credentials(&mut state, &policy, url, &auth).is_none());
    }
    let none = headers(&[("x-key", "k")]);
    assert!(warn_cleartext_credentials(&mut state, &policy, "http://b.example/", &none).is_none());
}

#[test]
fn certificate_failures_say_how_to_except_the_host() {
    let chain = vec!["error sending request".to_string(), "invalid peer Certificate".to_string()];
    assert!(error_chain_mentions_certificate(&chain));
    assert!(!error_chain_mentions_certificate(&vec!["timed out".to_string()]));
    assert_eq!(
        send_error("boom", true, &u("https://a.example/")).message,
        "executing request: boom (TLS certificate verification failed for \"a.example:443\"; if this host is intentionally serving an untrusted certificate, pass --insecure-host a.example:443)"
    );
    let plain = send_error("boom", false, &u("https://a.example/"));
    assert_eq!(plain.message, "executing request: boom");
    assert_eq!(plain.source, Some("boom".to_string()));
}

#[test]
fn headers_of_one_name_are_joined_but_for_cookies() {
    let list = vec![
        ("accept".to_string(), "a".to_string()),
        ("set-cookie".to_string(), "x=1".to_string()),
        ("accept".to_string(), "b".to_string()),
        ("set-cookie".to_string(), "y=2".to_string()),
    ];
    let merged = merge_headers(&list);
    assert_eq!(merged.get("accept"), Some(&"a, b".to_string()));
    assert_eq!(merged.get("set-cookie"), Some(&"y=2".to_string()));
}

#[test]
fn large_responses_are_refused() {
    assert!(check_content_length(Some(10), 10).is_ok());
    assert!(check_content_length(None, 0).is_ok());
    assert!(matches!(check_content_length(Some(11), 10), Err(e)
        if e.kind == RuntimeErrorKind::ResponseTooLarge
            && e.message == "response body too large: Content-Length 11 exceeds limit of 10 bytes"));
    let mut body = Vec::new();
    assert!(accept_chunk(&mut body, b"abc", 5).is_ok());
    assert!(matches!(accept_chunk(&mut body, b"def", 5), Err(e)
        if e.message == "response body too large: exceeded limit of 5 bytes while streaming"));
    assert_eq!(body, b"abc");
    assert!(accept_chunk(&mut body, b"de", 5).is_ok());
    assert_eq!(body, b"abcde");
}

#[test]
fn responses_are_classified_by_their_content_type() {
    let json = assemble_response(200, &vec![], b"{\"a\":1}".to_vec(), vec![]);
    assert_eq!(json.content_type, ContentType::Json);
    assert!(json.body_json.is_some());
    let rss = vec![("content-type".to_string(), "Application/RSS+XML".to_string())];
    let xml = assemble_response(200, &rss, b"1".to_vec(), vec![]);
    assert_eq!(xml.content_type, ContentType::Xml);
    assert!(xml.body_json.is_none());
    let text = vec![("content-type".to_string(), "Text/Plain".to_string())];
    let other = assemble_response(404, &text, b"oops".to_vec(), vec![]);
    assert_eq!(other.content_type, ContentType::Other("text/plain".to_string()));
    assert_eq!(other.status_code, 404);
    assert!(other.body_json.is_none());
}

#[test]
fn every_token_is_a_method_and_a_header_name() {
    let policy = plain_policy();
    let all: String = (0u8..=255).map(char::from).collect();
    for c in all.chars().chain(['\u{130}', '\u{20ac}']) {
        let text = format!("x{c}");
        let token = c.is_ascii_alphanumeric() || "!#$%&'*+-.^_`|~".contains(c);
        let method = start_request(&policy, request(&text, "https://a/", &[], None));
        assert_eq!(method.is_ok(), token, "{c:?}");
        let named = start_request(&policy, request("GET", "https://a/", &[(&text, "v")], None));
        assert_eq!(named.is_ok(), token, "{c:?}");
    }
    let long = "m".repeat(65_536);
    assert_eq!(started(&policy, request(&long, "https://a/", &[], None)).method, long);
    assert!(start_request(&policy, request("", "https://a/", &[], None)).is_err());
    assert!(start_request(&policy, request("GET", "https://a/", &[("", "v")], None)).is_err());
    let longest = "N".repeat(65_535);
    let hop = started(&policy, request("GET", "https://a/", &[(&longest, "v")], None));
    assert_eq!(hop.headers[0].0, "n".repeat(65_535));
    assert!(start_request(&policy, request("GET", "https://a/", &[(&long, "v")], None)).is_err());
}
