//! Sending requests: which hops a redirect chain takes, what goes along, and
//! how responses are taken in.

use crate::hosts::{host_and_port, is_loopback, is_loopback_host, split_host_port};
use crate::step_refs::NameSet;
use crate::text::{
    concat3, decimal, decimal_text, eq_ignore_case, is_alnum, lower_text, same_ignoring_case,
    same_text, stands_at, starts_with, texts, to_lower,
};
use crate::text_map::TextMap;
use crate::trace::text_map_view;
use crate::web_url::{
    copy_url, drop_fragment, drop_password, drop_user, host_is_ipv6, host_of_url, parse_url,
    port_of_url, scheme_of_url, text_of_url, url_host, url_host_is_ipv6, url_parsed, url_port,
    url_scheme, url_text, url_without_fragment, url_without_password, url_without_user,
};
use vstd::prelude::*;
use vstd::string::*;

verus! {

// ---------------------------------------------------------------------
// Methods and headers
// ---------------------------------------------------------------------

/// Whether a character may stand in a method or in the name of a header: a
/// letter, a digit or one of fifteen marks, all of them ASCII.
pub open spec fn is_token_char(c: char) -> bool {
    is_alnum(c) || c == '!' || c == '#' || c == '$' || c == '%' || c == '&' || c == '\'' || c == '*'
        || c == '+' || c == '-' || c == '.' || c == '^' || c == '_' || c == '`' || c == '|' || c
        == '~'
}

/// Whether a text is a token: some characters, each of which may stand in one.
pub open spec fn is_token(s: Seq<char>) -> bool {
    s.len() > 0 && forall|i: int| 0 <= i < s.len() ==> is_token_char(#[trigger] s[i])
}

/// How long the name of a header may be.
pub const MAX_HEADER_NAME: usize = 65_535;

/// Why a text is no HTTP method; nothing where it is one, as every token is.
pub open spec fn method_problem(text: Seq<char>) -> Option<Seq<char>> {
    if is_token(text) {
        None
    } else {
        Some("invalid HTTP method"@)
    }
}

/// Why a text is no name of a header; nothing where it is one, as every token
/// is that is not too long.
pub open spec fn header_name_problem(text: Seq<char>) -> Option<Seq<char>> {
    if is_token(text) && text.len() <= MAX_HEADER_NAME {
        None
    } else {
        Some("invalid HTTP header name"@)
    }
}

/// `reqwest::Method::from_bytes`: the method that the text is, which is the
/// text itself, where the text is a token; the same reason wherever it is none.
#[verifier::external_body]
pub(crate) fn http_method(text: &str) -> (r: Result<String, String>)
    ensures
        match r {
            Ok(m) => method_problem(text@) is None && m@ == text@,
            Err(e) => method_problem(text@) == Some(e@),
        },
{
    reqwest::Method::from_bytes(text.as_bytes()).map(|m| m.as_str().to_owned()).map_err(
        |e| e.to_string(),
    )
}

/// `reqwest::header::HeaderName::from_bytes`: the name in lower case where the
/// text is a token of at most [`MAX_HEADER_NAME`] characters; the same reason
/// wherever it is none.
#[verifier::external_body]
pub(crate) fn header_name(text: &str) -> (r: Result<String, String>)
    ensures
        match r {
            Ok(n) => header_name_problem(text@) is None && n@ == lower_text(text@),
            Err(e) => header_name_problem(text@) == Some(e@),
        },
{
    reqwest::header::HeaderName::from_bytes(text.as_bytes()).map(
        |n| n.as_str().to_owned(),
    ).map_err(|e| e.to_string())
}

/// Whether a character may stand in the value of a header: a tab, or anything
/// but the control characters.
pub open spec fn header_char(c: char) -> bool {
    c == '\t' || (c as u32 >= 32 && c as u32 != 127)
}

/// Whether a text may be the value of a header.
pub open spec fn is_header_value(s: Seq<char>) -> bool {
    forall|i: int| 0 <= i < s.len() ==> header_char(#[trigger] s[i])
}

/// `reqwest::header::HeaderValue::from_str`: accepts a text that holds no
/// control characters but tabs, and always gives the same reason where it
/// does not.
#[verifier::external_body]
pub(crate) fn check_header_value(text: &str) -> (r: Result<(), String>)
    ensures
        (r is Ok) == is_header_value(text@),
        r matches Err(e) ==> e@ == "failed to parse header value"@,
{
    reqwest::header::HeaderValue::from_str(text).map(|_| ()).map_err(|e| e.to_string())
}

// ---------------------------------------------------------------------
// Policy
// ---------------------------------------------------------------------

/// How many redirects are followed where nothing else is said.
pub const DEFAULT_MAX_REDIRECTS: usize = 10;

/// How large a response may be where nothing else is said, in bytes.
pub const DEFAULT_MAX_RESPONSE_BYTES: usize = 10_485_760;

/// How requests are sent.
#[derive(Debug, PartialEq)]
pub struct TransportPolicy {
    pub default_headers: TextMap<String>,
    /// Hosts whose certificates are not verified, each with or without a port.
    pub insecure_hosts: NameSet,
    /// Whether no certificate is verified.
    pub insecure_all: bool,
    pub allow_downgrade_redirects: bool,
    pub max_redirects: usize,
    pub max_response_bytes: usize,
}

impl Default for TransportPolicy {
    fn default() -> (r: TransportPolicy)
        ensures
            text_map_view(r.default_headers) == Map::<Seq<char>, Seq<char>>::empty().insert(
                "User-Agent"@,
                "arazzo-cli/0.1"@,
            ),
            r.insecure_hosts@ == Map::<Seq<char>, ()>::empty(),
            !r.insecure_all,
            !r.allow_downgrade_redirects,
            r.max_redirects == DEFAULT_MAX_REDIRECTS,
            r.max_response_bytes == DEFAULT_MAX_RESPONSE_BYTES,
    {
        let mut default_headers: TextMap<String> = TextMap::new();
        default_headers.insert("User-Agent".to_owned(), "arazzo-cli/0.1".to_owned());
        assert(text_map_view(default_headers) =~= Map::<Seq<char>, Seq<char>>::empty().insert(
            "User-Agent"@,
            "arazzo-cli/0.1"@,
        ));
        TransportPolicy {
            default_headers,
            insecure_hosts: TextMap::new(),
            insecure_all: false,
            allow_downgrade_redirects: false,
            max_redirects: DEFAULT_MAX_REDIRECTS,
            max_response_bytes: DEFAULT_MAX_RESPONSE_BYTES,
        }
    }
}

/// Whether a redirect is followed.
#[derive(Debug, Clone, Copy, PartialEq, Eq, Structural)]
#[non_exhaustive]
pub enum RedirectDecision {
    Follow,
    /// It leads from https to http, which is not allowed.
    RefuseDowngrade,
    /// It is one too many.
    RefuseLimit,
}

/// Whether a redirect from one URL to another is followed.
pub open spec fn redirect_decision(
    prev: Seq<char>,
    next: Seq<char>,
    hops_taken: nat,
    allow_downgrade: bool,
    max_redirects: nat,
) -> RedirectDecision {
    if url_scheme(prev) == "https"@ && url_scheme(next) == "http"@ && !allow_downgrade {
        RedirectDecision::RefuseDowngrade
    } else if hops_taken >= max_redirects {
        RedirectDecision::RefuseLimit
    } else {
        RedirectDecision::Follow
    }
}

/// Whether a redirect from one URL to another is followed, given how many were
/// followed before.
pub fn decide_redirect(
    prev: &url::Url,
    next: &url::Url,
    hops_taken: usize,
    allow_downgrade_redirects: bool,
    max_redirects: usize,
) -> (r: RedirectDecision)
    ensures
        r == redirect_decision(
            url_text(*prev),
            url_text(*next),
            hops_taken as nat,
            allow_downgrade_redirects,
            max_redirects as nat,
        ),
{
    let from = scheme_of_url(prev);
    let to = scheme_of_url(next);
    if same_text(from.as_str(), "https") && same_text(to.as_str(), "http")
        && !allow_downgrade_redirects {
        RedirectDecision::RefuseDowngrade
    } else if hops_taken >= max_redirects {
        RedirectDecision::RefuseLimit
    } else {
        RedirectDecision::Follow
    }
}

/// The host of a URL in lower case, an IPv6 address in brackets.
pub open spec fn host_key(url: Seq<char>) -> Option<Seq<char>> {
    match url_host(url) {
        Some(h) => {
            let lower = lower_text(h);
            if url_host_is_ipv6(url) && !stands_at(lower, 0, "["@) {
                Some("["@ + lower + "]"@)
            } else {
                Some(lower)
            }
        },
        None => None,
    }
}

/// The host of a URL in lower case, an IPv6 address in brackets.
pub fn url_host_key(url: &url::Url) -> (r: Option<String>)
    ensures
        match r {
            Some(h) => host_key(url_text(*url)) == Some(h@),
            None => host_key(url_text(*url)) is None,
        },
{
    match host_of_url(url) {
        Some(h) => {
            let lower = to_lower(h.as_str());
            if host_is_ipv6(url) && !starts_with(lower.as_str(), "[") {
                Some(concat3("[", lower.as_str(), "]"))
            } else {
                Some(lower)
            }
        },
        None => None,
    }
}

/// Whether an exception is for a host and port: one with a port for that port
/// alone, one without for any.
pub open spec fn entry_covers(entry: Seq<char>, host: Seq<char>, port: Option<u16>) -> bool {
    match host_and_port(lower_text(entry)) {
        Some(e) => e.0 == host && Some(e.1) == port,
        None => lower_text(entry) == host,
    }
}

/// The first exception, at or after `from`, that is for a host and port.
pub open spec fn covering_from(
    entries: Seq<Seq<char>>,
    host: Seq<char>,
    port: Option<u16>,
    from: int,
) -> Option<Seq<char>>
    decreases entries.len() - from,
{
    if from >= entries.len() {
        None
    } else if entry_covers(entries[from], host, port) {
        Some(entries[from])
    } else {
        covering_from(entries, host, port, from + 1)
    }
}

/// The exception that is for a URL.
pub open spec fn insecure_entry(entries: NameSet, url: Seq<char>) -> Option<Seq<char>> {
    match host_key(url) {
        Some(host) => covering_from(entries.keys(), host, url_port(url), 0),
        None => None,
    }
}

/// The exception that is for a URL.
pub fn matched_insecure_entry(insecure_hosts: &NameSet, url: &url::Url) -> (r: Option<String>)
    ensures
        match r {
            Some(e) => insecure_entry(*insecure_hosts, url_text(*url)) == Some(e@),
            None => insecure_entry(*insecure_hosts, url_text(*url)) is None,
        },
{
    let host = match url_host_key(url) {
        Some(h) => h,
        None => {
            return None;
        },
    };
    let port = port_of_url(url);
    let ghost p = url_port(url_text(*url));
    let count = insecure_hosts.len();
    let mut i: usize = 0;
    while i < count
        invariant
            i <= count,
            count == insecure_hosts.keys().len(),
            insecure_hosts.wf(),
            port == p,
            p == url_port(url_text(*url)),
            host_key(url_text(*url)) == Some(host@),
            covering_from(insecure_hosts.keys(), host@, p, 0) == covering_from(
                insecure_hosts.keys(),
                host@,
                p,
                i as int,
            ),
        decreases count - i,
    {
        let entry = insecure_hosts.key_at(i);
        let lowered = to_lower(entry.as_str());
        let covers = match split_host_port(lowered.as_str()) {
            Some((entry_host, entry_port)) => match port {
                Some(n) => same_text(entry_host.as_str(), host.as_str()) && entry_port == n,
                None => false,
            },
            None => same_text(lowered.as_str(), host.as_str()),
        };
        if covers {
            return Some(entry.clone());
        }
        i = i + 1;
    }
    None
}

/// Whether a redirect leads to another host or port.
pub open spec fn crosses_hosts(prev: Seq<char>, next: Seq<char>) -> bool {
    url_host(prev) != url_host(next) || url_port(prev) != url_port(next)
}

/// Whether a redirect leads to another host or port.
pub fn is_cross_host_hop(prev: &url::Url, next: &url::Url) -> (r: bool)
    ensures
        r == crosses_hosts(url_text(*prev), url_text(*next)),
{
    let same_host = match (host_of_url(prev), host_of_url(next)) {
        (Some(a), Some(b)) => same_text(a.as_str(), b.as_str()),
        (None, None) => true,
        _ => false,
    };
    let same_port = match (port_of_url(prev), port_of_url(next)) {
        (Some(a), Some(b)) => a == b,
        (None, None) => true,
        _ => false,
    };
    !same_host || !same_port
}

/// A host with its port, for messages.
pub open spec fn host_label(url: Seq<char>) -> Seq<char> {
    let host = match host_key(url) {
        Some(h) => h,
        None => url,
    };
    match url_port(url) {
        Some(p) => host + ":"@ + decimal(p as nat),
        None => host,
    }
}

/// A host with its port, for messages.
pub fn host_port_label(url: &url::Url) -> (r: String)
    ensures
        r@ == host_label(url_text(*url)),
{
    let host = match url_host_key(url) {
        Some(h) => h,
        None => text_of_url(url),
    };
    match port_of_url(url) {
        Some(p) => {
            let port = decimal_text(p as u64);
            concat3(host.as_str(), ":", port.as_str())
        },
        None => host,
    }
}

/// A URL without what a referer does not show.
pub open spec fn shown_referer(url: Seq<char>) -> Seq<char> {
    url_without_fragment(url_without_password(url_without_user(url)))
}

/// The referer of a redirect: the URL that it comes from without credentials
/// and fragment, and none where it leads from https to http.
pub open spec fn referer(prev: Seq<char>, next: Seq<char>) -> Option<Seq<char>> {
    if url_scheme(next) == "http"@ && url_scheme(prev) == "https"@ {
        None
    } else if is_header_value(shown_referer(prev)) {
        Some(shown_referer(prev))
    } else {
        None
    }
}

/// The referer of a redirect.
pub fn make_referer(prev: &url::Url, next: &url::Url) -> (r: Option<String>)
    ensures
        match r {
            Some(t) => referer(url_text(*prev), url_text(*next)) == Some(t@),
            None => referer(url_text(*prev), url_text(*next)) is None,
        },
{
    let from = scheme_of_url(prev);
    let to = scheme_of_url(next);
    if same_text(to.as_str(), "http") && same_text(from.as_str(), "https") {
        return None;
    }
    let mut shown = copy_url(prev);
    drop_user(&mut shown);
    drop_password(&mut shown);
    drop_fragment(&mut shown);
    let text = text_of_url(&shown);
    match check_header_value(text.as_str()) {
        Ok(_) => Some(text),
        Err(_) => None,
    }
}

// ---------------------------------------------------------------------
// Which client sends a hop
// ---------------------------------------------------------------------

/// Which client sends a hop.
#[derive(Debug, Clone, Copy, PartialEq, Eq, Structural)]
pub enum ClientChoice {
    Verified,
    Insecure,
}

/// What is remembered of the requests that were sent.
#[derive(Debug, PartialEq)]
pub struct TransportState {
    /// The exceptions that a request was sent under.
    pub used_insecure_entries: NameSet,
    /// The hosts that were warned about.
    pub warned_cleartext_hosts: NameSet,
}

impl Default for TransportState {
    fn default() -> (r: TransportState)
        ensures
            r.used_insecure_entries@ == Map::<Seq<char>, ()>::empty(),
            r.warned_cleartext_hosts@ == Map::<Seq<char>, ()>::empty(),
    {
        TransportState {
            used_insecure_entries: TextMap::new(),
            warned_cleartext_hosts: TextMap::new(),
        }
    }
}

/// The client that a hop is sent with.
pub open spec fn client_for(policy: TransportPolicy, url: Seq<char>) -> ClientChoice {
    if policy.insecure_all || insecure_entry(policy.insecure_hosts, url) is Some {
        ClientChoice::Insecure
    } else {
        ClientChoice::Verified
    }
}

impl TransportState {
    /// Remembers that a host was warned about; false where it was before.
    pub fn note_cleartext_warned(&mut self, host: &str) -> (r: bool)
        ensures
            r == !old(self).warned_cleartext_hosts@.contains_key(host@),
            final(self).warned_cleartext_hosts@ == old(self).warned_cleartext_hosts@.insert(
                host@,
                (),
            ),
            final(self).used_insecure_entries == old(self).used_insecure_entries,
    {
        let known = self.warned_cleartext_hosts.contains_key(host);
        self.warned_cleartext_hosts.insert(host.to_owned(), ());
        !known
    }

    /// Chooses the client that sends a hop: certificates go unverified where
    /// everything is excepted or an exception is for the URL, which is then
    /// remembered as used.
    pub fn select_client(&mut self, policy: &TransportPolicy, url: &url::Url) -> (r: ClientChoice)
        ensures
            r == client_for(*policy, url_text(*url)),
            final(self).warned_cleartext_hosts == old(self).warned_cleartext_hosts,
            ({
                let entry = insecure_entry(policy.insecure_hosts, url_text(*url));
                if policy.insecure_all {
                    r is Insecure && final(self).used_insecure_entries
                        == old(self).used_insecure_entries
                } else {
                    match entry {
                        Some(e) => r is Insecure && final(self).used_insecure_entries@ == old(
                            self,
                        ).used_insecure_entries@.insert(e, ()),
                        None => r is Verified && final(self).used_insecure_entries == old(
                            self,
                        ).used_insecure_entries,
                    }
                }
            }),
    {
        if policy.insecure_all {
            return ClientChoice::Insecure;
        }
        match matched_insecure_entry(&policy.insecure_hosts, url) {
            Some(entry) => {
                self.used_insecure_entries.insert(entry, ());
                ClientChoice::Insecure
            },
            None => ClientChoice::Verified,
        }
    }

    /// The exceptions that no request was sent under. Where everything is
    /// excepted there are none to speak of.
    pub fn unused_insecure_entries(&self, policy: &TransportPolicy) -> (r: Vec<String>)
        ensures
            texts(r@) == if policy.insecure_all {
                Seq::empty()
            } else {
                unused_upto(
                    policy.insecure_hosts.keys(),
                    self.used_insecure_entries@.dom(),
                    policy.insecure_hosts.keys().len(),
                )
            },
    {
        let mut out: Vec<String> = Vec::new();
        assert(texts(out@) =~= Seq::<Seq<char>>::empty());
        if policy.insecure_all {
            return out;
        }
        let hosts = &policy.insecure_hosts;
        let count = hosts.len();
        let mut i: usize = 0;
        while i < count
            invariant
                i <= count,
                count == hosts.keys().len(),
                hosts.wf(),
                texts(out@) == unused_upto(
                    hosts.keys(),
                    self.used_insecure_entries@.dom(),
                    i as nat,
                ),
            decreases count - i,
        {
            let entry = hosts.key_at(i);
            let ghost before = out@;
            if !self.used_insecure_entries.contains_key(entry.as_str()) {
                out.push(entry.clone());
                assert(texts(out@) =~= texts(before).push(entry@));
            }
            i = i + 1;
        }
        out
    }
}

/// Those of the first `n` exceptions that were not used.
pub open spec fn unused_upto(entries: Seq<Seq<char>>, used: Set<Seq<char>>, n: nat) -> Seq<
    Seq<char>,
>
    decreases n,
{
    if n == 0 {
        Seq::empty()
    } else {
        let before = unused_upto(entries, used, (n - 1) as nat);
        if used.contains(entries[n - 1]) {
            before
        } else {
            before.push(entries[n - 1])
        }
    }
}

// ---------------------------------------------------------------------
// Credentials in the clear
// ---------------------------------------------------------------------

/// What a transport warning is about.
#[derive(Debug, Clone, Copy, PartialEq, Eq, Structural)]
pub enum TransportWarningKind {
    CleartextCredentials,
}

/// A warning about how a request is sent.
#[derive(Debug, PartialEq)]
pub struct TransportWarning {
    pub kind: TransportWarningKind,
    pub hosts: Vec<String>,
    pub message: String,
}

/// The content of a transport warning.
#[verifier::ext_equal]
pub struct TransportWarningView {
    pub kind: TransportWarningKind,
    pub hosts: Seq<Seq<char>>,
    pub message: Seq<char>,
}

impl View for TransportWarning {
    type V = TransportWarningView;

    open spec fn view(&self) -> TransportWarningView {
        TransportWarningView { kind: self.kind, hosts: texts(self.hosts@), message: self.message@ }
    }
}

/// Whether a header carries credentials.
pub open spec fn is_credential(name: Seq<char>) -> bool {
    same_ignoring_case(name, "authorization"@) || same_ignoring_case(name, "cookie"@)
}

/// Whether headers carry credentials.
pub open spec fn has_credentials(headers: TextMap<String>) -> bool {
    exists|k: Seq<char>| #[trigger] headers@.contains_key(k) && is_credential(k)
}

fn carries_credentials(headers: &TextMap<String>) -> (r: bool)
    ensures
        r == has_credentials(*headers),
{
    let count = headers.len();
    let mut i: usize = 0;
    while i < count
        invariant
            i <= count,
            count == headers.keys().len(),
            headers.wf(),
            forall|j: int| 0 <= j < i ==> !is_credential(#[trigger] headers.keys()[j]),
        decreases count - i,
    {
        let name = headers.key_at(i);
        if eq_ignore_case(name.as_str(), "authorization") || eq_ignore_case(
            name.as_str(),
            "cookie",
        ) {
            assert(headers.keys()[i as int] == name@);
            assert(headers@.dom().contains(name@));
            assert(headers@.contains_key(name@));
            return true;
        }
        i = i + 1;
    }
    assert forall|k: Seq<char>| #[trigger] headers@.contains_key(k) implies !is_credential(k) by {
        assert(headers.keys().contains(k));
        let j = headers.keys().index_of(k);
        assert(headers.keys()[j] == k);
    }
    false
}

/// The host that a request sends credentials to in the clear: one that is not
/// the machine itself, over http.
pub open spec fn cleartext_host(
    url: Seq<char>,
    headers: TextMap<String>,
    defaults: TextMap<String>,
) -> Option<Seq<char>> {
    match url_parsed(url) {
        Ok(u) => match url_host(u) {
            Some(host) => if url_scheme(u) == "http"@ && !is_loopback(host) && (has_credentials(
                headers,
            ) || has_credentials(defaults)) {
                Some(host)
            } else {
                None
            },
            None => None,
        },
        Err(_) => None,
    }
}

/// The words of the warning about credentials in the clear.
pub open spec fn cleartext_words(host: Seq<char>) -> Seq<char> {
    "credentials (Authorization/Cookie header) sent over cleartext http to non-loopback host \""@
        + host + "\""@
}

/// Warns, once for each host, that a request sends credentials in the clear.
pub fn warn_cleartext_credentials(
    state: &mut TransportState,
    policy: &TransportPolicy,
    url: &str,
    headers: &TextMap<String>,
) -> (r: Option<TransportWarning>)
    ensures
        final(state).used_insecure_entries == old(state).used_insecure_entries,
        match cleartext_host(url@, *headers, policy.default_headers) {
            Some(host) => {
                &&& final(state).warned_cleartext_hosts@ == old(
                    state,
                ).warned_cleartext_hosts@.insert(host, ())
                &&& (r is Some) == !old(state).warned_cleartext_hosts@.contains_key(host)
                &&& r matches Some(w) ==> w@ == (TransportWarningView {
                    kind: TransportWarningKind::CleartextCredentials,
                    hosts: seq![host],
                    message: cleartext_words(host),
                })
            },
            None => r is None && final(state).warned_cleartext_hosts == old(
                state,
            ).warned_cleartext_hosts,
        },
{
    let parsed = match parse_url(url) {
        Ok(u) => u,
        Err(_) => {
            return None;
        },
    };
    let scheme = scheme_of_url(&parsed);
    if !same_text(scheme.as_str(), "http") {
        return None;
    }
    let host = match host_of_url(&parsed) {
        Some(h) => h,
        None => {
            return None;
        },
    };
    if is_loopback_host(host.as_str()) {
        return None;
    }
    if !carries_credentials(headers) && !carries_credentials(&policy.default_headers) {
        return None;
    }
    if !state.note_cleartext_warned(host.as_str()) {
        return None;
    }
    let message = concat3(
        "credentials (Authorization/Cookie header) sent over cleartext http to non-loopback host \"",
        host.as_str(),
        "\"",
    );
    let ghost h = host@;
    let mut hosts: Vec<String> = Vec::new();
    hosts.push(host);
    assert(texts(hosts@) =~= seq![h]);
    Some(TransportWarning { kind: TransportWarningKind::CleartextCredentials, hosts, message })
}

} // verus!
