//! One request after the other along a chain of redirects, and the response
//! at its end.

use crate::error::{ErrorView, RuntimeError, RuntimeErrorKind};
use crate::exchange::ResponseView;
use crate::json_text::{parse_json, parsed_json};
use crate::outcome::Response;
use crate::replay::{opt_bytes, RequestConfig};
use crate::text::{
    concat3, concat5, contains_part, decimal, decimal_text, lower_text, occurs_in, same_text, to_lower,
};
use crate::text_map::TextMap;
use crate::trace::{
    hop_views, text_map_view, ContentType, ContentTypeView, HopView, TraceRedirectHop,
};
use crate::transport::{
    check_header_value, crosses_hosts, decide_redirect, header_name, header_name_problem,
    host_label, host_port_label, http_method, is_cross_host_hop, is_header_value, make_referer,
    method_problem, redirect_decision, referer, RedirectDecision, TransportPolicy,
};
use crate::web_url::{
    join_url, pair_views, parse_url, text_of_url, url_joined, url_parsed, url_text,
};
use vstd::prelude::*;
use vstd::string::*;

verus! {

// ---------------------------------------------------------------------
// Header lists
// ---------------------------------------------------------------------

/// A list of headers without those of a name.
pub open spec fn without_header(list: Seq<(Seq<char>, Seq<char>)>, name: Seq<char>) -> Seq<
    (Seq<char>, Seq<char>),
>
    decreases list.len(),
{
    if list.len() == 0 {
        list
    } else {
        let before = without_header(list.drop_last(), name);
        if list.last().0 == name {
            before
        } else {
            before.push(list.last())
        }
    }
}

/// What is left without the headers of a name has none of that name, and all
/// the others.
pub proof fn header_is_gone(list: Seq<(Seq<char>, Seq<char>)>, name: Seq<char>)
    ensures
        forall|i: int|
            0 <= i < without_header(list, name).len() ==> (#[trigger] without_header(
                list,
                name,
            )[i]).0 != name && list.contains(without_header(list, name)[i]),
    decreases list.len(),
{
    if list.len() > 0 {
        let before = list.drop_last();
        header_is_gone(before, name);
        assert forall|i: int| 0 <= i < without_header(list, name).len() implies (
        #[trigger] without_header(list, name)[i]).0 != name && list.contains(
            without_header(list, name)[i],
        ) by {
            if i < without_header(before, name).len() {
                let kept = without_header(before, name)[i];
                assert(before.contains(kept));
                let k = choose|k: int| 0 <= k < before.len() && before[k] == kept;
                assert(list[k] == kept);
            } else {
                assert(list[list.len() - 1] == without_header(list, name)[i]);
            }
        }
    }
}

fn remove_header(list: &mut Vec<(String, String)>, name: &str)
    ensures
        pair_views(final(list)@) == without_header(pair_views(old(list)@), name@),
{
    let ghost given = pair_views(list@);
    let mut out: Vec<(String, String)> = Vec::new();
    let mut i: usize = 0;
    assert(pair_views(out@) =~= without_header(given.take(0), name@));
    while i < list.len()
        invariant
            i <= list@.len(),
            given == pair_views(list@),
            pair_views(out@) == without_header(given.take(i as int), name@),
        decreases list@.len() - i,
    {
        assert(given.take(i + 1).drop_last() =~= given.take(i as int));
        assert(given[i as int] == (list@[i as int].0@, list@[i as int].1@));
        let ghost before = out@;
        if !same_text(list[i].0.as_str(), name) {
            out.push((list[i].0.clone(), list[i].1.clone()));
            assert(pair_views(out@) =~= pair_views(before).push(given[i as int]));
        }
        i = i + 1;
    }
    assert(given.take(i as int) =~= given);
    *list = out;
}

/// A list of headers in which a name has one value.
pub open spec fn with_header(
    list: Seq<(Seq<char>, Seq<char>)>,
    name: Seq<char>,
    value: Seq<char>,
) -> Seq<(Seq<char>, Seq<char>)> {
    without_header(list, name).push((name, value))
}

/// The headers that a body brings along.
pub open spec fn without_body_headers(list: Seq<(Seq<char>, Seq<char>)>) -> Seq<
    (Seq<char>, Seq<char>),
> {
    without_header(
        without_header(
            without_header(without_header(list, "transfer-encoding"@), "content-encoding"@),
            "content-type"@,
        ),
        "content-length"@,
    )
}

/// The headers that are for one host alone.
pub open spec fn without_host_headers(list: Seq<(Seq<char>, Seq<char>)>) -> Seq<
    (Seq<char>, Seq<char>),
> {
    without_header(
        without_header(
            without_header(
                without_header(without_header(list, "authorization"@), "cookie"@),
                "proxy-authorization"@,
            ),
            "www-authenticate"@,
        ),
        "cookie2"@,
    )
}

// ---------------------------------------------------------------------
// Hops
// ---------------------------------------------------------------------

/// One request of a chain, and the redirects that led to it.
pub struct RequestHop {
    pub method: String,
    pub url: url::Url,
    /// Names are in lower case; a name may have several values.
    pub headers: Vec<(String, String)>,
    pub body: Option<Vec<u8>>,
    pub hops: Vec<TraceRedirectHop>,
}

/// The content of one request of a chain.
#[verifier::ext_equal]
pub struct RequestHopView {
    pub method: Seq<char>,
    pub url: Seq<char>,
    pub headers: Seq<(Seq<char>, Seq<char>)>,
    pub body: Option<Seq<u8>>,
    pub hops: Seq<HopView>,
}

impl View for RequestHop {
    type V = RequestHopView;

    open spec fn view(&self) -> RequestHopView {
        RequestHopView {
            method: self.method@,
            url: url_text(self.url),
            headers: pair_views(self.headers@),
            body: opt_bytes(self.body),
            hops: hop_views(self.hops@),
        }
    }
}

/// An error about a request.
pub open spec fn request_error(message: Seq<char>) -> ErrorView {
    ErrorView { kind: RuntimeErrorKind::HttpRequest, message }
}

/// The first `n` headers of a map, names in lower case, behind others; or the
/// first that is none.
pub open spec fn headers_listed(
    start: Seq<(Seq<char>, Seq<char>)>,
    m: TextMap<String>,
    n: nat,
) -> Result<Seq<(Seq<char>, Seq<char>)>, ErrorView>
    decreases n,
{
    if n == 0 {
        Ok(start)
    } else {
        match headers_listed(start, m, (n - 1) as nat) {
            Err(e) => Err(e),
            Ok(before) => {
                let name = m.keys()[n - 1];
                let value = m.values()[n - 1]@;
                match header_name_problem(name) {
                    Some(p) => Err(
                        request_error(
                            "executing request: invalid header name \""@ + name + "\": "@ + p,
                        ),
                    ),
                    None => if is_header_value(value) {
                        Ok(before.push((lower_text(name), value)))
                    } else {
                        Err(
                            request_error(
                                "executing request: invalid value for header \""@ + name + "\": "@
                                    + "failed to parse header value"@,
                            ),
                        )
                    },
                }
            },
        }
    }
}

proof fn failed_listing_stays(
    start: Seq<(Seq<char>, Seq<char>)>,
    m: TextMap<String>,
    k: nat,
    n: nat,
)
    requires
        k <= n,
        headers_listed(start, m, k) is Err,
    ensures
        headers_listed(start, m, n) == headers_listed(start, m, k),
    decreases n,
{
    if k < n {
        failed_listing_stays(start, m, k, (n - 1) as nat);
    }
}

fn list_headers(given: Vec<(String, String)>, m: &TextMap<String>) -> (r: Result<
    Vec<(String, String)>,
    RuntimeError,
>)
    ensures
        match headers_listed(pair_views(given@), *m, m.keys().len()) {
            Ok(l) => r matches Ok(x) && pair_views(x@) == l,
            Err(e) => r matches Err(x) && x@ == e,
        },
{
    let ghost start = pair_views(given@);
    let mut list = given;
    let count = m.len();
    let mut i: usize = 0;
    while i < count
        invariant
            i <= count,
            count == m.keys().len(),
            m.wf(),
            start == pair_views(given@),
            headers_listed(start, *m, i as nat) == Ok::<Seq<(Seq<char>, Seq<char>)>, ErrorView>(
                pair_views(list@),
            ),
        decreases count - i,
    {
        let key = m.key_at(i);
        let value = m.value_at(i);
        let name = match header_name(key.as_str()) {
            Ok(n) => n,
            Err(e) => {
                proof {
                    failed_listing_stays(start, *m, (i + 1) as nat, count as nat);
                }
                let mut message = "executing request: invalid header name \"".to_owned();
                message.append(key.as_str());
                message.append("\": ");
                message.append(e.as_str());
                return Err(RuntimeError::new(RuntimeErrorKind::HttpRequest, message));
            },
        };
        match check_header_value(value.as_str()) {
            Ok(_) => {},
            Err(e) => {
                proof {
                    failed_listing_stays(start, *m, (i + 1) as nat, count as nat);
                }
                let mut message = "executing request: invalid value for header \"".to_owned();
                message.append(key.as_str());
                message.append("\": ");
                message.append(e.as_str());
                return Err(RuntimeError::new(RuntimeErrorKind::HttpRequest, message));
            },
        }
        let ghost before = list@;
        let ghost pair = (name@, value@);
        list.push((name, value.clone()));
        assert(pair_views(list@) =~= pair_views(before).push(pair));
        i = i + 1;
    }
    Ok(list)
}

/// The first request of a chain: the default headers go before those of the
/// request, and a name may occur in both.
pub open spec fn first_hop(policy: TransportPolicy, cfg: RequestConfig) -> Result<
    RequestHopView,
    ErrorView,
> {
    match method_problem(cfg.method@) {
        Some(p) => Err(
            ErrorView {
                kind: RuntimeErrorKind::InvalidHttpMethod,
                message: "invalid HTTP method "@ + cfg.method@ + ": "@ + p,
            },
        ),
        None => match url_parsed(cfg.url@) {
            Err(p) => Err(
                request_error("executing request: invalid URL \""@ + cfg.url@ + "\": "@ + p.1),
            ),
            Ok(url) => match headers_listed(
                Seq::empty(),
                policy.default_headers,
                policy.default_headers.keys().len(),
            ) {
                Err(e) => Err(e),
                Ok(defaults) => match headers_listed(
                    defaults,
                    cfg.headers,
                    cfg.headers.keys().len(),
                ) {
                    Err(e) => Err(e),
                    Ok(headers) => Ok(
                        RequestHopView {
                            method: cfg.method@,
                            url,
                            headers,
                            body: opt_bytes(cfg.body),
                            hops: Seq::empty(),
                        },
                    ),
                },
            },
        },
    }
}

/// The first request of a chain.
pub fn start_request(policy: &TransportPolicy, cfg: RequestConfig) -> (r: Result<
    RequestHop,
    RuntimeError,
>)
    ensures
        match first_hop(*policy, cfg) {
            Ok(v) => r matches Ok(h) && h@ == v,
            Err(e) => r matches Err(x) && x@ == e,
        },
{
    let method = match http_method(cfg.method.as_str()) {
        Ok(m) => m,
        Err(e) => {
            let mut message = "invalid HTTP method ".to_owned();
            message.append(cfg.method.as_str());
            message.append(": ");
            message.append(e.as_str());
            return Err(RuntimeError::new(RuntimeErrorKind::InvalidHttpMethod, message));
        },
    };
    let url = match parse_url(cfg.url.as_str()) {
        Ok(u) => u,
        Err(e) => {
            let mut message = "executing request: invalid URL \"".to_owned();
            message.append(cfg.url.as_str());
            message.append("\": ");
            message.append(e.message.as_str());
            return Err(RuntimeError::new(RuntimeErrorKind::HttpRequest, message));
        },
    };
    let none: Vec<(String, String)> = Vec::new();
    assert(pair_views(none@) =~= Seq::<(Seq<char>, Seq<char>)>::empty());
    let defaults = match list_headers(none, &policy.default_headers) {
        Ok(l) => l,
        Err(e) => {
            return Err(e);
        },
    };
    let headers = match list_headers(defaults, &cfg.headers) {
        Ok(l) => l,
        Err(e) => {
            return Err(e);
        },
    };
    let hops: Vec<TraceRedirectHop> = Vec::new();
    assert(hop_views(hops@) =~= Seq::<HopView>::empty());
    Ok(RequestHop { method, url, headers, body: cfg.body, hops })
}

/// Whether a status redirects.
pub open spec fn redirects(status: u16) -> bool {
    status == 301 || status == 302 || status == 303 || status == 307 || status == 308
}

/// Whether a redirect drops the body and turns the method into `GET`.
pub open spec fn drops_body(status: u16) -> bool {
    301 <= status <= 303
}

/// What comes after the response to a hop.
pub enum HopStep {
    /// The response is the one that counts.
    Done(RequestHop),
    /// Another request is sent.
    Follow(RequestHop),
    /// The redirect is refused.
    Refused(RuntimeError),
}

/// The content of what comes after a response.
pub enum HopStepView {
    Done(RequestHopView),
    Follow(RequestHopView),
    Refused(ErrorView),
}

impl View for HopStep {
    type V = HopStepView;

    open spec fn view(&self) -> HopStepView {
        match self {
            HopStep::Done(h) => HopStepView::Done(h@),
            HopStep::Follow(h) => HopStepView::Follow(h@),
            HopStep::Refused(e) => HopStepView::Refused(e@),
        }
    }
}

/// The request that a redirect leads to.
pub open spec fn hop_to(h: RequestHopView, status: u16, next: Seq<char>) -> RequestHopView {
    let kept = if drops_body(status) {
        without_body_headers(h.headers)
    } else {
        h.headers
    };
    let allowed = if crosses_hosts(h.url, next) {
        without_host_headers(kept)
    } else {
        kept
    };
    RequestHopView {
        method: if drops_body(status) && h.method != "GET"@ && h.method != "HEAD"@ {
            "GET"@
        } else {
            h.method
        },
        url: next,
        headers: match referer(h.url, next) {
            Some(r) => with_header(allowed, "referer"@, r),
            None => allowed,
        },
        body: if drops_body(status) {
            None
        } else {
            h.body
        },
        hops: h.hops.push(HopView { status_code: status as i64, from: h.url, to: next }),
    }
}

/// What comes after the response to a hop. A response that does not redirect,
/// or not to a URL, is the one that counts.
pub open spec fn after_response(
    h: RequestHopView,
    status: u16,
    location: Option<Seq<char>>,
    policy: TransportPolicy,
) -> HopStepView {
    if !redirects(status) || location is None || url_joined(h.url, location->0) is Err {
        HopStepView::Done(h)
    } else {
        let next = url_joined(h.url, location->0)->Ok_0;
        match redirect_decision(
            h.url,
            next,
            h.hops.len(),
            policy.allow_downgrade_redirects,
            policy.max_redirects as nat,
        ) {
            RedirectDecision::RefuseDowngrade => HopStepView::Refused(
                ErrorView {
                    kind: RuntimeErrorKind::RedirectDowngradeRefused,
                    message: "refusing https→http downgrade redirect from \""@ + h.url
                        + "\" to \""@ + next
                        + "\" (pass --allow-downgrade-redirects to follow it)"@,
                },
            ),
            RedirectDecision::RefuseLimit => HopStepView::Refused(
                ErrorView {
                    kind: RuntimeErrorKind::RedirectLimitExceeded,
                    message: "redirect limit of "@ + decimal(policy.max_redirects as nat)
                        + " exceeded at \""@ + next
                        + "\" (raise --max-redirects to follow further)"@,
                },
            ),
            RedirectDecision::Follow => HopStepView::Follow(hop_to(h, status, next)),
        }
    }
}

/// What comes after the response to a hop: `status` is its status and
/// `location` its `Location` header, where that is text.
pub fn next_hop(
    hop: RequestHop,
    status: u16,
    location: Option<&str>,
    policy: &TransportPolicy,
) -> (r: HopStep)
    ensures
        r@ == after_response(
            hop@,
            status,
            match location {
                Some(l) => Some(l@),
                None => None,
            },
            *policy,
        ),
{
    if !(status == 301 || status == 302 || status == 303 || status == 307 || status == 308) {
        return HopStep::Done(hop);
    }
    let location = match location {
        Some(l) => l,
        None => {
            return HopStep::Done(hop);
        },
    };
    let next = match join_url(&hop.url, location) {
        Ok(u) => u,
        Err(_) => {
            return HopStep::Done(hop);
        },
    };
    assert(hop_views(hop.hops@).len() == hop.hops@.len());
    let from = text_of_url(&hop.url);
    let to = text_of_url(&next);
    match decide_redirect(
        &hop.url,
        &next,
        hop.hops.len(),
        policy.allow_downgrade_redirects,
        policy.max_redirects,
    ) {
        RedirectDecision::Follow => {},
        RedirectDecision::RefuseDowngrade => {
            let message = concat5(
                "refusing https→http downgrade redirect from \"",
                from.as_str(),
                "\" to \"",
                to.as_str(),
                "\" (pass --allow-downgrade-redirects to follow it)",
            );
            return HopStep::Refused(
                RuntimeError::new(RuntimeErrorKind::RedirectDowngradeRefused, message),
            );
        },
        RedirectDecision::RefuseLimit => {
            let limit = decimal_text(policy.max_redirects as u64);
            let message = concat5(
                "redirect limit of ",
                limit.as_str(),
                " exceeded at \"",
                to.as_str(),
                "\" (raise --max-redirects to follow further)",
            );
            return HopStep::Refused(
                RuntimeError::new(RuntimeErrorKind::RedirectLimitExceeded, message),
            );
        },
    }
    let drop_body = status <= 303;
    let cross = is_cross_host_hop(&hop.url, &next);
    let referer_text = make_referer(&hop.url, &next);
    let ghost v = hop@;
    let mut headers = hop.headers;
    let mut hops = hop.hops;
    let ghost before = hops@;
    let taken = TraceRedirectHop { status_code: status as i64, from, to };
    let ghost t = taken@;
    hops.push(taken);
    assert(hop_views(hops@) =~= hop_views(before).push(t));
    let method = if drop_body && !same_text(hop.method.as_str(), "GET") && !same_text(
        hop.method.as_str(),
        "HEAD",
    ) {
        "GET".to_owned()
    } else {
        hop.method
    };
    let body = if drop_body {
        remove_header(&mut headers, "transfer-encoding");
        remove_header(&mut headers, "content-encoding");
        remove_header(&mut headers, "content-type");
        remove_header(&mut headers, "content-length");
        None
    } else {
        hop.body
    };
    if cross {
        remove_header(&mut headers, "authorization");
        remove_header(&mut headers, "cookie");
        remove_header(&mut headers, "proxy-authorization");
        remove_header(&mut headers, "www-authenticate");
        remove_header(&mut headers, "cookie2");
    }
    match referer_text {
        Some(text) => {
            remove_header(&mut headers, "referer");
            let ghost listed = headers@;
            let ghost shown = text@;
            headers.push(("referer".to_owned(), text));
            assert(pair_views(headers@) =~= pair_views(listed).push(("referer"@, shown)));
        },
        None => {},
    }
    HopStep::Follow(RequestHop { method, url: next, headers, body, hops })
}

/// A chain takes no more redirects than the policy allows.
pub proof fn chain_is_bounded(
    h: RequestHopView,
    status: u16,
    location: Option<Seq<char>>,
    policy: TransportPolicy,
)
    ensures
        after_response(h, status, location, policy) matches HopStepView::Follow(next)
            ==> next.hops.len() == h.hops.len() + 1 && next.hops.len() <= policy.max_redirects,
{
}

/// A redirect from https to http is followed only where the policy allows it.
pub proof fn no_silent_downgrade(
    h: RequestHopView,
    status: u16,
    location: Option<Seq<char>>,
    policy: TransportPolicy,
)
    ensures
        after_response(h, status, location, policy) matches HopStepView::Follow(next)
            ==> policy.allow_downgrade_redirects || !(crate::web_url::url_scheme(h.url)
            == "https"@ && crate::web_url::url_scheme(next.url) == "http"@),
{
}

/// Whether a header is for one host alone.
pub open spec fn for_one_host(name: Seq<char>) -> bool {
    ||| name == "authorization"@
    ||| name == "cookie"@
    ||| name == "proxy-authorization"@
    ||| name == "www-authenticate"@
    ||| name == "cookie2"@
}

proof fn host_headers_are_gone(list: Seq<(Seq<char>, Seq<char>)>)
    ensures
        forall|i: int|
            0 <= i < without_host_headers(list).len() ==> !for_one_host(
                (#[trigger] without_host_headers(list)[i]).0,
            ),
{
    let a = without_header(list, "authorization"@);
    let b = without_header(a, "cookie"@);
    let c = without_header(b, "proxy-authorization"@);
    let d = without_header(c, "www-authenticate"@);
    let e = without_header(d, "cookie2"@);
    header_is_gone(list, "authorization"@);
    header_is_gone(a, "cookie"@);
    header_is_gone(b, "proxy-authorization"@);
    header_is_gone(c, "www-authenticate"@);
    header_is_gone(d, "cookie2"@);
    assert forall|i: int| 0 <= i < e.len() implies !for_one_host((#[trigger] e[i]).0) by {
        let x = e[i];
        assert(d.contains(x));
        let j = choose|j: int| 0 <= j < d.len() && d[j] == x;
        assert(d[j].0 != "www-authenticate"@ && c.contains(x));
        let k = choose|k: int| 0 <= k < c.len() && c[k] == x;
        assert(c[k].0 != "proxy-authorization"@ && b.contains(x));
        let l = choose|l: int| 0 <= l < b.len() && b[l] == x;
        assert(b[l].0 != "cookie"@ && a.contains(x));
        let m = choose|m: int| 0 <= m < a.len() && a[m] == x;
        assert(a[m].0 != "authorization"@);
    }
}

/// No credentials go along with a redirect to another host or port.
pub proof fn credentials_stay_with_their_host(
    h: RequestHopView,
    status: u16,
    location: Option<Seq<char>>,
    policy: TransportPolicy,
)
    ensures
        after_response(h, status, location, policy) matches HopStepView::Follow(next)
            ==> crosses_hosts(h.url, next.url) ==> forall|i: int|
            0 <= i < next.headers.len() ==> !for_one_host((#[trigger] next.headers[i]).0),
{
    if let HopStepView::Follow(next) = after_response(h, status, location, policy) {
        if crosses_hosts(h.url, next.url) {
            let kept = if drops_body(status) {
                without_body_headers(h.headers)
            } else {
                h.headers
            };
            let allowed = without_host_headers(kept);
            host_headers_are_gone(kept);
            reveal_strlit("referer");
            reveal_strlit("authorization");
            reveal_strlit("cookie");
            reveal_strlit("proxy-authorization");
            reveal_strlit("www-authenticate");
            reveal_strlit("cookie2");
            assert("referer"@[0] == 'r' && "cookie2"@[0] == 'c');
            assert(!for_one_host("referer"@));
            header_is_gone(allowed, "referer"@);
            assert forall|i: int| 0 <= i < next.headers.len() implies !for_one_host(
                (#[trigger] next.headers[i]).0,
            ) by {
                let x = next.headers[i];
                if let Some(r) = referer(h.url, next.url) {
                    let rest = without_header(allowed, "referer"@);
                    if i < rest.len() {
                        assert(rest[i] == x);
                        assert(allowed.contains(x));
                        let k = choose|k: int| 0 <= k < allowed.len() && allowed[k] == x;
                        assert(!for_one_host(allowed[k].0));
                    }
                }
            }
        }
    }
}

// ---------------------------------------------------------------------
// Failures
// ---------------------------------------------------------------------

/// The error of a hop that could not be sent. One that speaks of certificates
/// says how to except the host.
pub open spec fn send_failure(reason: Seq<char>, certificate: bool, url: Seq<char>) -> ErrorView {
    request_error(
        if certificate {
            "executing request: "@ + reason
                + " (TLS certificate verification failed for \""@ + host_label(url)
                + "\"; if this host is intentionally serving an untrusted certificate, pass --insecure-host "@
                + host_label(url) + ")"@
        } else {
            "executing request: "@ + reason
        },
    )
}

/// The error of a hop that could not be sent, with the reason as its cause.
pub fn send_error(reason: &str, certificate: bool, url: &url::Url) -> (r: RuntimeError)
    ensures
        r@ == send_failure(reason@, certificate, url_text(*url)),
        r.source matches Some(cause) && cause@ == reason@,
{
    let mut message = "executing request: ".to_owned();
    message.append(reason);
    if certificate {
        let host = host_port_label(url);
        message.append(" (TLS certificate verification failed for \"");
        message.append(host.as_str());
        message.append(
            "\"; if this host is intentionally serving an untrusted certificate, pass --insecure-host ",
        );
        message.append(host.as_str());
        message.append(")");
    }
    RuntimeError::with_source(RuntimeErrorKind::HttpRequest, message, reason.to_owned())
}

/// Whether one of the messages of an error and its causes speaks of a
/// certificate.
pub open spec fn mentions_certificate(messages: Seq<String>) -> bool {
    exists|i: int|
        0 <= i < messages.len() && occurs_in(lower_text((#[trigger] messages[i])@), "certificate"@)
}

/// Whether one of the messages of an error and its causes speaks of a
/// certificate.
pub fn error_chain_mentions_certificate(messages: &Vec<String>) -> (r: bool)
    ensures
        r == mentions_certificate(messages@),
{
    let mut i: usize = 0;
    while i < messages.len()
        invariant
            i <= messages@.len(),
            forall|j: int|
                0 <= j < i ==> !occurs_in(
                    lower_text((#[trigger] messages@[j])@),
                    "certificate"@,
                ),
        decreases messages@.len() - i,
    {
        let lower = to_lower(messages[i].as_str());
        if contains_part(lower.as_str(), "certificate") {
            return true;
        }
        i = i + 1;
    }
    false
}

// ---------------------------------------------------------------------
// Responses
// ---------------------------------------------------------------------

/// Headers with one more: values of one name are joined with commas, but of
/// `set-cookie` the last counts.
pub open spec fn header_merged(
    m: Map<Seq<char>, Seq<char>>,
    header: (Seq<char>, Seq<char>),
) -> Map<Seq<char>, Seq<char>> {
    if m.contains_key(header.0) && header.0 != "set-cookie"@ {
        m.insert(header.0, m[header.0] + ", "@ + header.1)
    } else {
        m.insert(header.0, header.1)
    }
}

/// The first `n` headers of a response.
pub open spec fn headers_merged(list: Seq<(Seq<char>, Seq<char>)>, n: nat) -> Map<
    Seq<char>,
    Seq<char>,
>
    decreases n,
{
    if n == 0 {
        Map::empty()
    } else {
        header_merged(headers_merged(list, (n - 1) as nat), list[n - 1])
    }
}

/// The headers of a response.
pub fn merge_headers(list: &Vec<(String, String)>) -> (r: TextMap<String>)
    ensures
        text_map_view(r) == headers_merged(pair_views(list@), list@.len()),
{
    let ghost given = pair_views(list@);
    let mut out: TextMap<String> = TextMap::new();
    let mut i: usize = 0;
    assert(text_map_view(out) =~= Map::<Seq<char>, Seq<char>>::empty());
    while i < list.len()
        invariant
            i <= list@.len(),
            given == pair_views(list@),
            text_map_view(out) == headers_merged(given, i as nat),
        decreases list@.len() - i,
    {
        let ghost before = text_map_view(out);
        let (name, value) = (&list[i].0, &list[i].1);
        assert(given[i as int] == (name@, value@));
        let merged = match out.get(name.as_str()) {
            Some(existing) => if same_text(name.as_str(), "set-cookie") {
                value.clone()
            } else {
                concat3(existing.as_str(), ", ", value.as_str())
            },
            None => value.clone(),
        };
        let ghost t = merged@;
        out.insert(name.clone(), merged);
        assert(text_map_view(out) =~= before.insert(name@, t));
        i = i + 1;
    }
    out
}

/// The refusal of a response that announces more bytes than are taken.
pub open spec fn announced_too_large(length: u64, max: usize) -> ErrorView {
    ErrorView {
        kind: RuntimeErrorKind::ResponseTooLarge,
        message: "response body too large: Content-Length "@ + decimal(length as nat)
            + " exceeds limit of "@ + decimal(max as nat) + " bytes"@,
    }
}

/// Whether a response of an announced length is taken.
pub open spec fn length_is_taken(content_length: Option<u64>, max: usize) -> bool {
    match content_length {
        Some(n) => n <= max,
        None => true,
    }
}

/// A body with one more part, where it does not grow too large.
pub open spec fn chunk_taken(body: Seq<u8>, chunk: Seq<u8>, max: usize) -> Option<Seq<u8>> {
    if body.len() + chunk.len() > max {
        None
    } else {
        Some(body + chunk)
    }
}

/// Refuses a response that announces more bytes than are taken.
pub fn check_content_length(content_length: Option<u64>, max: usize) -> (r: Result<
    (),
    RuntimeError,
>)
    ensures
        match content_length {
            Some(n) => if n > max {
                r matches Err(e) && e@ == announced_too_large(n, max)
            } else {
                r is Ok
            },
            None => r is Ok,
        },
        r is Ok == length_is_taken(content_length, max),
{
    match content_length {
        Some(n) => {
            if n > max as u64 {
                let announced = decimal_text(n);
                let limit = decimal_text(max as u64);
                let message = concat5(
                    "response body too large: Content-Length ",
                    announced.as_str(),
                    " exceeds limit of ",
                    limit.as_str(),
                    " bytes",
                );
                return Err(RuntimeError::new(RuntimeErrorKind::ResponseTooLarge, message));
            }
            Ok(())
        },
        None => Ok(()),
    }
}

/// The refusal of a response that turns out to have more bytes than are taken.
pub open spec fn streamed_too_large(max: usize) -> ErrorView {
    ErrorView {
        kind: RuntimeErrorKind::ResponseTooLarge,
        message: "response body too large: exceeded limit of "@ + decimal(max as nat)
            + " bytes while streaming"@,
    }
}

/// Takes in one more part of a body, unless it grows too large.
pub fn accept_chunk(body: &mut Vec<u8>, chunk: &[u8], max: usize) -> (r: Result<(), RuntimeError>)
    ensures
        if old(body)@.len() + chunk@.len() > max {
            r matches Err(e) && e@ == streamed_too_large(max) && final(body)@ == old(body)@
        } else {
            r is Ok && final(body)@ == old(body)@ + chunk@
        },
        match chunk_taken(old(body)@, chunk@, max) {
            Some(b) => r is Ok && final(body)@ == b,
            None => r is Err && final(body)@ == old(body)@,
        },
{
    if chunk.len() > max || body.len() > max - chunk.len() {
        let limit = decimal_text(max as u64);
        let message = concat3(
            "response body too large: exceeded limit of ",
            limit.as_str(),
            " bytes while streaming",
        );
        return Err(RuntimeError::new(RuntimeErrorKind::ResponseTooLarge, message));
    }
    let ghost given = body@;
    let mut i: usize = 0;
    assert(given + chunk@.take(0) =~= given);
    while i < chunk.len()
        invariant
            i <= chunk@.len(),
            body@ == given + chunk@.take(i as int),
        decreases chunk@.len() - i,
    {
        body.push(chunk[i]);
        assert(given + chunk@.take(i + 1) =~= (given + chunk@.take(i as int)).push(
            chunk@[i as int],
        ));
        i = i + 1;
    }
    assert(chunk@.take(i as int) =~= chunk@);
    Ok(())
}

/// The content type that headers declare, in lower case.
pub open spec fn declared_type(headers: Map<Seq<char>, Seq<char>>) -> Seq<char> {
    if headers.contains_key("content-type"@) {
        lower_text(headers["content-type"@])
    } else if headers.contains_key("Content-Type"@) {
        lower_text(headers["Content-Type"@])
    } else {
        Seq::empty()
    }
}

/// Whether a content type is XML.
pub open spec fn is_xml_type(t: Seq<char>) -> bool {
    occurs_in(t, "xml"@) || occurs_in(t, "rss"@)
}

/// The kind of a content type; none at all counts as JSON.
pub open spec fn type_of(t: Seq<char>) -> ContentTypeView {
    if is_xml_type(t) {
        ContentTypeView::Xml
    } else if occurs_in(t, "json"@) || t.len() == 0 {
        ContentTypeView::Json
    } else {
        ContentTypeView::Other(t)
    }
}

/// A response from its parts: JSON is read from any body but XML, and may be
/// missing.
pub open spec fn response_of(
    status: u16,
    headers: Seq<(Seq<char>, Seq<char>)>,
    body: Seq<u8>,
    hops: Seq<HopView>,
) -> ResponseView {
    let merged = headers_merged(headers, headers.len());
    let t = declared_type(merged);
    ResponseView {
        status_code: status as i64,
        headers: merged,
        body,
        body_json: if is_xml_type(t) {
            None
        } else {
            parsed_json(body)
        },
        content_type: type_of(t),
        redirects: hops,
    }
}

/// A response from its parts. Header values are ASCII texts.
pub fn assemble_response(
    status: u16,
    headers: &Vec<(String, String)>,
    body: Vec<u8>,
    hops: Vec<TraceRedirectHop>,
) -> (r: Response)
    ensures
        r@ == response_of(status, pair_views(headers@), body@, hop_views(hops@)),
{
    let merged = merge_headers(headers);
    assert(pair_views(headers@).len() == headers@.len());
    let declared = match merged.get("content-type") {
        Some(t) => to_lower(t.as_str()),
        None => match merged.get("Content-Type") {
            Some(t) => to_lower(t.as_str()),
            None => String::new(),
        },
    };
    assert(declared@ =~= declared_type(text_map_view(merged)));
    let is_xml = contains_part(declared.as_str(), "xml") || contains_part(declared.as_str(), "rss");
    let is_json = contains_part(declared.as_str(), "json");
    let body_json = if is_xml {
        None
    } else {
        parse_json(body.as_slice())
    };
    let content_type = if is_xml {
        ContentType::Xml
    } else if is_json || declared.as_str().is_empty() {
        ContentType::Json
    } else {
        ContentType::Other(declared)
    };
    Response { status_code: status as i64, headers: merged, body, body_json, content_type, redirects: hops }
}

} // verus!
