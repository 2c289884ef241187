//! What holds of requests on their way and of the responses that come back.

use crate::action_laws::decimal_reads_back;
use crate::error::RuntimeErrorKind;
use crate::trace::ContentTypeView;
use crate::hosts::{
    host_and_port, is_ipv4, is_loopback, last_at, octet, octets, start_stripped,
};
use crate::json_pointer::{unsigned_digits, unsigned_value};
use crate::json_text::parsed_json;
use crate::redirects::{
    after_response, first_hop, headers_listed, headers_merged, response_of, without_header,
    HopStepView, RequestHopView,
};
use crate::replay::RequestConfig;
use crate::text::{
    decimal, end_stripped, is_digit, joined, lower, lower_text, occurs_in, split_on, split_undoes_join,
    stands_at,
};
use crate::text_map::TextMap;
use crate::trace::HopView;
use crate::transport::{
    cleartext_host, covering_from, crosses_hosts, entry_covers, has_credentials, is_header_value, is_token,
    TransportPolicy,
};
use crate::web_url::{
    url_host, url_joined, url_parsed, url_port, url_scheme, url_without_fragment,
    url_without_password, url_without_user,
};
use vstd::prelude::*;
use vstd::string::*;

verus! {

// ---------------------------------------------------------------------
// The first request
// ---------------------------------------------------------------------

proof fn listed_headers(
    start: Seq<(Seq<char>, Seq<char>)>,
    m: TextMap<String>,
    n: nat,
    pair: (Seq<char>, Seq<char>),
)
    requires
        n <= m.keys().len(),
        headers_listed(start, m, n) is Ok,
    ensures
        headers_listed(start, m, n)->Ok_0.contains(pair) == (start.contains(pair) || exists|i: int|
            0 <= i < n && lower_text(#[trigger] m.keys()[i]) == pair.0 && m.values()[i]@ == pair.1),
    decreases n,
{
    let now = headers_listed(start, m, n)->Ok_0;
    if n > 0 {
        listed_headers(start, m, (n - 1) as nat, pair);
        let before = headers_listed(start, m, (n - 1) as nat)->Ok_0;
        let last = (lower_text(m.keys()[n - 1]), m.values()[n - 1]@);
        assert(now == before.push(last));
        if before.contains(pair) {
            assert(now[before.index_of(pair)] == pair);
        }
        if now.contains(pair) {
            let at = now.index_of(pair);
            if at < before.len() {
                assert(before[at] == pair);
            } else {
                assert(lower_text(m.keys()[n - 1]) == pair.0);
            }
        }
        if last == pair {
            assert(now[now.len() - 1] == pair);
        }
    }
}

/// A request is sent as it was prepared: with its method, its body and its URL,
/// with the headers of its own and those that every request has, each under its
/// name in lower case, and with no other.
pub proof fn a_request_is_sent_as_prepared(
    policy: TransportPolicy,
    cfg: RequestConfig,
    pair: (Seq<char>, Seq<char>),
)
    requires
        first_hop(policy, cfg) is Ok,
    ensures
        ({
            let h = first_hop(policy, cfg)->Ok_0;
            &&& h.method == cfg.method@
            &&& url_parsed(cfg.url@) == Ok::<Seq<char>, (bool, Seq<char>)>(h.url)
            &&& match cfg.body {
                Some(b) => h.body == Some(b@),
                None => h.body is None,
            }
            &&& h.hops.len() == 0
            &&& h.headers.contains(pair) == ((exists|i: int|
                0 <= i < cfg.headers.keys().len() && lower_text(#[trigger] cfg.headers.keys()[i])
                    == pair.0 && cfg.headers.values()[i]@ == pair.1) || (exists|i: int|
                0 <= i < policy.default_headers.keys().len() && lower_text(
                    #[trigger] policy.default_headers.keys()[i],
                ) == pair.0 && policy.default_headers.values()[i]@ == pair.1))
        }),
{
    let none = Seq::<(Seq<char>, Seq<char>)>::empty();
    let defaults = policy.default_headers;
    listed_headers(none, defaults, defaults.keys().len(), pair);
    listed_headers(
        headers_listed(none, defaults, defaults.keys().len())->Ok_0,
        cfg.headers,
        cfg.headers.keys().len(),
        pair,
    );
}

/// Nothing is sent under a method that is none.
pub proof fn a_method_has_to_be_one(policy: TransportPolicy, cfg: RequestConfig, i: int)
    requires
        cfg.method@.len() == 0 || (0 <= i < cfg.method@.len() && (cfg.method@[i] == ' '
            || cfg.method@[i] == '/' || cfg.method@[i] == '\n' || cfg.method@[i] as u32 > 127)),
    ensures
        first_hop(policy, cfg) matches Err(e) && e.kind == RuntimeErrorKind::InvalidHttpMethod,
{
    assert(!is_token(cfg.method@));
}

// ---------------------------------------------------------------------
// Redirects
// ---------------------------------------------------------------------

/// Whether a status is one of those that a location is followed at.
pub open spec fn is_redirect(status: u16) -> bool {
    status == 301 || status == 302 || status == 303 || status == 307 || status == 308
}

/// Whether a header says what the body is.
pub open spec fn is_about_body(name: Seq<char>) -> bool {
    name == "transfer-encoding"@ || name == "content-encoding"@ || name == "content-type"@ || name
        == "content-length"@
}

/// Whether a header is for the host that it was sent to.
pub open spec fn is_for_host(name: Seq<char>) -> bool {
    name == "authorization"@ || name == "cookie"@ || name == "proxy-authorization"@ || name
        == "www-authenticate"@ || name == "cookie2"@
}

proof fn without_keeps(
    list: Seq<(Seq<char>, Seq<char>)>,
    name: Seq<char>,
    pair: (Seq<char>, Seq<char>),
)
    ensures
        without_header(list, name).contains(pair) == (list.contains(pair) && pair.0 != name),
    decreases list.len(),
{
    let now = without_header(list, name);
    if list.len() > 0 {
        without_keeps(list.drop_last(), name, pair);
        let before = without_header(list.drop_last(), name);
        let rest = list.drop_last();
        if rest.contains(pair) {
            assert(list[rest.index_of(pair)] == pair);
        }
        if list.contains(pair) {
            let at = list.index_of(pair);
            if at < rest.len() {
                assert(rest[at] == pair);
            }
        }
        if before.contains(pair) {
            assert(now[before.index_of(pair)] == pair);
        }
        if now.contains(pair) {
            let at = now.index_of(pair);
            if at < before.len() {
                assert(before[at] == pair);
            }
        }
        if list.last().0 != name {
            assert(now[now.len() - 1] == list.last());
            assert(list[list.len() - 1] == list.last());
        }
    }
}

proof fn without_five(
    list: Seq<(Seq<char>, Seq<char>)>,
    pair: (Seq<char>, Seq<char>),
)
    ensures
        crate::redirects::without_host_headers(list).contains(pair) == (list.contains(pair)
            && !is_for_host(pair.0)),
        crate::redirects::without_body_headers(list).contains(pair) == (list.contains(pair)
            && !is_about_body(pair.0)),
{
    let a = without_header(list, "authorization"@);
    let b = without_header(a, "cookie"@);
    let c = without_header(b, "proxy-authorization"@);
    let d = without_header(c, "www-authenticate"@);
    without_keeps(list, "authorization"@, pair);
    without_keeps(a, "cookie"@, pair);
    without_keeps(b, "proxy-authorization"@, pair);
    without_keeps(c, "www-authenticate"@, pair);
    without_keeps(d, "cookie2"@, pair);
    let e = without_header(list, "transfer-encoding"@);
    let f = without_header(e, "content-encoding"@);
    let g = without_header(f, "content-type"@);
    without_keeps(list, "transfer-encoding"@, pair);
    without_keeps(e, "content-encoding"@, pair);
    without_keeps(f, "content-type"@, pair);
    without_keeps(g, "content-length"@, pair);
}

/// A redirect is followed exactly where the status is one, there is a location
/// that leads somewhere, it does not lead from https to http unless that is
/// allowed, and fewer redirects than allowed were followed. Any other response
/// counts as it is, and the request stays what it was.
pub proof fn redirects_are_followed_where_they_may(
    h: RequestHopView,
    status: u16,
    location: Option<Seq<char>>,
    policy: TransportPolicy,
)
    ensures
        ({
            let leads = is_redirect(status) && location is Some && url_joined(
                h.url,
                location->0,
            ) is Ok;
            let next = url_joined(h.url, location->0)->Ok_0;
            let down = url_scheme(h.url) == "https"@ && url_scheme(next) == "http"@
                && !policy.allow_downgrade_redirects;
            let r = after_response(h, status, location, policy);
            &&& !leads ==> r == HopStepView::Done(h)
            &&& leads && down ==> (r matches HopStepView::Refused(e) && e.kind
                == RuntimeErrorKind::RedirectDowngradeRefused)
            &&& leads && !down && h.hops.len() >= policy.max_redirects ==> (
            r matches HopStepView::Refused(e) && e.kind == RuntimeErrorKind::RedirectLimitExceeded)
            &&& leads && !down && h.hops.len() < policy.max_redirects ==> (
            r matches HopStepView::Follow(n) && n.url == next)
        }),
{
}

/// A request that follows a redirect is the one before it: behind 307 and 308
/// with its method and its body, behind the others as a `GET` without a body
/// unless it was a `HEAD`. It keeps its headers but for those of a body that is
/// not sent, those of a host that is left, and the referer; and the hop is
/// recorded.
pub proof fn a_redirected_request_stays_itself(
    h: RequestHopView,
    status: u16,
    location: Option<Seq<char>>,
    policy: TransportPolicy,
    pair: (Seq<char>, Seq<char>),
)
    requires
        after_response(h, status, location, policy) is Follow,
    ensures
        ({
            let n = after_response(h, status, location, policy)->Follow_0;
            let again = status == 307 || status == 308;
            &&& again ==> n.method == h.method && n.body == h.body
            &&& !again ==> n.body is None && n.method == (if h.method == "HEAD"@ {
                "HEAD"@
            } else {
                "GET"@
            })
            &&& pair.0 != "referer"@ ==> n.headers.contains(pair) == {
                &&& h.headers.contains(pair)
                &&& again || !is_about_body(pair.0)
                &&& url_host(h.url) == url_host(n.url) && url_port(h.url) == url_port(n.url)
                    || !is_for_host(pair.0)
            }
            &&& n.hops == h.hops.push(
                HopView { status_code: status as i64, from: h.url, to: n.url },
            )
        }),
{
    let n = after_response(h, status, location, policy)->Follow_0;
    let again = status == 307 || status == 308;
    let kept = if again {
        h.headers
    } else {
        crate::redirects::without_body_headers(h.headers)
    };
    without_five(h.headers, pair);
    without_five(kept, pair);
    let allowed = if crosses_hosts(h.url, n.url) {
        crate::redirects::without_host_headers(kept)
    } else {
        kept
    };
    without_keeps(allowed, "referer"@, pair);
    if let Some(r) = crate::transport::referer(h.url, n.url) {
        let base = without_header(allowed, "referer"@);
        assert(n.headers == base.push(("referer"@, r)));
        if base.contains(pair) {
            assert(n.headers[base.index_of(pair)] == pair);
        }
        if n.headers.contains(pair) && pair.0 != "referer"@ {
            let at = n.headers.index_of(pair);
            assert(at < base.len());
            assert(base[at] == pair);
        }
    }
}

// ---------------------------------------------------------------------
// Responses
// ---------------------------------------------------------------------

proof fn merged_headers(
    list: Seq<(Seq<char>, Seq<char>)>,
    n: nat,
    i: int,
    name: Seq<char>,
)
    requires
        n <= list.len(),
        -1 <= i < n,
        0 <= i ==> list[i].0 == name,
        forall|j: int| 0 <= j < n && j != i ==> (#[trigger] list[j]).0 != name,
    ensures
        headers_merged(list, n).contains_key(name) == (0 <= i),
        0 <= i ==> headers_merged(list, n)[name] == list[i].1,
    decreases n,
{
    if n > 0 {
        if i == n - 1 {
            merged_headers(list, (n - 1) as nat, -1, name);
        } else {
            assert(list[n - 1].0 != name);
            merged_headers(list, (n - 1) as nat, i, name);
        }
    }
}

/// A response is taken in as it came: with its status and its body, with every
/// header that came once under its name and no other name, and with the
/// redirects that led to it.
pub proof fn a_response_is_taken_in_as_it_came(
    status: u16,
    headers: Seq<(Seq<char>, Seq<char>)>,
    body: Seq<u8>,
    hops: Seq<HopView>,
    i: int,
    name: Seq<char>,
)
    requires
        -1 <= i < headers.len(),
        0 <= i ==> headers[i].0 == name,
        forall|j: int| 0 <= j < headers.len() && j != i ==> (#[trigger] headers[j]).0 != name,
    ensures
        ({
            let r = response_of(status, headers, body, hops);
            &&& r.status_code == status
            &&& r.body == body
            &&& r.redirects == hops
            &&& r.headers.contains_key(name) == (0 <= i)
            &&& 0 <= i ==> r.headers[name] == headers[i].1
        }),
{
    merged_headers(headers, headers.len(), i, name);
}

proof fn merged_pair(list: Seq<(Seq<char>, Seq<char>)>, n: nat, i: int, k: int, name: Seq<char>)
    requires
        n <= list.len(),
        0 <= i < k < n,
        list[i].0 == name,
        list[k].0 == name,
        forall|j: int| 0 <= j < n && j != i && j != k ==> (#[trigger] list[j]).0 != name,
    ensures
        headers_merged(list, n).contains_key(name),
        headers_merged(list, n)[name] == (if name == "set-cookie"@ {
            list[k].1
        } else {
            list[i].1 + ", "@ + list[k].1
        }),
    decreases n,
{
    if k == n - 1 {
        merged_headers(list, (n - 1) as nat, i, name);
    } else {
        assert(list[n - 1].0 != name);
        merged_pair(list, (n - 1) as nat, i, k, name);
    }
}

/// A header that came twice has both values, with a comma between them; of
/// cookies that are set the last counts.
pub proof fn repeated_headers_are_joined(
    status: u16,
    headers: Seq<(Seq<char>, Seq<char>)>,
    body: Seq<u8>,
    hops: Seq<HopView>,
    i: int,
    k: int,
)
    requires
        0 <= i < k < headers.len(),
        headers[i].0 == headers[k].0,
        forall|j: int|
            0 <= j < headers.len() && j != i && j != k ==> (#[trigger] headers[j]).0
                != headers[i].0,
    ensures
        response_of(status, headers, body, hops).headers.contains_key(headers[i].0),
        response_of(status, headers, body, hops).headers[headers[i].0] == (if headers[i].0
            == "set-cookie"@ {
            headers[k].1
        } else {
            headers[i].1 + ", "@ + headers[k].1
        }),
{
    merged_pair(headers, headers.len(), i, k, headers[i].0);
}

/// A body is read as JSON unless its media type says that it is XML. The media
/// type that counts is the one that the response declares, however it is cased,
/// and JSON where it declares none.
pub proof fn bodies_are_read_by_their_media_type(
    status: u16,
    headers: Seq<(Seq<char>, Seq<char>)>,
    body: Seq<u8>,
    hops: Seq<HopView>,
    i: int,
)
    requires
        0 <= i < headers.len() ==> headers[i].0 == "content-type"@ && headers[i].1.len() > 0,
        forall|j: int|
            0 <= j < headers.len() && j != i ==> (#[trigger] headers[j]).0 != "content-type"@
                && headers[j].0 != "Content-Type"@,
        -1 <= i < headers.len(),
    ensures
        ({
            let r = response_of(status, headers, body, hops);
            let t = lower_text(headers[i].1);
            let xml = 0 <= i && (occurs_in(t, "xml"@) || occurs_in(t, "rss"@));
            &&& r.body_json == if xml {
                None
            } else {
                parsed_json(body)
            }
            &&& xml ==> r.content_type is Xml
            &&& !xml && 0 <= i && occurs_in(t, "json"@) ==> r.content_type is Json
            &&& !xml && 0 <= i && !occurs_in(t, "json"@) ==> r.content_type
                == ContentTypeView::Other(t)
            &&& i == -1 ==> r.content_type is Json
        }),
{
    reveal_strlit("content-type");
    reveal_strlit("Content-Type");
    reveal_strlit("xml");
    reveal_strlit("rss");
    assert("content-type"@[0] == 'c');
    assert("Content-Type"@[0] == 'C');
    merged_headers(headers, headers.len(), i, "content-type"@);
    if i == -1 {
        merged_headers(headers, headers.len(), -1, "Content-Type"@);
    }
    if i == -1 {
        let none = Seq::<char>::empty();
        if occurs_in(none, "xml"@) {
            let at = choose|at: int| #[trigger] stands_at(none, at, "xml"@);
        }
        if occurs_in(none, "rss"@) {
            let at = choose|at: int| #[trigger] stands_at(none, at, "rss"@);
        }
    }
}

// ---------------------------------------------------------------------
// Hosts
// ---------------------------------------------------------------------

proof fn digits_stay(s: Seq<char>)
    requires
        forall|i: int| 0 <= i < s.len() ==> is_digit(#[trigger] s[i]) || s[i] == '.',
    ensures
        lower_text(s) == s,
{
    assert(lower_text(s) =~= s);
}

proof fn last_colon(host: Seq<char>, port: Seq<char>)
    requires
        forall|i: int| 0 <= i < port.len() ==> #[trigger] port[i] != ':',
    ensures
        last_at(host + ":"@ + port, ':') == Some(host.len() as int),
    decreases port.len(),
{
    reveal_strlit(":");
    let s = host + ":"@ + port;
    if port.len() > 0 {
        assert(s.last() == port.last());
        last_colon(host, port.drop_last());
        assert(s.drop_last() =~= host + ":"@ + port.drop_last());
    } else {
        assert(s.last() == ':');
    }
}

proof fn no_colon(s: Seq<char>)
    requires
        forall|i: int| 0 <= i < s.len() ==> #[trigger] s[i] != ':',
    ensures
        last_at(s, ':') is None,
    decreases s.len(),
{
    if s.len() > 0 {
        no_colon(s.drop_last());
    }
}

/// A host and a port come back from their text; a host alone has no port.
pub proof fn hosts_and_ports_come_back(host: Seq<char>, port: u16)
    requires
        host.len() > 0,
        host[0] != '[',
        forall|i: int| 0 <= i < host.len() ==> #[trigger] host[i] != ':',
    ensures
        host_and_port(host + ":"@ + decimal(port as nat)) == Some((host, port)),
        host_and_port(host) is None,
{
    reveal_strlit(":");
    let p = decimal(port as nat);
    decimal_reads_back(port as nat);
    let s = host + ":"@ + p;
    assert(is_digit(p[0]));
    assert forall|i: int| 0 <= i < p.len() implies #[trigger] p[i] != ':' by {
        assert(is_digit(p[i]));
    }
    last_colon(host, p);
    no_colon(host);
    assert(s[0] == host[0]);
    assert(s.take(host.len() as int) =~= host);
    assert(s.skip(host.len() as int + 1) =~= p);
    assert(!host.contains(':')) by {
        if host.contains(':') {
            assert(host[host.index_of(':')] == ':');
        }
    }
    assert(unsigned_digits(p) == p);
    assert(unsigned_value(p) == Some(port as nat));
}

/// An exception for a host holds at every port, and one with a port at that
/// port alone.
pub proof fn exceptions_hold_for_their_host(host: Seq<char>, other: Seq<char>, port: u16, at: Option<u16>)
    requires
        host.len() > 0,
        host[0] != '[',
        forall|i: int| 0 <= i < host.len() ==> #[trigger] host[i] != ':',
        lower_text(host) == host,
    ensures
        entry_covers(host, other, at) == (other == host),
        entry_covers(host + ":"@ + decimal(port as nat), other, at) == (other == host && at == Some(
            port,
        )),
{
    hosts_and_ports_come_back(host, port);
    reveal_strlit(":");
    let p = decimal(port as nat);
    decimal_reads_back(port as nat);
    let s = host + ":"@ + p;
    assert(lower_text(s) =~= s) by {
        assert forall|i: int| 0 <= i < s.len() implies lower(s[i]) == s[i] by {
            if i < host.len() {
                assert(lower_text(host)[i] == lower(host[i]));
            } else if i > host.len() {
                assert(is_digit(p[i - host.len() - 1]));
            }
        }
    }
}

/// An exception is found exactly where one covers the host.
pub proof fn covering_exceptions_are_found(
    entries: Seq<Seq<char>>,
    host: Seq<char>,
    port: Option<u16>,
    from: int,
)
    requires
        0 <= from <= entries.len(),
    ensures
        covering_from(entries, host, port, from) is Some == exists|i: int|
            from <= i < entries.len() && entry_covers(#[trigger] entries[i], host, port),
        covering_from(entries, host, port, from) matches Some(e) ==> entries.contains(e)
            && entry_covers(e, host, port),
    decreases entries.len() - from,
{
    if from < entries.len() {
        covering_exceptions_are_found(entries, host, port, from + 1);
        if covering_from(entries, host, port, from + 1) is Some {
            let i = choose|i: int|
                from + 1 <= i < entries.len() && entry_covers(#[trigger] entries[i], host, port);
            assert(entry_covers(entries[i], host, port));
        }
    }
}

proof fn strips_nothing(s: Seq<char>)
    requires
        s.len() > 0,
        s[0] != '[',
        s.last() != ']',
    ensures
        end_stripped(start_stripped(s, '['), ']') == s,
{
}

/// An IPv4 address is of the machine itself exactly where it begins with 127.
pub proof fn loopback_addresses_begin_with_127(a: nat, b: nat, c: nat, d: nat)
    requires
        a <= 255,
        b <= 255,
        c <= 255,
        d <= 255,
    ensures
        is_loopback(joined(seq![decimal(a), decimal(b), decimal(c), decimal(d)], "."@)) == (a
            == 127),
{
    reveal_strlit(".");
    reveal_strlit("localhost");
    reveal_strlit(".localhost");
    assert("."@ =~= seq!['.']);
    let parts = seq![decimal(a), decimal(b), decimal(c), decimal(d)];
    let s = joined(parts, "."@);
    decimal_reads_back(a);
    decimal_reads_back(b);
    decimal_reads_back(c);
    decimal_reads_back(d);
    octet_comes_back(a);
    octet_comes_back(b);
    octet_comes_back(c);
    octet_comes_back(d);
    assert forall|i: int, j: int| 0 <= i < parts.len() && 0 <= j < parts[i].len() implies (
    #[trigger] parts[i][j]) != '.' by {
        assert(is_digit(parts[i][j]));
    }
    split_undoes_join(parts, '.');
    four_parts(parts);
    assert(s == parts[0] + "."@ + parts[1] + "."@ + parts[2] + "."@ + parts[3]);
    assert forall|i: int| 0 <= i < s.len() implies is_digit(#[trigger] s[i]) || s[i] == '.' by {
        let n0 = parts[0].len() as int;
        let n1 = n0 + 1 + parts[1].len();
        let n2 = n1 + 1 + parts[2].len();
        if i < n0 {
            assert(s[i] == parts[0][i]);
        } else if n0 < i && i < n1 {
            assert(s[i] == parts[1][i - n0 - 1]);
        } else if n1 < i && i < n2 {
            assert(s[i] == parts[2][i - n1 - 1]);
        } else if n2 < i {
            assert(s[i] == parts[3][i - n2 - 1]);
        }
    }
    digits_stay(s);
    assert(s.len() > 0);
    strips_nothing(s);
    assert("localhost"@[0] == 'l');
    assert(s != "localhost"@);
    let at = s.len() - ".localhost"@.len();
    if stands_at(s, at, ".localhost"@) {
        assert(s.subrange(at, at + 10)[1] == 'l');
        assert(s[at + 1] == 'l');
    }
    assert(split_on(s, '.') == parts);
    assert(is_ipv4(s)) by {
        assert forall|i: int| 0 <= i < 4 implies octet(#[trigger] split_on(s, '.')[i]) is Some by {}
    }
    assert(octets(s)[0] == a);
}

proof fn octet_comes_back(n: nat)
    requires
        n <= 255,
    ensures
        octet(decimal(n)) == Some(n),
{
    decimal_reads_back(n);
    reveal_with_fuel(decimal, 4);
    if n >= 10 {
        if n < 100 {
            assert(decimal(n) == decimal(n / 10).push(crate::text::digit_of(n % 10)));
            assert(decimal(n / 10) == seq![crate::text::digit_of(n / 10)]);
            leading_digit(n / 10);
        } else {
            assert(decimal(n / 10) == decimal(n / 100).push(crate::text::digit_of((n / 10) % 10)));
            assert(decimal(n / 100) == seq![crate::text::digit_of(n / 100)]);
            leading_digit(n / 100);
        }
    }
}

proof fn leading_digit(n: nat)
    requires
        0 < n < 10,
    ensures
        crate::text::digit_of(n) != '0',
{
    let c: u32 = (48 + n) as u32;
    assert((c as char) as u32 == c);
}

proof fn four_parts(parts: Seq<Seq<char>>)
    requires
        parts.len() == 4,
    ensures
        joined(parts, "."@) == parts[0] + "."@ + parts[1] + "."@ + parts[2] + "."@ + parts[3],
{
    reveal_with_fuel(joined, 5);
    let three = parts.drop_last();
    let two = three.drop_last();
    let one = two.drop_last();
    assert(one.len() == 1 && one[0] == parts[0]);
    assert(two.last() == parts[1]);
    assert(three.last() == parts[2]);
}

/// Credentials that are sent in clear are warned about exactly where the URL is
/// http, the host is not the machine itself, and an `Authorization` or a
/// `Cookie` header goes along, of the request or of every request.
pub proof fn cleartext_credentials_are_warned_about(
    url: Seq<char>,
    headers: TextMap<String>,
    defaults: TextMap<String>,
    u: Seq<char>,
    host: Seq<char>,
)
    requires
        url_parsed(url) == Ok::<Seq<char>, (bool, Seq<char>)>(u),
        url_host(u) == Some(host),
    ensures
        cleartext_host(url, headers, defaults) == (if url_scheme(u) == "http"@ && !is_loopback(host)
            && exists|k: Seq<char>|
            (#[trigger] headers@.contains_key(k) || defaults@.contains_key(k)) && (lower_text(k)
                == "authorization"@ || lower_text(k) == "cookie"@) {
            Some(host)
        } else {
            None
        }),
{
    reveal_strlit("authorization");
    reveal_strlit("cookie");
    assert(lower_text("authorization"@) =~= "authorization"@);
    assert(lower_text("cookie"@) =~= "cookie"@);
    assert(forall|k: Seq<char>| #[trigger]
        crate::transport::is_credential(k) == (lower_text(k) == "authorization"@ || lower_text(k)
            == "cookie"@));
    if has_credentials(headers) {
        let k = choose|k: Seq<char>| #[trigger]
            headers@.contains_key(k) && crate::transport::is_credential(k);
        assert(headers@.contains_key(k));
    }
    if has_credentials(defaults) {
        let k = choose|k: Seq<char>| #[trigger]
            defaults@.contains_key(k) && crate::transport::is_credential(k);
        let b = headers@.contains_key(k);
    }
    if exists|k: Seq<char>|
        (#[trigger] headers@.contains_key(k) || defaults@.contains_key(k)) && (lower_text(k)
            == "authorization"@ || lower_text(k) == "cookie"@) {
        let k = choose|k: Seq<char>|
            (#[trigger] headers@.contains_key(k) || defaults@.contains_key(k)) && (lower_text(k)
                == "authorization"@ || lower_text(k) == "cookie"@);
        assert(crate::transport::is_credential(k));
        assert(headers@.contains_key(k) || defaults@.contains_key(k));
    }
}

proof fn strips_only_brackets(s: Seq<char>)
    requires
        s.len() > 0 ==> s[0] != '[' && s.last() != ']',
    ensures
        end_stripped(start_stripped(s, '['), ']') == s,
{
}

/// `localhost` is the machine itself, and so is every name under it, however
/// they are cased.
pub proof fn localhost_is_the_machine_itself(host: Seq<char>, under: Seq<char>)
    ensures
        lower_text(host) == "localhost"@ ==> is_loopback(host),
        host.len() > 0 && host[0] != '[' && lower_text(host) == under + ".localhost"@
            ==> is_loopback(host),
{
    reveal_strlit("localhost");
    reveal_strlit(".localhost");
    if lower_text(host) == "localhost"@ {
        assert(lower_text(host).len() == host.len());
        assert("localhost"@.len() == 9);
        assert(lower_text(host)[0] == lower(host[0]));
        assert(lower_text(host)[8] == lower(host[8]));
        assert(lower('[') == '[');
        assert(lower(']') == ']');
        strips_only_brackets(host);
    }
    if host.len() > 0 && host[0] != '[' && lower_text(host) == under + ".localhost"@ {
        let n = host.len() as int;
        assert(lower_text(host).len() == n);
        assert(lower_text(host)[n - 1] == lower(host[n - 1]));
        assert((under + ".localhost"@)[n - 1] == 't');
        assert(lower(']') == ']');
        strips_only_brackets(host);
        assert(lower_text(host).subrange(n - 10, n) =~= ".localhost"@);
    }
}

proof fn unused_entries(entries: Seq<Seq<char>>, used: Set<Seq<char>>, n: nat, e: Seq<char>)
    requires
        n <= entries.len(),
    ensures
        crate::transport::unused_upto(entries, used, n).contains(e) == (!used.contains(e)
            && exists|i: int| 0 <= i < n && #[trigger] entries[i] == e),
    decreases n,
{
    if n > 0 {
        unused_entries(entries, used, (n - 1) as nat, e);
        let before = crate::transport::unused_upto(entries, used, (n - 1) as nat);
        let now = crate::transport::unused_upto(entries, used, n);
        if before.contains(e) {
            assert(now[before.index_of(e)] == e);
        }
        if now.contains(e) {
            let at = now.index_of(e);
            if at < before.len() {
                assert(before[at] == e);
            } else {
                assert(entries[n - 1] == e);
            }
        }
        if entries[n - 1] == e && !used.contains(e) {
            assert(now[now.len() - 1] == e);
        }
    }
}

/// The exceptions that went unused are those that no request was sent under.
pub proof fn unused_exceptions_are_reported(
    entries: Seq<Seq<char>>,
    used: Set<Seq<char>>,
    e: Seq<char>,
)
    ensures
        crate::transport::unused_upto(entries, used, entries.len()).contains(e) == (entries.contains(
            e,
        ) && !used.contains(e)),
{
    unused_entries(entries, used, entries.len(), e);
    if entries.contains(e) {
        assert(entries[entries.index_of(e)] == e);
    }
}

/// A request that could not be sent says why; where a certificate was refused
/// it also says for which host.
pub proof fn send_failures_say_why(reason: Seq<char>, url: Seq<char>)
    ensures
        crate::redirects::send_failure(reason, false, url).message == "executing request: "@
            + reason,
        crate::redirects::send_failure(reason, true, url).kind == RuntimeErrorKind::HttpRequest,
        occurs_in(crate::redirects::send_failure(reason, true, url).message, reason),
        occurs_in(
            crate::redirects::send_failure(reason, true, url).message,
            crate::transport::host_label(url),
        ),
{
    let m = crate::redirects::send_failure(reason, true, url).message;
    let h = crate::transport::host_label(url);
    let a = "executing request: "@.len() as int;
    let b = a + reason.len() + " (TLS certificate verification failed for \""@.len();
    assert(m.subrange(a, a + reason.len()) =~= reason);
    assert(stands_at(m, a, reason));
    assert(m.subrange(b, b + h.len()) =~= h);
    assert(stands_at(m, b, h));
}

/// A certificate is to blame exactly where one of the messages of an error
/// speaks of one, however it is cased.
pub proof fn certificates_are_blamed_by_name(messages: Seq<String>)
    ensures
        crate::redirects::mentions_certificate(messages) == exists|i: int|
            0 <= i < messages.len() && occurs_in(
                lower_text((#[trigger] messages[i])@),
                "certificate"@,
            ),
{
}

/// A host is shown with its port.
pub proof fn hosts_are_shown_with_their_port(url: Seq<char>, host: Seq<char>)
    requires
        crate::transport::host_key(url) == Some(host),
    ensures
        url_port(url) matches Some(p) ==> crate::transport::host_label(url) == host + ":"@ + decimal(
            p as nat,
        ),
        url_port(url) is None ==> crate::transport::host_label(url) == host,
{
}

/// The key of a host is its name in lower case, with brackets round an IPv6
/// address.
pub proof fn hosts_are_known_in_lower_case(url: Seq<char>, host: Seq<char>)
    requires
        url_host(url) == Some(host),
        host.len() > 0,
        host[0] != '[',
    ensures
        !crate::web_url::url_host_is_ipv6(url) ==> crate::transport::host_key(url) == Some(
            lower_text(host),
        ),
        crate::web_url::url_host_is_ipv6(url) ==> crate::transport::host_key(url) == Some(
            "["@ + lower_text(host) + "]"@,
        ),
{
    reveal_strlit("[");
    let l = lower_text(host);
    assert(l[0] == lower(host[0]));
    if stands_at(l, 0, "["@) {
        assert(l.subrange(0, 1)[0] == '[');
        crate::text::lower_keeps_others(host[0]);
    }
}

/// A redirected request names where it comes from, unless that was https and it
/// goes to http: its referer is the URL before it, without user, password and
/// fragment.
pub proof fn a_redirected_request_names_where_it_comes_from(
    h: RequestHopView,
    status: u16,
    location: Option<Seq<char>>,
    policy: TransportPolicy,
    value: Seq<char>,
)
    requires
        after_response(h, status, location, policy) is Follow,
    ensures
        ({
            let n = after_response(h, status, location, policy)->Follow_0;
            let shown = url_without_fragment(url_without_password(url_without_user(h.url)));
            let down = url_scheme(h.url) == "https"@ && url_scheme(n.url) == "http"@;
            &&& !down && is_header_value(shown) ==> (n.headers.contains(("referer"@, value)) == (
            value == shown))
            &&& down && !h.headers.contains(("referer"@, value)) ==> !n.headers.contains(
                ("referer"@, value),
            )
        }),
{
    let n = after_response(h, status, location, policy)->Follow_0;
    let pair = ("referer"@, value);
    let kept = if status == 307 || status == 308 {
        h.headers
    } else {
        crate::redirects::without_body_headers(h.headers)
    };
    without_five(h.headers, pair);
    without_five(kept, pair);
    let allowed = if crosses_hosts(h.url, n.url) {
        crate::redirects::without_host_headers(kept)
    } else {
        kept
    };
    if let Some(r) = crate::transport::referer(h.url, n.url) {
        let base = without_header(allowed, "referer"@);
        without_keeps(allowed, "referer"@, pair);
        assert(n.headers == base.push(("referer"@, r)));
        assert(n.headers[n.headers.len() - 1] == ("referer"@, r));
        if n.headers.contains(pair) {
            let at = n.headers.index_of(pair);
            if at < base.len() {
                assert(base[at] == pair);
            }
        }
    }
}

proof fn refused_headers(start: Seq<(Seq<char>, Seq<char>)>, m: TextMap<String>, n: nat)
    requires
        n <= m.keys().len(),
    ensures
        headers_listed(start, m, n) is Ok == forall|i: int|
            0 <= i < n ==> is_token(#[trigger] m.keys()[i]) && m.keys()[i].len() <= 65_535
                && is_header_value(m.values()[i]@),
        headers_listed(start, m, n) matches Err(e) ==> e.kind == RuntimeErrorKind::HttpRequest,
    decreases n,
{
    if n > 0 {
        refused_headers(start, m, (n - 1) as nat);
        if headers_listed(start, m, n) is Ok {
            assert forall|i: int| 0 <= i < n implies is_token(#[trigger] m.keys()[i])
                && m.keys()[i].len() <= 65_535 && is_header_value(m.values()[i]@) by {
                if i < n - 1 {
                    assert(is_token(m.keys()[i]));
                }
            }
        } else if headers_listed(start, m, (n - 1) as nat) is Ok {
            assert(!(is_token(m.keys()[n - 1]) && m.keys()[n - 1].len() <= 65_535
                && is_header_value(m.values()[n - 1]@)));
        }
    }
}

/// A request is sent exactly where its method is a token, its URL can be read,
/// and every header has a name that is one and a value without control
/// characters.
pub proof fn a_request_is_sent_where_it_can_be(policy: TransportPolicy, cfg: RequestConfig)
    ensures
        first_hop(policy, cfg) is Ok == {
            &&& is_token(cfg.method@)
            &&& url_parsed(cfg.url@) is Ok
            &&& forall|i: int|
                0 <= i < policy.default_headers.keys().len() ==> is_token(
                    #[trigger] policy.default_headers.keys()[i],
                ) && policy.default_headers.keys()[i].len() <= 65_535 && is_header_value(
                    policy.default_headers.values()[i]@,
                )
            &&& forall|i: int|
                0 <= i < cfg.headers.keys().len() ==> is_token(#[trigger] cfg.headers.keys()[i])
                    && cfg.headers.keys()[i].len() <= 65_535 && is_header_value(
                    cfg.headers.values()[i]@,
                )
        },
        first_hop(policy, cfg) matches Err(e) ==> e.kind == (if is_token(cfg.method@) {
            RuntimeErrorKind::HttpRequest
        } else {
            RuntimeErrorKind::InvalidHttpMethod
        }),
{
    let none = Seq::<(Seq<char>, Seq<char>)>::empty();
    let d = policy.default_headers;
    refused_headers(none, d, d.keys().len());
    if headers_listed(none, d, d.keys().len()) is Ok {
        refused_headers(
            headers_listed(none, d, d.keys().len())->Ok_0,
            cfg.headers,
            cfg.headers.keys().len(),
        );
    }
}

/// An IPv6 host and a port come back from their text.
pub proof fn bracketed_hosts_and_ports_come_back(host: Seq<char>, port: u16)
    requires
        forall|i: int| 0 <= i < host.len() ==> #[trigger] host[i] != ']',
    ensures
        host_and_port("["@ + host + "]:"@ + decimal(port as nat)) == Some(
            ("["@ + host + "]"@, port),
        ),
        host_and_port("["@ + host + "]"@) is None,
{
    reveal_strlit("[");
    reveal_strlit("]");
    reveal_strlit("]:");
    let p = decimal(port as nat);
    decimal_reads_back(port as nat);
    assert(is_digit(p[0]));
    let s = "["@ + host + "]:"@ + p;
    let e = host.len() as int + 1;
    bracket_is_found(s, e);
    assert(s.take(e + 1) =~= "["@ + host + "]"@);
    assert(s.skip(e + 2) =~= p);
    assert(unsigned_digits(p) == p);
    assert(unsigned_value(p) == Some(port as nat));
    let t = "["@ + host + "]"@;
    bracket_is_found(t, e);
}

proof fn bracket_is_found(s: Seq<char>, e: int)
    requires
        0 <= e < s.len(),
        s[e] == ']',
        forall|i: int| 0 <= i < e ==> s[i] != ']',
    ensures
        crate::text::first_of(s, 0, seq![']']) == e,
{
    crate::text::first_of_is_least(s, 0, seq![']']);
    let f = crate::text::first_of(s, 0, seq![']']);
    assert(seq![']'][0] == ']');
    if f > e {
        assert(!seq![']'].contains(s[e]));
    }
    if f < e {
        assert(seq![']'].contains(s[f]));
    }
}

} // verus!
