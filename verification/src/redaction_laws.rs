//! What redaction takes away and what it leaves.

use crate::json::JsonView;
use crate::redaction::{
    items_redacted, members_redacted, redacted_headers, redacted_json, redacted_items,
    redacted_members, redacted_object, redacted_pair, redacted_url, request_redacted, sensitive,
};
use crate::text::{
    first_of, first_of_is_least, lower_text, occurs_in, pieces_hold_no_separator, split_on,
    split_undoes_join, stands_at,
};
use crate::trace::{text_map_view, DryRunRequest};
use vstd::prelude::*;
use vstd::string::*;

verus! {

/// Whether a lower-case name tells of a secret: it holds one of the words for
/// one, or is one of the names of an API key.
pub open spec fn tells_of_a_secret(name: Seq<char>) -> bool {
    ||| occurs_in(name, "password"@)
    ||| occurs_in(name, "passwd"@)
    ||| occurs_in(name, "pwd"@)
    ||| occurs_in(name, "secret"@)
    ||| occurs_in(name, "token"@)
    ||| occurs_in(name, "authorization"@)
    ||| occurs_in(name, "apikey"@)
    ||| occurs_in(name, "cookie"@)
    ||| occurs_in(name, "session"@)
    ||| occurs_in(name, "credential"@)
    ||| name == "api-key"@
    ||| name == "x-api-key"@
}

/// A name is sensitive exactly where it tells of a secret, however it is cased.
pub proof fn names_of_secrets_are_sensitive(name: Seq<char>)
    ensures
        sensitive(name) == tells_of_a_secret(lower_text(name)),
{
    reveal_strlit("proxy-authorization");
    reveal_strlit("authorization");
    reveal_strlit("set-cookie");
    reveal_strlit("cookie");
    assert("proxy-authorization"@.subrange(6, 19) =~= "authorization"@);
    assert(stands_at("proxy-authorization"@, 6, "authorization"@));
    assert("set-cookie"@.subrange(4, 10) =~= "cookie"@);
    assert(stands_at("set-cookie"@, 4, "cookie"@));
}

/// Redacting headers keeps every name. It keeps the values too, but for those
/// of sensitive names, which all become the same text.
pub proof fn only_secret_headers_are_redacted(headers: Map<Seq<char>, Seq<char>>, name: Seq<char>)
    ensures
        redacted_headers(headers).contains_key(name) == headers.contains_key(name),
        headers.contains_key(name) && sensitive(name) ==> redacted_headers(headers)[name]
            == "[REDACTED]"@,
        headers.contains_key(name) && !sensitive(name) ==> redacted_headers(headers)[name]
            == headers[name],
{
}

/// Redacting a value keeps its form: plain values stay, a list keeps its
/// length and its items are redacted one for one, and an object keeps its
/// names in order. Under a sensitive name nothing is left of the value, and
/// under any other it is redacted in turn.
pub proof fn only_secret_members_are_redacted(v: JsonView, i: int)
    ensures
        v is Null || v is Bool || v is Number || v is Text ==> redacted_json(v) == v,
        v matches JsonView::Array(items) ==> (redacted_json(v) matches JsonView::Array(list)
            && list.len() == items.len() && (0 <= i < items.len() ==> list[i] == redacted_json(
            items[i],
        ))),
        v matches JsonView::Object(members) ==> (redacted_json(v) matches JsonView::Object(list)
            && list.len() == members.len() && (0 <= i < members.len() ==> {
            &&& list[i].0 == members[i].0
            &&& sensitive(members[i].0) ==> list[i].1 == JsonView::Text("[REDACTED]"@)
            &&& !sensitive(members[i].0) ==> list[i].1 == redacted_json(members[i].1)
        })),
{
    match v {
        JsonView::Array(items) => {
            items_redacted(items, items.len());
            if 0 <= i < items.len() {
                assert(redacted_items(v, items.len())[i] == redacted_json(items[i]));
            }
        },
        JsonView::Object(members) => {
            members_redacted(members, members.len());
            if 0 <= i < members.len() {
                assert(redacted_members(v, members.len())[i].0 == members[i].0);
            }
        },
        _ => {},
    }
}

/// Redacting a URL leaves what stands before its query, and the query keeps its
/// pairs in order: a pair with a sensitive key has that key and the one text
/// that stands for a secret, and every other pair stays.
pub proof fn only_secret_pairs_are_redacted(head: Seq<char>, query: Seq<char>, i: int)
    requires
        query.len() > 0,
        forall|j: int| 0 <= j < head.len() ==> head[j] != '?',
    ensures
        ({
            let r = redacted_url(head + "?"@ + query);
            let pairs = split_on(query, '&');
            let after = split_on(r.skip(head.len() as int + 1), '&');
            &&& r.len() > head.len()
            &&& r.take(head.len() as int + 1) == head + "?"@
            &&& after.len() == pairs.len()
            &&& 0 <= i < pairs.len() ==> {
                let eq = first_of(pairs[i], 0, seq!['=']);
                if eq < pairs[i].len() && sensitive(pairs[i].take(eq)) {
                    after[i] == pairs[i].take(eq) + "=[REDACTED]"@
                } else {
                    after[i] == pairs[i]
                }
            }
        }),
{
    reveal_strlit("?");
    reveal_strlit("=");
    reveal_strlit("&");
    reveal_strlit("[REDACTED]");
    reveal_strlit("=[REDACTED]");
    let url = head + "?"@ + query;
    let q = head.len() as int;
    first_of_is_least(url, 0, seq!['?']);
    assert(url[q] == '?');
    assert(seq!['?'][0] == '?');
    let f = first_of(url, 0, seq!['?']);
    if f < q {
        assert(seq!['?'].contains(url[f]));
        assert(url[f] == head[f]);
    }
    if f > q {
        assert(!seq!['?'].contains(url[q]));
    }
    assert(url.take(q + 1) =~= head + "?"@);
    assert(url.skip(q + 1) =~= query);
    let pairs = split_on(query, '&');
    let list = pairs.map_values(|p: Seq<char>| redacted_pair(p));
    pieces_hold_no_separator(query, '&');
    assert forall|a: int, b: int| 0 <= a < list.len() && 0 <= b < list[a].len() implies (
    #[trigger] list[a][b]) != '&' by {
        let p = pairs[a];
        let eq = first_of(p, 0, seq!['=']);
        first_of_is_least(p, 0, seq!['=']);
        assert forall|k: int| 0 <= k < p.len() implies p[k] != '&' by {
            assert(split_on(query, '&')[a][k] != '&');
        }
    }
    assert("&"@ =~= seq!['&']);
    assert(pairs.len() > 0);
    split_undoes_join(list, '&');
    let r = redacted_url(url);
    assert(r.skip(q + 1) =~= crate::redaction::redacted_query(query));
    assert(r.take(q + 1) =~= head + "?"@);
    if 0 <= i < pairs.len() {
        let eq = first_of(pairs[i], 0, seq!['=']);
        if eq < pairs[i].len() && sensitive(pairs[i].take(eq)) {
            assert(list[i] =~= pairs[i].take(eq) + "=[REDACTED]"@);
        }
    }
}

/// A URL without a query stays as it is.
pub proof fn a_url_without_a_query_stays(url: Seq<char>)
    requires
        forall|j: int| 0 <= j < url.len() ==> url[j] != '?',
    ensures
        redacted_url(url) == url,
{
    first_of_is_least(url, 0, seq!['?']);
    let f = first_of(url, 0, seq!['?']);
    if f < url.len() {
        assert(seq!['?'].contains(url[f]));
    }
}

/// Redacting inputs or outputs keeps every name; under a sensitive one nothing
/// is left of the value, and under any other it is redacted inside.
pub proof fn only_secret_entries_are_redacted(m: Map<Seq<char>, JsonView>, name: Seq<char>)
    ensures
        redacted_object(m).contains_key(name) == m.contains_key(name),
        m.contains_key(name) && sensitive(name) ==> redacted_object(m)[name] == JsonView::Text(
            "[REDACTED]"@,
        ),
        m.contains_key(name) && !sensitive(name) ==> redacted_object(m)[name] == redacted_json(
            m[name],
        ),
{
}

/// A dry-run request that was redacted shows no secret in its URL, its headers
/// or its body, and is otherwise what it was.
pub proof fn redacted_requests_are_otherwise_the_same(
    before: DryRunRequest,
    after: DryRunRequest,
    name: Seq<char>,
)
    requires
        request_redacted(before, after),
    ensures
        after.step_id@ == before.step_id@,
        after.method@ == before.method@,
        after.url@ == redacted_url(before.url@),
        after.headers@.contains_key(name) == before.headers@.contains_key(name),
        before.headers@.contains_key(name) && sensitive(name) ==> after.headers@[name]@
            == "[REDACTED]"@,
        before.headers@.contains_key(name) && !sensitive(name) ==> after.headers@[name]@
            == before.headers@[name]@,
        before.body is Some == after.body is Some,
        before.body matches Some(b) ==> after.body->0@ == redacted_json(b@),
        after.warnings == before.warnings,
{
    let a = text_map_view(after.headers);
    let b = text_map_view(before.headers);
    assert(a.contains_key(name) == after.headers@.contains_key(name));
    assert(b.contains_key(name) == before.headers@.contains_key(name));
    assert(redacted_headers(b).contains_key(name) == b.contains_key(name));
    if before.headers@.contains_key(name) {
        assert(a[name] == after.headers@[name]@);
        assert(b[name] == before.headers@[name]@);
        assert(a[name] == redacted_headers(b)[name]);
    }
}

} // verus!
