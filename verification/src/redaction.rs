//! Keeping secrets out of what is shown: headers, query parameters, JSON
//! members and text.

use crate::json::{json_views, member_views, view_by_variant, Json, JsonView};
use crate::text::{
    chars_of, concat2, concat3, contains_part, find_char, first_of, first_of_is_least, join_texts, joined, lower_text,
    occurs_in, pieces_hold_no_separator, same_text, split_on, split_text, split_undoes_join,
    text_before, text_of, texts, to_lower,
};
use crate::text_map::{ascending, text_before_irreflexive, TextMap};
use crate::trace::{json_map_view, text_map_view, DryRunRequest};
use crate::patterns::{all_replaced, replace_all};
use vstd::prelude::*;
use vstd::string::*;

verus! {

/// What stands in place of a secret.
pub const REDACTED: &'static str = "[REDACTED]";

/// Whether a lower-case name is one of those that always hold a secret.
pub open spec fn sensitive_name(lower: Seq<char>) -> bool {
    ||| lower == "proxy-authorization"@
    ||| lower == "set-cookie"@
    ||| lower == "x-api-key"@
    ||| lower == "api-key"@
}

/// Whether a lower-case name holds a stem that tells of a secret.
pub open spec fn sensitive_stem(lower: Seq<char>) -> bool {
    ||| occurs_in(lower, "password"@)
    ||| occurs_in(lower, "passwd"@)
    ||| occurs_in(lower, "secret"@)
    ||| occurs_in(lower, "token"@)
    ||| occurs_in(lower, "authorization"@)
    ||| occurs_in(lower, "apikey"@)
    ||| occurs_in(lower, "cookie"@)
    ||| occurs_in(lower, "session"@)
    ||| occurs_in(lower, "credential"@)
    ||| occurs_in(lower, "pwd"@)
}

/// Whether the value under a name is a secret: by the name, whatever its
/// case.
pub open spec fn sensitive(name: Seq<char>) -> bool {
    sensitive_name(lower_text(name)) || sensitive_stem(lower_text(name))
}

/// Whether the value under `name` is a secret.
pub fn is_sensitive_key(name: &str) -> (r: bool)
    ensures
        r == sensitive(name@),
{
    let owned = to_lower(name);
    let lower = owned.as_str();
    same_text(lower, "proxy-authorization") || same_text(lower, "set-cookie") || same_text(
        lower,
        "x-api-key",
    ) || same_text(lower, "api-key") || contains_part(lower, "password") || contains_part(
        lower,
        "passwd",
    ) || contains_part(lower, "secret") || contains_part(lower, "token") || contains_part(
        lower,
        "authorization",
    ) || contains_part(lower, "apikey") || contains_part(lower, "cookie") || contains_part(
        lower,
        "session",
    ) || contains_part(lower, "credential") || contains_part(lower, "pwd")
}

// ---------------------------------------------------------------------
// Headers
// ---------------------------------------------------------------------

/// Headers with the secret ones redacted.
pub open spec fn redacted_headers(headers: Map<Seq<char>, Seq<char>>) -> Map<Seq<char>, Seq<char>> {
    Map::new(
        |k: Seq<char>| headers.contains_key(k),
        |k: Seq<char>|
            if sensitive(k) {
                REDACTED@
            } else {
                headers[k]
            },
    )
}

/// Redacts the values of headers that hold secrets.
pub fn redact_headers(headers: &mut TextMap<String>)
    ensures
        text_map_view(*final(headers)) == redacted_headers(text_map_view(*old(headers))),
{
    let ghost given = text_map_view(*headers);
    let ghost start = *headers;
    let names = key_list(headers);
    let mut i: usize = 0;
    while i < names.len()
        invariant
            i <= names@.len(),
            headers@.dom() == start@.dom(),
            forall|j: int| 0 <= j < names@.len() ==> start@.contains_key((#[trigger] names@[j])@),
            forall|k: Seq<char>| #[trigger]
                start@.contains_key(k) ==> headers@[k]@ == (if sensitive(k) && exists|j: int|
                    0 <= j < i && (#[trigger] names@[j])@ == k {
                    REDACTED@
                } else {
                    start@[k]@
                }),
        decreases names@.len() - i,
    {
        let ghost before = headers@;
        let name = names[i].as_str();
        if is_sensitive_key(name) {
            headers.insert(names[i].clone(), REDACTED.to_owned());
        }
        assert(headers@.dom() =~= start@.dom());
        assert forall|k: Seq<char>| #[trigger] start@.contains_key(k) implies headers@[k]@ == (
        if sensitive(k) && exists|j: int| 0 <= j < i + 1 && (#[trigger] names@[j])@ == k {
            REDACTED@
        } else {
            start@[k]@
        }) by {
            assert(names@[i as int]@ == name@);
            if k == name@ {
                assert(0 <= i < i + 1 && names@[i as int]@ == k);
            } else {
                assert(before[k] == headers@[k]);
            }
        }
        i = i + 1;
    }
    assert(text_map_view(*headers) =~= redacted_headers(given)) by {
        assert forall|k: Seq<char>| #[trigger] start@.contains_key(k) implies headers@[k]@ == (
        if sensitive(k) {
            REDACTED@
        } else {
            start@[k]@
        }) by {
            assert(texts(names@) == start.keys());
            let j = start.keys().index_of(k);
            assert(start.keys().contains(k));
            assert(texts(names@)[j] == names@[j]@);
        }
    }
}

fn key_list<V>(m: &TextMap<V>) -> (r: Vec<String>)
    ensures
        texts(r@) == m.keys(),
        m.wf(),
        forall|j: int| 0 <= j < r@.len() ==> m@.contains_key((#[trigger] r@[j])@),
{
    let count = m.len();
    let mut out: Vec<String> = Vec::new();
    let mut i: usize = 0;
    while i < count
        invariant
            i <= count,
            count == m.keys().len(),
            out@.len() == i,
            forall|j: int| 0 <= j < i ==> (#[trigger] out@[j])@ == m.keys()[j],
        decreases count - i,
    {
        out.push(m.key_at(i).clone());
        i = i + 1;
    }
    assert(texts(out@) =~= m.keys());
    assert forall|j: int| 0 <= j < out@.len() implies m@.contains_key((#[trigger] out@[j])@) by {
        crate::text_map::entries_are_pairs(*m, j);
    }
    out
}

// ---------------------------------------------------------------------
// URLs
// ---------------------------------------------------------------------

/// One `key=value` pair of a query, its value redacted where it is a secret.
pub open spec fn redacted_pair(pair: Seq<char>) -> Seq<char> {
    let eq = first_of(pair, 0, seq!['=']);
    if eq < pair.len() && sensitive(pair.take(eq)) {
        pair.take(eq) + "="@ + REDACTED@
    } else {
        pair
    }
}

/// A query with the secret pairs redacted; everything else stays as it is.
pub open spec fn redacted_query(query: Seq<char>) -> Seq<char> {
    joined(split_on(query, '&').map_values(|p: Seq<char>| redacted_pair(p)), "&"@)
}

/// A URL with the secrets of its query redacted: what stands behind the first
/// question mark.
pub open spec fn redacted_url(url: Seq<char>) -> Seq<char> {
    let q = first_of(url, 0, seq!['?']);
    if q >= url.len() || q + 1 == url.len() {
        url
    } else {
        url.take(q + 1) + redacted_query(url.skip(q + 1))
    }
}

fn redact_pair(pair: &str) -> (r: String)
    ensures
        r@ == redacted_pair(pair@),
{
    let chars = chars_of(pair);
    let eq = find_char(&chars, 0, '=');
    if eq < chars.len() {
        let key = text_of(&chars, 0, eq);
        assert(key@ =~= pair@.take(eq as int));
        if is_sensitive_key(key.as_str()) {
            return concat3(key.as_str(), "=", REDACTED);
        }
    }
    pair.to_owned()
}

/// Redacts the secrets in the query of a URL, and leaves the rest letter for
/// letter.
pub fn redact_url_query(url: &mut String)
    ensures
        final(url)@ == redacted_url(old(url)@),
{
    let chars = chars_of(url.as_str());
    let q = find_char(&chars, 0, '?');
    if q == chars.len() || q + 1 == chars.len() {
        return ;
    }
    let query = text_of(&chars, q + 1, chars.len());
    assert(query@ =~= url@.skip(q + 1));
    let pairs = split_text(query.as_str(), '&');
    let mut out: Vec<String> = Vec::new();
    let mut i: usize = 0;
    while i < pairs.len()
        invariant
            i <= pairs@.len(),
            out@.len() == i,
            forall|j: int| 0 <= j < i ==> (#[trigger] out@[j])@ == redacted_pair(pairs@[j]@),
        decreases pairs@.len() - i,
    {
        let p = redact_pair(pairs[i].as_str());
        out.push(p);
        i = i + 1;
    }
    assert(texts(out@) =~= split_on(query@, '&').map_values(|p: Seq<char>| redacted_pair(p))) by {
        assert forall|j: int| 0 <= j < out@.len() implies texts(out@)[j] == redacted_pair(
            split_on(query@, '&')[j],
        ) by {
            assert(texts(pairs@)[j] == pairs@[j]@);
        }
        assert(texts(pairs@).len() == out@.len());
    }
    let rest = join_texts(&out, "&");
    let head = text_of(&chars, 0, q + 1);
    assert(head@ =~= url@.take(q + 1));
    *url = concat2(head.as_str(), rest.as_str());
}

// ---------------------------------------------------------------------
// JSON
// ---------------------------------------------------------------------

/// A value with every member redacted whose name tells of a secret, at every
/// depth.
pub open spec fn redacted_json(v: JsonView) -> JsonView
    decreases v, 1int, 0int,
{
    match v {
        JsonView::Array(items) => JsonView::Array(redacted_items(v, items.len())),
        JsonView::Object(members) => JsonView::Object(redacted_members(v, members.len())),
        _ => v,
    }
}

/// The first `n` items of an array, redacted.
pub open spec fn redacted_items(v: JsonView, n: nat) -> Seq<JsonView>
    decreases v, 0int, n,
{
    match v {
        JsonView::Array(items) => if 0 < n <= items.len() {
            redacted_items(v, (n - 1) as nat).push(redacted_json(items[n - 1]))
        } else {
            Seq::empty()
        },
        _ => Seq::empty(),
    }
}

/// The first `n` members of an object, redacted.
pub open spec fn redacted_members(v: JsonView, n: nat) -> Seq<(Seq<char>, JsonView)>
    decreases v, 0int, n,
{
    match v {
        JsonView::Object(members) => if 0 < n <= members.len() {
            let m = members[n - 1];
            redacted_members(v, (n - 1) as nat).push(
                (
                    m.0,
                    if sensitive(m.0) {
                        JsonView::Text(REDACTED@)
                    } else {
                        redacted_json(m.1)
                    },
                ),
            )
        } else {
            Seq::empty()
        },
        _ => Seq::empty(),
    }
}

/// Redacts the members of a value whose names tell of a secret.
pub fn redact_json_value(value: &mut Json)
    ensures
        final(value)@ == redacted_json(old(value)@),
    decreases *old(value),
{
    broadcast use view_by_variant;

    match value {
        Json::Array(items) => {
            redact_items(items);
        },
        Json::Object(members) => {
            redact_members(members);
        },
        _ => {},
    }
}

fn redact_items(items: &mut Vec<Json>)
    ensures
        json_views(final(items)@) == redacted_items(
            JsonView::Array(json_views(old(items)@)),
            old(items)@.len(),
        ),
    decreases *old(items),
{
    let ghost given = items@;
    let ghost v = JsonView::Array(json_views(given));
    let ghost whole = *items;
    let count: usize = items.len();
    let mut i: usize = 0;
    while i < count
        invariant
            i <= count,
            count == given.len(),
            items@.len() == count,
            whole@ == given,
            whole == *old(items),
            v == JsonView::Array(json_views(given)),
            forall|j: int| i <= j < count ==> items@[j] == given[j],
            forall|j: int| 0 <= j < i ==> (#[trigger] items@[j])@ == redacted_json(given[j]@),
        decreases count - i,
    {
        let mut item = items.remove(i);
        assert(decreases_to!(whole => whole[i as int]));
        redact_json_value(&mut item);
        items.insert(i, item);
        i = i + 1;
    }
    proof {
        items_redacted(json_views(given), count as nat);
        assert(json_views(items@) =~= redacted_items(v, count as nat));
    }
}

pub(crate) proof fn items_redacted(items: Seq<JsonView>, n: nat)
    requires
        n <= items.len(),
    ensures
        redacted_items(JsonView::Array(items), n).len() == n,
        forall|j: int|
            0 <= j < n ==> #[trigger] redacted_items(JsonView::Array(items), n)[j] == redacted_json(
                items[j],
            ),
    decreases n,
{
    if n > 0 {
        items_redacted(items, (n - 1) as nat);
    }
}

fn redact_members(members: &mut Vec<(String, Json)>)
    ensures
        member_views(final(members)@) == redacted_members(
            JsonView::Object(member_views(old(members)@)),
            old(members)@.len(),
        ),
    decreases *old(members),
{
    broadcast use view_by_variant;

    let ghost given = members@;
    let ghost v = JsonView::Object(member_views(given));
    let ghost whole = *members;
    let count: usize = members.len();
    let mut i: usize = 0;
    while i < count
        invariant
            i <= count,
            count == given.len(),
            members@.len() == count,
            whole@ == given,
            whole == *old(members),
            v == JsonView::Object(member_views(given)),
            forall|j: int| i <= j < count ==> members@[j] == given[j],
            forall|j: int|
                0 <= j < i ==> (#[trigger] members@[j]).0@ == given[j].0@ && members@[j].1@ == (
                if sensitive(given[j].0@) {
                    JsonView::Text(REDACTED@)
                } else {
                    redacted_json(given[j].1@)
                }),
        decreases count - i,
    {
        let (name, mut value) = members.remove(i);
        assert(decreases_to!(whole => whole[i as int]));
        if is_sensitive_key(name.as_str()) {
            value = Json::Text(REDACTED.to_owned());
            proof {
                view_by_variant(value);
            }
        } else {
            redact_json_value(&mut value);
        }
        members.insert(i, (name, value));
        i = i + 1;
    }
    proof {
        members_redacted(member_views(given), count as nat);
        assert(member_views(members@) =~= redacted_members(v, count as nat));
    }
}

pub(crate) proof fn members_redacted(members: Seq<(Seq<char>, JsonView)>, n: nat)
    requires
        n <= members.len(),
    ensures
        redacted_members(JsonView::Object(members), n).len() == n,
        forall|j: int|
            0 <= j < n ==> #[trigger] redacted_members(JsonView::Object(members), n)[j] == (
                members[j].0,
                if sensitive(members[j].0) {
                    JsonView::Text(REDACTED@)
                } else {
                    redacted_json(members[j].1)
                },
            ),
    decreases n,
{
    if n > 0 {
        members_redacted(members, (n - 1) as nat);
    }
}

/// Inputs or outputs with the secrets redacted: the values under names that
/// tell of one, and the members of the others.
pub open spec fn redacted_object(m: Map<Seq<char>, JsonView>) -> Map<Seq<char>, JsonView> {
    Map::new(
        |k: Seq<char>| m.contains_key(k),
        |k: Seq<char>|
            if sensitive(k) {
                JsonView::Text(REDACTED@)
            } else {
                redacted_json(m[k])
            },
    )
}

/// Redacts the secrets of a map of values.
pub fn redact_json_object(map: &mut TextMap<Json>)
    ensures
        json_map_view(*final(map)) == redacted_object(json_map_view(*old(map))),
{
    let ghost start = *map;
    let ghost given = json_map_view(*map);
    let names = key_list(map);
    let mut i: usize = 0;
    while i < names.len()
        invariant
            i <= names@.len(),
            map@.dom() == start@.dom(),
            ascending(texts(names@)),
            forall|j: int| 0 <= j < names@.len() ==> start@.contains_key((#[trigger] names@[j])@),
            forall|j: int|
                0 <= j < i ==> map@[(#[trigger] names@[j])@]@ == redacted_object(
                    json_map_view(start),
                )[names@[j]@],
            forall|j: int|
                i <= j < names@.len() ==> map@[(#[trigger] names@[j])@] == start@[names@[j]@],
        decreases names@.len() - i,
    {
        let ghost before = map@;
        let name = names[i].as_str();
        proof {
            assert(start@.contains_key(names@[i as int]@));
            distinct_names(names@);
        }
        let value = if is_sensitive_key(name) {
            let text = Json::Text(REDACTED.to_owned());
            proof {
                view_by_variant(text);
            }
            text
        } else {
            match map.get(name) {
                Some(v) => {
                    let mut copy = v.copy();
                    redact_json_value(&mut copy);
                    copy
                },
                None => Json::Null,
            }
        };
        map.insert(names[i].clone(), value);
        assert(map@.dom() =~= start@.dom());
        assert(given_redacted(start, name@) == value@);
        i = i + 1;
    }
    assert(json_map_view(*map) =~= redacted_object(given)) by {
        assert forall|k: Seq<char>| #[trigger] start@.contains_key(k) implies map@[k]@
            == redacted_object(given)[k] by {
            assert(start.keys().contains(k));
            let j = start.keys().index_of(k);
            assert(texts(names@)[j] == names@[j]@);
        }
    }
}

spec fn given_redacted(m: TextMap<Json>, name: Seq<char>) -> JsonView {
    redacted_object(json_map_view(m))[name]
}

proof fn distinct_names(names: Seq<String>)
    requires
        ascending(texts(names)),
    ensures
        forall|i: int, j: int|
            0 <= i < names.len() && 0 <= j < names.len() && i != j ==> (#[trigger] names[i])@ != (
            #[trigger] names[j])@,
{
    assert forall|i: int, j: int|
        0 <= i < names.len() && 0 <= j < names.len() && i != j implies (#[trigger] names[i])@ != (
    #[trigger] names[j])@ by {
        let t = texts(names);
        assert(t[i] == names[i]@ && t[j] == names[j]@);
        if i < j {
            assert(text_before(t[i], t[j]));
        } else {
            assert(text_before(t[j], t[i]));
        }
        text_before_irreflexive(t[i]);
    }
}

// ---------------------------------------------------------------------
// Requests
// ---------------------------------------------------------------------

/// Whether a request is another one with its secrets redacted.
pub open spec fn request_redacted(before: DryRunRequest, after: DryRunRequest) -> bool {
    &&& after.step_id == before.step_id
    &&& after.method == before.method
    &&& after.url@ == redacted_url(before.url@)
    &&& text_map_view(after.headers) == redacted_headers(text_map_view(before.headers))
    &&& match before.body {
        Some(b) => after.body is Some && after.body->0@ == redacted_json(b@),
        None => after.body is None,
    }
    &&& after.warnings == before.warnings
}

/// Redacts the secrets of a request: in its headers, its query and its body.
pub fn redact_dry_run_request(request: &mut DryRunRequest)
    ensures
        request_redacted(*old(request), *final(request)),
{
    redact_headers(&mut request.headers);
    redact_url_query(&mut request.url);
    match &mut request.body {
        Some(body) => {
            redact_json_value(body);
        },
        None => {},
    }
}

/// The request with its secrets redacted.
pub fn redacted_dry_run_request(request: DryRunRequest) -> (r: DryRunRequest)
    ensures
        request_redacted(request, r),
{
    let mut out = request;
    redact_dry_run_request(&mut out);
    out
}

// ---------------------------------------------------------------------
// Text
// ---------------------------------------------------------------------

/// Credentials behind the name of an authentication scheme.
pub const BEARER_PATTERN: &'static str = "(?i)(Bearer|Basic)\\s+[A-Za-z0-9._~+/=-]+";

pub const BEARER_REPLACEMENT: &'static str = "${1} [REDACTED]";

/// A value behind a name that tells of a secret and a colon or an equals sign.
pub const KEY_VALUE_PATTERN: &'static str =
    "(?i)(password|passwd|secret|token|authorization|apikey|api_key|credential|pwd)(\\s*[:=]\\s*)\\S+";

pub const KEY_VALUE_REPLACEMENT: &'static str = "${1}${2}[REDACTED]";

/// Redacts what looks like a secret in a text that is no JSON: credentials
/// behind an authentication scheme, then values behind telling names.
pub fn redact_text_patterns(text: &str) -> (r: String)
    ensures
        r@ == all_replaced(
            KEY_VALUE_PATTERN@,
            all_replaced(BEARER_PATTERN@, text@, BEARER_REPLACEMENT@),
            KEY_VALUE_REPLACEMENT@,
        ),
{
    let once = replace_all(BEARER_PATTERN, text, BEARER_REPLACEMENT);
    replace_all(KEY_VALUE_PATTERN, once.as_str(), KEY_VALUE_REPLACEMENT)
}

// ---------------------------------------------------------------------
// Redaction is final
// ---------------------------------------------------------------------

/// Redacting headers again changes nothing.
pub proof fn headers_stay_redacted(headers: Map<Seq<char>, Seq<char>>)
    ensures
        redacted_headers(redacted_headers(headers)) == redacted_headers(headers),
{
    assert(redacted_headers(redacted_headers(headers)) =~= redacted_headers(headers));
}

/// Redacting a value again changes nothing.
pub proof fn json_stays_redacted(v: JsonView)
    ensures
        redacted_json(redacted_json(v)) == redacted_json(v),
    decreases v,
{
    match v {
        JsonView::Array(items) => {
            items_redacted(items, items.len());
            let once = redacted_items(v, items.len());
            assert forall|j: int| 0 <= j < items.len() implies redacted_json(#[trigger] once[j])
                == once[j] by {
                json_stays_redacted(items[j]);
            }
            items_redacted(once, once.len());
            assert(redacted_items(JsonView::Array(once), once.len()) =~= once);
        },
        JsonView::Object(members) => {
            members_redacted(members, members.len());
            let once = redacted_members(v, members.len());
            assert forall|j: int| 0 <= j < members.len() implies redacted_json(
                (#[trigger] once[j]).1,
            ) == once[j].1 by {
                if !sensitive(members[j].0) {
                    json_stays_redacted(members[j].1);
                }
            }
            members_redacted(once, once.len());
            assert(redacted_members(JsonView::Object(once), once.len()) =~= once);
        },
        _ => {},
    }
}

proof fn pair_stays_redacted(pair: Seq<char>)
    ensures
        redacted_pair(redacted_pair(pair)) == redacted_pair(pair),
        forall|j: int|
            0 <= j < redacted_pair(pair).len() && (forall|k: int|
                0 <= k < pair.len() ==> pair[k] != '&') ==> (#[trigger] redacted_pair(pair)[j])
                != '&',
{
    reveal_strlit("=");
    reveal_strlit("[REDACTED]");
    let eq = first_of(pair, 0, seq!['=']);
    first_of_is_least(pair, 0, seq!['=']);
    if eq < pair.len() && sensitive(pair.take(eq)) {
        let key = pair.take(eq);
        let once = redacted_pair(pair);
        assert(once =~= key + ("="@ + REDACTED@));
        assert(seq!['='].contains('=')) by {
            assert(seq!['='][0] == '=');
        }
        equals_found(key, "="@ + REDACTED@);
        assert(once.take(eq) =~= key);
    }
}

proof fn equals_found(key: Seq<char>, rest: Seq<char>)
    requires
        rest.len() > 0,
        rest[0] == '=',
        forall|i: int| 0 <= i < key.len() ==> !seq!['='].contains(#[trigger] key[i]),
    ensures
        first_of(key + rest, 0, seq!['=']) == key.len(),
{
    equals_found_from(key, rest, 0);
}

proof fn equals_found_from(key: Seq<char>, rest: Seq<char>, from: int)
    requires
        0 <= from <= key.len(),
        rest.len() > 0,
        rest[0] == '=',
        forall|i: int| 0 <= i < key.len() ==> !seq!['='].contains(#[trigger] key[i]),
    ensures
        first_of(key + rest, from, seq!['=']) == key.len(),
    decreases key.len() - from,
{
    let s = key + rest;
    if from < key.len() {
        assert(s[from] == key[from]);
        equals_found_from(key, rest, from + 1);
    } else {
        assert(s[from] == '=');
        assert(seq!['='].contains('=')) by {
            assert(seq!['='][0] == '=');
        }
    }
}

/// Redacting a URL again changes nothing.
pub proof fn url_stays_redacted(url: Seq<char>)
    ensures
        redacted_url(redacted_url(url)) == redacted_url(url),
{
    let q = first_of(url, 0, seq!['?']);
    first_of_is_least(url, 0, seq!['?']);
    if q < url.len() && q + 1 < url.len() {
        let query = url.skip(q + 1);
        let pieces = split_on(query, '&');
        let list = pieces.map_values(|p: Seq<char>| redacted_pair(p));
        pieces_hold_no_separator(query, '&');
        assert forall|i: int, j: int|
            0 <= i < list.len() && 0 <= j < list[i].len() implies (#[trigger] list[i][j]) != '&' by {
            pair_stays_redacted(pieces[i]);
            assert forall|k: int| 0 <= k < pieces[i].len() implies pieces[i][k] != '&' by {
                assert(split_on(query, '&')[i][k] != '&');
            }
            assert(redacted_pair(pieces[i])[j] != '&');
        }
        reveal_strlit("&");
        assert("&"@ =~= seq!['&']);
        let once = redacted_query(query);
        split_undoes_join(list, '&');
        assert(split_on(once, '&') == list);
        assert forall|i: int| 0 <= i < list.len() implies redacted_pair(#[trigger] list[i])
            == list[i] by {
            pair_stays_redacted(pieces[i]);
        }
        assert(list.map_values(|p: Seq<char>| redacted_pair(p)) =~= list);
        assert(redacted_query(once) == once);
        let head = url.take(q + 1);
        let result = head + once;
        assert(result =~= redacted_url(url));
        question_found(url, q, once);
        assert(result.take(q + 1) =~= head);
        assert(result.skip(q + 1) =~= once);
        if once.len() == 0 {
            assert(result =~= head);
        }
    }
}

proof fn question_found(url: Seq<char>, q: int, rest: Seq<char>)
    requires
        0 <= q < url.len(),
        q == first_of(url, 0, seq!['?']),
    ensures
        first_of(url.take(q + 1) + rest, 0, seq!['?']) == q,
{
    let head = url.take(q + 1);
    first_of_is_least(url, 0, seq!['?']);
    question_found_from(url, q, rest, 0);
}

proof fn question_found_from(url: Seq<char>, q: int, rest: Seq<char>, from: int)
    requires
        0 <= from <= q < url.len(),
        seq!['?'].contains(url[q]),
        forall|i: int| 0 <= i < q ==> !seq!['?'].contains(#[trigger] url[i]),
    ensures
        first_of(url.take(q + 1) + rest, from, seq!['?']) == q,
    decreases q - from,
{
    let s = url.take(q + 1) + rest;
    assert(s[from] == url[from]);
    if from < q {
        question_found_from(url, q, rest, from + 1);
    }
}

// ---------------------------------------------------------------------
// Secrets leave no trace
// ---------------------------------------------------------------------

/// What headers look like redacted does not depend on the values of the
/// secret ones.
pub proof fn secret_headers_leave_no_trace(
    a: Map<Seq<char>, Seq<char>>,
    b: Map<Seq<char>, Seq<char>>,
)
    requires
        a.dom() == b.dom(),
        forall|k: Seq<char>| a.contains_key(k) && !sensitive(k) ==> #[trigger] a[k] == b[k],
    ensures
        redacted_headers(a) == redacted_headers(b),
{
    assert(redacted_headers(a) =~= redacted_headers(b)) by {
        assert forall|k: Seq<char>| a.contains_key(k) implies redacted_headers(a)[k]
            == redacted_headers(b)[k] by {
            if !sensitive(k) {
                assert(a[k] == b[k]);
            }
        }
    }
}

/// What an object looks like redacted does not depend on the values of its
/// secret members.
pub proof fn secret_members_leave_no_trace(
    a: Seq<(Seq<char>, JsonView)>,
    b: Seq<(Seq<char>, JsonView)>,
)
    requires
        a.len() == b.len(),
        forall|i: int|
            #![trigger a[i]]
            #![trigger b[i]]
            0 <= i < a.len() ==> a[i].0 == b[i].0 && (sensitive(a[i].0) || redacted_json(a[i].1)
                == redacted_json(b[i].1)),
    ensures
        redacted_json(JsonView::Object(a)) == redacted_json(JsonView::Object(b)),
{
    members_redacted(a, a.len());
    members_redacted(b, b.len());
    assert(redacted_members(JsonView::Object(a), a.len()) =~= redacted_members(
        JsonView::Object(b),
        b.len(),
    ));
}

/// The query of a URL.
pub open spec fn query_of(url: Seq<char>) -> Seq<char> {
    url.skip(first_of(url, 0, seq!['?']) + 1)
}

/// Whether two pairs of a query are the same, but for the value where it is a
/// secret.
pub open spec fn same_but_for_secret(a: Seq<char>, b: Seq<char>) -> bool {
    let at = first_of(a, 0, seq!['=']);
    let bt = first_of(b, 0, seq!['=']);
    a == b || (at < a.len() && bt < b.len() && a.take(at) == b.take(bt) && sensitive(a.take(at)))
}

/// A query without separators is its only piece, and one with is more pieces.
proof fn one_piece(query: Seq<char>)
    ensures
        split_on(query, '&').len() >= 1,
        split_on(query, '&').len() == 1 ==> split_on(query, '&')[0] == query,
        query.len() == 0 ==> split_on(query, '&').len() == 1,
    decreases query.len(),
{
    let i = first_of(query, 0, seq!['&']);
    first_of_is_least(query, 0, seq!['&']);
    if i < query.len() {
        one_piece(query.skip(i + 1));
    }
}

/// What a URL looks like redacted does not depend on the values of the secret
/// keys of its query: they leave no trace.
pub proof fn secret_query_values_leave_no_trace(a: Seq<char>, b: Seq<char>)
    requires
        ({
            let q = first_of(a, 0, seq!['?']);
            q < a.len() && q == first_of(b, 0, seq!['?']) && q < b.len() && a.take(q + 1)
                == b.take(q + 1)
        }),
        split_on(query_of(a), '&').len() == split_on(query_of(b), '&').len(),
        forall|i: int|
            0 <= i < split_on(query_of(a), '&').len() ==> same_but_for_secret(
                #[trigger] split_on(query_of(a), '&')[i],
                split_on(query_of(b), '&')[i],
            ),
    ensures
        redacted_url(a) == redacted_url(b),
{
    let q = first_of(a, 0, seq!['?']);
    first_of_is_least(a, 0, seq!['?']);
    let s = split_on(query_of(a), '&');
    let t = split_on(query_of(b), '&');
    assert(s.map_values(|p: Seq<char>| redacted_pair(p)) =~= t.map_values(
        |p: Seq<char>| redacted_pair(p),
    )) by {
        assert forall|i: int| 0 <= i < s.len() implies redacted_pair(#[trigger] s[i])
            == redacted_pair(t[i]) by {
            assert(same_but_for_secret(s[i], t[i]));
        }
    }
    assert(redacted_query(query_of(a)) == redacted_query(query_of(b)));
    assert(a =~= a.take(q + 1) + query_of(a));
    assert(b =~= b.take(q + 1) + query_of(b));
    if query_of(a).len() == 0 || query_of(b).len() == 0 {
        one_piece(query_of(a));
        one_piece(query_of(b));
        assert(same_but_for_secret(s[0], t[0]));
        assert(query_of(a) =~= query_of(b));
    }
}

} // verus!
