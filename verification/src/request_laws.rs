//! What holds of the request that is built of a step, in terms of what the
//! step declares.

use crate::error::RuntimeErrorKind;
use crate::http_request::{headers_bound, request_prepared, HeadersView, RequestPlan};
use crate::http_url::{
    base_and_path, leads, method_and_path_come_back, parameters_bound, pairs_merged, query_pairs,
    BoundView, OperationPathForm,
};
use crate::json::JsonView;
use crate::json_pointer::{member_value, set_keeps_others, set_then_read};
use crate::json_text::{json_text, plain_text};
use crate::model::{Literal, ParamLocation, Parameter, RequestBody, Step, StepTarget, ValueSource};
use crate::payload::{
    mapping_key, replacements_applied, resolved, resolved_items, resolved_members, resolved_part, Answers,
};
use crate::text::{
    end_stripped, first_of, first_of_is_least, joined, lower, lower_text, occurs_in, stands_at,
};
use crate::url_path::{
    cookie_encoded, end_trimmed, filled, filled_at, filled_upto, in_path, is_dot, is_dot_segment,
    literal_start, path_end, path_start, segment_encoded, segment_end, segment_start, separates,
    template_text, templates_from, unsafe_names, unsafe_part, without_breaks, PartView,
};
use crate::web_url::form_text;
use vstd::prelude::*;
use vstd::string::*;
use vstd::utf8::encode_utf8;

verus! {

// ---------------------------------------------------------------------
// Values
// ---------------------------------------------------------------------

/// What the value of a declaration comes to.
pub open spec fn value_of(v: ValueSource, a: Answers) -> JsonView {
    resolved(v, a).value
}

/// A plain value stands for itself as a text: a text without its quotes, `null`
/// as nothing, a boolean by its name, and everything else as its JSON text.
pub proof fn plain_texts(v: JsonView)
    ensures
        v matches JsonView::Text(s) ==> plain_text(v) == s,
        v is Null ==> plain_text(v) == Seq::<char>::empty(),
        v matches JsonView::Bool(b) ==> plain_text(v) == (if b {
            "true"@
        } else {
            "false"@
        }),
        v is Number || v is Array || v is Object ==> plain_text(v) == json_text(v),
{
    reveal_strlit("");
    assert(""@ =~= Seq::<char>::empty());
}

proof fn items_are_resolved(v: ValueSource, a: Answers, n: nat)
    ensures
        resolved_items(v, a, n).len() == n,
        forall|i: int|
            0 <= i < n ==> #[trigger] resolved_items(v, a, n)[i] == resolved_part(v, a, i).value,
    decreases n,
{
    if n > 0 {
        items_are_resolved(v, a, (n - 1) as nat);
    }
}

/// A value that is written out stands for itself, a text for what it came to,
/// and a list for the list of what its items stand for, one for one.
pub proof fn values_stand_for_themselves(v: ValueSource, a: Answers)
    ensures
        v matches ValueSource::Literal(Literal::Null) ==> value_of(v, a) is Null,
        v matches ValueSource::Literal(Literal::Other) ==> value_of(v, a) is Null,
        v matches ValueSource::Literal(Literal::Text(s)) ==> (!a.texts@.contains_key(s@) ==> value_of(
            v,
            a,
        ) is Null),
        v matches ValueSource::Literal(Literal::Bool(b)) ==> value_of(v, a) == JsonView::Bool(b),
        v matches ValueSource::Literal(Literal::Number(n)) ==> value_of(v, a) == JsonView::Number(
            n@,
        ),
        v matches ValueSource::Literal(Literal::Text(s)) ==> (a.texts@.contains_key(s@) ==> value_of(
            v,
            a,
        ) == a.texts@[s@].value@),
        v matches ValueSource::Literal(Literal::Sequence(items)) ==> (value_of(
            v,
            a,
        ) matches JsonView::Array(list) && list.len() == items@.len() && forall|i: int|
            0 <= i < items@.len() ==> #[trigger] list[i] == value_of(items@[i], a)),
{
    if let ValueSource::Literal(Literal::Sequence(items)) = v {
        items_are_resolved(v, a, items@.len());
        let list = resolved_items(v, a, items@.len());
        assert forall|i: int| 0 <= i < items@.len() implies #[trigger] list[i] == value_of(
            items@[i],
            a,
        ) by {
            assert(list[i] == resolved_part(v, a, i).value);
        }
    }
}

proof fn members_are_resolved(v: ValueSource, a: Answers, n: nat, i: int, name: Seq<char>)
    requires
        v matches ValueSource::Literal(Literal::Mapping(members)) && n <= members@.len(),
        forall|j: int| i < j < n ==> #[trigger] mapping_key(v, j) != name,
        i < n,
        0 <= i ==> mapping_key(v, i) == name,
        i >= -1,
    ensures
        0 <= i ==> member_value(resolved_members(v, a, n), name) == Some(
            resolved_part(v, a, i).value,
        ),
        i == -1 ==> member_value(resolved_members(v, a, n), name) is None,
    decreases n,
{
    if n > 0 {
        let before = resolved_members(v, a, (n - 1) as nat);
        let key = mapping_key(v, n - 1);
        let value = resolved_part(v, a, n - 1).value;
        if i == n - 1 {
            set_then_read(before, key, value);
        } else {
            assert(mapping_key(v, n - 1) != name);
            members_are_resolved(v, a, (n - 1) as nat, i, name);
            set_keeps_others(before, key, value, name);
        }
    }
}

/// A mapping stands for the object whose members stand for those that are
/// written out: under each name the last, and none under any other.
pub proof fn mappings_stand_for_objects(v: ValueSource, a: Answers, i: int, name: Seq<char>)
    requires
        v matches ValueSource::Literal(Literal::Mapping(members)) && {
            &&& -1 <= i < members@.len()
            &&& 0 <= i ==> (members@[i].0 matches Some(k) && k@ == name)
            &&& forall|j: int|
                i < j < members@.len() ==> ((#[trigger] members@[j]).0 matches Some(k) && k@
                    != name)
        },
    ensures
        value_of(v, a) matches JsonView::Object(list) && {
            &&& 0 <= i ==> member_value(list, name) == Some(
                value_of((v->Literal_0->Mapping_0)@[i].1, a),
            )
            &&& i == -1 ==> member_value(list, name) is None
        },
{
    if let ValueSource::Literal(Literal::Mapping(members)) = v {
        assert forall|j: int| i < j < members@.len() implies #[trigger] mapping_key(v, j)
            != name by {
            assert(members@[j].0 is Some);
        }
        members_are_resolved(v, a, members@.len(), i, name);
    }
}

// ---------------------------------------------------------------------
// Headers and cookies
// ---------------------------------------------------------------------

/// Whether parameter `i` goes into the headers under a name.
pub open spec fn header_parameter(list: Seq<Parameter>, i: int, name: Seq<char>) -> bool {
    0 <= i < list.len() && list[i].in_ == Some(ParamLocation::Header) && list[i].name@ == name
}

/// Whether parameter `i` is a cookie.
pub open spec fn cookie_parameter(list: Seq<Parameter>, i: int) -> bool {
    0 <= i < list.len() && list[i].in_ == Some(ParamLocation::Cookie)
}

proof fn bound_headers(
    start: HeadersView,
    list: Seq<Parameter>,
    a: Answers,
    n: nat,
    i: int,
    name: Seq<char>,
)
    requires
        n <= list.len(),
        -1 <= i < n,
        0 <= i ==> header_parameter(list, i, name),
        forall|j: int| i < j < n ==> !header_parameter(list, j, name),
    ensures
        0 <= i ==> headers_bound(start, list, a, n).headers.contains_key(name) && headers_bound(
            start,
            list,
            a,
            n,
        ).headers[name] == plain_text(value_of(list[i].value, a)),
        i == -1 ==> headers_bound(start, list, a, n).headers.contains_key(name)
            == start.headers.contains_key(name) && headers_bound(start, list, a, n).headers[name]
            == start.headers[name],
    decreases n,
{
    if n > 0 && i < n - 1 {
        assert(!header_parameter(list, n - 1, name));
        bound_headers(start, list, a, (n - 1) as nat, i, name);
    }
}

proof fn some_cookies(
    start: HeadersView,
    list: Seq<Parameter>,
    a: Answers,
    n: nat,
    at: Seq<int>,
    m: nat,
)
    requires
        n <= list.len(),
        m <= at.len(),
        start.cookies == Seq::<Seq<char>>::empty(),
        forall|k: int| 0 <= k < at.len() ==> cookie_parameter(list, #[trigger] at[k]),
        forall|k: int, l: int| 0 <= k < l < at.len() ==> #[trigger] at[k] < #[trigger] at[l],
        forall|j: int| #[trigger] cookie_parameter(list, j) ==> at.contains(j),
        forall|k: int| 0 <= k < m ==> #[trigger] at[k] < n,
        forall|k: int| m <= k < at.len() ==> #[trigger] at[k] >= n,
    ensures
        headers_bound(start, list, a, n).cookies == at.take(m as int).map_values(
            |i: int| cookie_pair(list[i], a),
        ),
    decreases n,
{
    let pairs = |i: int| cookie_pair(list[i], a);
    if n == 0 {
        if m > 0 {
            assert(at[0] < 0);
            assert(cookie_parameter(list, at[0]));
        }
        assert(at.take(0).map_values(pairs) =~= Seq::<Seq<char>>::empty());
    } else if cookie_parameter(list, n - 1) {
        let k = at.index_of(n - 1);
        assert(at[k] == n - 1);
        if k < m - 1 {
            assert(at[k] < at[m - 1]);
        }
        assert(k == m - 1);
        assert forall|l: int| 0 <= l < m - 1 implies #[trigger] at[l] < n - 1 by {
            assert(at[l] < at[k]);
        }
        assert forall|l: int| m - 1 <= l < at.len() implies #[trigger] at[l] >= n - 1 by {
            if l > k {
                assert(at[k] < at[l]);
            }
        }
        some_cookies(start, list, a, (n - 1) as nat, at, (m - 1) as nat);
        assert(at.take(m as int).map_values(pairs) =~= at.take(m - 1).map_values(pairs).push(
            cookie_pair(list[n - 1], a),
        ));
    } else {
        assert forall|l: int| 0 <= l < m implies #[trigger] at[l] < n - 1 by {
            assert(cookie_parameter(list, at[l]));
        }
        some_cookies(start, list, a, (n - 1) as nat, at, m);
    }
}

/// A cookie as it is sent: its name, and its value encoded.
pub open spec fn cookie_pair(p: Parameter, a: Answers) -> Seq<char> {
    p.name@ + "="@ + cookie_encoded(plain_text(value_of(p.value, a)))
}

/// Every header parameter is sent: under its name the headers of the request
/// hold the text of its value, of the last one where several have the name.
/// Only cookies take the place of a parameter that is named like them.
pub proof fn header_parameters_are_sent(step: Step, plan: RequestPlan, i: int)
    requires
        request_prepared(step, plan) is Ok,
        header_parameter(step.parameters@, i, step.parameters@[i].name@),
        forall|j: int|
            i < j < step.parameters@.len() ==> !header_parameter(
                step.parameters@,
                j,
                step.parameters@[i].name@,
            ),
        step.parameters@[i].name@ != "Cookie"@ || forall|j: int|
            !cookie_parameter(step.parameters@, j),
    ensures
        request_prepared(step, plan)->Ok_0.headers.contains_key(step.parameters@[i].name@),
        request_prepared(step, plan)->Ok_0.headers[step.parameters@[i].name@] == plain_text(
            value_of(step.parameters@[i].value, *plan.answers),
        ),
{
    let list = step.parameters@;
    let start = crate::http_request::HeadersView {
        headers: crate::http_request::body_headers(
            step,
            crate::http_request::body_of(step, *plan.answers, plan.located@).value is Some,
        ),
        cookies: Seq::empty(),
        warnings: Seq::empty(),
    };
    bound_headers(start, list, *plan.answers, list.len(), i, list[i].name@);
    if forall|j: int| !cookie_parameter(list, j) {
        some_cookies(start, list, *plan.answers, list.len(), Seq::empty(), 0);
    }
}

/// The cookies of a step are sent in order, as one header. `at` names their
/// parameters.
pub proof fn cookies_are_sent_in_order(step: Step, plan: RequestPlan, at: Seq<int>)
    requires
        request_prepared(step, plan) is Ok,
        at.len() > 0,
        forall|k: int| 0 <= k < at.len() ==> cookie_parameter(step.parameters@, #[trigger] at[k]),
        forall|k: int, l: int| 0 <= k < l < at.len() ==> #[trigger] at[k] < #[trigger] at[l],
        forall|j: int| #[trigger] cookie_parameter(step.parameters@, j) ==> at.contains(j),
    ensures
        request_prepared(step, plan)->Ok_0.headers.contains_key("Cookie"@),
        request_prepared(step, plan)->Ok_0.headers["Cookie"@] == joined(
            at.map_values(|i: int| cookie_pair(step.parameters@[i], *plan.answers)),
            "; "@,
        ),
{
    let list = step.parameters@;
    let start = HeadersView {
        headers: crate::http_request::body_headers(
            step,
            crate::http_request::body_of(step, *plan.answers, plan.located@).value is Some,
        ),
        cookies: Seq::empty(),
        warnings: Seq::empty(),
    };
    assert forall|k: int| 0 <= k < at.len() implies #[trigger] at[k] < list.len() by {
        assert(cookie_parameter(list, at[k]));
    }
    some_cookies(start, list, *plan.answers, list.len(), at, at.len());
    assert(at.take(at.len() as int) =~= at);
}

/// Nothing else is sent: every header is a parameter's, the media type of a
/// body, or made of cookies.
pub proof fn no_other_headers_are_sent(step: Step, plan: RequestPlan, name: Seq<char>)
    requires
        request_prepared(step, plan) is Ok,
        request_prepared(step, plan)->Ok_0.headers.contains_key(name),
    ensures
        (exists|i: int| header_parameter(step.parameters@, i, name)) || (name == "Content-Type"@
            && (step.request_body matches Some(b) && b.payload is Some)) || (name == "Cookie"@
            && exists|i: int| cookie_parameter(step.parameters@, i)),
{
    let list = step.parameters@;
    let start = HeadersView {
        headers: crate::http_request::body_headers(
            step,
            crate::http_request::body_of(step, *plan.answers, plan.located@).value is Some,
        ),
        cookies: Seq::empty(),
        warnings: Seq::empty(),
    };
    if forall|i: int| !header_parameter(list, i, name) {
        bound_headers(start, list, *plan.answers, list.len(), -1, name);
    }
    if forall|j: int| !cookie_parameter(list, j) {
        some_cookies(start, list, *plan.answers, list.len(), Seq::empty(), 0);
    }
}

// ---------------------------------------------------------------------
// The body
// ---------------------------------------------------------------------

/// Whether the request body of a step is this one.
pub open spec fn has_body(step: Step, body: RequestBody) -> bool {
    step.request_body == Some(body)
}

/// A body is sent exactly where a payload is declared, as the value that the
/// payload comes to, and under the media type that is declared, or as JSON.
pub proof fn a_payload_is_the_body(step: Step, plan: RequestPlan, body: RequestBody)
    requires
        request_prepared(step, plan) is Ok,
        has_body(step, body),
    ensures
        ({
            let v = request_prepared(step, plan)->Ok_0;
            &&& v.body is Some == body.payload is Some
            &&& v.body_json is Some == body.payload is Some
            &&& body.payload matches Some(payload) ==> body.replacements@.len() == 0
                ==> v.body_json == Some(value_of(payload, *plan.answers))
            &&& body.payload matches Some(payload) ==> v.body_json == Some(
                replacements_applied(
                    value_of(payload, *plan.answers),
                    body.content_type@,
                    body.replacements@,
                    *plan.answers,
                    plan.located@,
                    body.replacements@.len(),
                ).body,
            )
            &&& body.payload is Some && (forall|i: int|
                !header_parameter(step.parameters@, i, "Content-Type"@)) ==> {
                &&& v.headers.contains_key("Content-Type"@)
                &&& body.content_type@.len() > 0 ==> v.headers["Content-Type"@]
                    == body.content_type@
                &&& body.content_type@.len() == 0 ==> v.headers["Content-Type"@]
                    == "application/json"@
            }
        }),
{
    let list = step.parameters@;
    let start = HeadersView {
        headers: crate::http_request::body_headers(
            step,
            crate::http_request::body_of(step, *plan.answers, plan.located@).value is Some,
        ),
        cookies: Seq::empty(),
        warnings: Seq::empty(),
    };
    if forall|i: int| !header_parameter(list, i, "Content-Type"@) {
        bound_headers(start, list, *plan.answers, list.len(), -1, "Content-Type"@);
    }
    reveal_strlit("Content-Type");
    reveal_strlit("Cookie");
    assert("Content-Type"@ != "Cookie"@) by {
        assert("Content-Type"@.len() == 12);
        assert("Cookie"@.len() == 6);
    }
}

/// A step without a request body sends none.
pub proof fn no_body_is_sent_without_one(step: Step, plan: RequestPlan)
    requires
        request_prepared(step, plan) is Ok,
        step.request_body is None,
    ensures
        request_prepared(step, plan)->Ok_0.body is None,
        request_prepared(step, plan)->Ok_0.body_json is None,
{
}

/// What is sent of a body is its JSON text, and of a text that is not JSON by
/// its media type the text itself.
pub proof fn bodies_are_sent_as_text(step: Step, plan: RequestPlan, body: RequestBody, value: JsonView)
    requires
        request_prepared(step, plan) is Ok,
        has_body(step, body),
        request_prepared(step, plan)->Ok_0.body_json == Some(value),
    ensures
        request_prepared(step, plan)->Ok_0.body == Some(
            if value is Text && !occurs_in(body.content_type@, "json"@) {
                encode_utf8(plain_text(value))
            } else {
                encode_utf8(json_text(value))
            },
        ),
{
}

// ---------------------------------------------------------------------
// The target
// ---------------------------------------------------------------------

/// Whether a text is one of the methods that may stand before a path.
pub open spec fn is_http_method(m: Seq<char>) -> bool {
    m == "GET"@ || m == "HEAD"@ || m == "POST"@ || m == "PUT"@ || m == "PATCH"@ || m == "DELETE"@
        || m == "OPTIONS"@
}

/// The method that stands before an operation path is that of the request;
/// without one a request with a body is a `POST`, and any other a `GET`. An
/// operation path is never sent over a channel.
pub proof fn the_method_is_the_one_named(step: Step, plan: RequestPlan, m: Seq<char>, path: Seq<char>)
    requires
        request_prepared(step, plan) is Ok,
        step.target matches Some(StepTarget::OperationPath(p)) && p@ == m + " "@ + path,
        is_http_method(m),
    ensures
        request_prepared(step, plan)->Ok_0.method == m,
{
    method_and_path_come_back(m, path);
    reveal_strlit("GET");
    reveal_strlit("POST");
    reveal_strlit("PUT");
    reveal_strlit("PATCH");
    reveal_strlit("DELETE");
    reveal_strlit("HEAD");
    reveal_strlit("OPTIONS");
    assert(m.len() > 0);
}

/// Whether one of the methods of HTTP stands before a path.
pub open spec fn names_a_method(p: Seq<char>) -> bool {
    leads(p, "GET"@) || leads(p, "POST"@) || leads(p, "PUT"@) || leads(p, "PATCH"@) || leads(
        p,
        "DELETE"@,
    ) || leads(p, "HEAD"@) || leads(p, "OPTIONS"@)
}

/// Without a method a request with a body is a `POST`, and any other a `GET`.
pub proof fn the_body_decides_on_the_method(step: Step, plan: RequestPlan)
    requires
        request_prepared(step, plan) is Ok,
        match step.target {
            Some(StepTarget::OperationPath(p)) => !names_a_method(p@),
            Some(StepTarget::OperationId(_)) => false,
            _ => true,
        },
    ensures
        request_prepared(step, plan)->Ok_0.method == (if step.request_body is Some {
            "POST"@
        } else {
            "GET"@
        }),
{
    reveal_strlit("");
}

/// A step that needs a channel is refused, whatever else it declares.
pub proof fn channels_are_refused(step: Step, plan: RequestPlan)
    requires
        step.has_async_action || (step.target matches Some(StepTarget::ChannelPath(_))),
    ensures
        request_prepared(step, plan) matches Err(e) && e.kind
            == RuntimeErrorKind::UnsupportedAsyncApiTransport,
{
}

// ---------------------------------------------------------------------
// The query
// ---------------------------------------------------------------------

/// Whether parameter `i` goes into the query.
pub open spec fn query_parameter(list: Seq<Parameter>, i: int) -> bool {
    0 <= i < list.len() && list[i].in_ == Some(ParamLocation::Query)
}

/// Whether no parameter is the whole query.
pub open spec fn no_querystring(list: Seq<Parameter>) -> bool {
    forall|i: int|
        0 <= i < list.len() ==> (#[trigger] list[i]).in_ != Some(ParamLocation::Querystring)
}

/// What a query parameter adds to a query: nothing where it is `null`, each
/// item of a list by itself and in order, and anything else as one text.
pub proof fn query_values(name: Seq<char>, v: JsonView, i: int)
    ensures
        v is Null ==> query_pairs(name, v).len() == 0,
        v matches JsonView::Array(items) ==> query_pairs(name, v).len() == items.len() && (0 <= i
            < items.len() ==> query_pairs(name, v)[i] == (name, plain_text(items[i]))),
        !(v is Null) && !(v is Array) ==> query_pairs(name, v) == seq![(name, plain_text(v))],
{
}

proof fn bound_query(list: Seq<Parameter>, a: Answers, id: Seq<char>, n: nat, i: int, k: int)
    requires
        n <= list.len(),
        no_querystring(list),
    ensures
        parameters_bound(list, a, id, n) matches Ok(b) && {
            &&& b.querystring is None
            &&& i < n && query_parameter(list, i) && 0 <= k < query_pairs(
                list[i].name@,
                value_of(list[i].value, a),
            ).len() ==> b.query.contains(
                query_pairs(list[i].name@, value_of(list[i].value, a))[k],
            )
        },
    decreases n,
{
    if n > 0 {
        bound_query(list, a, id, (n - 1) as nat, i, k);
        let before = parameters_bound(list, a, id, (n - 1) as nat)->Ok_0;
        let p = list[n - 1];
        assert(p.in_ != Some(ParamLocation::Querystring));
        if query_parameter(list, i) && i < n {
            let pairs = query_pairs(list[i].name@, value_of(list[i].value, a));
            if 0 <= k < pairs.len() {
                let after = parameters_bound(list, a, id, n)->Ok_0;
                if i == n - 1 {
                    assert(after.query[before.query.len() + k] == pairs[k]);
                } else {
                    let at = before.query.index_of(pairs[k]);
                    assert(after.query[at] == pairs[k]);
                }
            }
        }
    }
}

proof fn bound_query_comes_from(
    list: Seq<Parameter>,
    a: Answers,
    id: Seq<char>,
    n: nat,
    at: int,
) -> (r: (int, int))
    requires
        n <= list.len(),
        parameters_bound(list, a, id, n) matches Ok(b) && 0 <= at < b.query.len(),
    ensures
        r.0 < n,
        query_parameter(list, r.0),
        0 <= r.1 < query_pairs(list[r.0].name@, value_of(list[r.0].value, a)).len(),
        parameters_bound(list, a, id, n)->Ok_0.query[at] == query_pairs(
            list[r.0].name@,
            value_of(list[r.0].value, a),
        )[r.1],
    decreases n,
{
    let before = parameters_bound(list, a, id, (n - 1) as nat)->Ok_0;
    if at < before.query.len() {
        bound_query_comes_from(list, a, id, (n - 1) as nat, at)
    } else {
        (n - 1, at - before.query.len())
    }
}

/// Whether a URL ends in a query that is made of pairs, behind one that it may
/// have already.
pub open spec fn ends_in_query(
    url: Seq<char>,
    before: Seq<char>,
    pairs: Seq<(Seq<char>, Seq<char>)>,
) -> bool {
    if occurs_in(before, "?"@) {
        url == before + "&"@ + form_text(pairs)
    } else {
        url == before + "?"@ + form_text(pairs)
    }
}

/// Every query parameter is sent: the URL ends in a query that is made of
/// pairs, and the name of the parameter stands in it with each of its values.
#[verifier::rlimit(40)]
pub proof fn query_parameters_are_sent(step: Step, plan: RequestPlan, i: int, k: int)
    requires
        request_prepared(step, plan) is Ok,
        no_querystring(step.parameters@),
        query_parameter(step.parameters@, i),
        0 <= k < query_pairs(
            step.parameters@[i].name@,
            value_of(step.parameters@[i].value, *plan.url_answers),
        ).len(),
    ensures
        exists|before: Seq<char>, pairs: Seq<(Seq<char>, Seq<char>)>| #[trigger]
            ends_in_query(request_prepared(step, plan)->Ok_0.url_result.url, before, pairs)
                && pairs.contains(
                query_pairs(
                    step.parameters@[i].name@,
                    value_of(step.parameters@[i].value, *plan.url_answers),
                )[k],
            ),
{
    let list = step.parameters@;
    bound_query(list, *plan.url_answers, step.step_id@, list.len(), i, k);
    let b = parameters_bound(list, *plan.url_answers, step.step_id@, list.len())->Ok_0;
    let target = crate::http_request::step_request_target(
        *plan.index,
        crate::routing::operations_view(*plan.operations),
        step,
        *plan.id_form,
    )->Ok_0;
    let t = base_and_path(
        *plan.index,
        target.path,
        target.base,
        *plan.path_form,
        step.step_id@,
    )->Ok_0;
    let before = filled(crate::http_url::target_url(t.0, t.1), b.path);
    let url = request_prepared(step, plan)->Ok_0.url_result.url;
    let f = first_of(before, 0, seq!['?']);
    first_of_is_least(before, 0, seq!['?']);
    reveal_strlit("?");
    if occurs_in(before, "?"@) {
        let at = choose|at: int| #[trigger] stands_at(before, at, "?"@);
        assert(before.subrange(at, at + 1)[0] == '?');
        assert(seq!['?'][0] == '?');
        if f >= before.len() {
            assert(!seq!['?'].contains(before[at]));
        }
    }
    if f < before.len() {
        assert(before.subrange(f, f + 1) =~= "?"@) by {
            assert(seq!['?'].contains(before[f]));
        }
        assert(stands_at(before, f, "?"@));
    }
    assert(ends_in_query(url, before, b.query));
}

proof fn merged_alone(pairs: Seq<(Seq<char>, Seq<char>)>, n: nat, at: int, name: Seq<char>)
    requires
        n <= pairs.len(),
        forall|j: int| 0 <= j < n && j != at ==> (#[trigger] pairs[j]).0 != name,
        0 <= at < pairs.len(),
        pairs[at].0 == name,
    ensures
        pairs_merged(Map::empty(), pairs, n).contains_key(name) == (at < n),
        at < n ==> pairs_merged(Map::empty(), pairs, n)[name] == pairs[at].1,
    decreases n,
{
    if n > 0 {
        merged_alone(pairs, (n - 1) as nat, at, name);
        if n - 1 != at {
            assert(pairs[n - 1].0 != name);
        }
    }
}

/// A query parameter with one value, the only one of its name, is reported
/// with that value.
#[verifier::rlimit(40)]
pub proof fn a_query_value_is_reported(step: Step, plan: RequestPlan, i: int)
    requires
        request_prepared(step, plan) is Ok,
        no_querystring(step.parameters@),
        query_parameter(step.parameters@, i),
        ({
            let v = value_of(step.parameters@[i].value, *plan.url_answers);
            !(v is Null) && !(v is Array)
        }),
        forall|j: int|
            query_parameter(step.parameters@, j) && j != i ==> (#[trigger] step.parameters@[j]).name@
                != step.parameters@[i].name@,
    ensures
        ({
            let m = request_prepared(step, plan)->Ok_0.url_result.query_params;
            &&& m.contains_key(step.parameters@[i].name@)
            &&& m[step.parameters@[i].name@] == plain_text(
                value_of(step.parameters@[i].value, *plan.url_answers),
            )
        }),
{
    let list = step.parameters@;
    let a = *plan.url_answers;
    let id = step.step_id@;
    let v = value_of(list[i].value, a);
    query_values(list[i].name@, v, 0);
    bound_query(list, a, id, list.len(), i, 0);
    let b = parameters_bound(list, a, id, list.len())->Ok_0;
    let at = b.query.index_of((list[i].name@, plain_text(v)));
    assert(b.query[at] == (list[i].name@, plain_text(v)));
    only_once(list, a, id, list.len(), i, at);
    merged_alone(b.query, b.query.len(), at, list[i].name@);
}

proof fn only_once(list: Seq<Parameter>, a: Answers, id: Seq<char>, n: nat, i: int, at: int)
    requires
        n <= list.len(),
        parameters_bound(list, a, id, n) is Ok,
        query_parameter(list, i),
        query_pairs(list[i].name@, value_of(list[i].value, a)).len() == 1,
        forall|j: int|
            query_parameter(list, j) && j != i ==> (#[trigger] list[j]).name@ != list[i].name@,
        0 <= at < parameters_bound(list, a, id, n)->Ok_0.query.len(),
        parameters_bound(list, a, id, n)->Ok_0.query[at].0 == list[i].name@,
    ensures
        forall|k: int|
            0 <= k < parameters_bound(list, a, id, n)->Ok_0.query.len() && k != at ==> (
            #[trigger] parameters_bound(list, a, id, n)->Ok_0.query[k]).0 != list[i].name@,
    decreases n,
{
    let q = parameters_bound(list, a, id, n)->Ok_0.query;
    if n > 0 {
        let before = parameters_bound(list, a, id, (n - 1) as nat)->Ok_0.query;
        let p = list[n - 1];
        if query_parameter(list, n - 1) {
            let pairs = query_pairs(p.name@, value_of(p.value, a));
            assert(q =~= before + pairs);
            assert forall|k: int| 0 <= k < pairs.len() implies (#[trigger] pairs[k]).0
                == p.name@ by {
                query_values(p.name@, value_of(p.value, a), k);
            }
            if n - 1 == i {
                none_yet(list, a, id, (n - 1) as nat, i);
                assert(at == before.len());
                assert forall|k: int| 0 <= k < q.len() && k != at implies (#[trigger] q[k]).0
                    != list[i].name@ by {
                    assert(before[k].0 != list[i].name@);
                }
            } else {
                assert(list[n - 1].name@ != list[i].name@);
                if at >= before.len() {
                    assert(pairs[at - before.len()].0 == p.name@);
                }
                only_once(list, a, id, (n - 1) as nat, i, at);
                assert forall|k: int| 0 <= k < q.len() && k != at implies (#[trigger] q[k]).0
                    != list[i].name@ by {
                    if k < before.len() {
                        assert(before[k].0 != list[i].name@);
                    } else {
                        assert(pairs[k - before.len()].0 == p.name@);
                    }
                }
            }
        } else {
            assert(q == before);
            only_once(list, a, id, (n - 1) as nat, i, at);
        }
    }
}

proof fn none_yet(list: Seq<Parameter>, a: Answers, id: Seq<char>, n: nat, i: int)
    requires
        n <= i < list.len(),
        parameters_bound(list, a, id, n) is Ok,
        forall|j: int|
            query_parameter(list, j) && j != i ==> (#[trigger] list[j]).name@ != list[i].name@,
    ensures
        forall|k: int|
            0 <= k < parameters_bound(list, a, id, n)->Ok_0.query.len() ==> (
            #[trigger] parameters_bound(list, a, id, n)->Ok_0.query[k]).0 != list[i].name@,
{
    let q = parameters_bound(list, a, id, n)->Ok_0.query;
    assert forall|k: int| 0 <= k < q.len() implies (#[trigger] q[k]).0 != list[i].name@ by {
        let r = bound_query_comes_from(list, a, id, n, k);
        query_values(list[r.0].name@, value_of(list[r.0].value, a), r.1);
        assert(list[r.0].name@ != list[i].name@);
    }
}

// ---------------------------------------------------------------------
// The path
// ---------------------------------------------------------------------

proof fn bound_path(list: Seq<Parameter>, a: Answers, id: Seq<char>, n: nat, i: int, name: Seq<char>)
    requires
        n <= list.len(),
        parameters_bound(list, a, id, n) is Ok,
        -1 <= i < n,
        0 <= i ==> list[i].in_ == Some(ParamLocation::Path) && list[i].name@ == name,
        forall|j: int|
            i < j < n ==> !((#[trigger] list[j]).in_ == Some(ParamLocation::Path) && list[j].name@
                == name),
    ensures
        ({
            let m = parameters_bound(list, a, id, n)->Ok_0.path;
            &&& m.contains_key(name) == (0 <= i)
            &&& 0 <= i ==> m[name] == plain_text(value_of(list[i].value, a))
        }),
    decreases n,
{
    if n > 0 {
        if i < n - 1 {
            assert(!(list[n - 1].in_ == Some(ParamLocation::Path) && list[n - 1].name@ == name));
            bound_path(list, a, id, (n - 1) as nat, i, name);
        }
    }
}

/// Every path parameter is bound to the text of its value, the last one of its
/// name.
pub proof fn path_parameters_are_bound(step: Step, plan: RequestPlan, i: int)
    requires
        request_prepared(step, plan) is Ok,
        0 <= i < step.parameters@.len(),
        step.parameters@[i].in_ == Some(ParamLocation::Path),
        forall|j: int|
            i < j < step.parameters@.len() ==> !((#[trigger] step.parameters@[j]).in_ == Some(
                ParamLocation::Path,
            ) && step.parameters@[j].name@ == step.parameters@[i].name@),
    ensures
        ({
            let m = request_prepared(step, plan)->Ok_0.url_result.path_params;
            &&& m.contains_key(step.parameters@[i].name@)
            &&& m[step.parameters@[i].name@] == plain_text(
                value_of(step.parameters@[i].value, *plan.url_answers),
            )
        }),
{
    bound_path(
        step.parameters@,
        *plan.url_answers,
        step.step_id@,
        step.parameters@.len(),
        i,
        step.parameters@[i].name@,
    );
}

proof fn first_of_found(s: Seq<char>, from: int, c: char, at: int)
    requires
        0 <= from <= at < s.len(),
        s[at] == c,
        forall|j: int| from <= j < at ==> s[j] != c,
    ensures
        first_of(s, from, seq![c]) == at,
{
    first_of_is_least(s, from, seq![c]);
    assert(seq![c][0] == c);
    let f = first_of(s, from, seq![c]);
    if f > at {
        assert(!seq![c].contains(s[at]));
    }
    if f < at {
        assert(seq![c].contains(s[f]));
    }
}

proof fn first_of_missing(s: Seq<char>, from: int, c: char)
    requires
        0 <= from <= s.len(),
        forall|j: int| from <= j < s.len() ==> s[j] != c,
    ensures
        first_of(s, from, seq![c]) == s.len(),
{
    first_of_is_least(s, from, seq![c]);
    let f = first_of(s, from, seq![c]);
    if f < s.len() {
        assert(seq![c].contains(s[f]));
    }
}

/// A path without placeholders stays as it is.
pub proof fn a_plain_path_stays(path: Seq<char>, params: Map<Seq<char>, Seq<char>>)
    requires
        forall|j: int| 0 <= j < path.len() ==> path[j] != '{',
    ensures
        filled(path, params) == path,
{
    first_of_missing(path, 0, '{');
    assert(templates_from(path, 0) =~= Seq::<(int, int)>::empty());
    assert(filled(path, params) =~= path);
}

proof fn shifted_first_of(head: Seq<char>, rest: Seq<char>, from: int, set: Seq<char>)
    requires
        0 <= from <= rest.len(),
    ensures
        first_of(head + rest, head.len() + from, set) == head.len() + first_of(rest, from, set),
    decreases rest.len() - from,
{
    let s = head + rest;
    if from < rest.len() {
        assert(s[head.len() + from] == rest[from]);
        if !set.contains(rest[from]) {
            shifted_first_of(head, rest, from + 1, set);
        }
    }
}

proof fn shifted_templates(head: Seq<char>, rest: Seq<char>, from: int)
    requires
        0 <= from <= rest.len(),
    ensures
        templates_from(head + rest, head.len() + from) == templates_from(rest, from).map_values(
            |p: (int, int)| (p.0 + head.len(), p.1 + head.len()),
        ),
    decreases rest.len() - from,
{
    let shift = |p: (int, int)| (p.0 + head.len(), p.1 + head.len());
    let s = head + rest;
    shifted_first_of(head, rest, from, seq!['{']);
    first_of_is_least(rest, from, seq!['{']);
    let open = first_of(rest, from, seq!['{']);
    if open < rest.len() {
        shifted_first_of(head, rest, open + 1, seq!['}']);
        first_of_is_least(rest, open + 1, seq!['}']);
        let close = first_of(rest, open + 1, seq!['}']);
        if close < rest.len() {
            shifted_templates(head, rest, close + 1);
            assert(templates_from(rest, from) == seq![(open, close + 1)] + templates_from(
                rest,
                close + 1,
            ));
            assert(templates_from(s, head.len() + from) =~= templates_from(rest, from).map_values(
                shift,
            ));
        } else {
            assert(templates_from(s, head.len() + from) =~= templates_from(rest, from).map_values(
                shift,
            ));
        }
    } else {
        assert(templates_from(s, head.len() + from) =~= templates_from(rest, from).map_values(
            shift,
        ));
    }
}

proof fn shifted_filling(
    head: Seq<char>,
    rest: Seq<char>,
    place: (int, int),
    params: Map<Seq<char>, Seq<char>>,
    n: int,
)
    requires
        0 <= n <= templates_from(rest, 0).len(),
        0 <= place.0 <= place.1 == head.len(),
    ensures
        ({
            let path = head + rest;
            let places = seq![place] + templates_from(rest, 0).map_values(
                |p: (int, int)| (p.0 + head.len(), p.1 + head.len()),
            );
            filled_upto(path, places, params, n + 1) == head.subrange(0, place.0) + template_text(
                path,
                place,
                params,
            ) + filled_upto(rest, templates_from(rest, 0), params, n)
        }),
    decreases n,
{
    let path = head + rest;
    let own = templates_from(rest, 0);
    let places = seq![place] + own.map_values(
        |p: (int, int)| (p.0 + head.len(), p.1 + head.len()),
    );
    let start = head.subrange(0, place.0) + template_text(path, place, params);
    if n == 0 {
        reveal_with_fuel(filled_upto, 2);
        assert(path.subrange(0, place.0) =~= head.subrange(0, place.0));
        assert(filled_upto(path, places, params, 1) =~= start + filled_upto(rest, own, params, 0));
    } else {
        shifted_filling(head, rest, place, params, n - 1);
        placed_inside(rest, n - 1);
        let p = own[n - 1];
        assert(places[n] == (p.0 + head.len(), p.1 + head.len()));
        let ls = literal_start(own, n - 1);
        if n - 1 > 0 {
            placed_inside(rest, n - 2);
            assert(places[n - 1] == (own[n - 2].0 + head.len(), own[n - 2].1 + head.len()));
        }
        assert(literal_start(places, n) == ls + head.len());
        assert(path.subrange(ls + head.len(), p.0 + head.len()) =~= rest.subrange(ls, p.0));
        assert(path.subrange(p.0 + head.len() + 1, p.1 + head.len() - 1) =~= rest.subrange(
            p.0 + 1,
            p.1 - 1,
        ));
        assert(path.subrange(p.0 + head.len(), p.1 + head.len()) =~= rest.subrange(p.0, p.1));
        assert(template_text(path, places[n], params) == template_text(rest, p, params));
        assert(filled_upto(path, places, params, n + 1) =~= start + filled_upto(
            rest,
            own,
            params,
            n,
        ));
    }
}

proof fn placed_inside(rest: Seq<char>, i: int)
    requires
        0 <= i < templates_from(rest, 0).len(),
    ensures
        ({
            let own = templates_from(rest, 0);
            &&& literal_start(own, i) <= own[i].0
            &&& 0 <= own[i].0
            &&& own[i].0 + 2 <= own[i].1 <= rest.len()
        }),
{
    crate::url_path::templates_ok(rest, 0);
    let own = templates_from(rest, 0);
    if i > 0 {
        assert(own[i - 1].1 <= own[i].0);
    }
}

/// A placeholder is filled with the encoded value of the parameter that it
/// names, and stays where there is none. What stands before it stays, and what
/// stands behind it is filled in turn.
#[verifier::rlimit(40)]
pub proof fn placeholders_are_filled(
    before: Seq<char>,
    name: Seq<char>,
    rest: Seq<char>,
    params: Map<Seq<char>, Seq<char>>,
)
    requires
        forall|j: int| 0 <= j < before.len() ==> before[j] != '{',
        forall|j: int| 0 <= j < name.len() ==> name[j] != '}',
    ensures
        filled(before + "{"@ + name + "}"@ + rest, params) == before + (if params.contains_key(
            name,
        ) {
            segment_encoded(params[name])
        } else {
            "{"@ + name + "}"@
        }) + filled(rest, params),
{
    reveal_strlit("{");
    reveal_strlit("}");
    let path = before + "{"@ + name + "}"@ + rest;
    let head = before + "{"@ + name + "}"@;
    let a = before.len() as int;
    let c = a + 1 + name.len();
    assert(path =~= head + rest);
    assert(path[a] == '{');
    assert(path[c] == '}');
    assert forall|j: int| 0 <= j < a implies path[j] != '{' by {
        assert(path[j] == before[j]);
    }
    assert forall|j: int| a + 1 <= j < c implies path[j] != '}' by {
        assert(path[j] == name[j - a - 1]);
    }
    first_of_found(path, 0, '{', a);
    first_of_found(path, a + 1, '}', c);
    shifted_templates(head, rest, 0);
    let own = templates_from(rest, 0);
    let place = (a, c + 1);
    let places = seq![place] + own.map_values(
        |p: (int, int)| (p.0 + head.len(), p.1 + head.len()),
    );
    assert(templates_from(path, 0) =~= places);
    shifted_filling(head, rest, place, params, own.len() as int);
    assert(path.subrange(a + 1, c) =~= name);
    assert(path.subrange(a, c + 1) =~= "{"@ + name + "}"@);
    assert(head.subrange(0, a) =~= before);
    let n = own.len() as int;
    let ls = literal_start(own, n);
    if n > 0 {
        placed_inside(rest, n - 1);
        assert(places[n] == (own[n - 1].0 + head.len(), own[n - 1].1 + head.len()));
    }
    assert(literal_start(places, n + 1) == ls + head.len());
    assert(path.subrange(ls + head.len(), path.len() as int) =~= rest.subrange(
        ls,
        rest.len() as int,
    ));
    assert(filled(path, params) =~= before + template_text(path, place, params) + filled(
        rest,
        params,
    ));
}

/// A path goes behind the base without the slashes at its end, and a whole URL
/// stands for itself.
#[verifier::rlimit(40)]
pub proof fn paths_go_behind_the_base(
    index: crate::routing::RequestIndex,
    path: Seq<char>,
    source_base: Option<Seq<char>>,
    form: OperationPathForm,
    step: Step,
    a: Answers,
)
    requires
        step.parameters@.len() == 0,
        match source_base {
            Some(_) => true,
            None => match form {
                OperationPathForm::BasePath(p) => p@ == path,
                OperationPathForm::AbsoluteUrl(p) => p@ == path,
                OperationPathForm::SourceRouted { source_name, path: p } => p@ == path
                    && index.source_bases@.contains_key(source_name@),
                _ => false,
            },
        },
        forall|j: int| 0 <= j < path.len() ==> path[j] != '{',
        forall|j: int| 0 <= j < index.base_url@.len() ==> index.base_url@[j] != '{',
        source_base matches Some(b) ==> forall|j: int| 0 <= j < b.len() ==> b[j] != '{',
        source_base is None ==> (form matches OperationPathForm::SourceRouted { source_name, path: p }
            ==> forall|j: int|
            0 <= j < index.source_bases@[source_name@]@.len()
                ==> index.source_bases@[source_name@]@[j] != '{'),
    ensures
        crate::http_url::request_url(index, path, source_base, form, step, a) matches Ok(u) && {
            let base = match source_base {
                Some(b) => b,
                None => match form {
                    OperationPathForm::SourceRouted { source_name, path: p } =>
                    index.source_bases@[source_name@]@,
                    _ => index.base_url@,
                },
            };
            u.url == (if stands_at(path, 0, "http://"@) || stands_at(path, 0, "https://"@) {
                path
            } else {
                end_stripped(base, '/') + path
            })
        },
{
    let base = match source_base {
        Some(b) => b,
        None => match form {
            OperationPathForm::SourceRouted { source_name, path: p } =>
            index.source_bases@[source_name@]@,
            _ => index.base_url@,
        },
    };
    let target = crate::http_url::target_url(base, path);
    stripped_is_prefix(base, '/');
    assert forall|j: int| 0 <= j < target.len() implies target[j] != '{' by {
        if !(stands_at(path, 0, "http://"@) || stands_at(path, 0, "https://"@)) {
            let cut = end_stripped(base, '/');
            if j < cut.len() {
                assert(target[j] == base[j]);
            } else {
                assert(target[j] == path[j - cut.len()]);
            }
        }
    }
    a_plain_path_stays(target, Map::empty());
    first_of_missing(target, 0, '{');
    assert(parameters_bound(step.parameters@, a, step.step_id@, 0) == Ok::<
        BoundView,
        crate::error::ErrorView,
    >(crate::http_url::unbound()));
    let parts = crate::url_path::filled_parts(target, Map::empty());
    assert(templates_from(target, 0) =~= Seq::<(int, int)>::empty());
    assert(parts.len() == 0);
}

proof fn stripped_is_prefix(s: Seq<char>, c: char)
    ensures
        end_stripped(s, c).len() <= s.len(),
        forall|j: int| 0 <= j < end_stripped(s, c).len() ==> end_stripped(s, c)[j] == s[j],
        end_stripped(s, c).len() > 0 ==> end_stripped(s, c).last() != c,
    decreases s.len(),
{
    if s.len() > 0 && s.last() == c {
        stripped_is_prefix(s.drop_last(), c);
        assert forall|j: int| 0 <= j < end_stripped(s, c).len() implies end_stripped(s, c)[j]
            == s[j] by {
            assert(s.drop_last()[j] == s[j]);
        }
    }
}

// ---------------------------------------------------------------------
// The whole URL
// ---------------------------------------------------------------------

/// The URL of a request is its target, with its placeholders filled, and
/// behind it a query where there is one: nothing else stands before the query,
/// and without pairs nothing stands behind.
#[verifier::rlimit(40)]
pub proof fn the_url_is_the_target_and_the_query(
    index: crate::routing::RequestIndex,
    path: Seq<char>,
    source_base: Option<Seq<char>>,
    form: OperationPathForm,
    step: Step,
    a: Answers,
)
    requires
        no_querystring(step.parameters@),
        crate::http_url::request_url(index, path, source_base, form, step, a) is Ok,
    ensures
        base_and_path(index, path, source_base, form, step.step_id@) is Ok,
        ({
            let t = base_and_path(index, path, source_base, form, step.step_id@)->Ok_0;
            let u = crate::http_url::request_url(index, path, source_base, form, step, a)->Ok_0;
            let before = filled(crate::http_url::target_url(t.0, t.1), u.path_params);
            u.url == before || exists|pairs: Seq<(Seq<char>, Seq<char>)>| #[trigger]
                ends_in_query(u.url, before, pairs)
        }),
        (forall|i: int| !query_parameter(step.parameters@, i)) ==> {
            let t = base_and_path(index, path, source_base, form, step.step_id@)->Ok_0;
            let u = crate::http_url::request_url(index, path, source_base, form, step, a)->Ok_0;
            u.url == filled(crate::http_url::target_url(t.0, t.1), u.path_params)
        },
{
    let list = step.parameters@;
    bound_query(list, a, step.step_id@, list.len(), -1, 0);
    let b = parameters_bound(list, a, step.step_id@, list.len())->Ok_0;
    let t = base_and_path(index, path, source_base, form, step.step_id@)->Ok_0;
    let u = crate::http_url::request_url(index, path, source_base, form, step, a)->Ok_0;
    let before = filled(crate::http_url::target_url(t.0, t.1), b.path);
    let f = first_of(before, 0, seq!['?']);
    first_of_is_least(before, 0, seq!['?']);
    reveal_strlit("?");
    if occurs_in(before, "?"@) {
        let at = choose|at: int| #[trigger] stands_at(before, at, "?"@);
        assert(before.subrange(at, at + 1)[0] == '?');
        assert(seq!['?'][0] == '?');
        if f >= before.len() {
            assert(!seq!['?'].contains(before[at]));
        }
    }
    if f < before.len() {
        assert(before.subrange(f, f + 1) =~= "?"@) by {
            assert(seq!['?'].contains(before[f]));
        }
        assert(stands_at(before, f, "?"@));
    }
    if b.query.len() > 0 {
        assert(ends_in_query(u.url, before, b.query));
        if forall|i: int| !query_parameter(list, i) {
            let r = bound_query_comes_from(list, a, step.step_id@, list.len(), 0);
            assert(query_parameter(list, r.0));
        }
    }
}

proof fn bound_querystring(list: Seq<Parameter>, a: Answers, id: Seq<char>, n: nat, i: int)
    requires
        n <= list.len(),
        0 <= i < n,
        list[i].in_ == Some(ParamLocation::Querystring),
        forall|j: int|
            0 <= j < n && j != i ==> (#[trigger] list[j]).in_ != Some(ParamLocation::Querystring),
    ensures
        ({
            let v = value_of(list[i].value, a);
            let r = parameters_bound(list, a, id, n);
            &&& !(v is Null) && !(v is Text) ==> (r matches Err(e) && e.kind
                == RuntimeErrorKind::InvalidParameterValue)
            &&& v matches JsonView::Text(s) ==> (r matches Ok(b) && b.querystring == Some(
                (list[i].name@, s),
            ))
            &&& v is Null ==> (r matches Ok(b) && b.querystring is None)
        }),
    decreases n,
{
    if i == n - 1 {
        no_whole_query(list, a, id, (n - 1) as nat);
    } else {
        assert(list[n - 1].in_ != Some(ParamLocation::Querystring));
        bound_querystring(list, a, id, (n - 1) as nat, i);
    }
}

proof fn no_whole_query(list: Seq<Parameter>, a: Answers, id: Seq<char>, n: nat)
    requires
        n <= list.len(),
        forall|j: int|
            0 <= j < n ==> (#[trigger] list[j]).in_ != Some(ParamLocation::Querystring),
    ensures
        parameters_bound(list, a, id, n) matches Ok(b) && b.querystring is None,
    decreases n,
{
    if n > 0 {
        assert(list[n - 1].in_ != Some(ParamLocation::Querystring));
        no_whole_query(list, a, id, (n - 1) as nat);
    }
}

/// A parameter that is the whole query has to be a text without a number sign,
/// and stands behind the target as it is, without the question mark that it may
/// begin with; the other query parameters are left out.
#[verifier::rlimit(40)]
pub proof fn a_whole_query_is_the_query(
    index: crate::routing::RequestIndex,
    path: Seq<char>,
    source_base: Option<Seq<char>>,
    form: OperationPathForm,
    step: Step,
    a: Answers,
    i: int,
)
    requires
        0 <= i < step.parameters@.len(),
        step.parameters@[i].in_ == Some(ParamLocation::Querystring),
        forall|j: int|
            0 <= j < step.parameters@.len() && j != i ==> (#[trigger] step.parameters@[j]).in_
                != Some(ParamLocation::Querystring),
        base_and_path(index, path, source_base, form, step.step_id@) is Ok,
    ensures
        ({
            let v = value_of(step.parameters@[i].value, a);
            let t = base_and_path(index, path, source_base, form, step.step_id@)->Ok_0;
            let r = crate::http_url::request_url(index, path, source_base, form, step, a);
            &&& !(v is Null) && !(v is Text) ==> (r matches Err(e) && e.kind
                == RuntimeErrorKind::InvalidParameterValue)
            &&& v matches JsonView::Text(s) ==> (r matches Ok(u) ==> {
                let query = if s.len() > 0 && s[0] == '?' {
                    s.skip(1)
                } else {
                    s
                };
                let target = filled(crate::http_url::target_url(t.0, t.1), u.path_params);
                &&& forall|k: int| 0 <= k < query.len() ==> query[k] != '#'
                &&& query.len() > 0 && !occurs_in(target, "?"@) ==> u.url == target + "?"@ + query
            })
        }),
{
    let list = step.parameters@;
    bound_querystring(list, a, step.step_id@, list.len(), i);
    let v = value_of(list[i].value, a);
    if let JsonView::Text(s) = v {
        let b = parameters_bound(list, a, step.step_id@, list.len())->Ok_0;
        let t = base_and_path(index, path, source_base, form, step.step_id@)->Ok_0;
        let r = crate::http_url::request_url(index, path, source_base, form, step, a);
        let query = crate::http_url::bare_query(s);
        first_of_is_least(query, 0, seq!['#']);
        if r is Ok {
            assert forall|k: int| 0 <= k < query.len() implies query[k] != '#' by {
                assert(seq!['#'][0] == '#');
                assert(!seq!['#'].contains(query[k]));
            }
            let target = filled(crate::http_url::target_url(t.0, t.1), b.path);
            first_of_is_least(target, 0, seq!['?']);
            let f = first_of(target, 0, seq!['?']);
            reveal_strlit("?");
            if !occurs_in(target, "?"@) {
                if f < target.len() {
                    assert(seq!['?'].contains(target[f]));
                    assert(target.subrange(f, f + 1) =~= "?"@);
                    assert(stands_at(target, f, "?"@));
                }
                assert(target.take(f) =~= target);
            }
        }
    }
}

// ---------------------------------------------------------------------
// Warnings
// ---------------------------------------------------------------------

proof fn header_warnings(
    start: HeadersView,
    list: Seq<Parameter>,
    a: Answers,
    n: nat,
    i: int,
    line: Seq<char>,
)
    requires
        0 <= i < n <= list.len(),
        list[i].in_ == Some(ParamLocation::Header) || list[i].in_ == Some(ParamLocation::Cookie),
        crate::http_url::parameter_lines(
            list[i].name@,
            resolved(list[i].value, a).warnings,
        ).contains(line),
    ensures
        headers_bound(start, list, a, n).warnings.contains(line),
    decreases n,
{
    let now = headers_bound(start, list, a, n).warnings;
    let before = headers_bound(start, list, a, (n - 1) as nat).warnings;
    if i == n - 1 {
        let own = crate::http_url::parameter_lines(
            list[i].name@,
            resolved(list[i].value, a).warnings,
        );
        assert(now[before.len() + own.index_of(line)] == line);
    } else {
        header_warnings(start, list, a, (n - 1) as nat, i, line);
        assert(now[before.index_of(line)] == line);
    }
}

proof fn query_warnings(
    list: Seq<Parameter>,
    a: Answers,
    id: Seq<char>,
    n: nat,
    i: int,
    line: Seq<char>,
)
    requires
        0 <= i < n <= list.len(),
        no_querystring(list),
        list[i].in_ != Some(ParamLocation::Header),
        list[i].in_ != Some(ParamLocation::Cookie),
        crate::http_url::parameter_lines(
            list[i].name@,
            resolved(list[i].value, a).warnings,
        ).contains(line),
    ensures
        parameters_bound(list, a, id, n) matches Ok(b) && b.warnings.contains(line),
    decreases n,
{
    bound_query(list, a, id, n, -1, 0);
    bound_query(list, a, id, (n - 1) as nat, -1, 0);
    let now = parameters_bound(list, a, id, n)->Ok_0.warnings;
    let before = parameters_bound(list, a, id, (n - 1) as nat)->Ok_0.warnings;
    assert(list[n - 1].in_ != Some(ParamLocation::Querystring));
    if i == n - 1 {
        let own = crate::http_url::parameter_lines(
            list[i].name@,
            resolved(list[i].value, a).warnings,
        );
        assert(now[before.len() + own.index_of(line)] == line);
    } else {
        query_warnings(list, a, id, (n - 1) as nat, i, line);
        let at = before.index_of(line);
        assert(now[at] == before[at]);
    }
}

/// What went wrong with the value of a parameter is among the warnings of the
/// request, under the name of the parameter.
#[verifier::rlimit(40)]
pub proof fn warnings_of_parameters_are_kept(step: Step, plan: RequestPlan, i: int, k: int)
    requires
        request_prepared(step, plan) is Ok,
        no_querystring(step.parameters@),
        0 <= i < step.parameters@.len(),
        ({
            let p = step.parameters@[i];
            let in_headers = p.in_ == Some(ParamLocation::Header) || p.in_ == Some(
                ParamLocation::Cookie,
            );
            0 <= k < resolved(
                p.value,
                if in_headers {
                    *plan.answers
                } else {
                    *plan.url_answers
                },
            ).warnings.len()
        }),
    ensures
        ({
            let p = step.parameters@[i];
            let in_headers = p.in_ == Some(ParamLocation::Header) || p.in_ == Some(
                ParamLocation::Cookie,
            );
            let w = resolved(
                p.value,
                if in_headers {
                    *plan.answers
                } else {
                    *plan.url_answers
                },
            ).warnings[k];
            request_prepared(step, plan)->Ok_0.warnings.contains(
                "parameter "@ + crate::xpath::debug_quoted(p.name@) + ": "@ + (w.expression + ": "@
                    + w.message),
            )
        }),
{
    let list = step.parameters@;
    let p = list[i];
    let in_headers = p.in_ == Some(ParamLocation::Header) || p.in_ == Some(ParamLocation::Cookie);
    let a = if in_headers {
        *plan.answers
    } else {
        *plan.url_answers
    };
    let own = crate::http_url::parameter_lines(p.name@, resolved(p.value, a).warnings);
    let w = resolved(p.value, a).warnings[k];
    let line = "parameter "@ + crate::xpath::debug_quoted(p.name@) + ": "@ + (w.expression + ": "@
        + w.message);
    assert(own[k] == line);
    let v = request_prepared(step, plan)->Ok_0;
    let body = crate::http_request::body_of(step, *plan.answers, plan.located@);
    let headers = crate::http_request::headers_of(step, *plan.answers, body.value is Some);
    assert(v.warnings == v.url_result.warnings + body.warnings + headers.warnings);
    if in_headers {
        let start = HeadersView {
            headers: crate::http_request::body_headers(step, body.value is Some),
            cookies: Seq::empty(),
            warnings: Seq::empty(),
        };
        header_warnings(start, list, a, list.len(), i, line);
        let at = headers.warnings.index_of(line);
        assert(v.warnings[v.url_result.warnings.len() + body.warnings.len() + at] == line);
    } else {
        query_warnings(list, a, step.step_id@, list.len(), i, line);
        bound_query(list, a, step.step_id@, list.len(), -1, 0);
        let at = v.url_result.warnings.index_of(line);
        assert(v.warnings[at] == line);
    }
}

/// What is requested is the operation that is named: with its method, and at
/// its path on its own server where it has one. A path that is written out is
/// requested as it is written.
pub proof fn the_named_operation_is_requested(step: Step, plan: RequestPlan, path: Seq<char>, m: Seq<char>)
    requires
        request_prepared(step, plan) is Ok,
    ensures
        step.target matches Some(StepTarget::OperationId(id)) ==> (
        crate::routing::operation_named(
            *plan.index,
            crate::routing::operations_view(*plan.operations),
            id@,
            *plan.id_form,
        ) matches Ok(o) && {
            let v = request_prepared(step, plan)->Ok_0;
            &&& o.method.len() > 0 ==> v.method == o.method
            &&& crate::http_url::request_url(
                *plan.index,
                o.path,
                o.base,
                *plan.path_form,
                step,
                *plan.url_answers,
            ) == Ok::<crate::http_url::UrlView, crate::error::ErrorView>(v.url_result)
        }),
        step.target matches Some(StepTarget::OperationPath(p)) ==> (is_http_method(m)
            && p@ == m + " "@ + path ==> crate::http_url::request_url(
            *plan.index,
            path,
            None,
            *plan.path_form,
            step,
            *plan.url_answers,
        ) == Ok::<crate::http_url::UrlView, crate::error::ErrorView>(
            request_prepared(step, plan)->Ok_0.url_result,
        )),
        step.target matches Some(StepTarget::OperationPath(p)) ==> (!names_a_method(p@)
            ==> crate::http_url::request_url(
            *plan.index,
            p@,
            None,
            *plan.path_form,
            step,
            *plan.url_answers,
        ) == Ok::<crate::http_url::UrlView, crate::error::ErrorView>(
            request_prepared(step, plan)->Ok_0.url_result,
        )),
{
    if is_http_method(m) {
        method_and_path_come_back(m, path);
    }
}

/// An operation path of an unsupported form is refused, as one is that names a
/// source which is not there.
pub proof fn unsupported_paths_are_refused(
    index: crate::routing::RequestIndex,
    path: Seq<char>,
    form: OperationPathForm,
    step_id: Seq<char>,
)
    ensures
        form is Unsupported ==> (base_and_path(index, path, None, form, step_id) matches Err(e)
            && e.kind == RuntimeErrorKind::UnsupportedOperationPathForm),
        form matches OperationPathForm::SourceRouted { source_name, path: p }
            ==> !index.source_bases@.contains_key(source_name@) ==> (base_and_path(
            index,
            path,
            None,
            form,
            step_id,
        ) matches Err(e) && e.kind == RuntimeErrorKind::SourceDescriptionNotFound),
{
}

// ---------------------------------------------------------------------
// Dot segments
// ---------------------------------------------------------------------

/// One dot or two make a segment that a URL parser takes out, also where they
/// are percent-encoded; a segment with a letter or a digit that is no part of
/// such a code is none.
proof fn dots_make_dot_segments()
    ensures
        is_dot_segment("."@),
        is_dot_segment(".."@),
        is_dot_segment("%2e"@),
        is_dot_segment("%2E."@),
        !is_dot_segment("a"@),
        !is_dot_segment("..."@),
        !is_dot_segment(""@),
{
    reveal_strlit(".");
    reveal_strlit("..");
    reveal_strlit("...");
    reveal_strlit("%2e");
    reveal_strlit("%2E.");
    reveal_strlit("a");
    reveal_strlit("");
    reveal_with_fuel(without_breaks, 5);
    assert(without_breaks("."@) =~= "."@);
    assert(without_breaks(".."@) =~= ".."@);
    assert(without_breaks("..."@) =~= "..."@);
    assert(without_breaks("%2e"@) =~= "%2e"@);
    assert(without_breaks("%2E."@) =~= "%2E."@);
    assert(without_breaks("a"@) =~= "a"@);
    assert(without_breaks(""@) =~= ""@);
    assert(".."@.take(1) =~= "."@);
    assert(".."@.skip(1) =~= "."@);
    assert(is_dot(".."@.take(1)));
    assert(lower_text("%2e"@) =~= "%2e"@);
    assert(lower_text("%2E."@.take(3)) =~= "%2e"@);
    assert("%2E."@.skip(3) =~= "."@);
    assert(is_dot("%2E."@.take(3)));
    assert(lower_text("a"@).len() == 1);
    assert forall|k: int| 0 <= k <= 1 implies !(is_dot(#[trigger] "a"@.take(k)) && is_dot(
        "a"@.skip(k),
    )) by {
        short_is_no_dot("a"@.take(k));
        short_is_no_dot("a"@.skip(k));
    }
    short_is_no_dot("a"@);
    assert forall|k: int| 0 <= k <= 3 implies !(is_dot(#[trigger] "..."@.take(k)) && is_dot(
        "..."@.skip(k),
    )) by {
        short_is_no_dot("..."@.take(k));
        short_is_no_dot("..."@.skip(k));
    }
    short_is_no_dot("..."@);
    short_is_no_dot(""@);
    assert forall|k: int| 0 <= k <= 0 implies !(is_dot(#[trigger] ""@.take(k)) && is_dot(
        ""@.skip(k),
    )) by {
        short_is_no_dot(""@.take(k));
    }
}

proof fn short_is_no_dot(s: Seq<char>)
    ensures
        is_dot(s) ==> (s.len() == 1 && s[0] == '.') || (s.len() == 3 && s[0] == '%'),
{
    reveal_strlit(".");
    reveal_strlit("%2e");
    if lower_text(s) == "%2e"@ {
        assert(lower_text(s).len() == s.len());
        assert(lower_text(s)[0] == lower(s[0]));
        crate::text::lower_keeps_others(s[0]);
    }
}

/// A path value that makes a dot segment by itself is refused under the name of
/// its parameter: the request is not sent to another path than the one that is
/// written.
pub proof fn dot_segments_are_refused(
    url: Seq<char>,
    parts: Seq<PartView>,
    n: int,
    i: int,
)
    requires
        0 <= i < n <= parts.len(),
        ({
            let p = parts[i];
            &&& path_start(url) < p.start < p.end <= path_end(url) <= url.len()
            &&& url[p.start - 1] == '/'
            &&& p.end == path_end(url) || url[p.end] == '/'
            &&& url.subrange(p.start, p.end) == "."@ || url.subrange(p.start, p.end) == ".."@
            &&& forall|k: int|
                0 <= k < parts.len() && k != i ==> (#[trigger] parts[k]).end <= p.start - 1
                    || parts[k].start > p.end
        }),
        forall|k: int| 0 <= k < parts.len() ==> 0 <= (#[trigger] parts[k]).start <= parts[k].end,
    ensures
        unsafe_names(url, parts, n).contains(parts[i].name),
    decreases n,
{
    let p = parts[i];
    let now = unsafe_names(url, parts, n);
    let before = unsafe_names(url, parts, n - 1);
    if i < n - 1 {
        dot_segments_are_refused(url, parts, n - 1, i);
        assert(now[before.index_of(p.name)] == p.name);
    } else {
        assert(!filled_at(url, parts, p.start - 1)) by {
            if filled_at(url, parts, p.start - 1) {
                let k = choose|k: int|
                    0 <= k < parts.len() && in_path(url, (#[trigger] parts[k]).start, parts[k].end)
                        && parts[k].start <= p.start - 1 < parts[k].end;
                assert(k != i);
            }
        }
        if p.end < path_end(url) {
            assert(!filled_at(url, parts, p.end)) by {
                if filled_at(url, parts, p.end) {
                    let k = choose|k: int|
                        0 <= k < parts.len() && in_path(
                            url,
                            (#[trigger] parts[k]).start,
                            parts[k].end,
                        ) && parts[k].start <= p.end < parts[k].end;
                    assert(k != i);
                }
            }
        }
        assert(separates(url, parts, p.start - 1));
        assert(segment_start(url, parts, p.start) == p.start);
        assert(segment_end(url, parts, p.end) == p.end);
        let text = url.subrange(p.start, p.end);
        dots_make_dot_segments();
        reveal_strlit(".");
        reveal_strlit("..");
        assert(text.last() == '.');
        assert(end_trimmed(text) == text);
        assert(unsafe_part(url, parts, p));
        if before.contains(p.name) {
            assert(now == before);
        } else {
            assert(now[now.len() - 1] == p.name);
        }
    }
}

} // verus!
