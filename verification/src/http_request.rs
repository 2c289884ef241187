//! Preparing the request of a step.

use crate::error::{ErrorView, RuntimeError, RuntimeErrorKind};
use crate::exchange::{copy_json, opt_json, RequestTraceView};
use crate::http_url::{
    build_url_from_path, method_split, parameter_lines, parameter_warnings, parse_method,
    request_url, OperationPathForm, UrlBuildResult, UrlView,
};
use crate::json::{view_by_variant, Json, JsonView};
use crate::json_text::{json_text, plain_text, value_to_string};
use crate::model::{ParamLocation, Parameter, Step, StepTarget};
use crate::operations::{EntryView, OperationIndex};
use crate::payload::{
    append_texts, apply_replacements, replacements_applied, resolve_payload_detailed,
    resolve_value_source, resolved, warning_line, warning_views, Answers, WarningView,
};
use crate::replay::opt_bytes;
use crate::routing::{operation_named, operations_view, OperationIdTarget, RequestIndex};
use crate::text::{concat2, concat3, contains_part, copy_texts, join_texts, joined, occurs_in, texts};
use crate::text_map::TextMap;
use crate::trace::{copy_text_map, hop_views, text_map_view, HopView, TraceRedirectHop, TraceRequest};
use crate::url_path::{cookie_encoded, encode_cookie_value};
use vstd::prelude::*;
use vstd::string::*;
use vstd::utf8::encode_utf8;

verus! {

// ---------------------------------------------------------------------
// The target
// ---------------------------------------------------------------------

/// What the target of a step comes to: the method that it names, its path,
/// and the request base of the operation that it names.
#[derive(Debug, PartialEq)]
pub struct RequestTarget {
    pub method: String,
    pub path: String,
    pub base: Option<String>,
}

/// The content of what a target comes to.
#[verifier::ext_equal]
pub struct TargetView {
    pub method: Seq<char>,
    pub path: Seq<char>,
    pub base: Option<Seq<char>>,
}

impl View for RequestTarget {
    type V = TargetView;

    open spec fn view(&self) -> TargetView {
        TargetView {
            method: self.method@,
            path: self.path@,
            base: match self.base {
                Some(b) => Some(b@),
                None => None,
            },
        }
    }
}

/// Whether a step needs a channel transport.
pub open spec fn needs_channel(step: Step) -> bool {
    step.has_async_action || (step.target matches Some(StepTarget::ChannelPath(_)))
}

/// What the target of a step comes to. A step without one requests the base
/// itself.
pub open spec fn step_request_target(
    index: RequestIndex,
    operations: Result<Map<Seq<char>, Seq<EntryView>>, ErrorView>,
    step: Step,
    form: OperationIdTarget,
) -> Result<TargetView, ErrorView> {
    if needs_channel(step) {
        Err(
            ErrorView {
                kind: RuntimeErrorKind::UnsupportedAsyncApiTransport,
                message: "step \""@ + step.step_id@
                    + "\" requires AsyncAPI channel transport, which is not implemented"@,
            },
        )
    } else {
        match step.target {
            Some(StepTarget::OperationPath(path)) => {
                let parts = method_split(path@);
                Ok(TargetView { method: parts.0, path: parts.1, base: None })
            },
            Some(StepTarget::OperationId(id)) => match operation_named(
                index,
                operations,
                id@,
                form,
            ) {
                Ok(o) => Ok(TargetView { method: o.method, path: o.path, base: o.base }),
                Err(e) => Err(e),
            },
            _ => Ok(TargetView { method: ""@, path: ""@, base: None }),
        }
    }
}

/// What the target of a step comes to; `form` says what its `operationId`
/// stands for.
pub fn resolve_step_target(
    index: &RequestIndex,
    operations: &Result<OperationIndex, RuntimeError>,
    step: &Step,
    form: &OperationIdTarget,
) -> (r: Result<RequestTarget, RuntimeError>)
    ensures
        match step_request_target(*index, operations_view(*operations), *step, *form) {
            Ok(t) => r matches Ok(x) && x@ == t,
            Err(e) => r matches Err(x) && x@ == e,
        },
{
    let channel = match &step.target {
        Some(StepTarget::ChannelPath(_)) => true,
        _ => false,
    };
    if channel || step.has_async_action {
        return Err(
            RuntimeError::new(
                RuntimeErrorKind::UnsupportedAsyncApiTransport,
                concat3(
                    "step \"",
                    step.step_id.as_str(),
                    "\" requires AsyncAPI channel transport, which is not implemented",
                ),
            ),
        );
    }
    match &step.target {
        Some(StepTarget::OperationPath(path)) => {
            let (method, rest) = parse_method(path.as_str());
            Ok(RequestTarget { method, path: rest, base: None })
        },
        Some(StepTarget::OperationId(id)) => match index.resolve_operation_target(
            operations,
            id.as_str(),
            form,
        ) {
            Ok(o) => Ok(RequestTarget { method: o.method, path: o.path, base: o.base }),
            Err(e) => Err(e),
        },
        _ => Ok(RequestTarget { method: "".to_owned(), path: "".to_owned(), base: None }),
    }
}

/// The method of a request: the one that the target names, else `POST` where
/// the step has a request body and `GET` where it has none.
pub open spec fn method_of(named: Seq<char>, step: Step) -> Seq<char> {
    if named.len() > 0 {
        named
    } else if step.request_body is Some {
        "POST"@
    } else {
        "GET"@
    }
}

/// The method of a request.
pub fn request_method(named: &str, step: &Step) -> (r: String)
    ensures
        r@ == method_of(named@, *step),
{
    if !named.is_empty() {
        named.to_owned()
    } else if step.request_body.is_some() {
        "POST".to_owned()
    } else {
        "GET".to_owned()
    }
}

// ---------------------------------------------------------------------
// The body
// ---------------------------------------------------------------------

/// The body of a request, and the warnings that it leaves.
#[verifier::ext_equal]
pub struct BodyView {
    pub value: Option<JsonView>,
    pub warnings: Seq<Seq<char>>,
}

/// The lines of the warnings about a payload.
pub open spec fn payload_lines(warnings: Seq<WarningView>) -> Seq<Seq<char>> {
    warnings.map_values(|w: WarningView| "requestBody.payload: "@ + warning_line(w))
}

/// The body of a step's request: its payload, with its replacements applied.
pub open spec fn body_of(
    step: Step,
    a: Answers,
    located: Seq<Result<Vec<String>, String>>,
) -> BodyView {
    match step.request_body {
        Some(rb) => match rb.payload {
            Some(payload) => {
                let r = resolved(payload, a);
                let done = replacements_applied(
                    r.value,
                    rb.content_type@,
                    rb.replacements@,
                    a,
                    located,
                    rb.replacements@.len(),
                );
                BodyView {
                    value: Some(done.body),
                    warnings: payload_lines(r.warnings) + done.warnings,
                }
            },
            None => BodyView { value: None, warnings: Seq::empty() },
        },
        None => BodyView { value: None, warnings: Seq::empty() },
    }
}

/// The bytes that are sent for a body: a text as it is where the media type
/// is not JSON, and the JSON text of anything else.
pub open spec fn body_bytes(content_type: Seq<char>, v: JsonView) -> Seq<u8> {
    match v {
        JsonView::Text(s) => if occurs_in(content_type, "json"@) {
            encode_utf8(json_text(v))
        } else {
            encode_utf8(s)
        },
        _ => encode_utf8(json_text(v)),
    }
}

/// The bytes that are sent for a body.
pub fn serialize_body(content_type: &str, value: &Json) -> (r: Vec<u8>)
    ensures
        r@ == body_bytes(content_type@, value@),
{
    broadcast use view_by_variant;

    if !contains_part(content_type, "json") {
        match value {
            Json::Text(s) => {
                return s.as_str().as_bytes_vec();
            },
            _ => {},
        }
    }
    let text = value.text();
    text.as_str().as_bytes_vec()
}

fn build_body(step: &Step, answers: &Answers, located: &Vec<Result<Vec<String>, String>>) -> (r: (
    Option<Json>,
    Vec<String>,
))
    ensures
        opt_json(r.0) == body_of(*step, *answers, located@).value,
        texts(r.1@) == body_of(*step, *answers, located@).warnings,
{
    let none: Vec<String> = Vec::new();
    assert(texts(none@) =~= Seq::<Seq<char>>::empty());
    let rb = match &step.request_body {
        Some(rb) => rb,
        None => {
            return (None, none);
        },
    };
    let payload = match &rb.payload {
        Some(p) => p,
        None => {
            return (None, none);
        },
    };
    let (value, noted) = resolve_payload_detailed(payload, answers);
    let mut warnings: Vec<String> = Vec::new();
    let mut i: usize = 0;
    while i < noted.len()
        invariant
            i <= noted@.len(),
            warnings@.len() == i,
            forall|j: int|
                0 <= j < i ==> (#[trigger] warnings@[j])@ == "requestBody.payload: "@
                    + warning_line(noted@[j]@),
        decreases noted@.len() - i,
    {
        let line = noted[i].line();
        warnings.push(concat2("requestBody.payload: ", line.as_str()));
        i = i + 1;
    }
    assert(texts(warnings@) =~= payload_lines(warning_views(noted@)));
    let (body, more) = apply_replacements(
        value,
        rb.content_type.as_str(),
        &rb.replacements,
        answers,
        located,
    );
    append_texts(&mut warnings, more);
    (Some(body), warnings)
}

// ---------------------------------------------------------------------
// The headers
// ---------------------------------------------------------------------

/// What parameters bind in the headers of a request.
#[verifier::ext_equal]
pub struct HeadersView {
    pub headers: Map<Seq<char>, Seq<char>>,
    pub cookies: Seq<Seq<char>>,
    pub warnings: Seq<Seq<char>>,
}

/// What one more parameter binds in the headers.
pub open spec fn header_bound(v: HeadersView, p: Parameter, a: Answers) -> HeadersView {
    let r = resolved(p.value, a);
    let noted = v.warnings + parameter_lines(p.name@, r.warnings);
    match p.in_ {
        Some(ParamLocation::Header) => HeadersView {
            headers: v.headers.insert(p.name@, plain_text(r.value)),
            warnings: noted,
            ..v
        },
        Some(ParamLocation::Cookie) => HeadersView {
            cookies: v.cookies.push(p.name@ + "="@ + cookie_encoded(plain_text(r.value))),
            warnings: noted,
            ..v
        },
        _ => v,
    }
}

/// What the first `n` parameters bind in the headers.
pub open spec fn headers_bound(
    start: HeadersView,
    list: Seq<Parameter>,
    a: Answers,
    n: nat,
) -> HeadersView
    decreases n,
{
    if n == 0 {
        start
    } else {
        header_bound(headers_bound(start, list, a, (n - 1) as nat), list[n - 1], a)
    }
}

/// The headers that a body asks for.
pub open spec fn body_headers(step: Step, has_body: bool) -> Map<Seq<char>, Seq<char>> {
    if has_body {
        Map::<Seq<char>, Seq<char>>::empty().insert(
            "Content-Type"@,
            match step.request_body {
                Some(rb) => if rb.content_type@.len() > 0 {
                    rb.content_type@
                } else {
                    "application/json"@
                },
                None => "application/json"@,
            },
        )
    } else {
        Map::empty()
    }
}

/// The headers of a step's request, and the warnings that they leave.
pub open spec fn headers_of(step: Step, a: Answers, has_body: bool) -> HeadersView {
    let start = HeadersView {
        headers: body_headers(step, has_body),
        cookies: Seq::empty(),
        warnings: Seq::empty(),
    };
    let v = headers_bound(start, step.parameters@, a, step.parameters@.len());
    if v.cookies.len() > 0 {
        HeadersView { headers: v.headers.insert("Cookie"@, joined(v.cookies, "; "@)), ..v }
    } else {
        v
    }
}

fn build_headers(step: &Step, answers: &Answers, has_body: bool) -> (r: (
    TextMap<String>,
    Vec<String>,
))
    ensures
        text_map_view(r.0) == headers_of(*step, *answers, has_body).headers,
        texts(r.1@) == headers_of(*step, *answers, has_body).warnings,
{
    let mut headers: TextMap<String> = TextMap::new();
    assert(text_map_view(headers) =~= Map::<Seq<char>, Seq<char>>::empty());
    if has_body {
        let content_type = match &step.request_body {
            Some(rb) => if rb.content_type.as_str().is_empty() {
                "application/json".to_owned()
            } else {
                rb.content_type.clone()
            },
            None => "application/json".to_owned(),
        };
        let ghost t = content_type@;
        headers.insert("Content-Type".to_owned(), content_type);
        assert(text_map_view(headers) =~= Map::<Seq<char>, Seq<char>>::empty().insert(
            "Content-Type"@,
            t,
        ));
    }
    assert(text_map_view(headers) == body_headers(*step, has_body));
    let mut cookies: Vec<String> = Vec::new();
    let mut warnings: Vec<String> = Vec::new();
    let ghost start = HeadersView {
        headers: body_headers(*step, has_body),
        cookies: Seq::empty(),
        warnings: Seq::empty(),
    };
    assert(texts(cookies@) =~= Seq::<Seq<char>>::empty());
    assert(texts(warnings@) =~= Seq::<Seq<char>>::empty());
    let mut i: usize = 0;
    while i < step.parameters.len()
        invariant
            i <= step.parameters@.len(),
            ({
                let v = headers_bound(start, step.parameters@, *answers, i as nat);
                &&& text_map_view(headers) == v.headers
                &&& texts(cookies@) == v.cookies
                &&& texts(warnings@) == v.warnings
            }),
        decreases step.parameters@.len() - i,
    {
        let param = &step.parameters[i];
        let ghost before = headers_bound(start, step.parameters@, *answers, i as nat);
        match param.in_ {
            Some(ParamLocation::Header) => {
                let (value, noted) = resolve_value_source(&param.value, answers);
                let lines = parameter_warnings(param.name.as_str(), &noted);
                append_texts(&mut warnings, lines);
                let text = value_to_string(&value);
                let ghost t = text@;
                headers.insert(param.name.clone(), text);
                assert(text_map_view(headers) =~= before.headers.insert(param.name@, t));
            },
            Some(ParamLocation::Cookie) => {
                let (value, noted) = resolve_value_source(&param.value, answers);
                let lines = parameter_warnings(param.name.as_str(), &noted);
                append_texts(&mut warnings, lines);
                let text = value_to_string(&value);
                let encoded = encode_cookie_value(text.as_str());
                let part = concat3(param.name.as_str(), "=", encoded.as_str());
                let ghost t = part@;
                cookies.push(part);
                assert(texts(cookies@) =~= before.cookies.push(t));
            },
            _ => {},
        }
        i = i + 1;
    }
    assert(texts(cookies@).len() == cookies@.len());
    if cookies.len() > 0 {
        let ghost before = text_map_view(headers);
        let line = join_texts(&cookies, "; ");
        let ghost l = line@;
        headers.insert("Cookie".to_owned(), line);
        assert(text_map_view(headers) =~= before.insert("Cookie"@, l));
    }
    (headers, warnings)
}

// ---------------------------------------------------------------------
// The request
// ---------------------------------------------------------------------

/// A request, ready to be sent.
#[derive(Debug, PartialEq)]
pub struct PreparedRequest {
    pub method: String,
    pub url_result: UrlBuildResult,
    pub headers: TextMap<String>,
    pub body: Option<Vec<u8>>,
    pub body_json: Option<Json>,
    pub trace_request: TraceRequest,
    pub warnings: Vec<String>,
}

/// The content of a prepared request.
#[verifier::ext_equal]
pub struct PreparedView {
    pub method: Seq<char>,
    pub url_result: UrlView,
    pub headers: Map<Seq<char>, Seq<char>>,
    pub body: Option<Seq<u8>>,
    pub body_json: Option<JsonView>,
    pub trace_request: RequestTraceView,
    pub warnings: Seq<Seq<char>>,
}

impl View for PreparedRequest {
    type V = PreparedView;

    open spec fn view(&self) -> PreparedView {
        PreparedView {
            method: self.method@,
            url_result: self.url_result@,
            headers: text_map_view(self.headers),
            body: opt_bytes(self.body),
            body_json: opt_json(self.body_json),
            trace_request: self.trace_request@,
            warnings: texts(self.warnings@),
        }
    }
}

/// The request of a method, a URL, a body and headers.
pub open spec fn request_made(
    method: Seq<char>,
    url: UrlView,
    step: Step,
    a: Answers,
    located: Seq<Result<Vec<String>, String>>,
) -> PreparedView {
    let body = body_of(step, a, located);
    let headers = headers_of(step, a, body.value is Some);
    PreparedView {
        method,
        url_result: url,
        headers: headers.headers,
        body: match (body.value, step.request_body) {
            (Some(v), Some(rb)) => Some(body_bytes(rb.content_type@, v)),
            _ => None,
        },
        body_json: body.value,
        trace_request: RequestTraceView {
            method,
            url: url.url,
            headers: headers.headers,
            body: body.value,
            redirects: Seq::empty(),
        },
        warnings: url.warnings + body.warnings + headers.warnings,
    }
}

/// What is known of the target of a step and of the places that its request
/// is built from.
pub struct RequestPlan<'a> {
    pub index: &'a RequestIndex,
    pub operations: &'a Result<OperationIndex, RuntimeError>,
    /// What the `operationId` of the step stands for.
    pub id_form: &'a OperationIdTarget,
    /// What its path stands for.
    pub path_form: &'a OperationPathForm,
    /// What its expressions came to before the method was known.
    pub url_answers: &'a Answers,
    /// What its expressions came to once the method was known.
    pub answers: &'a Answers,
    /// Where the JSONPath targets of its replacements lead.
    pub located: &'a Vec<Result<Vec<String>, String>>,
}

/// The request of a step.
pub open spec fn request_prepared(step: Step, plan: RequestPlan) -> Result<
    PreparedView,
    ErrorView,
> {
    match step_request_target(
        *plan.index,
        operations_view(*plan.operations),
        step,
        *plan.id_form,
    ) {
        Err(e) => Err(e),
        Ok(target) => match request_url(
            *plan.index,
            target.path,
            target.base,
            *plan.path_form,
            step,
            *plan.url_answers,
        ) {
            Err(e) => Err(e),
            Ok(url) => Ok(
                request_made(
                    method_of(target.method, step),
                    url,
                    step,
                    *plan.answers,
                    plan.located@,
                ),
            ),
        },
    }
}

/// Prepares the request of a step.
pub fn prepare_http_request(step: &Step, plan: &RequestPlan) -> (r: Result<
    PreparedRequest,
    RuntimeError,
>)
    ensures
        match request_prepared(*step, *plan) {
            Ok(v) => r matches Ok(x) && x@ == v,
            Err(e) => r matches Err(x) && x@ == e,
        },
{
    let target = match resolve_step_target(plan.index, plan.operations, step, plan.id_form) {
        Ok(t) => t,
        Err(e) => {
            return Err(e);
        },
    };
    let base: Option<&str> = match &target.base {
        Some(b) => Some(b.as_str()),
        None => None,
    };
    let url_result = match build_url_from_path(
        plan.index,
        target.path.as_str(),
        base,
        plan.path_form,
        step,
        plan.url_answers,
    ) {
        Ok(u) => u,
        Err(e) => {
            return Err(e);
        },
    };
    let method = request_method(target.method.as_str(), step);
    let mut warnings = copy_texts(&url_result.warnings);
    assert(texts(warnings@) =~= texts(url_result.warnings@));
    let (body_json, body_warnings) = build_body(step, plan.answers, plan.located);
    append_texts(&mut warnings, body_warnings);
    let body = match (&body_json, &step.request_body) {
        (Some(value), Some(rb)) => Some(serialize_body(rb.content_type.as_str(), value)),
        _ => None,
    };
    let (headers, header_warnings) = build_headers(step, plan.answers, body_json.is_some());
    append_texts(&mut warnings, header_warnings);
    let redirects: Vec<TraceRedirectHop> = Vec::new();
    assert(hop_views(redirects@) =~= Seq::<HopView>::empty());
    let trace_request = TraceRequest {
        method: method.clone(),
        url: url_result.url.clone(),
        headers: copy_text_map(&headers),
        body: copy_json(&body_json),
        redirects,
    };
    Ok(
        PreparedRequest { method, url_result, headers, body, body_json, trace_request, warnings },
    )
}

/// A request is traced as it is sent.
pub proof fn trace_shows_the_request(step: Step, plan: RequestPlan)
    ensures
        request_prepared(step, plan) matches Ok(v) ==> {
            &&& v.trace_request.method == v.method
            &&& v.trace_request.url == v.url_result.url
            &&& v.trace_request.headers == v.headers
            &&& v.trace_request.body == v.body_json
            &&& v.trace_request.redirects.len() == 0
        },
{
}

} // verus!
