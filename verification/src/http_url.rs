//! The URL of a step's request: its base, its path and its query.

use crate::error::{ErrorView, RuntimeError, RuntimeErrorKind};
use crate::json::{json_views, view_by_variant, Json, JsonView};
use crate::json_pointer::{json_type_name, type_label};
use crate::json_text::{json_text, plain_text, value_to_string};
use crate::model::{ParamLocation, Parameter, Step};
use crate::payload::{
    append_texts, resolve_value_source, resolved, warning_line, warning_views, Answers,
    ExpressionWarning, WarningView,
};
use crate::routing::{base_of, RequestIndex};
use crate::text::{
    chars_of, concat2, concat3, concat5, end_stripped, find_char, first_of, join_texts, joined,
    stands_at, starts_with, strip_end, text_of, texts,
};
use crate::text_map::TextMap;
use crate::trace::text_map_view;
use crate::url_path::{filled, filled_parts, replace_path_params, unsafe_names};
use crate::web_url::{encode_form, form_pairs, form_text, pair_views, parse_form};
use crate::xpath::{debug_quote, debug_quoted};
use vstd::prelude::*;
use vstd::string::*;

verus! {

// ---------------------------------------------------------------------
// Methods
// ---------------------------------------------------------------------

/// Whether a text is a method token.
pub open spec fn is_method(m: Seq<char>) -> bool {
    ||| m == "GET"@
    ||| m == "POST"@
    ||| m == "PUT"@
    ||| m == "PATCH"@
    ||| m == "DELETE"@
    ||| m == "HEAD"@
    ||| m == "OPTIONS"@
}

/// Whether a text starts with a method token and a space.
pub open spec fn leads(s: Seq<char>, m: Seq<char>) -> bool {
    stands_at(s, 0, m) && m.len() < s.len() && s[m.len() as int] == ' '
}

/// The method that an operation path starts with, and the rest of it; no
/// method, and all of it, where it starts with none.
pub open spec fn method_split(s: Seq<char>) -> (Seq<char>, Seq<char>) {
    if leads(s, "GET"@) {
        ("GET"@, s.skip(4))
    } else if leads(s, "POST"@) {
        ("POST"@, s.skip(5))
    } else if leads(s, "PUT"@) {
        ("PUT"@, s.skip(4))
    } else if leads(s, "PATCH"@) {
        ("PATCH"@, s.skip(6))
    } else if leads(s, "DELETE"@) {
        ("DELETE"@, s.skip(7))
    } else if leads(s, "HEAD"@) {
        ("HEAD"@, s.skip(5))
    } else if leads(s, "OPTIONS"@) {
        ("OPTIONS"@, s.skip(8))
    } else {
        (""@, s)
    }
}

fn method_leads(s: &str, chars: &Vec<char>, method: &str, length: usize) -> (r: bool)
    requires
        chars@ == s@,
        length == method@.len(),
    ensures
        r == leads(s@, method@),
{
    starts_with(s, method) && length < chars.len() && chars[length] == ' '
}

/// Splits the method off an operation path.
pub fn parse_method(operation_path: &str) -> (r: (String, String))
    ensures
        (r.0@, r.1@) == method_split(operation_path@),
{
    proof {
        reveal_strlit("GET");
        reveal_strlit("POST");
        reveal_strlit("PUT");
        reveal_strlit("PATCH");
        reveal_strlit("DELETE");
        reveal_strlit("HEAD");
        reveal_strlit("OPTIONS");
    }
    let chars = chars_of(operation_path);
    let (method, from): (&str, usize) = if method_leads(operation_path, &chars, "GET", 3) {
        ("GET", 4)
    } else if method_leads(operation_path, &chars, "POST", 4) {
        ("POST", 5)
    } else if method_leads(operation_path, &chars, "PUT", 3) {
        ("PUT", 4)
    } else if method_leads(operation_path, &chars, "PATCH", 5) {
        ("PATCH", 6)
    } else if method_leads(operation_path, &chars, "DELETE", 6) {
        ("DELETE", 7)
    } else if method_leads(operation_path, &chars, "HEAD", 4) {
        ("HEAD", 5)
    } else if method_leads(operation_path, &chars, "OPTIONS", 7) {
        ("OPTIONS", 8)
    } else {
        return ("".to_owned(), operation_path.to_owned());
    };
    let rest = text_of(&chars, from, chars.len());
    assert(rest@ =~= operation_path@.skip(from as int));
    (method.to_owned(), rest)
}

/// An operation path made of a method token, a space and a path is split into
/// that method and that path.
pub proof fn method_and_path_come_back(m: Seq<char>, path: Seq<char>)
    requires
        is_method(m),
    ensures
        method_split(m + " "@ + path) == (m, path),
{
    reveal_strlit("GET");
    reveal_strlit("POST");
    reveal_strlit("PUT");
    reveal_strlit("PATCH");
    reveal_strlit("DELETE");
    reveal_strlit("HEAD");
    reveal_strlit("OPTIONS");
    reveal_strlit(" ");
    let s = m + " "@ + path;
    assert("GET"@[0] == 'G' && "PUT"@[0] == 'P');
    assert("POST"@[0] == 'P' && "HEAD"@[0] == 'H');
    assert(is_method("GET"@) && is_method("POST"@) && is_method("PUT"@) && is_method("PATCH"@));
    assert(is_method("DELETE"@) && is_method("HEAD"@) && is_method("OPTIONS"@));
    assert(forall|i: int| 0 <= i < m.len() ==> s[i] == m[i]);
    assert(s[m.len() as int] == ' ');
    assert(stands_at(s, 0, m)) by {
        assert(s.subrange(0, m.len() as int) =~= m);
    }
    assert(s.skip((m.len() + 1) as int) =~= path);
    assert forall|other: Seq<char>| #[trigger] is_method(other) && other != m implies !leads(
        s,
        other,
    ) by {
        if leads(s, other) {
            assert(s.subrange(0, other.len() as int) =~= other);
            if other.len() == m.len() {
                assert(other =~= m);
            } else if other.len() < m.len() {
                assert(m[other.len() as int] == ' ');
            } else {
                assert(other[m.len() as int] == ' ');
            }
        }
    }
}

// ---------------------------------------------------------------------
// Targets
// ---------------------------------------------------------------------

/// What the text of an operation path stands for, its method taken off.
#[derive(Debug, PartialEq)]
pub enum OperationPathForm {
    /// A form that is not supported: what it carries, and which forms are.
    Unsupported { reason: String, supported: String },
    SourceRouted { source_name: String, path: String },
    AbsoluteUrl(String),
    BasePath(String),
}

/// The base and the path of a request.
pub open spec fn base_and_path(
    index: RequestIndex,
    op_path: Seq<char>,
    source_base: Option<Seq<char>>,
    form: OperationPathForm,
    step_id: Seq<char>,
) -> Result<(Seq<char>, Seq<char>), ErrorView> {
    match source_base {
        Some(base) => Ok((base, op_path)),
        None => match form {
            OperationPathForm::Unsupported { reason, supported } => Err(
                ErrorView {
                    kind: RuntimeErrorKind::UnsupportedOperationPathForm,
                    message: "step \""@ + step_id + "\": operationPath \""@ + op_path
                        + "\" carries "@ + reason@
                        + "; resolving the specification form (source reference plus JSON Pointer) is not implemented. Supported forms are "@
                        + supported@ + "."@,
                },
            ),
            OperationPathForm::SourceRouted { source_name, path } => match base_of(
                index,
                source_name@,
            ) {
                Some(base) => Ok((base, path@)),
                None => Err(
                    ErrorView {
                        kind: RuntimeErrorKind::SourceDescriptionNotFound,
                        message: "sourceDescription \""@ + source_name@
                            + "\" referenced by operationPath \""@ + op_path
                            + "\" was not found"@,
                    },
                ),
            },
            OperationPathForm::AbsoluteUrl(url) => Ok((index.base_url@, url@)),
            OperationPathForm::BasePath(path) => Ok((index.base_url@, path@)),
        },
    }
}

/// The URL of a base and a path; a path that is a URL itself needs no base.
pub open spec fn target_url(base: Seq<char>, path: Seq<char>) -> Seq<char> {
    if stands_at(path, 0, "http://"@) || stands_at(path, 0, "https://"@) {
        path
    } else {
        end_stripped(base, '/') + path
    }
}

fn resolve_target(
    index: &RequestIndex,
    op_path: &str,
    source_base: Option<&str>,
    form: &OperationPathForm,
    step_id: &str,
) -> (r: Result<String, RuntimeError>)
    ensures
        match base_and_path(
            *index,
            op_path@,
            match source_base {
                Some(b) => Some(b@),
                None => None,
            },
            *form,
            step_id@,
        ) {
            Ok(t) => r matches Ok(url) && url@ == target_url(t.0, t.1),
            Err(e) => r matches Err(x) && x@ == e,
        },
{
    let (base, path): (&str, &str) = match source_base {
        Some(base) => (base, op_path),
        None => match form {
            OperationPathForm::Unsupported { reason, supported } => {
                let mut message = "step \"".to_owned();
                message.append(step_id);
                message.append("\": operationPath \"");
                message.append(op_path);
                message.append("\" carries ");
                message.append(reason.as_str());
                message.append(
                    "; resolving the specification form (source reference plus JSON Pointer) is not implemented. Supported forms are ",
                );
                message.append(supported.as_str());
                message.append(".");
                return Err(
                    RuntimeError::new(RuntimeErrorKind::UnsupportedOperationPathForm, message),
                );
            },
            OperationPathForm::SourceRouted { source_name, path } => {
                match index.source_bases.get(source_name.as_str()) {
                    Some(base) => (base.as_str(), path.as_str()),
                    None => {
                        let message = concat5(
                            "sourceDescription \"",
                            source_name.as_str(),
                            "\" referenced by operationPath \"",
                            op_path,
                            "\" was not found",
                        );
                        return Err(
                            RuntimeError::new(RuntimeErrorKind::SourceDescriptionNotFound, message),
                        );
                    },
                }
            },
            OperationPathForm::AbsoluteUrl(url) => (index.base_url.as_str(), url.as_str()),
            OperationPathForm::BasePath(path) => (index.base_url.as_str(), path.as_str()),
        },
    };
    if starts_with(path, "http://") || starts_with(path, "https://") {
        Ok(path.to_owned())
    } else {
        let bare = strip_end(base, '/');
        Ok(concat2(bare.as_str(), path))
    }
}

// ---------------------------------------------------------------------
// Binding parameters
// ---------------------------------------------------------------------

/// What the parameters of a step bind in its URL.
#[verifier::ext_equal]
pub struct BoundView {
    pub path: Map<Seq<char>, Seq<char>>,
    pub query: Seq<(Seq<char>, Seq<char>)>,
    pub querystring: Option<(Seq<char>, Seq<char>)>,
    pub warnings: Seq<Seq<char>>,
}

/// Nothing bound yet.
pub open spec fn unbound() -> BoundView {
    BoundView {
        path: Map::empty(),
        query: Seq::empty(),
        querystring: None,
        warnings: Seq::empty(),
    }
}

/// The lines of the warnings about the value of a parameter.
pub open spec fn parameter_lines(name: Seq<char>, warnings: Seq<WarningView>) -> Seq<Seq<char>> {
    warnings.map_values(
        |w: WarningView| "parameter "@ + debug_quoted(name) + ": "@ + warning_line(w),
    )
}

/// The lines of the warnings about the value of a parameter.
pub(crate) fn parameter_warnings(name: &str, warnings: &Vec<ExpressionWarning>) -> (r: Vec<String>)
    ensures
        texts(r@) == parameter_lines(name@, warning_views(warnings@)),
{
    let mut out: Vec<String> = Vec::new();
    let mut i: usize = 0;
    while i < warnings.len()
        invariant
            i <= warnings@.len(),
            out@.len() == i,
            forall|j: int|
                0 <= j < i ==> (#[trigger] out@[j])@ == "parameter "@ + debug_quoted(name@) + ": "@
                    + warning_line(warnings@[j]@),
        decreases warnings@.len() - i,
    {
        let quoted = debug_quote(name);
        let line = warnings[i].line();
        let mut text = concat3("parameter ", quoted.as_str(), ": ");
        text.append(line.as_str());
        out.push(text);
        i = i + 1;
    }
    assert(texts(out@) =~= parameter_lines(name@, warning_views(warnings@)));
    out
}

/// The pairs that a query parameter sends: none for `null`, one for each item
/// of a list, and one for anything else, an object as its JSON text.
pub open spec fn query_pairs(name: Seq<char>, v: JsonView) -> Seq<(Seq<char>, Seq<char>)> {
    match v {
        JsonView::Null => Seq::empty(),
        JsonView::Array(items) => items.map_values(|item: JsonView| (name, plain_text(item))),
        JsonView::Object(members) => seq![(name, json_text(v))],
        _ => seq![(name, plain_text(v))],
    }
}

fn push_query(query: &mut Vec<(String, String)>, name: &str, value: &Json)
    ensures
        pair_views(final(query)@) == pair_views(old(query)@) + query_pairs(name@, value@),
{
    broadcast use view_by_variant;

    let ghost given = pair_views(query@);
    match value {
        Json::Null => {
            assert(given =~= given + Seq::<(Seq<char>, Seq<char>)>::empty());
        },
        Json::Array(items) => {
            let ghost added = query_pairs(name@, value@);
            let mut i: usize = 0;
            assert(given =~= given + added.take(0));
            while i < items.len()
                invariant
                    i <= items@.len(),
                    added == json_views(items@).map_values(
                        |item: JsonView| (name@, plain_text(item)),
                    ),
                    pair_views(query@) == given + added.take(i as int),
                decreases items@.len() - i,
            {
                let text = value_to_string(&items[i]);
                let ghost before = query@;
                let ghost pair = (name@, text@);
                assert(added[i as int] == pair);
                query.push((name.to_owned(), text));
                assert(pair_views(query@) =~= pair_views(before).push(pair));
                assert(given + added.take(i + 1) =~= (given + added.take(i as int)).push(pair));
                i = i + 1;
            }
            assert(added.take(i as int) =~= added);
        },
        Json::Object(_) => {
            let text = value.text();
            let ghost before = query@;
            let ghost pair = (name@, text@);
            query.push((name.to_owned(), text));
            assert(pair_views(query@) =~= given + seq![pair]);
        },
        _ => {
            let text = value_to_string(value);
            let ghost pair = (name@, text@);
            query.push((name.to_owned(), text));
            assert(pair_views(query@) =~= given + seq![pair]);
        },
    }
}

/// The refusal of a whole query that is no text.
pub open spec fn querystring_refusal(
    step_id: Seq<char>,
    name: Seq<char>,
    value: JsonView,
) -> ErrorView {
    ErrorView {
        kind: RuntimeErrorKind::InvalidParameterValue,
        message: "step \""@ + step_id + "\": parameter "@ + debug_quoted(name)
            + " (in: querystring) requires a string value (the entire already-encoded query component); got "@
            + type_label(value),
    }
}

/// The warning that an earlier whole query was dropped.
pub open spec fn querystring_dropped(name: Seq<char>, discarded: Seq<char>) -> Seq<char> {
    "parameter "@ + debug_quoted(name)
        + ": in: querystring supplies the entire query component and cannot appear more than once, so the earlier in: querystring parameter "@
        + debug_quoted(discarded) + " was dropped"@
}

/// What one more parameter binds. Header and cookie parameters are not looked
/// at here; one without a location binds nothing, though its value is read.
pub open spec fn parameter_bound(
    v: BoundView,
    p: Parameter,
    a: Answers,
    step_id: Seq<char>,
) -> Result<BoundView, ErrorView> {
    let r = resolved(p.value, a);
    let noted = v.warnings + parameter_lines(p.name@, r.warnings);
    match p.in_ {
        Some(ParamLocation::Path) => Ok(
            BoundView { path: v.path.insert(p.name@, plain_text(r.value)), warnings: noted, ..v },
        ),
        Some(ParamLocation::Query) => Ok(
            BoundView { query: v.query + query_pairs(p.name@, r.value), warnings: noted, ..v },
        ),
        Some(ParamLocation::Querystring) => match r.value {
            JsonView::Null => Ok(BoundView { warnings: noted, ..v }),
            JsonView::Text(text) => Ok(
                BoundView {
                    querystring: Some((p.name@, text)),
                    warnings: match v.querystring {
                        Some(earlier) => noted.push(querystring_dropped(p.name@, earlier.0)),
                        None => noted,
                    },
                    ..v
                },
            ),
            _ => Err(querystring_refusal(step_id, p.name@, r.value)),
        },
        Some(ParamLocation::Header) => Ok(v),
        Some(ParamLocation::Cookie) => Ok(v),
        None => Ok(BoundView { warnings: noted, ..v }),
    }
}

/// What the first `n` parameters bind.
pub open spec fn parameters_bound(
    list: Seq<Parameter>,
    a: Answers,
    step_id: Seq<char>,
    n: nat,
) -> Result<BoundView, ErrorView>
    decreases n,
{
    if n == 0 {
        Ok(unbound())
    } else {
        match parameters_bound(list, a, step_id, (n - 1) as nat) {
            Ok(v) => parameter_bound(v, list[n - 1], a, step_id),
            Err(e) => Err(e),
        }
    }
}

proof fn failed_binding_stays(
    list: Seq<Parameter>,
    a: Answers,
    step_id: Seq<char>,
    m: nat,
    n: nat,
)
    requires
        m <= n,
        parameters_bound(list, a, step_id, m) is Err,
    ensures
        parameters_bound(list, a, step_id, n) == parameters_bound(list, a, step_id, m),
    decreases n,
{
    if m < n {
        failed_binding_stays(list, a, step_id, m, (n - 1) as nat);
    }
}

struct Bound {
    path: TextMap<String>,
    query: Vec<(String, String)>,
    querystring: Option<(String, String)>,
    warnings: Vec<String>,
}

impl View for Bound {
    type V = BoundView;

    closed spec fn view(&self) -> BoundView {
        BoundView {
            path: text_map_view(self.path),
            query: pair_views(self.query@),
            querystring: match self.querystring {
                Some(q) => Some((q.0@, q.1@)),
                None => None,
            },
            warnings: texts(self.warnings@),
        }
    }
}

fn bind_parameter(v: Bound, p: &Parameter, answers: &Answers, step_id: &str) -> (r: Result<
    Bound,
    RuntimeError,
>)
    ensures
        match parameter_bound(v@, *p, *answers, step_id@) {
            Ok(b) => r matches Ok(x) && x@ == b,
            Err(e) => r matches Err(x) && x@ == e,
        },
{
    broadcast use view_by_variant;

    let ghost given = v@;
    let mut v = v;
    let location = match p.in_ {
        Some(ParamLocation::Header) => {
            return Ok(v);
        },
        Some(ParamLocation::Cookie) => {
            return Ok(v);
        },
        l => l,
    };
    let (value, noted) = resolve_value_source(&p.value, answers);
    let lines = parameter_warnings(p.name.as_str(), &noted);
    match location {
        Some(ParamLocation::Path) => {
            append_texts(&mut v.warnings, lines);
            let ghost before = text_map_view(v.path);
            let text = value_to_string(&value);
            let ghost t = text@;
            v.path.insert(p.name.clone(), text);
            assert(text_map_view(v.path) =~= before.insert(p.name@, t));
        },
        Some(ParamLocation::Query) => {
            append_texts(&mut v.warnings, lines);
            push_query(&mut v.query, p.name.as_str(), &value);
        },
        Some(ParamLocation::Querystring) => {
            append_texts(&mut v.warnings, lines);
            let label = json_type_name(&value);
            match value {
                Json::Null => {},
                Json::Text(text) => {
                    match &v.querystring {
                        Some(earlier) => {
                            let quoted = debug_quote(p.name.as_str());
                            let discarded = debug_quote(earlier.0.as_str());
                            let line = concat5(
                                "parameter ",
                                quoted.as_str(),
                                ": in: querystring supplies the entire query component and cannot appear more than once, so the earlier in: querystring parameter ",
                                discarded.as_str(),
                                " was dropped",
                            );
                            let ghost before = texts(v.warnings@);
                            let ghost l = line@;
                            v.warnings.push(line);
                            assert(texts(v.warnings@) =~= before.push(l));
                        },
                        None => {},
                    }
                    v.querystring = Some((p.name.clone(), text));
                },
                _ => {
                    let quoted = debug_quote(p.name.as_str());
                    let mut message = "step \"".to_owned();
                    message.append(step_id);
                    message.append("\": parameter ");
                    message.append(quoted.as_str());
                    message.append(
                        " (in: querystring) requires a string value (the entire already-encoded query component); got ",
                    );
                    message.append(label);
                    return Err(RuntimeError::new(RuntimeErrorKind::InvalidParameterValue, message));
                },
            }
        },
        _ => {
            append_texts(&mut v.warnings, lines);
        },
    }
    Ok(v)
}

fn bind_parameters(list: &Vec<Parameter>, answers: &Answers, step_id: &str) -> (r: Result<
    Bound,
    RuntimeError,
>)
    ensures
        match parameters_bound(list@, *answers, step_id@, list@.len()) {
            Ok(b) => r matches Ok(x) && x@ == b,
            Err(e) => r matches Err(x) && x@ == e,
        },
{
    let mut v = Bound {
        path: TextMap::new(),
        query: Vec::new(),
        querystring: None,
        warnings: Vec::new(),
    };
    assert(v@ =~= unbound()) by {
        assert(text_map_view(v.path) =~= Map::<Seq<char>, Seq<char>>::empty());
        assert(pair_views(v.query@) =~= Seq::<(Seq<char>, Seq<char>)>::empty());
        assert(texts(v.warnings@) =~= Seq::<Seq<char>>::empty());
    }
    let mut i: usize = 0;
    while i < list.len()
        invariant
            i <= list@.len(),
            parameters_bound(list@, *answers, step_id@, i as nat) == Ok::<BoundView, ErrorView>(v@),
        decreases list@.len() - i,
    {
        match bind_parameter(v, &list[i], answers, step_id) {
            Ok(b) => {
                v = b;
            },
            Err(e) => {
                proof {
                    failed_binding_stays(
                        list@,
                        *answers,
                        step_id@,
                        (i + 1) as nat,
                        list@.len(),
                    );
                }
                return Err(e);
            },
        }
        i = i + 1;
    }
    Ok(v)
}

// ---------------------------------------------------------------------
// Queries
// ---------------------------------------------------------------------

/// A query with one more pair; values of one name are joined with commas.
pub open spec fn pair_merged(
    m: Map<Seq<char>, Seq<char>>,
    pair: (Seq<char>, Seq<char>),
) -> Map<Seq<char>, Seq<char>> {
    if m.contains_key(pair.0) {
        m.insert(pair.0, m[pair.0] + ","@ + pair.1)
    } else {
        m.insert(pair.0, pair.1)
    }
}

/// A query with the first `n` pairs of a list.
pub open spec fn pairs_merged(
    m: Map<Seq<char>, Seq<char>>,
    pairs: Seq<(Seq<char>, Seq<char>)>,
    n: nat,
) -> Map<Seq<char>, Seq<char>>
    decreases n,
{
    if n == 0 {
        m
    } else {
        pair_merged(pairs_merged(m, pairs, (n - 1) as nat), pairs[n - 1])
    }
}

/// The values of a query by their names.
pub open spec fn query_of(pairs: Seq<(Seq<char>, Seq<char>)>) -> Map<Seq<char>, Seq<char>> {
    pairs_merged(Map::empty(), pairs, pairs.len())
}

fn merge_pairs(pairs: &Vec<(String, String)>) -> (r: TextMap<String>)
    ensures
        text_map_view(r) == query_of(pair_views(pairs@)),
{
    let ghost list = pair_views(pairs@);
    let mut out: TextMap<String> = TextMap::new();
    let mut i: usize = 0;
    assert(text_map_view(out) =~= Map::<Seq<char>, Seq<char>>::empty());
    while i < pairs.len()
        invariant
            i <= pairs@.len(),
            list == pair_views(pairs@),
            text_map_view(out) == pairs_merged(Map::empty(), list, i as nat),
        decreases pairs@.len() - i,
    {
        let ghost before = text_map_view(out);
        let (key, value) = (&pairs[i].0, &pairs[i].1);
        assert(list[i as int] == (key@, value@));
        let merged = match out.get(key.as_str()) {
            Some(existing) => concat3(existing.as_str(), ",", value.as_str()),
            None => value.clone(),
        };
        let ghost t = merged@;
        out.insert(key.clone(), merged);
        assert(text_map_view(out) =~= before.insert(key@, t));
        i = i + 1;
    }
    assert(list.len() == pairs@.len());
    out
}

/// A text without one question mark at its start.
pub open spec fn bare_query(raw: Seq<char>) -> Seq<char> {
    if raw.len() > 0 && raw[0] == '?' {
        raw.skip(1)
    } else {
        raw
    }
}

/// Where a text has a character first; its length where it has none.
pub open spec fn first_at(s: Seq<char>, c: char) -> int {
    first_of(s, 0, seq![c])
}

/// The names of pairs.
pub open spec fn pair_names(pairs: Seq<(Seq<char>, Seq<char>)>) -> Seq<Seq<char>> {
    pairs.map_values(|p: (Seq<char>, Seq<char>)| p.0)
}

/// A URL with its query, the values of the query, and the warnings.
#[verifier::ext_equal]
pub struct QueriedView {
    pub url: Seq<char>,
    pub query: Map<Seq<char>, Seq<char>>,
    pub warnings: Seq<Seq<char>>,
}

/// The refusal of a whole query that holds a fragment.
pub open spec fn fragment_refusal(
    step_id: Seq<char>,
    name: Seq<char>,
    query: Seq<char>,
) -> ErrorView {
    ErrorView {
        kind: RuntimeErrorKind::InvalidParameterValue,
        message: "step \""@ + step_id + "\": parameter "@ + debug_quoted(name)
            + " (in: querystring) resolved to "@ + debug_quoted(query)
            + ", which contains \"#\"; a query component cannot contain a raw \"#\" — it would start a URL fragment and truncate the query. Percent-encode it as \"%23\"."@,
    }
}

/// The refusal of a whole query for a URL that has one.
pub open spec fn second_query_refusal(
    step_id: Seq<char>,
    name: Seq<char>,
    existing: Seq<char>,
) -> ErrorView {
    ErrorView {
        kind: RuntimeErrorKind::InvalidParameterValue,
        message: "step \""@ + step_id + "\": parameter "@ + debug_quoted(name)
            + " (in: querystring) supplies the entire query component, but the resolved operation URL already carries a query ("@
            + debug_quoted(existing) + "); remove the parameter or the URL's query"@,
    }
}

/// A URL whose whole query a parameter supplies, written as it stands.
pub open spec fn with_querystring(
    target: Seq<char>,
    v: BoundView,
    name: Seq<char>,
    raw: Seq<char>,
    step_id: Seq<char>,
) -> Result<QueriedView, ErrorView> {
    let query = bare_query(raw);
    let at = first_at(target, '?');
    if first_at(query, '#') < query.len() {
        Err(fragment_refusal(step_id, name, query))
    } else if at < target.len() && at + 1 < target.len() {
        Err(second_query_refusal(step_id, name, target.skip(at + 1)))
    } else {
        Ok(
            QueriedView {
                url: if query.len() == 0 {
                    target.take(at)
                } else {
                    target.take(at) + "?"@ + query
                },
                query: query_of(form_pairs(query)),
                warnings: if v.query.len() > 0 {
                    v.warnings.push(
                        "parameter "@ + debug_quoted(name)
                            + ": in: querystring supplies the entire query component, so the in: query parameter(s) ["@
                            + joined(pair_names(v.query), ", "@) + "] were dropped"@,
                    )
                } else {
                    v.warnings
                },
            },
        )
    }
}

/// A URL with the query that parameters bind: it is added to the one that the
/// URL has.
pub open spec fn with_query(target: Seq<char>, v: BoundView) -> QueriedView {
    QueriedView {
        url: if v.query.len() == 0 {
            target
        } else if first_at(target, '?') < target.len() {
            target + "&"@ + form_text(v.query)
        } else {
            target + "?"@ + form_text(v.query)
        },
        query: query_of(v.query),
        warnings: v.warnings,
    }
}

/// A URL with its query.
pub open spec fn queried(target: Seq<char>, v: BoundView, step_id: Seq<char>) -> Result<
    QueriedView,
    ErrorView,
> {
    match v.querystring {
        Some(q) => with_querystring(target, v, q.0, q.1, step_id),
        None => Ok(with_query(target, v)),
    }
}

fn names_of_pairs(pairs: &Vec<(String, String)>) -> (r: Vec<String>)
    ensures
        texts(r@) == pair_names(pair_views(pairs@)),
{
    let mut out: Vec<String> = Vec::new();
    let mut i: usize = 0;
    while i < pairs.len()
        invariant
            i <= pairs@.len(),
            out@.len() == i,
            forall|j: int| 0 <= j < i ==> (#[trigger] out@[j])@ == pairs@[j].0@,
        decreases pairs@.len() - i,
    {
        out.push(pairs[i].0.clone());
        i = i + 1;
    }
    assert(texts(out@) =~= pair_names(pair_views(pairs@)));
    out
}

/// A URL with its query, the values of the query, and the warnings.
struct Queried {
    url: String,
    query: TextMap<String>,
    warnings: Vec<String>,
}

impl View for Queried {
    type V = QueriedView;

    closed spec fn view(&self) -> QueriedView {
        QueriedView {
            url: self.url@,
            query: text_map_view(self.query),
            warnings: texts(self.warnings@),
        }
    }
}

fn add_querystring(
    target: String,
    query_pairs: Vec<(String, String)>,
    name: String,
    raw: String,
    warnings: Vec<String>,
    step_id: &str,
    Ghost(v): Ghost<BoundView>,
) -> (r: Result<Queried, RuntimeError>)
    requires
        v.query == pair_views(query_pairs@),
        v.warnings == texts(warnings@),
    ensures
        match with_querystring(target@, v, name@, raw@, step_id@) {
            Ok(q) => r matches Ok(x) && x@ == q,
            Err(e) => r matches Err(x) && x@ == e,
        },
{
    let raw_chars = chars_of(raw.as_str());
    let query = if raw_chars.len() > 0 && raw_chars[0] == '?' {
        let q = text_of(&raw_chars, 1, raw_chars.len());
        assert(q@ =~= raw@.skip(1));
        q
    } else {
        raw
    };
    let query_chars = chars_of(query.as_str());
    let quoted = debug_quote(name.as_str());
    if find_char(&query_chars, 0, '#') < query_chars.len() {
        let shown = debug_quote(query.as_str());
        let mut message = "step \"".to_owned();
        message.append(step_id);
        message.append("\": parameter ");
        message.append(quoted.as_str());
        message.append(" (in: querystring) resolved to ");
        message.append(shown.as_str());
        message.append(
            ", which contains \"#\"; a query component cannot contain a raw \"#\" — it would start a URL fragment and truncate the query. Percent-encode it as \"%23\".",
        );
        return Err(RuntimeError::new(RuntimeErrorKind::InvalidParameterValue, message));
    }
    let chars = chars_of(target.as_str());
    let at = find_char(&chars, 0, '?');
    if at < chars.len() && at + 1 < chars.len() {
        let existing = text_of(&chars, at + 1, chars.len());
        assert(existing@ =~= target@.skip(at + 1));
        let shown = debug_quote(existing.as_str());
        let mut message = "step \"".to_owned();
        message.append(step_id);
        message.append("\": parameter ");
        message.append(quoted.as_str());
        message.append(
            " (in: querystring) supplies the entire query component, but the resolved operation URL already carries a query (",
        );
        message.append(shown.as_str());
        message.append("); remove the parameter or the URL's query");
        return Err(RuntimeError::new(RuntimeErrorKind::InvalidParameterValue, message));
    }
    let mut warnings = warnings;
    assert(v.query.len() == query_pairs@.len());
    if query_pairs.len() > 0 {
        let names = names_of_pairs(&query_pairs);
        let dropped = join_texts(&names, ", ");
        let line = concat5(
            "parameter ",
            quoted.as_str(),
            ": in: querystring supplies the entire query component, so the in: query parameter(s) [",
            dropped.as_str(),
            "] were dropped",
        );
        let ghost l = line@;
        warnings.push(line);
        assert(texts(warnings@) =~= v.warnings.push(l));
    }
    let pairs = parse_form(query.as_str());
    let params = merge_pairs(&pairs);
    let mut url = text_of(&chars, 0, at);
    assert(url@ =~= target@.take(at as int));
    if !query.as_str().is_empty() {
        url.append("?");
        url.append(query.as_str());
    }
    Ok(Queried { url, query: params, warnings })
}

fn add_query(target: String, query_pairs: Vec<(String, String)>, warnings: Vec<String>, Ghost(v):
    Ghost<BoundView>) -> (r: Queried)
    requires
        v.query == pair_views(query_pairs@),
        v.warnings == texts(warnings@),
    ensures
        r@ == with_query(target@, v),
        v.query.len() > 0 ==> form_pairs(form_text(v.query)) == v.query,
{
    let params = merge_pairs(&query_pairs);
    let mut url = target;
    assert(v.query.len() == query_pairs@.len());
    if query_pairs.len() > 0 {
        let chars = chars_of(url.as_str());
        let query = encode_form(&query_pairs);
        if find_char(&chars, 0, '?') < chars.len() {
            url.append("&");
        } else {
            url.append("?");
        }
        url.append(query.as_str());
    }
    Queried { url, query: params, warnings }
}

// ---------------------------------------------------------------------
// The whole URL
// ---------------------------------------------------------------------

/// A URL, and the parameters that went into it.
#[derive(Debug, PartialEq)]
pub struct UrlBuildResult {
    pub url: String,
    pub path_params: TextMap<String>,
    pub query_params: TextMap<String>,
    pub warnings: Vec<String>,
}

/// The content of a URL and its parameters.
#[verifier::ext_equal]
pub struct UrlView {
    pub url: Seq<char>,
    pub path_params: Map<Seq<char>, Seq<char>>,
    pub query_params: Map<Seq<char>, Seq<char>>,
    pub warnings: Seq<Seq<char>>,
}

impl View for UrlBuildResult {
    type V = UrlView;

    open spec fn view(&self) -> UrlView {
        UrlView {
            url: self.url@,
            path_params: text_map_view(self.path_params),
            query_params: text_map_view(self.query_params),
            warnings: texts(self.warnings@),
        }
    }
}

/// The refusal of path parameters that would change the path itself.
pub open spec fn dot_segment_refusal(step_id: Seq<char>, names: Seq<Seq<char>>) -> ErrorView {
    ErrorView {
        kind: RuntimeErrorKind::InvalidParameterValue,
        message: "step \""@ + step_id + "\": path parameter(s) ["@ + joined(names, ", "@)
            + "] would form a \".\" or \"..\" path segment, which a URL parser removes"@,
    }
}

/// The URL of a target with what the parameters of a step bind in it: path
/// parameters are filled in first, then the query is added, and a value that
/// would make a path segment `.` or `..` is refused.
pub open spec fn assembled(target: Seq<char>, v: BoundView, step_id: Seq<char>) -> Result<
    UrlView,
    ErrorView,
> {
    match queried(filled(target, v.path), v, step_id) {
        Err(e) => Err(e),
        Ok(q) => {
            let parts = filled_parts(target, v.path);
            let names = unsafe_names(q.url, parts, parts.len() as int);
            if names.len() > 0 {
                Err(dot_segment_refusal(step_id, names))
            } else {
                Ok(
                    UrlView {
                        url: q.url,
                        path_params: v.path,
                        query_params: q.query,
                        warnings: q.warnings,
                    },
                )
            }
        },
    }
}

/// The URL of a step's request.
pub open spec fn request_url(
    index: RequestIndex,
    op_path: Seq<char>,
    source_base: Option<Seq<char>>,
    form: OperationPathForm,
    step: Step,
    a: Answers,
) -> Result<UrlView, ErrorView> {
    match base_and_path(index, op_path, source_base, form, step.step_id@) {
        Err(e) => Err(e),
        Ok(t) => match parameters_bound(
            step.parameters@,
            a,
            step.step_id@,
            step.parameters@.len(),
        ) {
            Err(e) => Err(e),
            Ok(v) => assembled(target_url(t.0, t.1), v, step.step_id@),
        },
    }
}

/// Builds the URL of a step's request. `source_base` is the request base of
/// the operation that the step names; without one `form` says what `op_path`
/// stands for.
pub fn build_url_from_path(
    index: &RequestIndex,
    op_path: &str,
    source_base: Option<&str>,
    form: &OperationPathForm,
    step: &Step,
    answers: &Answers,
) -> (r: Result<UrlBuildResult, RuntimeError>)
    ensures
        match request_url(
            *index,
            op_path@,
            match source_base {
                Some(b) => Some(b@),
                None => None,
            },
            *form,
            *step,
            *answers,
        ) {
            Ok(v) => r matches Ok(u) && u@ == v,
            Err(e) => r matches Err(x) && x@ == e,
        },
        // The values that are reported are those that a reader of the URL finds.
        parameters_bound(
            step.parameters@,
            *answers,
            step.step_id@,
            step.parameters@.len(),
        ) matches Ok(v) ==> v.querystring is None ==> v.query.len() > 0 ==> (r matches Ok(u)
            ==> u@.query_params == query_of(form_pairs(form_text(v.query)))),
{
    let step_id = step.step_id.as_str();
    let target = match resolve_target(index, op_path, source_base, form, step_id) {
        Ok(t) => t,
        Err(e) => {
            return Err(e);
        },
    };
    let bound = match bind_parameters(&step.parameters, answers, step_id) {
        Ok(b) => b,
        Err(e) => {
            return Err(e);
        },
    };
    let ghost v = bound@;
    let (full, validation) = replace_path_params(target.as_str(), &bound.path);
    let queried = match bound.querystring {
        Some((name, raw)) => match add_querystring(
            full,
            bound.query,
            name,
            raw,
            bound.warnings,
            step_id,
            Ghost(v),
        ) {
            Ok(q) => q,
            Err(e) => {
                return Err(e);
            },
        },
        None => add_query(full, bound.query, bound.warnings, Ghost(v)),
    };
    match validation.validate(queried.url.as_str()) {
        Ok(_) => {},
        Err(unsafe_params) => {
            let names = join_texts(&unsafe_params.parameter_names, ", ");
            let message = concat5(
                "step \"",
                step_id,
                "\": path parameter(s) [",
                names.as_str(),
                "] would form a \".\" or \"..\" path segment, which a URL parser removes",
            );
            return Err(RuntimeError::new(RuntimeErrorKind::InvalidParameterValue, message));
        },
    }
    Ok(
        UrlBuildResult {
            url: queried.url,
            path_params: bound.path,
            query_params: queried.query,
            warnings: queried.warnings,
        },
    )
}

/// A parameter that supplies the whole query is written into the URL as it
/// stands, and what is reported are its own values.
pub proof fn whole_query_is_sent_as_it_stands(
    target: Seq<char>,
    v: BoundView,
    step_id: Seq<char>,
)
    requires
        v.querystring is Some,
        bare_query((v.querystring->0).1).len() > 0,
    ensures
        queried(target, v, step_id) matches Ok(q) ==> {
            let query = bare_query((v.querystring->0).1);
            &&& q.url.len() >= query.len()
            &&& q.url.skip(q.url.len() - query.len()) == query
            &&& q.query == query_of(form_pairs(query))
        },
{
    let query = bare_query((v.querystring->0).1);
    if let Ok(q) = queried(target, v, step_id) {
        assert(q.url.skip(q.url.len() - query.len()) =~= query);
    }
}

} // verus!
