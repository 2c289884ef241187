//! Values of a document as JSON: filling in what expressions and selectors
//! came to, and replacing parts of a request body.

use crate::json::{json_views, member_views, view_by_variant, Json, JsonView};
use crate::json_pointer::{
    apply_json_pointer_replacement, json_type_name, member_set, pointer_replaced, pointer_value,
    set_member, type_label, Members,
};
use crate::json_text::{plain_text, value_to_string};
use crate::model::{
    selector_type_name, selector_type_version, Literal, Replacement, SelectorObject, ValueSource,
};
use crate::text::{
    chars_of, concat2, concat3, concat4, contains_part, decimal, decimal_text, lower_text, occurs_in,
    same_text, stands_at, starts_with, text_of, texts, to_lower, trim_text, trimmed,
};
use crate::text_map::TextMap;
use crate::xpath::{
    debug_quote, debug_quoted, opt_text, replace_xpath, select_in_text, text_selection,
    version_rejection, xml_replaced, xpath_version_rejection,
};
use vstd::prelude::*;
use vstd::string::*;

verus! {

// ---------------------------------------------------------------------
// Warnings and answers
// ---------------------------------------------------------------------

/// A warning about an expression.
#[derive(Debug, PartialEq)]
pub struct ExpressionWarning {
    pub expression: String,
    pub message: String,
}

/// The content of a warning.
#[verifier::ext_equal]
pub struct WarningView {
    pub expression: Seq<char>,
    pub message: Seq<char>,
}

impl View for ExpressionWarning {
    type V = WarningView;

    open spec fn view(&self) -> WarningView {
        WarningView { expression: self.expression@, message: self.message@ }
    }
}

/// The contents of a list of warnings.
pub open spec fn warning_views(list: Seq<ExpressionWarning>) -> Seq<WarningView> {
    list.map_values(|w: ExpressionWarning| w@)
}

/// The line that shows a warning.
pub open spec fn warning_line(w: WarningView) -> Seq<char> {
    w.expression + ": "@ + w.message
}

impl ExpressionWarning {
    /// The line that shows the warning.
    pub fn line(&self) -> (r: String)
        ensures
            r@ == warning_line(self@),
    {
        concat3(self.expression.as_str(), ": ", self.message.as_str())
    }

    /// The same warning.
    pub fn copy(&self) -> (r: ExpressionWarning)
        ensures
            r@ == self@,
    {
        ExpressionWarning { expression: self.expression.clone(), message: self.message.clone() }
    }
}

/// Adds copies of warnings to a list.
pub fn extend_warnings(list: &mut Vec<ExpressionWarning>, more: &Vec<ExpressionWarning>)
    ensures
        warning_views(final(list)@) == warning_views(old(list)@) + warning_views(more@),
{
    let ghost given = warning_views(list@);
    let ghost added = warning_views(more@);
    let mut i: usize = 0;
    assert(given + added.take(0) =~= given);
    while i < more.len()
        invariant
            i <= more@.len(),
            added == warning_views(more@),
            warning_views(list@) == given + added.take(i as int),
        decreases more@.len() - i,
    {
        let ghost before = list@;
        let w = more[i].copy();
        list.push(w);
        assert(warning_views(list@) =~= warning_views(before).push(w@));
        assert(added.take(i + 1) =~= added.take(i as int).push(added[i as int]));
        assert(given + added.take(i as int).push(w@) =~= (given + added.take(i as int)).push(w@));
        i = i + 1;
    }
    assert(added.take(i as int) =~= added);
}

/// What an expression came to.
#[derive(Debug, PartialEq)]
pub struct Evaluated {
    pub value: Json,
    pub warnings: Vec<ExpressionWarning>,
}

/// The content of what an expression came to.
#[verifier::ext_equal]
pub struct EvaluatedView {
    pub value: JsonView,
    pub warnings: Seq<WarningView>,
}

impl View for Evaluated {
    type V = EvaluatedView;

    open spec fn view(&self) -> EvaluatedView {
        EvaluatedView { value: self.value@, warnings: warning_views(self.warnings@) }
    }
}

/// What a JSONPath selector came to: whether it was admitted, and the value
/// and the number of matches, or why it failed.
#[derive(Debug, PartialEq)]
pub struct QueryAnswer {
    pub context: String,
    pub selector: String,
    pub version: Option<String>,
    pub admitted: Result<(), String>,
    pub selected: Result<(Json, usize), String>,
}

/// What the expressions of a document came to in one state of an execution:
/// texts with their embedded expressions filled in, expressions, and JSONPath
/// selectors. What has no entry came to nothing: `null`, without a warning.
#[derive(Debug, PartialEq)]
pub struct Answers {
    pub texts: TextMap<Evaluated>,
    pub contexts: TextMap<Evaluated>,
    pub queries: Vec<QueryAnswer>,
}

pub open spec fn nothing() -> EvaluatedView {
    EvaluatedView { value: JsonView::Null, warnings: Seq::empty() }
}

/// What the entry of a table came to.
pub open spec fn answer_in(table: TextMap<Evaluated>, key: Seq<char>) -> EvaluatedView {
    if table@.contains_key(key) {
        table@[key]@
    } else {
        nothing()
    }
}

/// Whether an answer is to this selector in this context.
pub open spec fn answers_query(q: QueryAnswer, s: SelectorObject) -> bool {
    &&& q.context@ == s.context@
    &&& q.selector@ == s.selector@
    &&& (match q.version {
        Some(v) => Some(v@),
        None => None,
    }) == selector_type_version(s.type_)
}

/// The position of the first answer at or after `from` to a selector.
pub open spec fn query_from(queries: Seq<QueryAnswer>, s: SelectorObject, from: int) -> int
    decreases queries.len() - from,
{
    if from >= queries.len() {
        queries.len() as int
    } else if answers_query(queries[from], s) {
        from
    } else {
        query_from(queries, s, from + 1)
    }
}

/// Why a JSONPath selector was refused.
pub open spec fn query_refusal(a: Answers, s: SelectorObject) -> Option<Seq<char>> {
    let i = query_from(a.queries@, s, 0);
    if i < a.queries@.len() {
        match a.queries@[i].admitted {
            Ok(_) => None,
            Err(e) => Some(e@),
        }
    } else {
        None
    }
}

/// The value and the number of matches of a JSONPath selector, or why it
/// failed.
pub open spec fn query_selection(a: Answers, s: SelectorObject) -> Result<
    (JsonView, nat),
    Seq<char>,
> {
    let i = query_from(a.queries@, s, 0);
    if i < a.queries@.len() {
        match a.queries@[i].selected {
            Ok(v) => Ok((v.0@, v.1 as nat)),
            Err(e) => Err(e@),
        }
    } else {
        Ok((JsonView::Null, 0nat))
    }
}

fn same_version(a: &Option<String>, b: Option<&str>) -> (r: bool)
    ensures
        r == ((match *a {
            Some(v) => Some(v@),
            None => None,
        }) == opt_text(b)),
{
    match (a, b) {
        (Some(x), Some(y)) => same_text(x.as_str(), y),
        (None, None) => true,
        _ => false,
    }
}

fn find_query<'a>(answers: &'a Answers, selector: &SelectorObject) -> (r: Option<&'a QueryAnswer>)
    ensures
        ({
            let i = query_from(answers.queries@, *selector, 0);
            match r {
                Some(q) => 0 <= i < answers.queries@.len() && *q == answers.queries@[i],
                None => i >= answers.queries@.len(),
            }
        }),
{
    let version = selector.type_.declared_version();
    let mut i: usize = 0;
    while i < answers.queries.len()
        invariant
            i <= answers.queries@.len(),
            opt_text(version) == selector_type_version(selector.type_),
            query_from(answers.queries@, *selector, 0) == query_from(
                answers.queries@,
                *selector,
                i as int,
            ),
        decreases answers.queries@.len() - i,
    {
        let q = &answers.queries[i];
        if same_text(q.context.as_str(), selector.context.as_str()) && same_text(
            q.selector.as_str(),
            selector.selector.as_str(),
        ) && same_version(&q.version, version) {
            return Some(q);
        }
        i = i + 1;
    }
    None
}

// ---------------------------------------------------------------------
// Resolving values
// ---------------------------------------------------------------------

/// What a value came to. A JSONPath selector that failed outright leaves
/// `null`, which is no selected value: `jsonpath_failed` tells of it.
#[derive(Debug, PartialEq)]
pub struct Resolution {
    pub value: Json,
    pub warnings: Vec<ExpressionWarning>,
    pub jsonpath_failed: bool,
}

/// The content of a resolution.
#[verifier::ext_equal]
pub struct ResolutionView {
    pub value: JsonView,
    pub warnings: Seq<WarningView>,
    pub jsonpath_failed: bool,
}

impl View for Resolution {
    type V = ResolutionView;

    open spec fn view(&self) -> ResolutionView {
        ResolutionView {
            value: self.value@,
            warnings: warning_views(self.warnings@),
            jsonpath_failed: self.jsonpath_failed,
        }
    }
}

pub open spec fn sound(value: JsonView, warnings: Seq<WarningView>) -> ResolutionView {
    ResolutionView { value, warnings, jsonpath_failed: false }
}

pub open spec fn failed_query(warnings: Seq<WarningView>) -> ResolutionView {
    ResolutionView { value: JsonView::Null, warnings, jsonpath_failed: true }
}

impl Resolution {
    /// A value that was found.
    pub fn sound(value: Json, warnings: Vec<ExpressionWarning>) -> (r: Resolution)
        ensures
            r@ == sound(value@, warning_views(warnings@)),
    {
        Resolution { value, warnings, jsonpath_failed: false }
    }

    /// A JSONPath selector that failed outright.
    pub fn jsonpath_failure(warnings: Vec<ExpressionWarning>) -> (r: Resolution)
        ensures
            r@ == failed_query(warning_views(warnings@)),
    {
        broadcast use view_by_variant;

        Resolution { value: Json::Null, warnings, jsonpath_failed: true }
    }
}

/// A warning about a selector.
pub open spec fn about_selector(s: SelectorObject, message: Seq<char>) -> WarningView {
    WarningView { expression: s.selector@, message }
}

fn selector_warning(selector: &SelectorObject, message: &str) -> (r: ExpressionWarning)
    ensures
        r@ == about_selector(*selector, message@),
{
    ExpressionWarning { expression: selector.selector.clone(), message: message.to_owned() }
}

/// What a JSON Pointer selector comes to in a context.
pub open spec fn pointer_selection(s: SelectorObject, context: JsonView) -> Result<
    (JsonView, nat),
    Seq<char>,
> {
    let version = selector_type_version(s.type_);
    if version is Some && version->0 != "rfc6901"@ {
        Err("unsupported JSON Pointer version "@ + debug_quoted(version->0))
    } else if s.selector@.len() > 0 && s.selector@[0] != '/' {
        Err("JSON Pointer selector must be empty or start with '/'"@)
    } else {
        match pointer_value(context, s.selector@) {
            Some(v) => Ok((v, 1nat)),
            None => Ok((JsonView::Null, 0nat)),
        }
    }
}

/// What an XPath selector comes to in a context.
pub open spec fn xpath_selection(s: SelectorObject, context: JsonView) -> Result<
    (JsonView, nat),
    Seq<char>,
> {
    match version_rejection(selector_type_version(s.type_)) {
        Some(m) => Err(m),
        None => match context {
            JsonView::Text(xml) => match text_selection(xml, s.selector@) {
                Ok(x) => match x.value {
                    Ok(v) => Ok((v, x.match_count)),
                    Err(e) => Err(e),
                },
                Err(e) => Err(e),
            },
            _ => Err(
                "XPath selector context must resolve to an XML string, got "@ + type_label(context),
            ),
        },
    }
}

/// What a selector that is no JSONPath comes to in a context.
pub open spec fn other_selection(s: SelectorObject, context: JsonView) -> Result<
    (JsonView, nat),
    Seq<char>,
> {
    let name = selector_type_name(s.type_);
    if name == "jsonpointer"@ {
        pointer_selection(s, context)
    } else if name == "xpath"@ {
        xpath_selection(s, context)
    } else {
        Err("unsupported selector type "@ + debug_quoted(name))
    }
}

/// The content of a selection.
pub open spec fn selection_view(r: Result<(Json, usize), String>) -> Result<
    (JsonView, nat),
    Seq<char>,
> {
    match r {
        Ok(v) => Ok((v.0@, v.1 as nat)),
        Err(e) => Err(e@),
    }
}

/// Selects in a context with a JSON Pointer or an XPath selector.
pub fn resolve_non_jsonpath_selector(selector: &SelectorObject, context: &Json) -> (r: Result<
    (Json, usize),
    String,
>)
    ensures
        selection_view(r) == other_selection(*selector, context@),
{
    broadcast use view_by_variant;

    let name = selector.type_.resolved_name();
    let version = selector.type_.declared_version();
    if same_text(name, "jsonpointer") {
        match version {
            Some(v) => {
                if !same_text(v, "rfc6901") {
                    let quoted = debug_quote(v);
                    return Err(concat2("unsupported JSON Pointer version ", quoted.as_str()));
                }
            },
            None => {},
        }
        let chars = chars_of(selector.selector.as_str());
        if chars.len() > 0 && chars[0] != '/' {
            return Err("JSON Pointer selector must be empty or start with '/'".to_owned());
        }
        match context.pointer(selector.selector.as_str()) {
            Some(v) => Ok((v.copy(), 1)),
            None => Ok((Json::Null, 0)),
        }
    } else if same_text(name, "xpath") {
        match xpath_version_rejection(version) {
            Some(m) => {
                return Err(m);
            },
            None => {},
        }
        match context {
            Json::Text(xml) => {
                let selected = select_in_text(xml.as_str(), selector.selector.as_str());
                match selected {
                    Ok(x) => match x.value {
                        Ok(v) => Ok((v, x.match_count)),
                        Err(e) => Err(e),
                    },
                    Err(e) => Err(e),
                }
            },
            _ => Err(
                concat2(
                    "XPath selector context must resolve to an XML string, got ",
                    json_type_name(context),
                ),
            ),
        }
    } else {
        let quoted = debug_quote(name);
        Err(concat2("unsupported selector type ", quoted.as_str()))
    }
}

/// What a selection leaves: its value, with a warning where it matched
/// nothing or failed.
pub open spec fn selection_resolved(
    s: SelectorObject,
    selected: Result<(JsonView, nat), Seq<char>>,
) -> ResolutionView {
    match selected {
        Ok(v) => if v.1 == 0 {
            sound(v.0, seq![about_selector(s, "selector matched no values"@)])
        } else {
            sound(v.0, Seq::empty())
        },
        Err(m) => sound(JsonView::Null, seq![about_selector(s, m)]),
    }
}

/// What a selector comes to. A JSONPath selector is admitted before its
/// context is looked at, and fails outright where it is refused, where its
/// context did not resolve, and where its query fails.
pub open spec fn selector_resolved(s: SelectorObject, a: Answers) -> ResolutionView {
    let jsonpath = selector_type_name(s.type_) == "jsonpath"@;
    let context = answer_in(a.contexts, s.context@);
    if jsonpath && query_refusal(a, s) is Some {
        failed_query(seq![about_selector(s, query_refusal(a, s)->0)])
    } else if context.warnings.len() > 0 {
        ResolutionView {
            value: JsonView::Null,
            warnings: context.warnings,
            jsonpath_failed: jsonpath,
        }
    } else if jsonpath {
        match query_selection(a, s) {
            Ok(v) => selection_resolved(s, Ok(v)),
            Err(m) => failed_query(seq![about_selector(s, m)]),
        }
    } else {
        selection_resolved(s, other_selection(s, context.value))
    }
}

fn one_warning(w: ExpressionWarning) -> (r: Vec<ExpressionWarning>)
    ensures
        warning_views(r@) == seq![w@],
{
    let mut list: Vec<ExpressionWarning> = Vec::new();
    list.push(w);
    assert(warning_views(list@) =~= seq![w@]);
    list
}

fn no_warnings() -> (r: Vec<ExpressionWarning>)
    ensures
        warning_views(r@) == Seq::<WarningView>::empty(),
{
    let list: Vec<ExpressionWarning> = Vec::new();
    assert(warning_views(list@) =~= Seq::<WarningView>::empty());
    list
}

fn resolve_selection(selector: &SelectorObject, selected: Result<(Json, usize), String>) -> (r:
    Resolution)
    ensures
        r@ == selection_resolved(*selector, selection_view(selected)),
{
    broadcast use view_by_variant;

    match selected {
        Ok((value, count)) => if count == 0 {
            let w = selector_warning(selector, "selector matched no values");
            Resolution::sound(value, one_warning(w))
        } else {
            Resolution::sound(value, no_warnings())
        },
        Err(m) => {
            let w = selector_warning(selector, m.as_str());
            Resolution::sound(Json::Null, one_warning(w))
        },
    }
}

/// What a selector comes to, given the answers.
pub fn resolve_selector_checked(selector: &SelectorObject, answers: &Answers) -> (r: Resolution)
    ensures
        r@ == selector_resolved(*selector, *answers),
{
    broadcast use view_by_variant;

    let jsonpath = same_text(selector.type_.resolved_name(), "jsonpath");
    let query = find_query(answers, selector);
    if jsonpath {
        match query {
            Some(q) => match &q.admitted {
                Err(e) => {
                    let w = selector_warning(selector, e.as_str());
                    return Resolution::jsonpath_failure(one_warning(w));
                },
                Ok(_) => {},
            },
            None => {},
        }
    }
    let nothing_here = Json::Null;
    let context = match answers.contexts.get(selector.context.as_str()) {
        Some(e) => {
            if e.warnings.len() > 0 {
                let mut warnings = no_warnings();
                extend_warnings(&mut warnings, &e.warnings);
                assert(Seq::<WarningView>::empty() + warning_views(e.warnings@) =~= warning_views(
                    e.warnings@,
                ));
                assert(warning_views(e.warnings@).len() > 0);
                return Resolution { value: Json::Null, warnings, jsonpath_failed: jsonpath };
            }
            assert(warning_views(e.warnings@).len() == 0);
            &e.value
        },
        None => &nothing_here,
    };
    if jsonpath {
        match query {
            Some(q) => match &q.selected {
                Ok(v) => resolve_selection(selector, Ok((v.0.copy(), v.1))),
                Err(e) => {
                    let w = selector_warning(selector, e.as_str());
                    Resolution::jsonpath_failure(one_warning(w))
                },
            },
            None => resolve_selection(selector, Ok((Json::Null, 0))),
        }
    } else {
        let selected = resolve_non_jsonpath_selector(selector, context);
        resolve_selection(selector, selected)
    }
}

/// What a value comes to: texts and selectors by their answers, everything
/// else as it stands.
pub open spec fn resolved(v: ValueSource, a: Answers) -> ResolutionView
    decreases v, 1int, 0int,
{
    match v {
        ValueSource::Selector(s) => selector_resolved(s, a),
        ValueSource::Literal(Literal::Null) => sound(JsonView::Null, Seq::empty()),
        ValueSource::Literal(Literal::Bool(b)) => sound(JsonView::Bool(b), Seq::empty()),
        ValueSource::Literal(Literal::Number(n)) => sound(JsonView::Number(n@), Seq::empty()),
        ValueSource::Literal(Literal::Text(s)) => sound(
            answer_in(a.texts, s@).value,
            answer_in(a.texts, s@).warnings,
        ),
        ValueSource::Literal(Literal::Sequence(items)) => ResolutionView {
            value: JsonView::Array(resolved_items(v, a, items@.len())),
            warnings: part_warnings(v, a, items@.len()),
            jsonpath_failed: part_failed(v, a, items@.len()),
        },
        ValueSource::Literal(Literal::Mapping(members)) => ResolutionView {
            value: JsonView::Object(resolved_members(v, a, members@.len())),
            warnings: part_warnings(v, a, members@.len()),
            jsonpath_failed: part_failed(v, a, members@.len()),
        },
        ValueSource::Literal(Literal::Other) => sound(JsonView::Null, Seq::empty()),
    }
}

/// What the `i`th item or member of a value comes to.
pub open spec fn resolved_part(v: ValueSource, a: Answers, i: int) -> ResolutionView
    decreases v, 0int, 0int,
{
    match v {
        ValueSource::Literal(Literal::Sequence(items)) => if 0 <= i < items@.len() {
            resolved(items@[i], a)
        } else {
            sound(JsonView::Null, Seq::empty())
        },
        ValueSource::Literal(Literal::Mapping(members)) => if 0 <= i < members@.len() {
            resolved(members@[i].1, a)
        } else {
            sound(JsonView::Null, Seq::empty())
        },
        _ => sound(JsonView::Null, Seq::empty()),
    }
}

/// What the first `n` items of a sequence come to.
pub open spec fn resolved_items(v: ValueSource, a: Answers, n: nat) -> Seq<JsonView>
    decreases v, 0int, n + 1,
{
    if n == 0 {
        Seq::empty()
    } else {
        resolved_items(v, a, (n - 1) as nat).push(resolved_part(v, a, n - 1).value)
    }
}

/// The object that the first `n` members of a mapping come to. A key that is
/// no text is the empty text; a later member replaces an earlier one of the
/// same name.
pub open spec fn resolved_members(v: ValueSource, a: Answers, n: nat) -> Members
    decreases v, 0int, n + 1,
{
    if n == 0 {
        Seq::empty()
    } else {
        member_set(
            resolved_members(v, a, (n - 1) as nat),
            mapping_key(v, n - 1),
            resolved_part(v, a, n - 1).value,
        )
    }
}

/// The name of the `i`th member of a mapping.
pub open spec fn mapping_key(v: ValueSource, i: int) -> Seq<char> {
    match v {
        ValueSource::Literal(Literal::Mapping(members)) => match members@[i].0 {
            Some(k) => k@,
            None => ""@,
        },
        _ => ""@,
    }
}

/// The warnings of the first `n` items or members.
pub open spec fn part_warnings(v: ValueSource, a: Answers, n: nat) -> Seq<WarningView>
    decreases v, 0int, n + 1,
{
    if n == 0 {
        Seq::empty()
    } else {
        part_warnings(v, a, (n - 1) as nat) + resolved_part(v, a, n - 1).warnings
    }
}

/// Whether a JSONPath selector failed outright in the first `n` items or
/// members.
pub open spec fn part_failed(v: ValueSource, a: Answers, n: nat) -> bool
    decreases v, 0int, n + 1,
{
    if n == 0 {
        false
    } else {
        part_failed(v, a, (n - 1) as nat) || resolved_part(v, a, n - 1).jsonpath_failed
    }
}

/// What a value comes to, given the answers.
pub fn resolve_value_checked(value: &ValueSource, answers: &Answers) -> (r: Resolution)
    ensures
        r@ == resolved(*value, *answers),
    decreases value,
{
    match value {
        ValueSource::Selector(s) => resolve_selector_checked(s, answers),
        ValueSource::Literal(l) => resolve_literal_checked(l, answers),
    }
}

/// What a literal comes to, given the answers.
pub fn resolve_literal_checked(value: &Literal, answers: &Answers) -> (r: Resolution)
    ensures
        r@ == resolved(ValueSource::Literal(*value), *answers),
    decreases value,
{
    broadcast use view_by_variant;

    match value {
        Literal::Bool(b) => Resolution::sound(Json::Bool(*b), no_warnings()),
        Literal::Number(n) => Resolution::sound(Json::Number(n.copy()), no_warnings()),
        Literal::Text(s) => match answers.texts.get(s.as_str()) {
            Some(e) => {
                let mut warnings = no_warnings();
                extend_warnings(&mut warnings, &e.warnings);
                assert(Seq::<WarningView>::empty() + warning_views(e.warnings@) =~= warning_views(
                    e.warnings@,
                ));
                Resolution::sound(e.value.copy(), warnings)
            },
            None => Resolution::sound(Json::Null, no_warnings()),
        },
        Literal::Sequence(items) => resolve_items(items, answers),
        Literal::Mapping(members) => resolve_members(members, answers),
        _ => Resolution::sound(Json::Null, no_warnings()),
    }
}

fn resolve_items(items: &Vec<ValueSource>, answers: &Answers) -> (r: Resolution)
    ensures
        r@ == resolved(ValueSource::Literal(Literal::Sequence(*items)), *answers),
    decreases items,
{
    broadcast use view_by_variant;

    let ghost v = ValueSource::Literal(Literal::Sequence(*items));
    let ghost a = *answers;
    let mut out: Vec<Json> = Vec::new();
    let mut warnings = no_warnings();
    let mut jsonpath_failed = false;
    let mut i: usize = 0;
    assert(json_views(out@) =~= resolved_items(v, a, 0));
    while i < items.len()
        invariant
            i <= items@.len(),
            a == *answers,
            v == ValueSource::Literal(Literal::Sequence(*items)),
            json_views(out@) == resolved_items(v, a, i as nat),
            warning_views(warnings@) == part_warnings(v, a, i as nat),
            jsonpath_failed == part_failed(v, a, i as nat),
        decreases items@.len() - i,
    {
        assert(decreases_to!(items => items[i as int]));
        let item = resolve_value_checked(&items[i], answers);
        assert(item@ == resolved_part(v, a, i as int));
        jsonpath_failed = jsonpath_failed || item.jsonpath_failed;
        let ghost before = out@;
        let ghost added = item.value@;
        extend_warnings(&mut warnings, &item.warnings);
        out.push(item.value);
        assert(json_views(out@) =~= json_views(before).push(added));
        i = i + 1;
    }
    Resolution { value: Json::Array(out), warnings, jsonpath_failed }
}

fn resolve_members(members: &Vec<(Option<String>, ValueSource)>, answers: &Answers) -> (r:
    Resolution)
    ensures
        r@ == resolved(ValueSource::Literal(Literal::Mapping(*members)), *answers),
    decreases members,
{
    broadcast use view_by_variant;

    let ghost v = ValueSource::Literal(Literal::Mapping(*members));
    let ghost a = *answers;
    let mut out: Vec<(String, Json)> = Vec::new();
    let mut warnings = no_warnings();
    let mut jsonpath_failed = false;
    let mut i: usize = 0;
    assert(member_views(out@) =~= resolved_members(v, a, 0));
    while i < members.len()
        invariant
            i <= members@.len(),
            a == *answers,
            v == ValueSource::Literal(Literal::Mapping(*members)),
            member_views(out@) == resolved_members(v, a, i as nat),
            warning_views(warnings@) == part_warnings(v, a, i as nat),
            jsonpath_failed == part_failed(v, a, i as nat),
        decreases members@.len() - i,
    {
        assert(decreases_to!(members => members[i as int]));
        let item = resolve_value_checked(&members[i].1, answers);
        assert(item@ == resolved_part(v, a, i as int));
        jsonpath_failed = jsonpath_failed || item.jsonpath_failed;
        extend_warnings(&mut warnings, &item.warnings);
        let key: &str = match &members[i].0 {
            Some(k) => k.as_str(),
            None => "",
        };
        assert(key@ == mapping_key(v, i as int));
        set_member(&mut out, key, item.value);
        i = i + 1;
    }
    Resolution { value: Json::Object(out), warnings, jsonpath_failed }
}

/// What a value comes to, for readers that take a failed selector as `null`.
pub fn resolve_value_source(value: &ValueSource, answers: &Answers) -> (r: (
    Json,
    Vec<ExpressionWarning>,
))
    ensures
        r.0@ == resolved(*value, *answers).value,
        warning_views(r.1@) == resolved(*value, *answers).warnings,
{
    let r = resolve_value_checked(value, answers);
    (r.value, r.warnings)
}

/// What a payload comes to.
pub fn resolve_payload_detailed(value: &ValueSource, answers: &Answers) -> (r: (
    Json,
    Vec<ExpressionWarning>,
))
    ensures
        r.0@ == resolved(*value, *answers).value,
        warning_views(r.1@) == resolved(*value, *answers).warnings,
{
    resolve_value_source(value, answers)
}

/// What a selector comes to, for readers that take a failed one as `null`.
pub fn resolve_selector(selector: &SelectorObject, answers: &Answers) -> (r: (
    Json,
    Vec<ExpressionWarning>,
))
    ensures
        r.0@ == selector_resolved(*selector, *answers).value,
        warning_views(r.1@) == selector_resolved(*selector, *answers).warnings,
{
    let r = resolve_selector_checked(selector, answers);
    (r.value, r.warnings)
}

/// A selector that failed outright, anywhere in a value, left a warning.
pub proof fn failure_is_reported(v: ValueSource, a: Answers)
    ensures
        resolved(v, a).jsonpath_failed ==> resolved(v, a).warnings.len() > 0,
    decreases v, 1int, 0int,
{
    match v {
        ValueSource::Literal(Literal::Sequence(items)) => {
            part_failure_is_reported(v, a, items@.len());
        },
        ValueSource::Literal(Literal::Mapping(members)) => {
            part_failure_is_reported(v, a, members@.len());
        },
        _ => {},
    }
}

proof fn part_failure_is_reported(v: ValueSource, a: Answers, n: nat)
    ensures
        part_failed(v, a, n) ==> part_warnings(v, a, n).len() > 0,
    decreases v, 0int, n,
{
    if n > 0 {
        part_failure_is_reported(v, a, (n - 1) as nat);
        match v {
            ValueSource::Literal(Literal::Sequence(items)) => {
                if n - 1 < items@.len() {
                    assert(resolved_part(v, a, n - 1) == resolved(items@[n - 1], a));
                    failure_is_reported(items@[n - 1], a);
                }
            },
            ValueSource::Literal(Literal::Mapping(members)) => {
                if n - 1 < members@.len() {
                    assert(resolved_part(v, a, n - 1) == resolved(members@[n - 1].1, a));
                    failure_is_reported(members@[n - 1].1, a);
                }
            },
            _ => {},
        }
    }
}

// ---------------------------------------------------------------------
// Replacing parts of a body
// ---------------------------------------------------------------------

/// How the target of a replacement is read.
#[derive(Debug, Clone, Copy, PartialEq, Eq, Structural)]
pub enum TargetKind {
    JsonPointer,
    JsonPath,
    XPath,
}

/// How a target without a declared type is read: JSON media types take JSON
/// Pointer, XML media types XPath; of any other, texts take XPath.
pub open spec fn inferred_kind(body: JsonView, content_type: Seq<char>) -> TargetKind {
    let normalized = lower_text(content_type);
    if occurs_in(normalized, "json"@) {
        TargetKind::JsonPointer
    } else if occurs_in(normalized, "xml"@) || body is Text {
        TargetKind::XPath
    } else {
        TargetKind::JsonPointer
    }
}

/// How a target without a declared type is read.
pub fn infer_target_kind(body: &Json, content_type: &str) -> (r: TargetKind)
    ensures
        r == inferred_kind(body@, content_type@),
{
    broadcast use view_by_variant;

    let normalized = to_lower(content_type);
    if contains_part(normalized.as_str(), "json") {
        return TargetKind::JsonPointer;
    }
    let is_text = match body {
        Json::Text(_) => true,
        _ => false,
    };
    if contains_part(normalized.as_str(), "xml") || is_text {
        TargetKind::XPath
    } else {
        TargetKind::JsonPointer
    }
}

/// The line of a warning about a replacement.
pub open spec fn about_replacement(index: nat, message: Seq<char>) -> Seq<char> {
    "requestBody.replacements["@ + decimal(index) + "]: "@ + message
}

fn replacement_warning(index: usize, message: &str) -> (r: String)
    ensures
        r@ == about_replacement(index as nat, message@),
{
    let number = decimal_text(index as u64);
    concat4("requestBody.replacements[", number.as_str(), "]: ", message)
}

/// The body after a replacement, and the warnings that it leaves.
#[verifier::ext_equal]
pub struct ReplacementView {
    pub body: JsonView,
    pub warnings: Seq<Seq<char>>,
}

pub open spec fn unchanged_body(body: JsonView, index: nat, message: Seq<char>) -> ReplacementView {
    ReplacementView { body, warnings: seq![about_replacement(index, message)] }
}

pub open spec fn changed_body(
    body: JsonView,
    index: nat,
    outcome: Result<JsonView, Seq<char>>,
) -> ReplacementView {
    match outcome {
        Ok(after) => ReplacementView { body: after, warnings: Seq::empty() },
        Err(m) => unchanged_body(body, index, m),
    }
}

/// A replacement at a JSON Pointer.
pub open spec fn pointer_target(
    body: JsonView,
    index: nat,
    target: Seq<char>,
    version: Option<Seq<char>>,
    value: JsonView,
) -> ReplacementView {
    if version is Some && version->0 != "rfc6901"@ {
        unchanged_body(body, index, "unsupported JSON Pointer version "@ + debug_quoted(version->0))
    } else {
        changed_body(body, index, pointer_replaced(body, target, value))
    }
}

/// The places that a JSONPath target leads to, or why it failed.
pub open spec fn located_view(located: Result<Vec<String>, String>) -> Result<
    Seq<Seq<char>>,
    Seq<char>,
> {
    match located {
        Ok(pointers) => Ok(texts(pointers@)),
        Err(e) => Err(e@),
    }
}

/// A replacement at the place that a JSONPath leads to: it applies where that
/// is one place.
pub open spec fn path_target(
    body: JsonView,
    index: nat,
    located: Result<Seq<Seq<char>>, Seq<char>>,
    value: JsonView,
) -> ReplacementView {
    match located {
        Err(e) => unchanged_body(body, index, e),
        Ok(pointers) => if pointers.len() == 0 {
            unchanged_body(body, index, "JSONPath target matched no locations; body unchanged"@)
        } else if pointers.len() > 1 {
            unchanged_body(
                body,
                index,
                "JSONPath target matched "@ + decimal(pointers.len())
                    + " locations; a replacement applies only when it resolves to exactly one location; body unchanged"@,
            )
        } else if pointers[0].len() == 0 {
            ReplacementView { body: value, warnings: Seq::empty() }
        } else {
            changed_body(body, index, pointer_replaced(body, pointers[0], value))
        },
    }
}

/// A replacement at the nodes that an XPath leads to, in a body that is XML
/// text.
pub open spec fn xml_target(
    body: JsonView,
    content_type: Seq<char>,
    index: nat,
    target: Seq<char>,
    version: Option<Seq<char>>,
    value: JsonView,
) -> ReplacementView {
    match version_rejection(version) {
        Some(m) => unchanged_body(body, index, m),
        None => match body {
            JsonView::Text(xml) => {
                let structured = if value is Array || value is Object {
                    seq![
                        about_replacement(
                            index,
                            "structured XML replacement value serialized as JSON string"@,
                        ),
                    ]
                } else {
                    Seq::empty()
                };
                match xml_replaced(xml, target, version, plain_text(value)) {
                    Ok(after) => ReplacementView {
                        body: JsonView::Text(after),
                        warnings: structured,
                    },
                    Err(m) => ReplacementView {
                        body,
                        warnings: structured.push(about_replacement(index, m)),
                    },
                }
            },
            _ => unchanged_body(
                body,
                index,
                "XPath replacement requires XML/text string payload, got "@ + type_label(body)
                    + " for contentType \""@ + content_type + "\""@,
            ),
        },
    }
}

/// How the target of a replacement is read, or the declared type that is not
/// supported.
pub open spec fn target_kind(
    r: Replacement,
    body: JsonView,
    content_type: Seq<char>,
) -> Result<TargetKind, Seq<char>> {
    match r.target_selector_type {
        Some(t) => {
            let name = selector_type_name(t);
            if name == "jsonpointer"@ {
                Ok(TargetKind::JsonPointer)
            } else if name == "jsonpath"@ {
                Ok(TargetKind::JsonPath)
            } else if name == "xpath"@ {
                Ok(TargetKind::XPath)
            } else {
                Err(name)
            }
        },
        None => Ok(inferred_kind(body, content_type)),
    }
}

pub open spec fn target_version(r: Replacement) -> Option<Seq<char>> {
    match r.target_selector_type {
        Some(t) => selector_type_version(t),
        None => None,
    }
}

/// A replacement whose value has been found.
pub open spec fn target_replaced(
    body: JsonView,
    content_type: Seq<char>,
    index: nat,
    r: Replacement,
    value: JsonView,
    located: Result<Seq<Seq<char>>, Seq<char>>,
) -> ReplacementView {
    let target = trimmed(r.target@);
    match target_kind(r, body, content_type) {
        Err(name) => unchanged_body(
            body,
            index,
            "unsupported targetSelectorType "@ + debug_quoted(name)
                + "; expected jsonpath, xpath, or jsonpointer"@,
        ),
        Ok(TargetKind::JsonPointer) => pointer_target(
            body,
            index,
            target,
            target_version(r),
            value,
        ),
        Ok(TargetKind::JsonPath) => path_target(body, index, located, value),
        Ok(TargetKind::XPath) => xml_target(
            body,
            content_type,
            index,
            target,
            target_version(r),
            value,
        ),
    }
}

/// The lines of warnings about the value of a replacement.
pub open spec fn value_warnings(index: nat, warnings: Seq<WarningView>) -> Seq<Seq<char>> {
    warnings.map_values(|w: WarningView| about_replacement(index, warning_line(w)))
}

/// A replacement: of an empty target nothing is read, and where the value
/// holds a selector that failed outright nothing is written.
pub open spec fn replacement_applied(
    body: JsonView,
    content_type: Seq<char>,
    index: nat,
    r: Replacement,
    value: ResolutionView,
    located: Result<Seq<Seq<char>>, Seq<char>>,
) -> ReplacementView {
    if trimmed(r.target@).len() == 0 {
        unchanged_body(body, index, "target is empty"@)
    } else {
        let noted = value_warnings(index, value.warnings);
        if value.jsonpath_failed {
            ReplacementView {
                body,
                warnings: noted.push(
                    about_replacement(
                        index,
                        "value did not resolve; replacement skipped and body unchanged"@,
                    ),
                ),
            }
        } else {
            let done = target_replaced(body, content_type, index, r, value.value, located);
            ReplacementView { body: done.body, warnings: noted + done.warnings }
        }
    }
}

fn push_warning(warnings: &mut Vec<String>, index: usize, message: &str)
    ensures
        texts(final(warnings)@) == texts(old(warnings)@) + seq![
            about_replacement(index as nat, message@),
        ],
{
    let ghost before = texts(warnings@);
    let line = replacement_warning(index, message);
    let ghost text = line@;
    warnings.push(line);
    assert(texts(warnings@) =~= before + seq![text]);
}

fn replace_at_pointer(
    body: &mut Json,
    index: usize,
    target: &str,
    value: Json,
    warnings: &mut Vec<String>,
)
    ensures
        ({
            let done = changed_body(
                old(body)@,
                index as nat,
                pointer_replaced(old(body)@, target@, value@),
            );
            final(body)@ == done.body && texts(final(warnings)@) == texts(old(warnings)@)
                + done.warnings
        }),
{
    let ghost before = texts(warnings@);
    match apply_json_pointer_replacement(body, target, value) {
        Ok(_) => {
            assert(before =~= before + Seq::<Seq<char>>::empty());
        },
        Err(m) => {
            push_warning(warnings, index, m.as_str());
        },
    }
}

fn replace_at_path(
    body: &mut Json,
    index: usize,
    located: &Result<Vec<String>, String>,
    value: Json,
    warnings: &mut Vec<String>,
)
    ensures
        ({
            let done = path_target(old(body)@, index as nat, located_view(*located), value@);
            final(body)@ == done.body && texts(final(warnings)@) == texts(old(warnings)@)
                + done.warnings
        }),
{
    let ghost before = texts(warnings@);
    match located {
        Err(e) => {
            push_warning(warnings, index, e.as_str());
        },
        Ok(pointers) => {
            assert(texts(pointers@).len() == pointers@.len());
            if pointers.len() == 0 {
                push_warning(
                    warnings,
                    index,
                    "JSONPath target matched no locations; body unchanged",
                );
            } else if pointers.len() > 1 {
                let number = decimal_text(pointers.len() as u64);
                let message = concat3(
                    "JSONPath target matched ",
                    number.as_str(),
                    " locations; a replacement applies only when it resolves to exactly one location; body unchanged",
                );
                push_warning(warnings, index, message.as_str());
            } else {
                assert(texts(pointers@)[0] == pointers@[0]@);
                if pointers[0].as_str().is_empty() {
                    *body = value;
                    assert(before =~= before + Seq::<Seq<char>>::empty());
                } else {
                    replace_at_pointer(body, index, pointers[0].as_str(), value, warnings);
                }
            }
        },
    }
}

fn replace_in_xml(
    body: &mut Json,
    content_type: &str,
    index: usize,
    target: &str,
    version: Option<&str>,
    value: Json,
    warnings: &mut Vec<String>,
)
    ensures
        ({
            let done = xml_target(
                old(body)@,
                content_type@,
                index as nat,
                target@,
                opt_text(version),
                value@,
            );
            final(body)@ == done.body && texts(final(warnings)@) == texts(old(warnings)@)
                + done.warnings
        }),
{
    broadcast use view_by_variant;

    let ghost before = texts(warnings@);
    match xpath_version_rejection(version) {
        Some(m) => {
            push_warning(warnings, index, m.as_str());
            return ;
        },
        None => {},
    }
    let label = json_type_name(body);
    let replaced = match &*body {
        Json::Text(xml) => {
            let structured = match &value {
                Json::Array(_) => true,
                Json::Object(_) => true,
                _ => false,
            };
            if structured {
                push_warning(
                    warnings,
                    index,
                    "structured XML replacement value serialized as JSON string",
                );
            } else {
                assert(before =~= before + Seq::<Seq<char>>::empty());
            }
            let text = value_to_string(&value);
            replace_xpath(xml.as_str(), target, version, text.as_str())
        },
        _ => {
            let opening = concat3(
                "XPath replacement requires XML/text string payload, got ",
                label,
                " for contentType \"",
            );
            let message = concat3(opening.as_str(), content_type, "\"");
            push_warning(warnings, index, message.as_str());
            return ;
        },
    };
    match replaced {
        Ok(after) => {
            *body = Json::Text(after);
        },
        Err(m) => {
            let ghost noted = texts(warnings@);
            push_warning(warnings, index, m.as_str());
            let ghost line = about_replacement(index as nat, m@);
            assert(before + Seq::<Seq<char>>::empty().push(line) =~= before + seq![line]);
            assert forall|list: Seq<Seq<char>>| #[trigger]
                (before + list) + seq![line] == before + list.push(line) by {
                assert((before + list) + seq![line] =~= before + list.push(line));
            }
        },
    }
}

/// Applies one replacement to a body. `resolution` is what its value came
/// to; `located` is where its target leads in this body when it is a JSONPath.
pub fn apply_replacement(
    body: &mut Json,
    content_type: &str,
    index: usize,
    replacement: &Replacement,
    resolution: Resolution,
    located: &Result<Vec<String>, String>,
) -> (r: Vec<String>)
    ensures
        ({
            let done = replacement_applied(
                old(body)@,
                content_type@,
                index as nat,
                *replacement,
                resolution@,
                located_view(*located),
            );
            final(body)@ == done.body && texts(r@) == done.warnings
        }),
{
    let mut warnings: Vec<String> = Vec::new();
    assert(texts(warnings@) =~= Seq::<Seq<char>>::empty());
    let target = trim_text(replacement.target.as_str());
    if target.as_str().is_empty() {
        push_warning(&mut warnings, index, "target is empty");
        assert(texts(warnings@) =~= seq![about_replacement(index as nat, "target is empty"@)]);
        return warnings;
    }
    let ghost noted = value_warnings(index as nat, resolution@.warnings);
    let mut i: usize = 0;
    while i < resolution.warnings.len()
        invariant
            i <= resolution.warnings@.len(),
            noted == value_warnings(index as nat, warning_views(resolution.warnings@)),
            texts(warnings@) == noted.take(i as int),
        decreases resolution.warnings@.len() - i,
    {
        let line = resolution.warnings[i].line();
        push_warning(&mut warnings, index, line.as_str());
        assert(noted.take(i + 1) =~= noted.take(i as int) + seq![noted[i as int]]);
        i = i + 1;
    }
    assert(noted.take(i as int) =~= noted);
    if resolution.jsonpath_failed {
        push_warning(
            &mut warnings,
            index,
            "value did not resolve; replacement skipped and body unchanged",
        );
        assert(texts(warnings@) =~= noted.push(
            about_replacement(
                index as nat,
                "value did not resolve; replacement skipped and body unchanged"@,
            ),
        ));
        return warnings;
    }
    let value = resolution.value;
    let (kind, version) = match &replacement.target_selector_type {
        Some(t) => {
            let name = t.resolved_name();
            let kind = if same_text(name, "jsonpointer") {
                TargetKind::JsonPointer
            } else if same_text(name, "jsonpath") {
                TargetKind::JsonPath
            } else if same_text(name, "xpath") {
                TargetKind::XPath
            } else {
                let quoted = debug_quote(name);
                let message = concat3(
                    "unsupported targetSelectorType ",
                    quoted.as_str(),
                    "; expected jsonpath, xpath, or jsonpointer",
                );
                push_warning(&mut warnings, index, message.as_str());
                return warnings;
            };
            (kind, t.declared_version())
        },
        None => (infer_target_kind(body, content_type), None),
    };
    match kind {
        TargetKind::JsonPointer => {
            match version {
                Some(v) => {
                    if !same_text(v, "rfc6901") {
                        let quoted = debug_quote(v);
                        let message = concat2(
                            "unsupported JSON Pointer version ",
                            quoted.as_str(),
                        );
                        push_warning(&mut warnings, index, message.as_str());
                        return warnings;
                    }
                },
                None => {},
            }
            replace_at_pointer(body, index, target.as_str(), value, &mut warnings);
        },
        TargetKind::JsonPath => {
            replace_at_path(body, index, located, value, &mut warnings);
        },
        TargetKind::XPath => {
            replace_in_xml(
                body,
                content_type,
                index,
                target.as_str(),
                version,
                value,
                &mut warnings,
            );
        },
    }
    warnings
}

/// Where the target of a replacement leads in a body.
pub open spec fn located_at(located: Seq<Result<Vec<String>, String>>, i: int) -> Result<
    Seq<Seq<char>>,
    Seq<char>,
> {
    if 0 <= i < located.len() {
        located_view(located[i])
    } else {
        Ok(Seq::empty())
    }
}

/// The first `n` replacements, applied in order.
pub open spec fn replacements_applied(
    body: JsonView,
    content_type: Seq<char>,
    list: Seq<Replacement>,
    a: Answers,
    located: Seq<Result<Vec<String>, String>>,
    n: nat,
) -> ReplacementView
    decreases n,
{
    if n == 0 {
        ReplacementView { body, warnings: Seq::empty() }
    } else {
        let i = n - 1;
        let before = replacements_applied(body, content_type, list, a, located, i as nat);
        let done = replacement_applied(
            before.body,
            content_type,
            i as nat,
            list[i],
            resolved(list[i].value, a),
            located_at(located, i),
        );
        ReplacementView { body: done.body, warnings: before.warnings + done.warnings }
    }
}

/// Applies replacements in order. `located` holds, for each, where its target
/// leads in the body as the earlier ones left it when it is a JSONPath; one
/// without an entry leads nowhere.
pub fn apply_replacements(
    body: Json,
    content_type: &str,
    replacements: &Vec<Replacement>,
    answers: &Answers,
    located: &Vec<Result<Vec<String>, String>>,
) -> (r: (Json, Vec<String>))
    ensures
        ({
            let done = replacements_applied(
                body@,
                content_type@,
                replacements@,
                *answers,
                located@,
                replacements@.len(),
            );
            r.0@ == done.body && texts(r.1@) == done.warnings
        }),
{
    let ghost given = body@;
    let mut body = body;
    let mut warnings: Vec<String> = Vec::new();
    let mut i: usize = 0;
    assert(texts(warnings@) =~= Seq::<Seq<char>>::empty());
    while i < replacements.len()
        invariant
            i <= replacements@.len(),
            ({
                let done = replacements_applied(
                    given,
                    content_type@,
                    replacements@,
                    *answers,
                    located@,
                    i as nat,
                );
                body@ == done.body && texts(warnings@) == done.warnings
            }),
        decreases replacements@.len() - i,
    {
        let resolution = resolve_value_checked(&replacements[i].value, answers);
        let nowhere: Result<Vec<String>, String> = Ok(Vec::new());
        let places = if i < located.len() {
            &located[i]
        } else {
            assert(located_view(nowhere)->Ok_0 =~= Seq::<Seq<char>>::empty());
            &nowhere
        };
        let noted = apply_replacement(
            &mut body,
            content_type,
            i,
            &replacements[i],
            resolution,
            places,
        );
        append_texts(&mut warnings, noted);
        i = i + 1;
    }
    (body, warnings)
}

/// Adds texts to the end of a list.
pub fn append_texts(list: &mut Vec<String>, more: Vec<String>)
    ensures
        texts(final(list)@) == texts(old(list)@) + texts(more@),
{
    let ghost before = list@;
    let mut more = more;
    let ghost added = more@;
    list.append(&mut more);
    assert(texts(list@) =~= texts(before) + texts(added));
}

/// A replacement whose value did not resolve leaves the body as it was.
pub proof fn unresolved_value_changes_nothing(
    body: JsonView,
    content_type: Seq<char>,
    index: nat,
    r: Replacement,
    value: ResolutionView,
    located: Result<Seq<Seq<char>>, Seq<char>>,
)
    requires
        value.jsonpath_failed,
    ensures
        replacement_applied(body, content_type, index, r, value, located).body == body,
        replacement_applied(body, content_type, index, r, value, located).warnings.len() > 0,
{
}

/// A JSONPath target that leads to several places, or to none, leaves the
/// body as it was and is reported.
pub proof fn only_one_place_is_replaced(
    body: JsonView,
    content_type: Seq<char>,
    index: nat,
    r: Replacement,
    value: ResolutionView,
    places: Seq<Seq<char>>,
)
    requires
        target_kind(r, body, content_type) == Ok::<TargetKind, Seq<char>>(TargetKind::JsonPath),
        places.len() != 1,
    ensures
        ({
            let done = replacement_applied(body, content_type, index, r, value, Ok(places));
            done.body == body && done.warnings.len() > 0
        }),
{
}

// ---------------------------------------------------------------------
// Paths of criteria
// ---------------------------------------------------------------------

/// The position after the dots from `from` on.
pub open spec fn dots_end(s: Seq<char>, from: int) -> int
    decreases s.len() - from,
{
    if 0 <= from < s.len() && s[from] == '.' {
        dots_end(s, from + 1)
    } else {
        from
    }
}

/// The path in the body of a response that an expression stands for: what
/// follows `$response.body` and the dots behind it, or all of it.
pub open spec fn json_path_of(expr: Seq<char>) -> Seq<char> {
    let with_dot = "$response.body."@;
    let bare = "$response.body"@;
    if stands_at(expr, 0, with_dot) {
        expr.skip(with_dot.len() as int)
    } else if stands_at(expr, 0, bare) {
        expr.skip(dots_end(expr, bare.len() as int))
    } else {
        expr
    }
}

/// The path in the body of a response that an expression stands for.
pub fn to_json_path(expr: &str) -> (r: String)
    ensures
        r@ == json_path_of(expr@),
{
    let chars = chars_of(expr);
    proof {
        reveal_strlit("$response.body.");
        reveal_strlit("$response.body");
    }
    if starts_with(expr, "$response.body.") {
        let r = text_of(&chars, 15, chars.len());
        assert(r@ =~= expr@.skip(15));
        return r;
    }
    if starts_with(expr, "$response.body") {
        let mut at: usize = 14;
        while at < chars.len() && chars[at] == '.'
            invariant
                14 <= at <= chars@.len(),
                chars@ == expr@,
                dots_end(expr@, 14) == dots_end(expr@, at as int),
            decreases chars@.len() - at,
        {
            at = at + 1;
        }
        let r = text_of(&chars, at, chars.len());
        assert(r@ =~= expr@.skip(at as int));
        return r;
    }
    expr.to_owned()
}

} // verus!
