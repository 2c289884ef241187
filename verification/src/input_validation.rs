//! Checking the inputs of a workflow against what it declares.

use crate::json::{view_by_variant, Json, JsonNumber, JsonView};
use crate::json_equal::{instances_equal, json_schema_instance_equal};
use crate::model::{EnumKeyword, JsonSchemaType, PropertyDef, SchemaObject};
use crate::text::{concat2, concat4};
use crate::text_map::TextMap;
use crate::trace::json_map_view;
use vstd::prelude::*;
use vstd::string::*;

verus! {

/// How bad an issue is.
#[derive(Debug, Clone, Copy, PartialEq, Eq, Structural)]
pub enum InputIssueSeverity {
    Warning,
    Error,
}

/// What is wrong with an input.
#[derive(Debug, PartialEq)]
pub struct InputIssue {
    pub severity: InputIssueSeverity,
    pub field: String,
    pub message: String,
}

/// The content of an issue.
#[verifier::ext_equal]
pub struct InputIssueView {
    pub severity: InputIssueSeverity,
    pub field: Seq<char>,
    pub message: Seq<char>,
}

impl View for InputIssue {
    type V = InputIssueView;

    open spec fn view(&self) -> InputIssueView {
        InputIssueView { severity: self.severity, field: self.field@, message: self.message@ }
    }
}

/// The contents of issues.
pub open spec fn issue_views(list: Seq<InputIssue>) -> Seq<InputIssueView> {
    list.map_values(|i: InputIssue| i@)
}

/// The line that shows an issue.
pub open spec fn issue_line(i: InputIssueView) -> Seq<char> {
    "input \""@ + i.field + "\": "@ + i.message
}

impl InputIssue {
    /// The line that shows the issue.
    pub fn line(&self) -> (r: String)
        ensures
            r@ == issue_line(self@),
    {
        concat4("input \"", self.field.as_str(), "\": ", self.message.as_str())
    }
}

pub open spec fn warning_about(field: Seq<char>, message: Seq<char>) -> InputIssueView {
    InputIssueView { severity: InputIssueSeverity::Warning, field, message }
}

pub open spec fn error_about(field: Seq<char>, message: Seq<char>) -> InputIssueView {
    InputIssueView { severity: InputIssueSeverity::Error, field, message }
}

fn push_issue(
    issues: &mut Vec<InputIssue>,
    severity: InputIssueSeverity,
    field: &str,
    message: String,
)
    ensures
        issue_views(final(issues)@) == issue_views(old(issues)@).push(
            InputIssueView { severity, field: field@, message: message@ },
        ),
{
    let ghost before = issue_views(issues@);
    let issue = InputIssue { severity, field: field.to_owned(), message };
    let ghost v = issue@;
    issues.push(issue);
    assert(issue_views(issues@) =~= before.push(v));
}

// ---------------------------------------------------------------------
// Defaults
// ---------------------------------------------------------------------

/// Inputs with the defaults of the first `n` properties: a default counts
/// where the input is not given.
pub open spec fn defaults_filled(
    given: Map<Seq<char>, JsonView>,
    properties: TextMap<PropertyDef>,
    n: nat,
) -> Map<Seq<char>, JsonView>
    decreases n,
{
    if n == 0 {
        given
    } else {
        let before = defaults_filled(given, properties, (n - 1) as nat);
        let name = properties.keys()[n - 1];
        match properties.values()[n - 1].default {
            Some(Ok(v)) => if before.contains_key(name) {
                before
            } else {
                before.insert(name, v@)
            },
            _ => before,
        }
    }
}

/// The warnings about defaults of the first `n` properties that have no JSON
/// form.
pub open spec fn default_issues(
    given: Map<Seq<char>, JsonView>,
    properties: TextMap<PropertyDef>,
    n: nat,
) -> Seq<InputIssueView>
    decreases n,
{
    if n == 0 {
        Seq::empty()
    } else {
        let before = default_issues(given, properties, (n - 1) as nat);
        let name = properties.keys()[n - 1];
        match properties.values()[n - 1].default {
            Some(Err(e)) => if defaults_filled(given, properties, (n - 1) as nat).contains_key(
                name,
            ) {
                before
            } else {
                before.push(warning_about(name, "failed to convert default value: "@ + e@))
            },
            _ => before,
        }
    }
}

fn fill_defaults(
    properties: &TextMap<PropertyDef>,
    inputs: &mut TextMap<Json>,
    issues: &mut Vec<InputIssue>,
)
    ensures
        json_map_view(*final(inputs)) == defaults_filled(
            json_map_view(*old(inputs)),
            *properties,
            properties.keys().len(),
        ),
        issue_views(final(issues)@) == issue_views(old(issues)@) + default_issues(
            json_map_view(*old(inputs)),
            *properties,
            properties.keys().len(),
        ),
{
    let ghost given = json_map_view(*inputs);
    let ghost known = issue_views(issues@);
    let count = properties.len();
    let mut i: usize = 0;
    assert(known =~= known + default_issues(given, *properties, 0));
    while i < count
        invariant
            i <= count,
            count == properties.keys().len(),
            properties.wf(),
            json_map_view(*inputs) == defaults_filled(given, *properties, i as nat),
            issue_views(issues@) == known + default_issues(given, *properties, i as nat),
        decreases count - i,
    {
        let name = properties.key_at(i);
        let property = properties.value_at(i);
        let ghost before = json_map_view(*inputs);
        let ghost noted = default_issues(given, *properties, i as nat);
        if !inputs.contains_key(name.as_str()) {
            match &property.default {
                Some(Ok(v)) => {
                    let value = v.copy();
                    let ghost j = value@;
                    inputs.insert(name.clone(), value);
                    assert(json_map_view(*inputs) =~= before.insert(name@, j));
                },
                Some(Err(e)) => {
                    push_issue(
                        issues,
                        InputIssueSeverity::Warning,
                        name.as_str(),
                        concat2("failed to convert default value: ", e.as_str()),
                    );
                    assert((known + noted).push(
                        warning_about(name@, "failed to convert default value: "@ + e@),
                    ) =~= known + noted.push(
                        warning_about(name@, "failed to convert default value: "@ + e@),
                    ));
                },
                None => {},
            }
        }
        i = i + 1;
    }
}

// ---------------------------------------------------------------------
// Required inputs
// ---------------------------------------------------------------------

/// Whether an input is missing: not given, or `null`.
pub open spec fn is_missing(inputs: Map<Seq<char>, JsonView>, name: Seq<char>) -> bool {
    !inputs.contains_key(name) || inputs[name] is Null
}

/// The errors about the first `n` required inputs.
pub open spec fn required_issues(
    inputs: Map<Seq<char>, JsonView>,
    required: Seq<String>,
    n: nat,
) -> Seq<InputIssueView>
    decreases n,
{
    if n == 0 {
        Seq::empty()
    } else {
        let before = required_issues(inputs, required, (n - 1) as nat);
        if is_missing(inputs, required[n - 1]@) {
            before.push(error_about(required[n - 1]@, "required input is missing"@))
        } else {
            before
        }
    }
}

fn check_required(required: &Vec<String>, inputs: &TextMap<Json>, issues: &mut Vec<InputIssue>)
    ensures
        issue_views(final(issues)@) == issue_views(old(issues)@) + required_issues(
            json_map_view(*inputs),
            required@,
            required@.len(),
        ),
{
    broadcast use view_by_variant;

    let ghost m = json_map_view(*inputs);
    let ghost known = issue_views(issues@);
    let mut i: usize = 0;
    assert(known =~= known + required_issues(m, required@, 0));
    while i < required.len()
        invariant
            i <= required@.len(),
            m == json_map_view(*inputs),
            issue_views(issues@) == known + required_issues(m, required@, i as nat),
        decreases required@.len() - i,
    {
        let name = required[i].as_str();
        let missing = match inputs.get(name) {
            None => true,
            Some(v) => {
                proof {
                    view_by_variant(*v);
                }
                match v {
                    Json::Null => true,
                    _ => false,
                }
            },
        };
        let ghost noted = required_issues(m, required@, i as nat);
        if missing {
            push_issue(
                issues,
                InputIssueSeverity::Error,
                name,
                "required input is missing".to_owned(),
            );
            assert((known + noted).push(error_about(name@, "required input is missing"@)) =~= known
                + noted.push(error_about(name@, "required input is missing"@)));
        }
        i = i + 1;
    }
}

// ---------------------------------------------------------------------
// Types
// ---------------------------------------------------------------------

/// Whether a value is of a type. An integer is a number without a fraction in
/// its form.
pub open spec fn has_type(t: JsonSchemaType, v: JsonView) -> bool {
    match t {
        JsonSchemaType::String => v is Text,
        JsonSchemaType::Integer => v matches JsonView::Number(n) && !(n is Float),
        JsonSchemaType::Number => v is Number,
        JsonSchemaType::Boolean => v is Bool,
        JsonSchemaType::Array => v is Array,
        JsonSchemaType::Object => v is Object,
    }
}

/// Whether a value is of a type.
pub fn json_type_matches(declared: JsonSchemaType, value: &Json) -> (r: bool)
    ensures
        r == has_type(declared, value@),
{
    broadcast use view_by_variant;

    match (declared, value) {
        (JsonSchemaType::String, Json::Text(_)) => true,
        (JsonSchemaType::Integer, Json::Number(JsonNumber::PosInt(_))) => true,
        (JsonSchemaType::Integer, Json::Number(JsonNumber::NegInt(_))) => true,
        (JsonSchemaType::Number, Json::Number(_)) => true,
        (JsonSchemaType::Boolean, Json::Bool(_)) => true,
        (JsonSchemaType::Array, Json::Array(_)) => true,
        (JsonSchemaType::Object, Json::Object(_)) => true,
        _ => false,
    }
}

/// The name of the type of a value.
pub open spec fn type_words(v: JsonView) -> Seq<char> {
    match v {
        JsonView::Null => "null"@,
        JsonView::Bool(_) => "boolean"@,
        JsonView::Number(n) => if n is Float {
            "number"@
        } else {
            "integer"@
        },
        JsonView::Text(_) => "string"@,
        JsonView::Array(_) => "array"@,
        JsonView::Object(_) => "object"@,
    }
}

fn json_type_words(value: &Json) -> (r: &'static str)
    ensures
        r@ == type_words(value@),
{
    broadcast use view_by_variant;

    match value {
        Json::Null => "null",
        Json::Bool(_) => "boolean",
        Json::Number(JsonNumber::Float { bits: _, text: _ }) => "number",
        Json::Number(_) => "integer",
        Json::Text(_) => "string",
        Json::Array(_) => "array",
        Json::Object(_) => "object",
    }
}

/// The name of a declared type.
pub open spec fn declared_words(t: JsonSchemaType) -> Seq<char> {
    match t {
        JsonSchemaType::String => "string"@,
        JsonSchemaType::Integer => "integer"@,
        JsonSchemaType::Number => "number"@,
        JsonSchemaType::Boolean => "boolean"@,
        JsonSchemaType::Array => "array"@,
        JsonSchemaType::Object => "object"@,
    }
}

fn declared_type_words(t: JsonSchemaType) -> (r: &'static str)
    ensures
        r@ == declared_words(t),
{
    match t {
        JsonSchemaType::String => "string",
        JsonSchemaType::Integer => "integer",
        JsonSchemaType::Number => "number",
        JsonSchemaType::Boolean => "boolean",
        JsonSchemaType::Array => "array",
        JsonSchemaType::Object => "object",
    }
}

/// The error about the type of an input. `null` is of any type.
pub open spec fn type_issue(
    inputs: Map<Seq<char>, JsonView>,
    name: Seq<char>,
    p: PropertyDef,
) -> Option<InputIssueView> {
    match p.type_ {
        Some(t) => if inputs.contains_key(name) && !(inputs[name] is Null) && !has_type(
            t,
            inputs[name],
        ) {
            Some(
                error_about(
                    name,
                    "expected type "@ + declared_words(t) + ", got "@ + type_words(inputs[name]),
                ),
            )
        } else {
            None
        },
        None => None,
    }
}

/// The errors about the types of the first `n` properties.
pub open spec fn type_issues(
    inputs: Map<Seq<char>, JsonView>,
    properties: TextMap<PropertyDef>,
    n: nat,
) -> Seq<InputIssueView>
    decreases n,
{
    if n == 0 {
        Seq::empty()
    } else {
        let before = type_issues(inputs, properties, (n - 1) as nat);
        match type_issue(inputs, properties.keys()[n - 1], properties.values()[n - 1]) {
            Some(i) => before.push(i),
            None => before,
        }
    }
}

fn check_types(
    properties: &TextMap<PropertyDef>,
    inputs: &TextMap<Json>,
    issues: &mut Vec<InputIssue>,
)
    ensures
        issue_views(final(issues)@) == issue_views(old(issues)@) + type_issues(
            json_map_view(*inputs),
            *properties,
            properties.keys().len(),
        ),
{
    let ghost m = json_map_view(*inputs);
    let ghost known = issue_views(issues@);
    let count = properties.len();
    let mut i: usize = 0;
    assert(known =~= known + type_issues(m, *properties, 0));
    while i < count
        invariant
            i <= count,
            count == properties.keys().len(),
            properties.wf(),
            m == json_map_view(*inputs),
            issue_views(issues@) == known + type_issues(m, *properties, i as nat),
        decreases count - i,
    {
        let name = properties.key_at(i);
        let property = properties.value_at(i);
        let ghost noted = type_issues(m, *properties, i as nat);
        let ghost expected = type_issue(m, name@, *property);
        match (property.type_, inputs.get(name.as_str())) {
            (Some(t), Some(v)) => {
                proof {
                    view_by_variant(*v);
                }
                let is_null = match v {
                    Json::Null => true,
                    _ => false,
                };
                if !is_null && !json_type_matches(t, v) {
                    let message = concat4(
                        "expected type ",
                        declared_type_words(t),
                        ", got ",
                        json_type_words(v),
                    );
                    push_issue(issues, InputIssueSeverity::Error, name.as_str(), message);
                    assert(expected is Some);
                    assert((known + noted).push(expected->0) =~= known + noted.push(expected->0));
                } else {
                    assert(expected is None);
                }
            },
            _ => {
                assert(expected is None);
            },
        }
        i = i + 1;
    }
}

// ---------------------------------------------------------------------
// Enumerations
// ---------------------------------------------------------------------

/// Whether every item of an enumeration has a JSON form.
pub open spec fn all_json(list: Seq<Option<Json>>) -> bool {
    forall|i: int| 0 <= i < list.len() ==> (#[trigger] list[i]) is Some
}

/// Whether a value is one of an enumeration.
pub open spec fn is_listed(v: JsonView, list: Seq<Option<Json>>) -> bool {
    exists|i: int|
        0 <= i < list.len() && ((#[trigger] list[i]) matches Some(item) && instances_equal(
            v,
            item@,
        ))
}

/// Whether an input is none of the values that its property enumerates. An
/// enumeration that is no list, or has an item without a JSON form, is
/// ignored.
pub open spec fn breaks_enum(
    inputs: Map<Seq<char>, JsonView>,
    name: Seq<char>,
    p: PropertyDef,
) -> bool {
    match p.enum_ {
        Some(EnumKeyword::List(list)) => inputs.contains_key(name) && all_json(list@) && !is_listed(
            inputs[name],
            list@,
        ),
        _ => false,
    }
}

/// The errors about the enumerations of the first `n` properties.
pub open spec fn enum_issues(
    inputs: Map<Seq<char>, JsonView>,
    properties: TextMap<PropertyDef>,
    n: nat,
) -> Seq<InputIssueView>
    decreases n,
{
    if n == 0 {
        Seq::empty()
    } else {
        let before = enum_issues(inputs, properties, (n - 1) as nat);
        if breaks_enum(inputs, properties.keys()[n - 1], properties.values()[n - 1]) {
            before.push(
                error_about(
                    properties.keys()[n - 1],
                    "value is not one of the declared enum values"@,
                ),
            )
        } else {
            before
        }
    }
}

fn listed(value: &Json, list: &Vec<Option<Json>>) -> (r: (bool, bool))
    ensures
        r.0 == all_json(list@),
        r.0 ==> r.1 == is_listed(value@, list@),
{
    let mut found = false;
    let mut i: usize = 0;
    while i < list.len()
        invariant
            i <= list@.len(),
            forall|j: int| 0 <= j < i ==> (#[trigger] list@[j]) is Some,
            found == (exists|j: int|
                0 <= j < i && ((#[trigger] list@[j]) matches Some(item) && instances_equal(
                    value@,
                    item@,
                ))),
        decreases list@.len() - i,
    {
        match &list[i] {
            Some(item) => {
                if json_schema_instance_equal(value, item) {
                    assert(list@[i as int] matches Some(x) && instances_equal(value@, x@));
                    found = true;
                }
            },
            None => {
                assert(list@[i as int] is None);
                return (false, false);
            },
        }
        i = i + 1;
    }
    (true, found)
}

fn check_enums(
    properties: &TextMap<PropertyDef>,
    inputs: &TextMap<Json>,
    issues: &mut Vec<InputIssue>,
)
    ensures
        issue_views(final(issues)@) == issue_views(old(issues)@) + enum_issues(
            json_map_view(*inputs),
            *properties,
            properties.keys().len(),
        ),
{
    let ghost m = json_map_view(*inputs);
    let ghost known = issue_views(issues@);
    let count = properties.len();
    let mut i: usize = 0;
    assert(known =~= known + enum_issues(m, *properties, 0));
    while i < count
        invariant
            i <= count,
            count == properties.keys().len(),
            properties.wf(),
            m == json_map_view(*inputs),
            issue_views(issues@) == known + enum_issues(m, *properties, i as nat),
        decreases count - i,
    {
        let name = properties.key_at(i);
        let property = properties.value_at(i);
        let ghost noted = enum_issues(m, *properties, i as nat);
        let breaks = match (inputs.get(name.as_str()), &property.enum_) {
            (Some(v), Some(EnumKeyword::List(list))) => {
                let (known_forms, found) = listed(v, list);
                known_forms && !found
            },
            _ => false,
        };
        assert(breaks == breaks_enum(m, name@, *property));
        if breaks {
            push_issue(
                issues,
                InputIssueSeverity::Error,
                name.as_str(),
                "value is not one of the declared enum values".to_owned(),
            );
            let ghost e = error_about(name@, "value is not one of the declared enum values"@);
            assert((known + noted).push(e) =~= known + noted.push(e));
        }
        i = i + 1;
    }
}

// ---------------------------------------------------------------------
// Undeclared inputs
// ---------------------------------------------------------------------

/// The warnings about the first `n` inputs that are not declared.
pub open spec fn extra_issues(
    names: Seq<Seq<char>>,
    properties: TextMap<PropertyDef>,
    n: nat,
) -> Seq<InputIssueView>
    decreases n,
{
    if n == 0 {
        Seq::empty()
    } else {
        let before = extra_issues(names, properties, (n - 1) as nat);
        if properties@.contains_key(names[n - 1]) {
            before
        } else {
            before.push(
                warning_about(names[n - 1], "input not declared in schema properties"@),
            )
        }
    }
}

/// The warnings about inputs that are not declared; a schema without
/// properties says nothing of them.
pub open spec fn undeclared_issues(
    names: Seq<Seq<char>>,
    properties: TextMap<PropertyDef>,
) -> Seq<InputIssueView> {
    if properties.keys().len() == 0 {
        Seq::empty()
    } else {
        extra_issues(names, properties, names.len())
    }
}

fn check_undeclared(
    properties: &TextMap<PropertyDef>,
    inputs: &TextMap<Json>,
    issues: &mut Vec<InputIssue>,
)
    ensures
        issue_views(final(issues)@) == issue_views(old(issues)@) + undeclared_issues(
            inputs.keys(),
            *properties,
        ),
{
    let ghost known = issue_views(issues@);
    if properties.len() == 0 {
        assert(known =~= known + Seq::<InputIssueView>::empty());
        return ;
    }
    let count = inputs.len();
    let mut i: usize = 0;
    assert(known =~= known + extra_issues(inputs.keys(), *properties, 0));
    while i < count
        invariant
            i <= count,
            count == inputs.keys().len(),
            inputs.wf(),
            issue_views(issues@) == known + extra_issues(inputs.keys(), *properties, i as nat),
        decreases count - i,
    {
        let name = inputs.key_at(i);
        let ghost noted = extra_issues(inputs.keys(), *properties, i as nat);
        if !properties.contains_key(name.as_str()) {
            push_issue(
                issues,
                InputIssueSeverity::Warning,
                name.as_str(),
                "input not declared in schema properties".to_owned(),
            );
            let ghost w = warning_about(name@, "input not declared in schema properties"@);
            assert((known + noted).push(w) =~= known + noted.push(w));
        }
        i = i + 1;
    }
}

// ---------------------------------------------------------------------
// All of it
// ---------------------------------------------------------------------

/// The inputs that a schema leaves: those that were given, and the defaults of
/// the others.
pub open spec fn completed_inputs(
    schema: SchemaObject,
    given: Map<Seq<char>, JsonView>,
) -> Map<Seq<char>, JsonView> {
    defaults_filled(given, schema.properties, schema.properties.keys().len())
}

/// What is wrong with inputs: defaults that have no JSON form, then inputs that
/// are missing, of the wrong type, not of the enumeration, and not declared.
pub open spec fn input_issues(
    schema: SchemaObject,
    given: Map<Seq<char>, JsonView>,
    names: Seq<Seq<char>>,
) -> Seq<InputIssueView> {
    let n = schema.properties.keys().len();
    let inputs = completed_inputs(schema, given);
    default_issues(given, schema.properties, n) + required_issues(
        inputs,
        schema.required@,
        schema.required@.len(),
    ) + type_issues(inputs, schema.properties, n) + enum_issues(inputs, schema.properties, n)
        + undeclared_issues(names, schema.properties)
}

/// Checks inputs against a schema, and fills in the defaults of those that are
/// not given.
pub fn validate_inputs(schema: &SchemaObject, inputs: &mut TextMap<Json>) -> (r: Vec<InputIssue>)
    ensures
        json_map_view(*final(inputs)) == completed_inputs(*schema, json_map_view(*old(inputs))),
        issue_views(r@) == input_issues(
            *schema,
            json_map_view(*old(inputs)),
            final(inputs).keys(),
        ),
{
    let ghost given = json_map_view(*inputs);
    let mut issues: Vec<InputIssue> = Vec::new();
    assert(issue_views(issues@) =~= Seq::<InputIssueView>::empty());
    fill_defaults(&schema.properties, inputs, &mut issues);
    assert(Seq::<InputIssueView>::empty() + default_issues(
        given,
        schema.properties,
        schema.properties.keys().len(),
    ) =~= default_issues(given, schema.properties, schema.properties.keys().len()));
    check_required(&schema.required, inputs, &mut issues);
    check_types(&schema.properties, inputs, &mut issues);
    check_enums(&schema.properties, inputs, &mut issues);
    check_undeclared(&schema.properties, inputs, &mut issues);
    issues
}

/// An input that was given keeps its value.
pub proof fn given_inputs_stay(
    given: Map<Seq<char>, JsonView>,
    properties: TextMap<PropertyDef>,
    n: nat,
    name: Seq<char>,
)
    requires
        given.contains_key(name),
    ensures
        defaults_filled(given, properties, n).contains_key(name),
        defaults_filled(given, properties, n)[name] == given[name],
    decreases n,
{
    if n > 0 {
        given_inputs_stay(given, properties, (n - 1) as nat, name);
    }
}

/// Checking inputs again fills in nothing more.
pub proof fn defaults_settle(
    given: Map<Seq<char>, JsonView>,
    properties: TextMap<PropertyDef>,
    m: nat,
    n: nat,
)
    requires
        m <= n <= properties.keys().len(),
    ensures
        defaults_filled(defaults_filled(given, properties, n), properties, m) == defaults_filled(
            given,
            properties,
            n,
        ),
    decreases m,
{
    if m > 0 {
        let full = defaults_filled(given, properties, n);
        let name = properties.keys()[m - 1];
        defaults_settle(given, properties, (m - 1) as nat, n);
        if let Some(Ok(v)) = properties.values()[m - 1].default {
            default_is_there(given, properties, m, n);
            assert(full.contains_key(name));
        }
    }
}

proof fn default_is_there(
    given: Map<Seq<char>, JsonView>,
    properties: TextMap<PropertyDef>,
    m: nat,
    n: nat,
)
    requires
        0 < m <= n,
        properties.values()[m - 1].default matches Some(Ok(_)),
    ensures
        defaults_filled(given, properties, n).contains_key(properties.keys()[m - 1]),
    decreases n,
{
    if m < n {
        default_is_there(given, properties, m, (n - 1) as nat);
    }
}

} // verus!
