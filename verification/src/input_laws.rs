//! What holds of the check of inputs, in terms of what a schema declares.

use crate::input_validation::{
    all_json, breaks_enum, completed_inputs, default_issues, defaults_filled, enum_issues,
    extra_issues, input_issues, is_listed, is_missing, required_issues, type_issue, type_issues,
    undeclared_issues, InputIssueSeverity, InputIssueView,
};
use crate::json::{JsonView, NumberView};
use crate::json_equal::instances_equal;
use crate::model::{EnumKeyword, JsonSchemaType, PropertyDef, SchemaObject};
use crate::text_map::{entries_are_pairs, TextMap};
use crate::trace::keys_are_distinct;
use vstd::prelude::*;
use vstd::string::*;

verus! {

// ---------------------------------------------------------------------
// Defaults
// ---------------------------------------------------------------------

proof fn defaults_are_filled(
    given: Map<Seq<char>, JsonView>,
    properties: TextMap<PropertyDef>,
    n: nat,
    k: int,
)
    requires
        properties.wf(),
        n <= properties.keys().len(),
        0 <= k < properties.keys().len(),
        !given.contains_key(properties.keys()[k]),
    ensures
        ({
            let m = defaults_filled(given, properties, n);
            let name = properties.keys()[k];
            &&& m.contains_key(name) == (k < n && (properties.values()[k].default matches Some(Ok(_))))
            &&& k < n ==> (properties.values()[k].default matches Some(Ok(v)) ==> m[name] == v@)
        }),
    decreases n,
{
    if n > 0 {
        defaults_are_filled(given, properties, (n - 1) as nat, k);
        if k != n - 1 {
            keys_are_distinct(properties);
            assert(properties.keys()[k] != properties.keys()[n - 1]);
        }
    }
}

proof fn nothing_else_is_filled(
    given: Map<Seq<char>, JsonView>,
    properties: TextMap<PropertyDef>,
    n: nat,
    name: Seq<char>,
)
    requires
        properties.wf(),
        n <= properties.keys().len(),
        !given.contains_key(name),
        !properties@.contains_key(name),
    ensures
        !defaults_filled(given, properties, n).contains_key(name),
    decreases n,
{
    if n > 0 {
        nothing_else_is_filled(given, properties, (n - 1) as nat, name);
        entries_are_pairs(properties, n - 1);
    }
}

/// An input that is given stays as it is; one that is not has the default that
/// is declared for it, and is missing where none is.
pub proof fn inputs_are_given_or_default(
    schema: SchemaObject,
    given: Map<Seq<char>, JsonView>,
    name: Seq<char>,
)
    requires
        schema.properties.wf(),
    ensures
        ({
            let m = completed_inputs(schema, given);
            &&& given.contains_key(name) ==> m.contains_key(name) && m[name] == given[name]
            &&& !given.contains_key(name) && schema.properties@.contains_key(name) ==> {
                &&& schema.properties@[name].default matches Some(Ok(v)) ==> m.contains_key(name)
                    && m[name] == v@
                &&& !(schema.properties@[name].default matches Some(Ok(_))) ==> !m.contains_key(
                    name,
                )
            }
            &&& !given.contains_key(name) && !schema.properties@.contains_key(name)
                ==> !m.contains_key(name)
        }),
{
    let n = schema.properties.keys().len();
    if given.contains_key(name) {
        crate::input_validation::given_inputs_stay(given, schema.properties, n, name);
    } else if schema.properties@.contains_key(name) {
        assert(schema.properties.keys().contains(name));
        let k = schema.properties.keys().index_of(name);
        defaults_are_filled(given, schema.properties, n, k);
        entries_are_pairs(schema.properties, k);
    } else {
        nothing_else_is_filled(given, schema.properties, n, name);
    }
}

// ---------------------------------------------------------------------
// Types
// ---------------------------------------------------------------------

/// The name of the type that a value is of: a number is an integer where it is
/// written without a fraction.
pub open spec fn own_type(v: JsonView) -> Seq<char> {
    match v {
        JsonView::Null => "null"@,
        JsonView::Bool(_) => "boolean"@,
        JsonView::Number(NumberView::PosInt(_)) => "integer"@,
        JsonView::Number(NumberView::NegInt(_)) => "integer"@,
        JsonView::Number(NumberView::Float { bits, text }) => "number"@,
        JsonView::Text(_) => "string"@,
        JsonView::Array(_) => "array"@,
        JsonView::Object(_) => "object"@,
    }
}

/// The name of a declared type.
pub open spec fn declared_type(t: JsonSchemaType) -> Seq<char> {
    match t {
        JsonSchemaType::String => "string"@,
        JsonSchemaType::Integer => "integer"@,
        JsonSchemaType::Number => "number"@,
        JsonSchemaType::Boolean => "boolean"@,
        JsonSchemaType::Array => "array"@,
        JsonSchemaType::Object => "object"@,
    }
}

/// Whether a value is let through for a declared type: the names are the same,
/// or a number is asked for and an integer is given.
pub open spec fn is_let_through(t: JsonSchemaType, v: JsonView) -> bool {
    declared_type(t) == own_type(v) || (declared_type(t) == "number"@ && own_type(v)
        == "integer"@)
}

proof fn type_names_differ()
    ensures
        forall|s: JsonSchemaType, t: JsonSchemaType|
            #![trigger declared_type(s), declared_type(t)]
            declared_type(s) == declared_type(t) ==> s == t,
        forall|t: JsonSchemaType| #[trigger] declared_type(t) != "null"@,
{
    reveal_strlit("null");
    reveal_strlit("string");
    reveal_strlit("integer");
    reveal_strlit("number");
    reveal_strlit("boolean");
    reveal_strlit("array");
    reveal_strlit("object");
    assert("string"@[0] == 's' && "number"@[0] == 'n' && "object"@[0] == 'o');
    assert("integer"@[0] == 'i' && "boolean"@[0] == 'b' && "array"@[0] == 'a');
    assert("null"@.len() == 4 && "number"@.len() == 6);
}

/// A type error is raised exactly where a value that is not `null` is not let
/// through for its declared type. So it is never raised where the two types
/// have the same name.
pub proof fn a_type_error_names_two_types(
    inputs: Map<Seq<char>, JsonView>,
    name: Seq<char>,
    p: PropertyDef,
)
    ensures
        type_issue(inputs, name, p) is Some == (p.type_ is Some && inputs.contains_key(name)
            && !(inputs[name] is Null) && !is_let_through(p.type_->0, inputs[name])),
        type_issue(inputs, name, p) matches Some(i) ==> {
            &&& i.severity == InputIssueSeverity::Error
            &&& i.field == name
            &&& i.message == "expected type "@ + declared_type(p.type_->0) + ", got "@ + own_type(
                inputs[name],
            )
            &&& declared_type(p.type_->0) != own_type(inputs[name])
        },
{
    type_names_differ();
    assert(declared_type(JsonSchemaType::String) == "string"@);
    assert(declared_type(JsonSchemaType::Integer) == "integer"@);
    assert(declared_type(JsonSchemaType::Number) == "number"@);
    assert(declared_type(JsonSchemaType::Boolean) == "boolean"@);
    assert(declared_type(JsonSchemaType::Array) == "array"@);
    assert(declared_type(JsonSchemaType::Object) == "object"@);
}

// ---------------------------------------------------------------------
// Issues
// ---------------------------------------------------------------------

/// Whether an input is missing: not there, or `null`.
pub open spec fn not_there(m: Map<Seq<char>, JsonView>, name: Seq<char>) -> bool {
    !m.contains_key(name) || m[name] == JsonView::Null
}

/// Whether a required input is missing.
pub open spec fn lacks(schema: SchemaObject, m: Map<Seq<char>, JsonView>, name: Seq<char>) -> bool {
    not_there(m, name) && exists|i: int|
        0 <= i < schema.required@.len() && (#[trigger] schema.required@[i])@ == name
}

/// Whether an input is of another type than the declared one.
pub open spec fn mistyped(
    schema: SchemaObject,
    m: Map<Seq<char>, JsonView>,
    name: Seq<char>,
) -> bool {
    &&& schema.properties@.contains_key(name)
    &&& schema.properties@[name].type_ is Some
    &&& m.contains_key(name)
    &&& m[name] != JsonView::Null
    &&& !is_let_through(schema.properties@[name].type_->0, m[name])
}

/// Whether an input is none of the values that are enumerated for it.
pub open spec fn unlisted(
    schema: SchemaObject,
    m: Map<Seq<char>, JsonView>,
    name: Seq<char>,
) -> bool {
    &&& schema.properties@.contains_key(name)
    &&& m.contains_key(name)
    &&& schema.properties@[name].enum_ matches Some(EnumKeyword::List(list)) && (forall|i: int|
        0 <= i < list@.len() ==> ((#[trigger] list@[i]) matches Some(item) && !instances_equal(
            m[name],
            item@,
        )))
}

proof fn required_listed(m: Map<Seq<char>, JsonView>, required: Seq<String>, n: nat, e: InputIssueView)
    requires
        n <= required.len(),
    ensures
        required_issues(m, required, n).contains(e) == (e.severity == InputIssueSeverity::Error
            && e.message == "required input is missing"@ && is_missing(m, e.field) && exists|i: int|
            0 <= i < n && (#[trigger] required[i])@ == e.field),
    decreases n,
{
    if n > 0 {
        required_listed(m, required, (n - 1) as nat, e);
        let before = required_issues(m, required, (n - 1) as nat);
        let now = required_issues(m, required, n);
        if before.contains(e) {
            let at = before.index_of(e);
            assert(now[at] == e);
        }
        if now.contains(e) && !before.contains(e) {
            let at = now.index_of(e);
            if at < before.len() {
                assert(before[at] == e);
            }
            assert(required[n - 1]@ == e.field);
        }
        if e.severity == InputIssueSeverity::Error && e.message == "required input is missing"@
            && is_missing(m, e.field) && required[n - 1]@ == e.field {
            assert(now[now.len() - 1] == e);
        }
    }
}

proof fn types_listed(m: Map<Seq<char>, JsonView>, p: TextMap<PropertyDef>, n: nat, e: InputIssueView)
    requires
        n <= p.keys().len(),
    ensures
        type_issues(m, p, n).contains(e) == exists|i: int|
            0 <= i < n && type_issue(m, #[trigger] p.keys()[i], p.values()[i]) == Some(e),
    decreases n,
{
    if n > 0 {
        types_listed(m, p, (n - 1) as nat, e);
        let before = type_issues(m, p, (n - 1) as nat);
        let now = type_issues(m, p, n);
        if before.contains(e) {
            let at = before.index_of(e);
            assert(now[at] == e);
        }
        if now.contains(e) && !before.contains(e) {
            let at = now.index_of(e);
            if at < before.len() {
                assert(before[at] == e);
            }
            assert(type_issue(m, p.keys()[n - 1], p.values()[n - 1]) == Some(e));
        }
        if type_issue(m, p.keys()[n - 1], p.values()[n - 1]) == Some(e) {
            assert(now[now.len() - 1] == e);
        }
    }
}

proof fn enums_listed(m: Map<Seq<char>, JsonView>, p: TextMap<PropertyDef>, n: nat, e: InputIssueView)
    requires
        n <= p.keys().len(),
    ensures
        enum_issues(m, p, n).contains(e) == (e.severity == InputIssueSeverity::Error && e.message
            == "value is not one of the declared enum values"@ && exists|i: int|
            0 <= i < n && (#[trigger] p.keys()[i]) == e.field && breaks_enum(
                m,
                p.keys()[i],
                p.values()[i],
            )),
    decreases n,
{
    if n > 0 {
        enums_listed(m, p, (n - 1) as nat, e);
        let before = enum_issues(m, p, (n - 1) as nat);
        let now = enum_issues(m, p, n);
        if before.contains(e) {
            let at = before.index_of(e);
            assert(now[at] == e);
        }
        if now.contains(e) && !before.contains(e) {
            let at = now.index_of(e);
            if at < before.len() {
                assert(before[at] == e);
            }
            assert(p.keys()[n - 1] == e.field);
        }
        if e.severity == InputIssueSeverity::Error && e.message
            == "value is not one of the declared enum values"@ && p.keys()[n - 1] == e.field
            && breaks_enum(m, p.keys()[n - 1], p.values()[n - 1]) {
            assert(now[now.len() - 1] == e);
        }
    }
}

proof fn extras_listed(names: Seq<Seq<char>>, p: TextMap<PropertyDef>, n: nat, e: InputIssueView)
    requires
        n <= names.len(),
    ensures
        extra_issues(names, p, n).contains(e) == (e.severity == InputIssueSeverity::Warning
            && e.message == "input not declared in schema properties"@ && !p@.contains_key(e.field)
            && exists|i: int| 0 <= i < n && #[trigger] names[i] == e.field),
    decreases n,
{
    if n > 0 {
        extras_listed(names, p, (n - 1) as nat, e);
        let before = extra_issues(names, p, (n - 1) as nat);
        let now = extra_issues(names, p, n);
        if before.contains(e) {
            let at = before.index_of(e);
            assert(now[at] == e);
        }
        if now.contains(e) && !before.contains(e) {
            let at = now.index_of(e);
            if at < before.len() {
                assert(before[at] == e);
            }
            assert(names[n - 1] == e.field);
        }
        if e.severity == InputIssueSeverity::Warning && e.message
            == "input not declared in schema properties"@ && !p@.contains_key(e.field) && names[n
            - 1] == e.field {
            assert(now[now.len() - 1] == e);
        }
    }
}

proof fn defaults_listed(
    given: Map<Seq<char>, JsonView>,
    p: TextMap<PropertyDef>,
    n: nat,
    e: InputIssueView,
)
    requires
        n <= p.keys().len(),
        default_issues(given, p, n).contains(e),
    ensures
        e.severity == InputIssueSeverity::Warning,
    decreases n,
{
    if n > 0 {
        let before = default_issues(given, p, (n - 1) as nat);
        let now = default_issues(given, p, n);
        let at = now.index_of(e);
        assert(now[at] == e);
        if at < before.len() {
            assert(before[at] == e);
            defaults_listed(given, p, (n - 1) as nat, e);
        }
    }
}

proof fn contained_in_sum(
    a: Seq<InputIssueView>,
    b: Seq<InputIssueView>,
    c: Seq<InputIssueView>,
    d: Seq<InputIssueView>,
    f: Seq<InputIssueView>,
    e: InputIssueView,
)
    ensures
        (a + b + c + d + f).contains(e) == (a.contains(e) || b.contains(e) || c.contains(e)
            || d.contains(e) || f.contains(e)),
{
    let s = a + b + c + d + f;
    if s.contains(e) {
        let at = s.index_of(e);
        assert(s[at] == e);
        if at < a.len() {
            assert(a[at] == e);
        } else if at < a.len() + b.len() {
            assert(b[at - a.len()] == e);
        } else if at < a.len() + b.len() + c.len() {
            assert(c[at - a.len() - b.len()] == e);
        } else if at < a.len() + b.len() + c.len() + d.len() {
            assert(d[at - a.len() - b.len() - c.len()] == e);
        } else {
            assert(f[at - a.len() - b.len() - c.len() - d.len()] == e);
        }
    }
    if a.contains(e) {
        assert(s[a.index_of(e)] == e);
    }
    if b.contains(e) {
        assert(s[a.len() + b.index_of(e)] == e);
    }
    if c.contains(e) {
        assert(s[a.len() + b.len() + c.index_of(e)] == e);
    }
    if d.contains(e) {
        assert(s[a.len() + b.len() + c.len() + d.index_of(e)] == e);
    }
    if f.contains(e) {
        assert(s[a.len() + b.len() + c.len() + d.len() + f.index_of(e)] == e);
    }
}

proof fn enum_is_broken(schema: SchemaObject, m: Map<Seq<char>, JsonView>, name: Seq<char>)
    requires
        schema.properties@.contains_key(name),
    ensures
        breaks_enum(m, name, schema.properties@[name]) == unlisted(schema, m, name),
{
    let p = schema.properties@[name];
    if let Some(EnumKeyword::List(list)) = p.enum_ {
        if m.contains_key(name) {
            let v = m[name];
            if breaks_enum(m, name, p) {
                assert forall|i: int| 0 <= i < list@.len() implies ((
                #[trigger] list@[i]) matches Some(item) && !instances_equal(v, item@)) by {
                    assert(list@[i] is Some);
                }
            }
            if unlisted(schema, m, name) {
                assert(all_json(list@)) by {
                    assert forall|i: int| 0 <= i < list@.len() implies (#[trigger] list@[i]) is Some by {}
                }
                assert(!is_listed(v, list@)) by {
                    if is_listed(v, list@) {
                        let i = choose|i: int|
                            0 <= i < list@.len() && ((#[trigger] list@[i]) matches Some(item)
                                && instances_equal(v, item@));
                        assert(list@[i] is Some);
                    }
                }
            }
        }
    }
}

/// Inputs are refused exactly for what the schema declares: a required input
/// that is missing, an input of another type than the declared one, and one
/// that is none of the enumerated values. Each such input has an error of its
/// own, and there is no other error.
pub proof fn inputs_are_refused_for_what_is_declared(
    schema: SchemaObject,
    given: Map<Seq<char>, JsonView>,
    names: Seq<Seq<char>>,
    e: InputIssueView,
)
    requires
        schema.properties.wf(),
        e.severity == InputIssueSeverity::Error,
    ensures
        input_issues(schema, given, names).contains(e) == {
            let m = completed_inputs(schema, given);
            ||| e.message == "required input is missing"@ && lacks(schema, m, e.field)
            ||| e.message == "value is not one of the declared enum values"@ && unlisted(
                schema,
                m,
                e.field,
            )
            ||| mistyped(schema, m, e.field) && e.message == "expected type "@ + declared_type(
                schema.properties@[e.field].type_->0,
            ) + ", got "@ + own_type(m[e.field])
        },
{
    let m = completed_inputs(schema, given);
    let p = schema.properties;
    let n = p.keys().len();
    let defaults = default_issues(given, p, n);
    let required = required_issues(m, schema.required@, schema.required@.len());
    let types = type_issues(m, p, n);
    let enums = enum_issues(m, p, n);
    let extras = undeclared_issues(names, p);
    contained_in_sum(defaults, required, types, enums, extras, e);
    if defaults.contains(e) {
        defaults_listed(given, p, n, e);
    }
    if extras.contains(e) {
        extras_listed(names, p, names.len(), e);
    }
    required_listed(m, schema.required@, schema.required@.len(), e);
    types_listed(m, p, n, e);
    enums_listed(m, p, n, e);
    assert(is_missing(m, e.field) == not_there(m, e.field));
    if types.contains(e) {
        let i = choose|i: int|
            0 <= i < n && type_issue(m, #[trigger] p.keys()[i], p.values()[i]) == Some(e);
        entries_are_pairs(p, i);
        a_type_error_names_two_types(m, p.keys()[i], p.values()[i]);
    }
    if enums.contains(e) {
        let i = choose|i: int|
            0 <= i < n && (#[trigger] p.keys()[i]) == e.field && breaks_enum(
                m,
                p.keys()[i],
                p.values()[i],
            );
        entries_are_pairs(p, i);
        enum_is_broken(schema, m, e.field);
    }
    if p@.contains_key(e.field) {
        assert(p.keys().contains(e.field));
        let i = p.keys().index_of(e.field);
        entries_are_pairs(p, i);
        a_type_error_names_two_types(m, p.keys()[i], p.values()[i]);
        enum_is_broken(schema, m, e.field);
    }
}

/// An input that no property declares is noted and let through, where there
/// are properties at all.
pub proof fn undeclared_inputs_are_noted(
    schema: SchemaObject,
    given: Map<Seq<char>, JsonView>,
    names: Seq<Seq<char>>,
    name: Seq<char>,
)
    requires
        schema.properties.wf(),
        schema.properties.keys().len() > 0,
        names.contains(name),
        !schema.properties@.contains_key(name),
    ensures
        input_issues(schema, given, names).contains(
            InputIssueView {
                severity: InputIssueSeverity::Warning,
                field: name,
                message: "input not declared in schema properties"@,
            },
        ),
{
    let m = completed_inputs(schema, given);
    let p = schema.properties;
    let n = p.keys().len();
    let e = InputIssueView {
        severity: InputIssueSeverity::Warning,
        field: name,
        message: "input not declared in schema properties"@,
    };
    contained_in_sum(
        default_issues(given, p, n),
        required_issues(m, schema.required@, schema.required@.len()),
        type_issues(m, p, n),
        enum_issues(m, p, n),
        undeclared_issues(names, p),
        e,
    );
    extras_listed(names, p, names.len(), e);
    assert(names[names.index_of(name)] == name);
}

proof fn unusable_default_listed(
    given: Map<Seq<char>, JsonView>,
    p: TextMap<PropertyDef>,
    n: nat,
    k: int,
)
    requires
        p.wf(),
        0 <= k < n <= p.keys().len(),
        !given.contains_key(p.keys()[k]),
        p.values()[k].default matches Some(Err(_)),
    ensures
        exists|i: int|
            0 <= i < default_issues(given, p, n).len() && (#[trigger] default_issues(
                given,
                p,
                n,
            )[i]).field == p.keys()[k] && default_issues(given, p, n)[i].severity
                == InputIssueSeverity::Warning,
    decreases n,
{
    let now = default_issues(given, p, n);
    if k == n - 1 {
        defaults_are_filled(given, p, (n - 1) as nat, k);
        assert(now[now.len() - 1].field == p.keys()[k]);
    } else {
        unusable_default_listed(given, p, (n - 1) as nat, k);
        let before = default_issues(given, p, (n - 1) as nat);
        let i = choose|i: int|
            0 <= i < before.len() && (#[trigger] before[i]).field == p.keys()[k]
                && before[i].severity == InputIssueSeverity::Warning;
        assert(now[i] == before[i]);
    }
}

/// A default that has no JSON form is warned about where the input is not
/// given.
pub proof fn unusable_defaults_are_noted(
    schema: SchemaObject,
    given: Map<Seq<char>, JsonView>,
    names: Seq<Seq<char>>,
    name: Seq<char>,
)
    requires
        schema.properties.wf(),
        schema.properties@.contains_key(name),
        schema.properties@[name].default matches Some(Err(_)),
        !given.contains_key(name),
    ensures
        exists|i: int|
            0 <= i < input_issues(schema, given, names).len() && (#[trigger] input_issues(
                schema,
                given,
                names,
            )[i]).field == name && input_issues(schema, given, names)[i].severity
                == InputIssueSeverity::Warning,
{
    let p = schema.properties;
    assert(p.keys().contains(name));
    let k = p.keys().index_of(name);
    entries_are_pairs(p, k);
    unusable_default_listed(given, p, p.keys().len(), k);
    let all = input_issues(schema, given, names);
    let own = default_issues(given, p, p.keys().len());
    let i = choose|i: int|
        0 <= i < own.len() && (#[trigger] own[i]).field == p.keys()[k] && own[i].severity
            == InputIssueSeverity::Warning;
    assert(all[i] == own[i]);
}

} // verus!
