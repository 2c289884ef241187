use arazzo_runtime::input_validation::{validate_inputs, InputIssueSeverity};
use arazzo_runtime::json::Json;
use arazzo_runtime::json_equal::{json_schema_instance_equal, same_json};
use arazzo_runtime::json_text::parse_json;
use arazzo_runtime::model::{EnumKeyword, JsonSchemaType, PropertyDef, SchemaObject, Workflow};
use arazzo_runtime::text_map::TextMap;
use arazzo_runtime::workflow_run::validate_and_populate_inputs;

fn j(text: &str) -> Json {
    match parse_json(text.as_bytes()) {
        Some(value) => value,
        None => panic!("parsing {text}"),
    }
}

fn one<V>(name: &str, value: V) -> TextMap<V> {
    let mut map = TextMap::new();
    map.insert(name.to_string(), value);
    map
}

fn two(first: &str, a: Json, second: &str, b: Json) -> TextMap<Json> {
    let mut map = one(first, a);
    map.insert(second.to_string(), b);
    map
}

fn property() -> PropertyDef {
    PropertyDef { type_: None, default: None, enum_: None }
}

fn schema() -> SchemaObject {
    SchemaObject { properties: TextMap::new(), required: Vec::new() }
}

fn property_with_enum(values: serde_yaml_ng::Value) -> PropertyDef {
    let enum_ = match values {
        serde_yaml_ng::Value::Sequence(items) => EnumKeyword::List(
            items
                .iter()
                .map(|item| serde_json::to_value(item).ok().map(|value| j(&value.to_string())))
                .collect(),
        ),
        _ => EnumKeyword::NotAList,
    };
    PropertyDef { enum_: Some(enum_), ..property() }
}

fn schema_with_property_enum(name: &str, values: serde_yaml_ng::Value) -> SchemaObject {
    SchemaObject { properties: one(name, property_with_enum(values)), ..schema() }
}

fn yaml_value(input: &str) -> serde_yaml_ng::Value {
    match serde_yaml_ng::from_str(input) {
        Ok(value) => value,
        Err(err) => panic!("parsing test YAML: {err}"),
    }
}

fn schema_with_required_string(name: &str) -> SchemaObject {
    let mut properties = TextMap::new();
    properties.insert(
        name.to_string(),
        PropertyDef {
            type_: Some(JsonSchemaType::String),
            ..property()
        },
    );
    SchemaObject {
        properties,
        required: vec![name.to_string()],
        ..schema()
    }
}

#[test]
fn required_input_missing() {
    let schema = schema_with_required_string("name");
    let mut inputs = TextMap::new();
    let issues = validate_inputs(&schema, &mut inputs);
    assert_eq!(issues.len(), 1);
    assert_eq!(issues[0].severity, InputIssueSeverity::Error);
    assert!(issues[0].message.contains("required"));
}

#[test]
fn required_input_present() {
    let schema = schema_with_required_string("name");
    let mut inputs = one("name", j(r#""Alice""#));
    let issues = validate_inputs(&schema, &mut inputs);
    assert!(issues.is_empty());
}

#[test]
fn default_injection() {
    let mut properties = TextMap::new();
    properties.insert(
        "color".to_string(),
        PropertyDef {
            type_: Some(JsonSchemaType::String),
            default: Some(Ok(Json::Text("blue".to_string()))),
            ..property()
        },
    );
    let schema = SchemaObject {
        properties,
        ..schema()
    };
    let mut inputs = TextMap::new();
    let issues = validate_inputs(&schema, &mut inputs);
    assert!(issues.is_empty());
    assert_eq!(inputs.get("color"), Some(&j(r#""blue""#)));
}

#[test]
fn default_satisfies_required() {
    let mut properties = TextMap::new();
    properties.insert(
        "name".to_string(),
        PropertyDef {
            type_: Some(JsonSchemaType::String),
            default: Some(Ok(Json::Text("default-name".to_string()))),
            ..property()
        },
    );
    let schema = SchemaObject {
        properties,
        required: vec!["name".to_string()],
        ..schema()
    };
    let mut inputs = TextMap::new();
    let issues = validate_inputs(&schema, &mut inputs);
    assert!(issues.is_empty());
    assert_eq!(inputs.get("name"), Some(&j(r#""default-name""#)));
}

#[test]
fn type_mismatch_string_vs_integer() {
    let schema = schema_with_required_string("name");
    let mut inputs = one("name", j(r#"42"#));
    let issues = validate_inputs(&schema, &mut inputs);
    assert_eq!(issues.len(), 1);
    assert_eq!(issues[0].severity, InputIssueSeverity::Error);
    assert!(issues[0].message.contains("expected type string"));
}

#[test]
fn type_match_integer() {
    let mut properties = TextMap::new();
    properties.insert(
        "count".to_string(),
        PropertyDef {
            type_: Some(JsonSchemaType::Integer),
            ..property()
        },
    );
    let schema = SchemaObject {
        properties,
        required: vec!["count".to_string()],
        ..schema()
    };
    let mut inputs = one("count", j(r#"5"#));
    let issues = validate_inputs(&schema, &mut inputs);
    assert!(issues.is_empty());
}

#[test]
fn number_accepts_integer() {
    let mut properties = TextMap::new();
    properties.insert(
        "amount".to_string(),
        PropertyDef {
            type_: Some(JsonSchemaType::Number),
            ..property()
        },
    );
    let schema = SchemaObject {
        properties,
        required: vec!["amount".to_string()],
        ..schema()
    };
    let mut inputs = one("amount", j(r#"10"#));
    let issues = validate_inputs(&schema, &mut inputs);
    assert!(issues.is_empty());
}

#[test]
fn type_mismatch_boolean_vs_string() {
    let mut properties = TextMap::new();
    properties.insert(
        "flag".to_string(),
        PropertyDef {
            type_: Some(JsonSchemaType::Boolean),
            ..property()
        },
    );
    let schema = SchemaObject {
        properties,
        ..schema()
    };
    let mut inputs = one("flag", j(r#""yes""#));
    let issues = validate_inputs(&schema, &mut inputs);
    assert_eq!(issues.len(), 1);
    assert_eq!(issues[0].severity, InputIssueSeverity::Error);
    assert!(issues[0].message.contains("expected type boolean"));
}

#[test]
fn extra_input_warning() {
    let schema = schema_with_required_string("name");
    let mut inputs = two("name", j(r#""Alice""#), "unknown", j(r#""extra""#));
    let issues = validate_inputs(&schema, &mut inputs);
    assert_eq!(issues.len(), 1);
    assert_eq!(issues[0].severity, InputIssueSeverity::Warning);
    assert!(issues[0].message.contains("not declared"));
}

#[test]
fn no_schema_properties_skips_extra_check() {
    let schema = schema();
    let mut inputs = one("anything", j(r#""value""#));
    let issues = validate_inputs(&schema, &mut inputs);
    assert!(issues.is_empty());
}

#[test]
fn null_value_for_required_field() {
    let schema = schema_with_required_string("name");
    let mut inputs = one("name", Json::Null);
    let issues = validate_inputs(&schema, &mut inputs);
    assert_eq!(issues.len(), 1);
    assert_eq!(issues[0].severity, InputIssueSeverity::Error);
    assert!(issues[0].message.contains("required"));
}

#[test]
fn multiple_issues_collected() {
    let mut properties = TextMap::new();
    properties.insert(
        "name".to_string(),
        PropertyDef {
            type_: Some(JsonSchemaType::String),
            ..property()
        },
    );
    properties.insert(
        "age".to_string(),
        PropertyDef {
            type_: Some(JsonSchemaType::Integer),
            ..property()
        },
    );
    let schema = SchemaObject {
        properties,
        required: vec!["name".to_string(), "age".to_string()],
        ..schema()
    };
    let mut inputs = TextMap::new(); // both missing
    let issues = validate_inputs(&schema, &mut inputs);
    assert!(issues.len() >= 2);
}

#[test]
fn property_enum_accepts_members_and_injects_matching_default() {
    let enum_values = yaml_value("- sunrise\n- sunset\n- both\n");
    let mut property = property_with_enum(enum_values);
    property.default = Some(Ok(Json::Text("both".to_string())));
    let schema = SchemaObject {
        properties: one("preference", property),
        ..schema()
    };

    for input in [Some("sunrise"), Some("sunset"), Some("both"), None] {
        let mut inputs = input.map_or_else(TextMap::new, |input| {
            one("preference", Json::Text(input.to_string()))
        });
        let issues = validate_inputs(&schema, &mut inputs);
        assert!(issues.is_empty(), "input {input:?}: {issues:?}");
        if input.is_none() {
            assert_eq!(inputs.get("preference"), Some(&j(r#""both""#)));
        }
    }
}

#[test]
fn property_enum_rejects_non_member_with_stable_redacted_issue() {
    let schema =
        schema_with_property_enum("preference", yaml_value("- sunrise\n- sunset\n- both\n"));
    let mut inputs = one("preference", j(r#""invalid""#));

    let issues = validate_inputs(&schema, &mut inputs);

    assert_eq!(issues.len(), 1);
    assert_eq!(issues[0].severity, InputIssueSeverity::Error);
    assert_eq!(issues[0].field, "preference");
    assert_eq!(
        issues[0].message,
        "value is not one of the declared enum values"
    );
    assert!(!issues[0].message.contains("invalid"));
    assert!(!issues[0].message.contains("sunrise"));
}

#[test]
fn injected_property_enum_default_uses_the_same_error_path() {
    let enum_values = yaml_value("- sunrise\n- sunset\n");
    let mut property = property_with_enum(enum_values);
    property.default = Some(Ok(Json::Text("invalid-default".to_string())));
    let schema = SchemaObject {
        properties: one("preference", property),
        ..schema()
    };
    let mut inputs = TextMap::new();

    let issues = validate_inputs(&schema, &mut inputs);

    assert_eq!(inputs.get("preference"), Some(&j(r#""invalid-default""#)));
    assert_eq!(issues.len(), 1);
    assert_eq!(issues[0].severity, InputIssueSeverity::Error);
    assert_eq!(issues[0].field, "preference");
    assert_eq!(
        issues[0].message,
        "value is not one of the declared enum values"
    );
}

#[test]
fn property_enum_allows_optional_null() {
    let schema = schema_with_property_enum("preference", yaml_value("- null\n- sunrise\n"));
    let mut inputs = one("preference", Json::Null);

    assert!(validate_inputs(&schema, &mut inputs).is_empty());
}

#[test]
fn property_enum_uses_recursive_json_schema_instance_equality() {
    let schema = schema_with_property_enum(
        "value",
        yaml_value(
            "- 1.0\n- [one, {nested: [true, null]}]\n- {name: value, nested: {count: 2}}\n",
        ),
    );

    for value in [
        j(r#"1"#),
        j(r#"["one", {"nested": [true, null]}]"#),
        j(r#"{"nested": {"count": 2}, "name": "value"}"#),
    ] {
        let mut inputs = one("value", value);
        assert!(validate_inputs(&schema, &mut inputs).is_empty());
    }
}

#[test]
fn property_enum_rejects_recursive_non_members() {
    let schema =
        schema_with_property_enum("value", yaml_value("- [one, {nested: [true, null]}]\n"));
    let mut inputs = one("value", j(r#"["one", {"nested": [false, null]}]"#));

    let issues = validate_inputs(&schema, &mut inputs);

    assert_eq!(issues.len(), 1);
    assert_eq!(issues[0].severity, InputIssueSeverity::Error);
}

#[test]
fn property_enum_does_not_lose_integer_precision_against_float() {
    let schema = schema_with_property_enum("value", yaml_value("- 9007199254740992.0\n"));
    let mut inputs = one("value", j("9007199254740993"));

    let issues = validate_inputs(&schema, &mut inputs);

    assert_eq!(issues.len(), 1);
    assert_eq!(issues[0].severity, InputIssueSeverity::Error);
}

#[test]
fn json_number_equality_handles_signed_and_unsigned_range_endpoints() {
    let signed_min_float = j("-9223372036854775808.0");
    let signed_overflow_float = j("9223372036854775808.0");
    let unsigned_overflow_float = j("18446744073709551616.0");

    assert!(json_schema_instance_equal(
        &j("-9223372036854775808"),
        &signed_min_float
    ));
    assert!(json_schema_instance_equal(
        &j("9223372036854775808"),
        &signed_overflow_float
    ));
    assert!(!json_schema_instance_equal(
        &j("9223372036854775807"),
        &signed_overflow_float
    ));
    assert!(!json_schema_instance_equal(
        &j("18446744073709551615"),
        &unsigned_overflow_float
    ));
}

#[test]
fn malformed_property_enums_are_skipped_without_partial_validation() {
    let non_sequence = schema_with_property_enum(
        "preference",
        serde_yaml_ng::Value::String("sunrise".to_string()),
    );
    let invalid_member = serde_yaml_ng::Value::Mapping({
        let mut map = serde_yaml_ng::Mapping::new();
        map.insert(
            serde_yaml_ng::Value::Sequence(vec![serde_yaml_ng::Value::String(
                "not-a-json-object-key".to_string(),
            )]),
            serde_yaml_ng::Value::String("value".to_string()),
        );
        map
    });
    let partially_convertible = schema_with_property_enum(
        "preference",
        serde_yaml_ng::Value::Sequence(vec![
            serde_yaml_ng::Value::String("sunrise".to_string()),
            invalid_member,
        ]),
    );

    for schema in [non_sequence, partially_convertible] {
        let mut inputs = one("preference", j(r#""invalid""#));
        assert!(validate_inputs(&schema, &mut inputs).is_empty());
    }
}

#[test]
fn property_enum_preserves_existing_phase_order_and_issue_cardinality() {
    let mut properties = TextMap::new();
    let mut enum_property = property_with_enum(yaml_value("- sunrise\n"));
    enum_property.type_ = Some(JsonSchemaType::String);
    properties.insert("enum-value".to_string(), enum_property);
    properties.insert(
        "required-value".to_string(),
        PropertyDef {
            type_: Some(JsonSchemaType::String),
            ..property()
        },
    );
    let schema = SchemaObject {
        properties,
        required: vec!["required-value".to_string()],
        ..schema()
    };
    let mut inputs = two("enum-value", j(r#"1"#), "undeclared", j(r#"true"#));

    let issues = validate_inputs(&schema, &mut inputs);

    assert_eq!(issues.len(), 4);
    assert_eq!(issues[0].field, "required-value");
    assert_eq!(issues[0].message, "required input is missing");
    assert_eq!(issues[1].field, "enum-value");
    assert_eq!(issues[1].message, "expected type string, got integer");
    assert_eq!(issues[2].field, "enum-value");
    assert_eq!(
        issues[2].message,
        "value is not one of the declared enum values"
    );
    assert_eq!(issues[3].field, "undeclared");
    assert_eq!(issues[3].severity, InputIssueSeverity::Warning);
}

#[test]
fn a_default_without_a_json_form_is_warned_about() {
    let schema = SchemaObject {
        properties: one("odd", PropertyDef { default: Some(Err("no form".to_string())), ..property() }),
        ..schema()
    };
    let mut inputs = TextMap::new();
    let issues = validate_inputs(&schema, &mut inputs);
    assert_eq!(issues.len(), 1);
    assert_eq!(issues[0].severity, InputIssueSeverity::Warning);
    assert_eq!(issues[0].line(), "input \"odd\": failed to convert default value: no form");
    let mut given = one("odd", j("1"));
    assert!(validate_inputs(&schema, &mut given).is_empty());
}

#[test]
fn given_inputs_keep_their_values_and_checking_again_adds_nothing() {
    let schema = SchemaObject {
        properties: one("a", PropertyDef { default: Some(Ok(j("1"))), ..property() }),
        ..schema()
    };
    let mut given = one("a", j("2"));
    assert!(validate_inputs(&schema, &mut given).is_empty());
    assert_eq!(given.get("a"), Some(&j("2")));
    let mut empty = TextMap::new();
    validate_inputs(&schema, &mut empty);
    validate_inputs(&schema, &mut empty);
    assert_eq!(empty.get("a"), Some(&j("1")));
    assert_eq!(empty.len(), 1);
}

#[test]
fn strict_checking_refuses_inputs_with_errors() {
    let workflow = Workflow {
        workflow_id: "wf".to_string(),
        inputs: Some(schema_with_required_string("name")),
        ..Workflow::default()
    };
    match validate_and_populate_inputs(&workflow, TextMap::new(), true) {
        Ok(_) => panic!("the inputs are refused"),
        Err(err) => assert_eq!(
            err.message,
            "input validation failed for workflow \"wf\": input \"name\": required input is missing"
        ),
    }
    match validate_and_populate_inputs(&workflow, TextMap::new(), false) {
        Ok((vars, warnings)) => {
            assert_eq!(warnings, vec!["input \"name\": required input is missing"]);
            assert_eq!(vars.inputs.len(), 0);
        }
        Err(err) => panic!("warnings refuse nothing: {}", err.message),
    }
}

#[test]
fn exact_equality_tells_number_forms_apart() {
    assert!(same_json(&j("[1,{\"a\":2}]"), &j("[1,{\"a\":2}]")));
    assert!(!same_json(&j("1"), &j("1.0")));
    assert!(json_schema_instance_equal(&j("1"), &j("1.0")));
    assert!(same_json(&j("0.0"), &j("-0.0")));
}
