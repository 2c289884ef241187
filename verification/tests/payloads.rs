use arazzo_runtime::json::Json;
use arazzo_runtime::json_text::parse_json;
use arazzo_runtime::model::{Literal, Replacement, SelectorObject, SelectorType, ValueSource};
use arazzo_runtime::payload::{
    apply_replacements, resolve_selector, resolve_value_checked, to_json_path, Answers, Evaluated,
    ExpressionWarning, QueryAnswer,
};
use arazzo_runtime::text_map::TextMap;

fn j(text: &str) -> Json {
    match parse_json(text.as_bytes()) {
        Some(value) => value,
        None => panic!("parsing {text}"),
    }
}

/// What an evaluator answers: values for expressions, and places for JSONPath
/// targets. A text without an entry holds no expression and stays as it is.
struct Evaluator {
    answers: Answers,
    located: Vec<(String, Result<Vec<String>, String>)>,
}

fn evaluator() -> Evaluator {
    Evaluator {
        answers: Answers { texts: TextMap::new(), contexts: TextMap::new(), queries: Vec::new() },
        located: Vec::new(),
    }
}

impl Evaluator {
    fn given(mut self, text: &str, value: Json) -> Self {
        self.answers.texts.insert(text.to_string(), Evaluated { value, warnings: Vec::new() });
        self
    }

    fn context(mut self, expression: &str, value: Json) -> Self {
        let came = Evaluated { value, warnings: Vec::new() };
        self.answers.contexts.insert(expression.to_string(), came);
        self
    }

    fn unresolved(mut self, expression: &str, message: &str) -> Self {
        let warning =
            ExpressionWarning { expression: expression.to_string(), message: message.to_string() };
        let came = Evaluated { value: Json::Null, warnings: vec![warning] };
        self.answers.contexts.insert(expression.to_string(), came);
        self
    }

    fn query(
        mut self,
        context: &str,
        selector: &str,
        version: Option<&str>,
        admitted: Result<(), &str>,
        selected: Result<(Json, usize), &str>,
    ) -> Self {
        self.answers.queries.push(QueryAnswer {
            context: context.to_string(),
            selector: selector.to_string(),
            version: version.map(|v| v.to_string()),
            admitted: admitted.map_err(|e| e.to_string()),
            selected: selected.map_err(|e| e.to_string()),
        });
        self
    }

    fn locating(mut self, target: &str, pointers: &[&str]) -> Self {
        let pointers = pointers.iter().map(|p| p.to_string()).collect();
        self.located.push((target.to_string(), Ok(pointers)));
        self
    }

    fn refusing(mut self, target: &str, message: &str) -> Self {
        self.located.push((target.to_string(), Err(message.to_string())));
        self
    }

    fn places(&self, target: &str) -> Result<Vec<String>, String> {
        match self.located.iter().find(|entry| entry.0 == target) {
            Some(entry) => entry.1.clone(),
            None => Ok(Vec::new()),
        }
    }
}

fn copy_warnings(list: &[ExpressionWarning]) -> Vec<ExpressionWarning> {
    list.iter()
        .map(|w| ExpressionWarning { expression: w.expression.clone(), message: w.message.clone() })
        .collect()
}

fn copy_table(table: &TextMap<Evaluated>) -> TextMap<Evaluated> {
    let mut copy = TextMap::new();
    for i in 0..table.len() {
        let e = table.value_at(i);
        let came = Evaluated { value: e.value.copy(), warnings: copy_warnings(&e.warnings) };
        copy.insert(table.key_at(i).clone(), came);
    }
    copy
}

fn copy_query(q: &QueryAnswer) -> QueryAnswer {
    QueryAnswer {
        context: q.context.clone(),
        selector: q.selector.clone(),
        version: q.version.clone(),
        admitted: q.admitted.clone(),
        selected: match &q.selected {
            Ok((value, count)) => Ok((value.copy(), *count)),
            Err(e) => Err(e.clone()),
        },
    }
}

fn note_plain_texts(value: &ValueSource, texts: &mut TextMap<Evaluated>) {
    match value {
        ValueSource::Literal(Literal::Text(s)) => {
            if !texts.contains_key(s) {
                let came = Evaluated { value: Json::Text(s.clone()), warnings: Vec::new() };
                texts.insert(s.clone(), came);
            }
        }
        ValueSource::Literal(Literal::Sequence(items)) => {
            for item in items {
                note_plain_texts(item, texts);
            }
        }
        ValueSource::Literal(Literal::Mapping(members)) => {
            for (_, member) in members {
                note_plain_texts(member, texts);
            }
        }
        _ => {}
    }
}

fn lit(value: Json) -> ValueSource {
    ValueSource::Literal(match value {
        Json::Null => Literal::Null,
        Json::Bool(b) => Literal::Bool(b),
        Json::Number(n) => Literal::Number(n),
        Json::Text(s) => Literal::Text(s),
        Json::Array(items) => Literal::Sequence(items.into_iter().map(lit).collect()),
        Json::Object(members) => {
            Literal::Mapping(members.into_iter().map(|(k, v)| (Some(k), lit(v))).collect())
        }
    })
}

fn text(s: &str) -> ValueSource {
    lit(Json::Text(s.to_string()))
}

fn text_in(value: &Json) -> &str {
    match value {
        Json::Text(s) => s,
        _ => "",
    }
}

fn replacement(target: &str, value: ValueSource) -> Replacement {
    Replacement { target: target.to_string(), target_selector_type: None, value }
}

fn typed_replacement(target: &str, type_: SelectorType, value: ValueSource) -> Replacement {
    Replacement { target: target.to_string(), target_selector_type: Some(type_), value }
}

fn name_type(name: &str) -> SelectorType {
    SelectorType::Name(name.to_string())
}

fn object_type(name: &str, version: &str) -> SelectorType {
    SelectorType::ExpressionType { type_: name.to_string(), version: version.to_string() }
}

fn capability_warnings(warnings: &[String]) -> usize {
    warnings.iter().filter(|warning| warning.contains("XPath 1.0 engine")).count()
}

fn apply_as(
    body: Json,
    content_type: &str,
    replacements: Vec<Replacement>,
    eval: &Evaluator,
) -> (Json, Vec<String>) {
    let mut texts = copy_table(&eval.answers.texts);
    for r in &replacements {
        note_plain_texts(&r.value, &mut texts);
    }
    let answers = Answers {
        texts,
        contexts: copy_table(&eval.answers.contexts),
        queries: eval.answers.queries.iter().map(copy_query).collect(),
    };
    let located = replacements.iter().map(|r| eval.places(&r.target)).collect();
    apply_replacements(body, content_type, &replacements, &answers, &located)
}

fn apply(body: Json, replacements: Vec<Replacement>, eval: &Evaluator) -> (Json, Vec<String>) {
    apply_as(body, "application/json", replacements, eval)
}

fn assert_warning_contains(warnings: &[String], needle: &str) {
    assert!(
        warnings.iter().any(|warning| warning.contains(needle)),
        "expected warning containing {needle:?}, got: {warnings:?}"
    );
}

#[test]
fn json_pointer_replaces_top_level_key() {
    let eval = evaluator();
    let (body, warnings) = apply(
        j(r#"{"a": 1, "b": [10, 20]}"#),
        vec![replacement("/a", lit(j(r#"99"#)))],
        &eval,
    );

    assert_eq!(body, j(r#"{"a": 99, "b": [10, 20]}"#));
    assert!(warnings.is_empty());
}

#[test]
fn json_pointer_replaces_nested_key() {
    let eval = evaluator();
    let (body, warnings) = apply(
        j(r#"{"a": 1, "c": {"d": "old"}}"#),
        vec![replacement("/c/d", lit(j(r#""new""#)))],
        &eval,
    );

    assert_eq!(body, j(r#"{"a": 1, "c": {"d": "new"}}"#));
    assert!(warnings.is_empty());
}

#[test]
fn json_pointer_replaces_array_index() {
    let eval = evaluator();
    let (body, warnings) = apply(
        j(r#"{"a": 1, "b": [10, 20]}"#),
        vec![replacement("/b/1", lit(j(r#"21"#)))],
        &eval,
    );

    assert_eq!(body, j(r#"{"a": 1, "b": [10, 21]}"#));
    assert!(warnings.is_empty());
}

#[test]
fn explicit_null_and_empty_replacement_values_reach_json_pointer_resolution() {
    let eval = evaluator();
    let (body, warnings) = apply(
        j(r#"{"nullValue": "old", "emptyValue": "old"}"#),
        vec![
            replacement("/nullValue", lit(Json::Null)),
            replacement("/emptyValue", text("")),
        ],
        &eval,
    );

    assert_eq!(body, j(r#"{"nullValue": null, "emptyValue": ""}"#));
    assert!(warnings.is_empty());
}

#[test]
fn json_pointer_unescapes_tilde_one_and_tilde_zero() {
    let eval = evaluator();
    let (body, warnings) = apply(
        j(r#"{}"#),
        vec![
            replacement("/a~1b", lit(j(r#""slash""#))),
            replacement("/a~0b", lit(j(r#""tilde""#))),
        ],
        &eval,
    );

    assert_eq!(body, j(r#"{"a/b": "slash", "a~b": "tilde"}"#));
    assert!(warnings.is_empty());
}

#[test]
fn json_pointer_unescape_order_handles_tilde_zero_one() {
    let eval = evaluator();
    let (body, warnings) = apply(
        j(r#"{"a~1b": "old"}"#),
        vec![replacement("/a~01b", lit(j(r#""new""#)))],
        &eval,
    );

    assert_eq!(body, j(r#"{"a~1b": "new"}"#));
    assert!(warnings.is_empty());
}

#[test]
fn json_pointer_missing_intermediate_warns_and_no_change() {
    let eval = evaluator();
    let original = j(r#"{"a": 1, "b": [10, 20]}"#);
    let (body, warnings) = apply(
        original.copy(),
        vec![replacement("/c/d", lit(j(r#""x""#)))],
        &eval,
    );

    assert_eq!(body, original);
    assert_warning_contains(&warnings, "missing intermediate");
}

#[test]
fn json_pointer_array_index_out_of_range_warns_and_no_change() {
    let eval = evaluator();
    let original = j(r#"{"b": [10, 20]}"#);
    let (body, warnings) = apply(
        original.copy(),
        vec![replacement("/b/9", lit(j(r#"21"#)))],
        &eval,
    );

    assert_eq!(body, original);
    assert_warning_contains(&warnings, "out of range");
}

#[test]
fn json_pointer_dash_token_is_rejected_for_replace() {
    let eval = evaluator();
    let original = j(r#"{"b": [10, 20]}"#);
    let (body, warnings) = apply(
        original.copy(),
        vec![replacement("/b/-", lit(j(r#"30"#)))],
        &eval,
    );

    assert_eq!(body, original);
    assert_warning_contains(&warnings, "`-` is append, not replace");
}

#[test]
fn replacement_value_expression_resolves_via_evaluator() {
    let eval = evaluator()
        .given("$inputs.userId", j(r#""U-7""#))
        .given("literal {$inputs.userId}", j(r#""literal U-7""#));
    let (body, warnings) = apply(
        j(r#"{}"#),
        vec![replacement(
            "/x",
            text("$inputs.userId"),
        )],
        &eval,
    );

    assert_eq!(body, j(r#"{"x": "U-7"}"#));
    assert!(warnings.is_empty());
}

#[test]
fn replacement_value_interpolation_resolves() {
    let eval = evaluator()
        .given("$inputs.userId", j(r#""U-7""#))
        .given("literal {$inputs.userId}", j(r#""literal U-7""#));
    let (body, warnings) = apply(
        j(r#"{}"#),
        vec![replacement(
            "/x",
            text("literal {$inputs.userId}"),
        )],
        &eval,
    );

    assert_eq!(body, j(r#"{"x": "literal U-7"}"#));
    assert!(warnings.is_empty());
}

#[test]
fn replacement_value_structured_recurses_through_resolve_payload() {
    let eval = evaluator()
        .given("$inputs.userId", j(r#""U-7""#))
        .given("literal {$inputs.userId}", j(r#""literal U-7""#));
    let (body, warnings) = apply(
        j(r#"{}"#),
        vec![replacement(
            "/payload",
            lit(j(r#"{ "id": "$inputs.userId", "label": "literal {$inputs.userId}" }"#)),
        )],
        &eval,
    );

    assert_eq!(
        body,
        j(r#"{"payload": {"id": "U-7", "label": "literal U-7"}}"#)
    );
    assert!(warnings.is_empty());
}

#[test]
fn replacements_array_order_later_wins() {
    let eval = evaluator();
    let (body, warnings) = apply(
        j(r#"{"a": 0}"#),
        vec![
            replacement("/a", lit(j(r#"1"#))),
            replacement("/a", lit(j(r#"2"#))),
        ],
        &eval,
    );

    assert_eq!(body, j(r#"{"a": 2}"#));
    assert!(warnings.is_empty());
}

#[test]
fn empty_replacements_returns_body_unchanged() {
    let eval = evaluator();
    let original = j(r#"{"a": 1, "b": [10, 20]}"#);
    let (body, warnings) = apply(original.copy(), Vec::new(), &eval);

    assert_eq!(body, original);
    assert!(warnings.is_empty());
}

#[test]
fn xpath_replaces_element_text_content() {
    let eval = evaluator();
    let (body, warnings) = apply_as(
        Json::Text("<root><CustomerId>old</CustomerId></root>".to_string()),
        "text/xml",
        vec![typed_replacement(
            "//*[local-name()='CustomerId']",
            object_type("xpath", "xpath-10"),
            text("C-99"),
        )],
        &eval,
    );

    let xml = text_in(&body);
    assert!(xml.contains("<CustomerId>C-99</CustomerId>"), "{xml}");
    assert!(warnings.is_empty(), "{warnings:?}");
}

#[test]
fn xpath_replaces_attribute_value() {
    let eval = evaluator();
    let (body, warnings) = apply_as(
        Json::Text(r#"<root><Customer id="old"/></root>"#.to_string()),
        "text/xml",
        vec![typed_replacement(
            "//*[local-name()='Customer']/@id",
            object_type("xpath", "xpath-10"),
            text("X-1"),
        )],
        &eval,
    );

    let xml = text_in(&body);
    assert!(xml.contains(r#"<Customer id="X-1"/>"#), "{xml}");
    assert!(warnings.is_empty(), "{warnings:?}");
}

#[test]
fn xpath_preserves_namespace_declarations() {
    let eval = evaluator();
    let original = r#"<soap:Envelope xmlns:soap="http://schemas.xmlsoap.org/soap/envelope/" xmlns:tns="urn:test"><soap:Body><tns:CustomerId>old</tns:CustomerId></soap:Body></soap:Envelope>"#;
    let (body, warnings) = apply_as(
        Json::Text(original.to_string()),
        "text/xml",
        vec![typed_replacement(
            "//tns:CustomerId",
            object_type("xpath", "xpath-10"),
            text("C-99"),
        )],
        &eval,
    );

    let xml = text_in(&body);
    assert!(xml.contains(r#"xmlns:tns="urn:test""#), "{xml}");
    assert!(
        xml.contains("<tns:CustomerId>C-99</tns:CustomerId>"),
        "{xml}"
    );
    assert!(warnings.is_empty(), "{warnings:?}");
}

#[test]
fn xpath_no_match_warns_and_returns_original_xml() {
    let eval = evaluator();
    let original = "<root><x>old</x></root>";
    let (body, warnings) = apply_as(
        Json::Text(original.to_string()),
        "text/xml",
        vec![typed_replacement(
            "//bogus",
            object_type("xpath", "xpath-10"),
            text("new"),
        )],
        &eval,
    );

    assert_eq!(body, Json::Text(original.to_string()));
    assert_warning_contains(&warnings, "matched no nodes");
}

#[test]
fn xpath_non_nodeset_result_warns() {
    let eval = evaluator();
    let original = "<root><x>old</x></root>";
    let (body, warnings) = apply_as(
        Json::Text(original.to_string()),
        "text/xml",
        vec![typed_replacement(
            "count(//x)",
            object_type("xpath", "xpath-10"),
            text("new"),
        )],
        &eval,
    );

    assert_eq!(body, Json::Text(original.to_string()));
    assert_warning_contains(&warnings, "node set");
}

#[test]
fn xpath_structured_value_warns_and_uses_json_string() {
    let eval = evaluator();
    let (body, warnings) = apply_as(
        Json::Text("<root><x>old</x></root>".to_string()),
        "text/xml",
        vec![typed_replacement(
            "//x",
            object_type("xpath", "xpath-10"),
            lit(j(r#"{"a": 1}"#)),
        )],
        &eval,
    );

    let xml = text_in(&body);
    assert!(xml.contains("a"), "{xml}");
    assert!(xml.contains("1"), "{xml}");
    assert_warning_contains(&warnings, "structured XML replacement value");
}

#[test]
fn replacement_value_from_dependent_step_output_resolves() {
    let eval = evaluator().given("$steps.create.outputs.id", j(r#""S-1""#));
    let (body, warnings) = apply(
        j(r#"{}"#),
        vec![replacement(
            "/id",
            text("$steps.create.outputs.id"),
        )],
        &eval,
    );

    assert_eq!(body, j(r#"{"id": "S-1"}"#));
    assert!(warnings.is_empty());
}

#[test]
fn explicit_jsonpath_applies_at_resolved_location() {
    let eval = evaluator()
        .locating("$.a.b", &["/a/b"]);
    let (body, warnings) = apply(
        j(r#"{"a": {"b": 1}}"#),
        vec![typed_replacement(
            "$.a.b",
            name_type("jsonpath"),
            lit(j(r#"2"#)),
        )],
        &eval,
    );

    assert_eq!(body, j(r#"{"a": {"b": 2}}"#));
    assert!(warnings.is_empty(), "{warnings:?}");
}

#[test]
fn explicit_jsonpath_spec_example_filter_applies() {
    let eval = evaluator()
        .locating("$.items[?(@.sku=='ABC123')].quantity", &["/items/0/quantity"]);
    let (body, warnings) = apply(
        j(r#"{"items": [ {"sku": "ABC123", "quantity": 1}, {"sku": "XYZ999", "quantity": 5} ]}"#),
        vec![typed_replacement(
            "$.items[?(@.sku=='ABC123')].quantity",
            name_type("jsonpath"),
            lit(j(r#"3"#)),
        )],
        &eval,
    );

    assert_eq!(
        body,
        j(r#"{"items": [ {"sku": "ABC123", "quantity": 3}, {"sku": "XYZ999", "quantity": 5} ]}"#)
    );
    assert!(warnings.is_empty(), "{warnings:?}");
}

#[test]
fn explicit_jsonpath_root_replaces_whole_body() {
    let eval = evaluator()
        .locating("$", &[""]);
    let (body, warnings) = apply(
        j(r#"{"a": 1}"#),
        vec![typed_replacement(
            "$",
            name_type("jsonpath"),
            lit(j(r#"{"b": 2}"#)),
        )],
        &eval,
    );

    assert_eq!(body, j(r#"{"b": 2}"#));
    assert!(warnings.is_empty(), "{warnings:?}");
}

#[test]
fn explicit_jsonpath_zero_matches_warns_and_body_unchanged() {
    let eval = evaluator();
    let original = j(r#"{"items": [{"sku": "A"}]}"#);
    let (body, warnings) = apply(
        original.copy(),
        vec![typed_replacement(
            "$.items[?(@.sku=='NOPE')].sku",
            name_type("jsonpath"),
            lit(j(r#""B""#)),
        )],
        &eval,
    );

    assert_eq!(body, original);
    assert_warning_contains(&warnings, "matched no locations");
}

#[test]
fn explicit_jsonpath_many_matches_warns_and_body_unchanged() {
    let eval = evaluator()
        .locating("$.items[*].q", &["/items/0/q", "/items/1/q"]);
    let original = j(r#"{"items": [{"q": 1}, {"q": 2}]}"#);
    let (body, warnings) = apply(
        original.copy(),
        vec![typed_replacement(
            "$.items[*].q",
            name_type("jsonpath"),
            lit(j(r#"9"#)),
        )],
        &eval,
    );

    assert_eq!(body, original);
    assert_warning_contains(&warnings, "matched 2 locations");
}

#[test]
fn explicit_jsonpath_gjson_filter_is_invalid_syntax_and_body_unchanged() {
    // A GJSON dot-form filter is not RFC 9535 syntax: the
    // target is rejected at parse time — whether it would have matched
    // one item or two — with exactly one warning and an untouched body.
    let eval = evaluator().refusing("$.items.#(sku==\"A\").q", "invalid JSONPath syntax: unexpected character");
    for original in [
        j(r#"{"items": [{"sku": "A", "q": 1}, {"sku": "A", "q": 2}]}"#),
        j(r#"{"items": [{"sku": "A", "q": 1}]}"#),
    ] {
        let (body, warnings) = apply(
            original.copy(),
            vec![typed_replacement(
                "$.items.#(sku==\"A\").q",
                name_type("jsonpath"),
                lit(j(r#"99"#)),
            )],
            &eval,
        );

        assert_eq!(body, original);
        assert_eq!(warnings.len(), 1, "{warnings:?}");
        assert_warning_contains(&warnings, "invalid JSONPath syntax");
    }
}

#[test]
fn explicit_jsonpath_descent_and_slice_targets_resolve_one_location() {
    let eval = evaluator()
        .locating("$..leaf", &["/a/deep/leaf"])
        .locating("$.items[1:2]", &["/items/1"]);
    let (body, warnings) = apply(
        j(r#"{"a": {"deep": {"leaf": 1}}, "items": [10, 20, 30]}"#),
        vec![
            typed_replacement("$..leaf", name_type("jsonpath"), lit(j(r#"2"#))),
            typed_replacement("$.items[1:2]", name_type("jsonpath"), lit(j(r#"21"#))),
        ],
        &eval,
    );

    assert_eq!(
        body,
        j(r#"{"a": {"deep": {"leaf": 2}}, "items": [10, 21, 30]}"#)
    );
    assert!(warnings.is_empty(), "{warnings:?}");
}

#[test]
fn explicit_jsonpath_duplicate_occurrences_count_as_many_locations() {
    let eval = evaluator()
        .locating("$.items[0,0].q", &["/items/0/q", "/items/0/q"]);
    let original = j(r#"{"items": [{"q": 1}]}"#);
    let (body, warnings) = apply(
        original.copy(),
        vec![typed_replacement(
            "$.items[0,0].q",
            name_type("jsonpath"),
            lit(j(r#"9"#)),
        )],
        &eval,
    );

    assert_eq!(body, original);
    assert_eq!(warnings.len(), 1, "{warnings:?}");
    assert_warning_contains(&warnings, "matched 2 locations");
}

#[test]
fn empty_name_pointer_segment_replaces_nested_child_not_root_sibling() {
    // $['']['child'] resolves to the RFC 6901 pointer "//child": member
    // "child" of the member named "". It is not
    // "/child", the root-level sibling.
    let eval = evaluator()
        .locating("$['']['child']", &["//child"]);
    let original = j(r#"{"": {"child": "old"}, "child": "sibling"}"#);
    let expected = j(r#"{"": {"child": "new"}, "child": "sibling"}"#);

    let (body, warnings) = apply(
        original.copy(),
        vec![typed_replacement(
            "$['']['child']",
            name_type("jsonpath"),
            lit(j(r#""new""#)),
        )],
        &eval,
    );
    assert_eq!(body, expected);
    assert!(warnings.is_empty(), "{warnings:?}");

    // The same pointer written directly through the JSON Pointer arm.
    let (body, warnings) = apply(
        original,
        vec![replacement("//child", lit(j(r#""new""#)))],
        &eval,
    );
    assert_eq!(body, expected);
    assert!(warnings.is_empty(), "{warnings:?}");
}

fn jsonpath_selector(context: &str, selector: &str, type_: SelectorType) -> SelectorObject {
    SelectorObject { context: context.to_string(), selector: selector.to_string(), type_ }
}

fn jsonpath_value(context: &str, selector: &str) -> ValueSource {
    ValueSource::Selector(jsonpath_selector(context, selector, name_type("jsonpath")))
}

#[test]
fn hard_jsonpath_failure_in_a_nested_replacement_value_skips_only_that_replacement() {
    let oversized = format!("${}", ".a".repeat(129));
    let document = r#"{"value": null, "n": 7}"#;
    let eval = evaluator()
        .context("$inputs.document", j(document))
        .unresolved("$inputs.absent", "input \"absent\" not found in context")
        .query(
            "$inputs.document",
            &oversized,
            None,
            Ok(()),
            Err("JSONPath query structural characters limit of 128 exceeded"),
        )
        .query("$inputs.absent", "$.n", None, Ok(()), Ok((j("null"), 0)))
        .query("$inputs.document", "$.value", None, Ok(()), Ok((j("null"), 1)))
        .query("$inputs.document", "$.absent", None, Ok(()), Ok((j("null"), 0)));
    let nested = ValueSource::Literal(Literal::Mapping(vec![(
        Some("inner".to_string()),
        jsonpath_value("$inputs.document", &oversized),
    )]));
    let (body, warnings) = apply(
        j(r#"{ "first": "old", "nested": "old", "context": "old", "null": "old", "zero": "old", "last": "old" }"#),
        vec![
            replacement("/first", lit(j(r#""new""#))),
            // A resource failure inside a map inside an array: the value
            // is a hard failure, so nothing is written at /nested.
            replacement("/nested", ValueSource::Literal(Literal::Sequence(vec![nested]))),
            // A valid query whose context is missing is failed resolution
            // for replacement use.
            replacement("/context", jsonpath_value("$inputs.absent", "$.n")),
            // A legitimately selected null is one match and is written.
            replacement("/null", jsonpath_value("$inputs.document", "$.value")),
            // Zero matches keep their normalization: null plus the
            // no-match warning, still written.
            replacement("/zero", jsonpath_value("$inputs.document", "$.absent")),
            replacement("/last", lit(j(r#""new""#))),
        ],
        &eval,
    );

    assert_eq!(
        body,
        j(r#"{ "first": "new", "nested": "old", "context": "old", "null": null, "zero": null, "last": "new" }"#)
    );
    let skipped: Vec<&String> = warnings
        .iter()
        .filter(|warning| warning.contains("replacement skipped"))
        .collect();
    assert_eq!(skipped.len(), 2, "{warnings:?}");
    assert!(
        skipped[0].starts_with("requestBody.replacements[1]:"),
        "{skipped:?}"
    );
    assert!(
        skipped[1].starts_with("requestBody.replacements[2]:"),
        "{skipped:?}"
    );
    assert_warning_contains(
        &warnings,
        "JSONPath query structural characters limit of 128 exceeded",
    );
    assert_warning_contains(
        &warnings,
        "requestBody.replacements[2]: $inputs.absent: input \"absent\" not found in context",
    );
    assert_warning_contains(
        &warnings,
        "requestBody.replacements[4]: $.absent: selector matched no values",
    );
    assert!(
        warnings
            .iter()
            .all(|warning| !warning.starts_with("requestBody.replacements[3]:")),
        "a selected null is not a failure: {warnings:?}"
    );
}

#[test]
fn jsonpath_selector_admission_precedes_context_resolution() {
    // No inputs: `$inputs.absent` resolves to null with a diagnostic.
    let goessner = "draft-goessner-dispatch-jsonpath-00";
    let refused = format!("unsupported JSONPath version {goessner:?}");
    let eval = evaluator()
        .unresolved("$inputs.absent", "input \"absent\" not found in context")
        .query("$inputs.absent", "$.a", Some(goessner), Err(&refused), Ok((j("null"), 0)))
        .query(
            "$inputs.absent",
            "$.a[",
            None,
            Err("invalid JSONPath syntax: unexpected end"),
            Ok((j("null"), 0)),
        )
        .query("$inputs.absent", "$.a", None, Ok(()), Ok((j("null"), 0)));
    for (selector, type_, needle) in [
        (
            "$.a",
            object_type("jsonpath", "draft-goessner-dispatch-jsonpath-00"),
            "unsupported JSONPath version \"draft-goessner-dispatch-jsonpath-00\"",
        ),
        ("$.a[", name_type("jsonpath"), "invalid JSONPath syntax"),
    ] {
        let object = jsonpath_selector("$inputs.absent", selector, type_);
        let (value, warnings) = resolve_selector(&object, &eval.answers);
        assert_eq!(value, Json::Null);
        assert_eq!(warnings.len(), 1, "{selector}: {warnings:?}");
        assert!(warnings[0].message.contains(needle), "{selector}: {warnings:?}");
    }

    // A valid query over a missing context keeps the context diagnostic.
    let valid = jsonpath_selector("$inputs.absent", "$.a", name_type("jsonpath"));
    let (value, warnings) = resolve_selector(&valid, &eval.answers);
    assert_eq!(value, Json::Null);
    assert_eq!(warnings.len(), 1, "{warnings:?}");
    assert!(
        warnings[0].message.contains("input \"absent\" not found in context"),
        "{warnings:?}"
    );
}

#[test]
fn jsonpath_selector_reads_keep_zero_one_many_and_selected_null_distinct() {
    for (selector, expected, matches, warning_count) in [
        ("$.items[0].id", "1", 1, 0),
        ("$.items[*].id", "[1, 2]", 2, 0),
        ("$..id", "[1, 2]", 2, 0),
        ("$.items[1:].id", "2", 1, 0),
        ("$.value", "null", 1, 0),
        ("$.absent", "null", 0, 1),
    ] {
        let eval = evaluator()
            .context(
                "$inputs.document",
                j(r#"{"items": [{"id": 1}, {"id": 2}], "value": null}"#),
            )
            .query("$inputs.document", selector, None, Ok(()), Ok((j(expected), matches)));
        let object = jsonpath_selector("$inputs.document", selector, name_type("jsonpath"));
        let (value, warnings) = resolve_selector(&object, &eval.answers);
        assert_eq!(value, j(expected), "{selector}");
        assert_eq!(warnings.len(), warning_count, "{selector}: {warnings:?}");
    }
}

#[test]
fn explicit_jsonpointer_behaves_like_omitted_field() {
    let eval = evaluator();
    let original = j(r#"{"a": 1}"#);
    let (explicit_body, explicit_warnings) = apply(
        original.copy(),
        vec![typed_replacement(
            "/a",
            name_type("jsonpointer"),
            lit(j(r#"2"#)),
        )],
        &eval,
    );
    let (omitted_body, omitted_warnings) =
        apply(original, vec![replacement("/a", lit(j(r#"2"#)))], &eval);

    assert_eq!(explicit_body, omitted_body);
    assert_eq!(explicit_warnings, omitted_warnings);
    assert_eq!(explicit_body, j(r#"{"a": 2}"#));
}

#[test]
fn expression_type_object_xpath_30_is_rejected_before_evaluation() {
    // An Expression Type Object of a version that is not supported: unchanged
    // body, one warning.
    let eval = evaluator();
    let original = Json::Text("<root><x>old</x></root>".to_string());
    let (body, warnings) = apply_as(
        original.copy(),
        "application/xml",
        vec![typed_replacement(
            "//x",
            object_type("xpath", "xpath-30"),
            text("new"),
        )],
        &eval,
    );

    assert_eq!(body, original);
    assert_eq!(capability_warnings(&warnings), 1, "{warnings:?}");
    assert_eq!(warnings.len(), 1, "{warnings:?}");
}

#[test]
fn xpath_10_executes_without_capability_diagnostic() {
    let eval = evaluator();
    let (body, warnings) = apply_as(
        Json::Text("<root><x>old</x></root>".to_string()),
        "application/xml",
        vec![typed_replacement(
            "//x",
            object_type("xpath", "xpath-10"),
            text("new"),
        )],
        &eval,
    );

    let xml = text_in(&body);
    assert!(xml.contains("<x>new</x>"), "{xml}");
    assert!(warnings.is_empty(), "{warnings:?}");
}

#[test]
fn xpath_versions_other_than_explicit_10_reject_with_one_warning_each() {
    // Plain `xpath`, xpath-20/-30/-31,
    // and the omitted field are each rejected before evaluation with
    // exactly one warning and an unchanged body; explicit xpath-10 is
    // covered by the silent tests above.
    let eval = evaluator();
    let rejected = [
        Some(name_type("xpath")),
        Some(object_type("xpath", "xpath-20")),
        Some(object_type("xpath", "xpath-30")),
        Some(object_type("xpath", "xpath-31")),
        None,
    ];
    for type_ in rejected {
        let shown = format!("{type_:?}");
        let entry = Replacement {
            target: "//x".to_string(),
            target_selector_type: type_,
            value: text("new"),
        };
        let original = Json::Text("<root><x>old</x></root>".to_string());
        let (body, warnings) =
            apply_as(original.copy(), "application/xml", vec![entry], &eval);

        assert_eq!(body, original, "{shown}: {warnings:?}");
        assert_eq!(capability_warnings(&warnings), 1, "{shown}: {warnings:?}");
        assert_eq!(warnings.len(), 1, "{shown}: {warnings:?}");
    }
}

#[test]
fn unsupported_xpath_version_token_warns_and_does_not_execute() {
    let eval = evaluator();
    let original = Json::Text("<root><x>old</x></root>".to_string());
    let (body, warnings) = apply_as(
        original.copy(),
        "application/xml",
        vec![typed_replacement(
            "//x",
            object_type("xpath", "10"),
            text("new"),
        )],
        &eval,
    );

    assert_eq!(body, original);
    assert_warning_contains(&warnings, "unsupported XPath version");
    assert_eq!(capability_warnings(&warnings), 0, "{warnings:?}");
}

#[test]
fn unsupported_jsonpath_version_token_warns_and_body_unchanged() {
    let eval = evaluator().refusing("$.a", "unsupported JSONPath version \"rfc6901\"");
    let original = j(r#"{"a": 1}"#);
    let (body, warnings) = apply(
        original.copy(),
        vec![typed_replacement(
            "$.a",
            object_type("jsonpath", "rfc6901"),
            lit(j(r#"2"#)),
        )],
        &eval,
    );

    assert_eq!(body, original);
    assert_warning_contains(&warnings, "unsupported JSONPath version");
}

#[test]
fn goessner_jsonpath_target_is_rejected_before_the_body_is_queried() {
    let eval = evaluator().refusing("$.a", "unsupported JSONPath version \"draft-goessner-dispatch-jsonpath-00\"");
    let original = j(r#"{"a": 1}"#);
    let (body, warnings) = apply(
        original.copy(),
        vec![typed_replacement(
            "$.a",
            object_type("jsonpath", "draft-goessner-dispatch-jsonpath-00"),
            lit(j(r#"2"#)),
        )],
        &eval,
    );

    assert_eq!(body, original);
    assert_eq!(warnings.len(), 1, "{warnings:?}");
    assert_warning_contains(
        &warnings,
        "unsupported JSONPath version \"draft-goessner-dispatch-jsonpath-00\"",
    );
}

#[test]
fn unsupported_target_selector_type_name_warns_and_body_unchanged() {
    let eval = evaluator();
    let original = j(r#"{"a": 1}"#);
    let (body, warnings) = apply(
        original.copy(),
        vec![typed_replacement("/a", name_type("regex"), lit(j(r#"2"#)))],
        &eval,
    );

    assert_eq!(body, original);
    assert_warning_contains(&warnings, "unsupported targetSelectorType");
}

#[test]
fn omitted_type_on_json_media_routes_non_slash_target_to_json_pointer() {
    // application/json means JSON Pointer, so a
    // JSONPath-looking target is a JSON Pointer error.
    let eval = evaluator();
    let original = j(r#"{"a": {"b": 1}}"#);
    let (body, warnings) = apply(
        original.copy(),
        vec![replacement("$.a.b", lit(j(r#"2"#)))],
        &eval,
    );

    assert_eq!(body, original);
    assert_warning_contains(&warnings, "not a JSON Pointer");
    assert!(
        warnings.iter().all(|warning| !warning.contains("XPath")),
        "{warnings:?}"
    );
}

#[test]
fn omitted_type_on_xml_media_with_structured_body_warns_xpath() {
    // Media-type-keyed routing: an XML content type dispatches to XPath
    // even when the resolved payload is structured JSON. The omitted
    // targetSelectorType carries no version, so the version rejection
    // fires first: the XPath-flavored warning still proves
    // the dispatch.
    let eval = evaluator();
    let original = j(r#"{"a": 1}"#);
    let (body, warnings) = apply_as(
        original.copy(),
        "application/xml",
        vec![replacement("/a", lit(j(r#"2"#)))],
        &eval,
    );

    assert_eq!(body, original);
    assert_warning_contains(&warnings, "xpath-31");
    assert_eq!(warnings.len(), 1, "{warnings:?}");
}

#[test]
fn explicit_xpath_10_with_structured_body_warns_payload_type() {
    let eval = evaluator();
    let original = j(r#"{"a": 1}"#);
    let (body, warnings) = apply_as(
        original.copy(),
        "application/xml",
        vec![typed_replacement(
            "/a",
            object_type("xpath", "xpath-10"),
            lit(j(r#"2"#)),
        )],
        &eval,
    );

    assert_eq!(body, original);
    assert_warning_contains(
        &warnings,
        "XPath replacement requires XML/text string payload",
    );
}

#[test]
fn a_failed_selector_always_leaves_a_warning() {
    let eval = evaluator().query("$c", "$.n", None, Err("refused"), Ok((j("1"), 1)));
    let value = ValueSource::Literal(Literal::Sequence(vec![
        lit(j("1")),
        jsonpath_value("$c", "$.n"),
    ]));
    let r = resolve_value_checked(&value, &eval.answers);
    assert!(r.jsonpath_failed);
    assert_eq!(r.warnings.len(), 1);
    assert_eq!(r.warnings[0].line(), "$.n: refused");
}

#[test]
fn an_empty_target_changes_nothing() {
    let (body, warnings) = apply(j("1"), vec![replacement("  ", lit(j("2")))], &evaluator());
    assert_eq!(body, j("1"));
    assert_eq!(warnings, vec!["requestBody.replacements[0]: target is empty".to_string()]);
}

#[test]
fn an_unsupported_json_pointer_version_changes_nothing() {
    let entry = typed_replacement("/a", object_type("jsonpointer", "rfc1"), lit(j("2")));
    let (body, warnings) = apply(j(r#"{"a": 1}"#), vec![entry], &evaluator());
    assert_eq!(body, j(r#"{"a": 1}"#));
    assert_eq!(
        warnings,
        vec!["requestBody.replacements[0]: unsupported JSON Pointer version \"rfc1\"".to_string()]
    );
}

#[test]
fn a_pointer_selector_reads_its_context() {
    let eval = evaluator().context("$inputs.doc", j(r#"{"a": {"b": 5}}"#));
    let selector = jsonpath_selector("$inputs.doc", "/a/b", name_type("jsonpointer"));
    let (value, warnings) = resolve_selector(&selector, &eval.answers);
    assert_eq!(value, j("5"));
    assert!(warnings.is_empty());

    let unrooted = jsonpath_selector("$inputs.doc", "a", name_type("jsonpointer"));
    let (value, warnings) = resolve_selector(&unrooted, &eval.answers);
    assert_eq!(value, Json::Null);
    assert_eq!(warnings[0].message, "JSON Pointer selector must be empty or start with '/'");
}

#[test]
fn an_xml_selector_reads_an_xml_text_only() {
    let eval = evaluator()
        .context("$inputs.xml", Json::Text("<a><b>7</b></a>".to_string()))
        .context("$inputs.json", j("[1]"));
    let selector = jsonpath_selector("$inputs.xml", "//b", object_type("xpath", "xpath-10"));
    let (value, warnings) = resolve_selector(&selector, &eval.answers);
    assert_eq!(value, j(r#""7""#));
    assert!(warnings.is_empty());

    let selector = jsonpath_selector("$inputs.json", "//b", object_type("xpath", "xpath-10"));
    let (value, warnings) = resolve_selector(&selector, &eval.answers);
    assert_eq!(value, Json::Null);
    assert_eq!(
        warnings[0].message,
        "XPath selector context must resolve to an XML string, got array"
    );
}

#[test]
fn body_expressions_become_json_paths() {
    assert_eq!(to_json_path("$response.body.items.0"), "items.0");
    assert_eq!(to_json_path("$response.body"), "");
}
