use arazzo_runtime::criteria::{
    default_criterion_context, evaluate_criterion, evaluate_criterion_detailed,
    evaluate_output_expression, evaluate_output_expression_detailed,
    evaluate_output_value_detailed, jsonpath_condition_holds, ConditionAnswers,
};
use arazzo_runtime::json::Json;
use arazzo_runtime::json_text::parse_json;
use arazzo_runtime::model::{OutputValue, SelectorObject, SelectorType, SuccessCriterion};
use arazzo_runtime::outcome::Response;
use arazzo_runtime::patterns::{replace_all, RegexCache};
use arazzo_runtime::payload::{Answers, Evaluated, ExpressionWarning};
use arazzo_runtime::text_map::TextMap;
use arazzo_runtime::trace::ContentType;

fn j(text: &str) -> Json {
    match parse_json(text.as_bytes()) {
        Some(value) => value,
        None => panic!("parsing {text}"),
    }
}

fn came_to(value: Json) -> Evaluated {
    Evaluated { value, warnings: Vec::new() }
}

fn warned(expression: &str, message: &str) -> Evaluated {
    let warning =
        ExpressionWarning { expression: expression.to_string(), message: message.to_string() };
    Evaluated { value: Json::Null, warnings: vec![warning] }
}

fn unasked() -> ConditionAnswers {
    ConditionAnswers { nodes: Ok(0), holds: false, warnings: Vec::new() }
}

fn nodes(count: usize) -> ConditionAnswers {
    ConditionAnswers { nodes: Ok(count), holds: false, warnings: Vec::new() }
}

fn no_answers() -> Answers {
    Answers { texts: TextMap::new(), contexts: TextMap::new(), queries: Vec::new() }
}

fn xml_response(body: &[u8]) -> Response {
    Response {
        status_code: 200,
        headers: TextMap::new(),
        body: body.to_vec(),
        body_json: None,
        content_type: ContentType::Xml,
        redirects: Vec::new(),
    }
}

fn named_criterion(name: &str, context: &str, condition: &str) -> SuccessCriterion {
    SuccessCriterion {
        type_: Some(SelectorType::Name(name.to_string())),
        context: context.to_string(),
        condition: condition.to_string(),
    }
}

fn typed_criterion(
    name: &str,
    version: &str,
    context: &str,
    condition: &str,
) -> SuccessCriterion {
    SuccessCriterion {
        type_: Some(SelectorType::ExpressionType {
            type_: name.to_string(),
            version: version.to_string(),
        }),
        context: context.to_string(),
        condition: condition.to_string(),
    }
}

fn jsonpath_criterion(context: &str, condition: &str) -> SuccessCriterion {
    typed_criterion("jsonpath", "draft-goessner-dispatch-jsonpath-00", context, condition)
}

#[test]
fn pointer_suffix_value_can_be_consumed_by_output_evaluation() {
    let mut answers = no_answers();
    answers
        .contexts
        .insert("$inputs.user#/profile/email".to_string(), came_to(j(r#""alice@example.com""#)));

    let (value, warnings) =
        evaluate_output_expression_detailed("$inputs.user#/profile/email", &answers, None);

    assert_eq!(value, j(r#""alice@example.com""#));
    assert!(warnings.is_empty());
}

#[test]
fn unsupported_jsonpath_criterion_surfaces_error_diagnostic() {
    let criterion = named_criterion("jsonpath", "$response.body", "$..foo");
    let asked = ConditionAnswers {
        nodes: Err("unsupported JSONPath expression: $..foo".to_string()),
        holds: false,
        warnings: Vec::new(),
    };

    let evaluation = evaluate_criterion_detailed(
        &criterion,
        came_to(j(r#"{"foo": 1}"#)),
        None,
        &asked,
        &mut RegexCache::new(),
    );

    assert!(!evaluation.matched);
    let error = match &evaluation.error {
        Some(error) => error,
        None => panic!("unsupported JSONPath must surface an error diagnostic"),
    };
    assert!(!error.is_empty());
    assert!(error.contains("unsupported JSONPath"), "got: {error}");
}

/// A context that comes to `null` fails. The response body here is valid XML
/// that matches the condition, so this shows that the null context is not
/// silently replaced by the raw body before evaluation.
#[test]
fn xpath_null_context_fails_even_when_raw_body_would_match() {
    let xml = "<root><pets><pet>dog</pet></pets></root>";
    let response = xml_response(xml.as_bytes());
    let criterion = named_criterion("xpath", "$response.body.missing", "count(//pet) > 0");

    let evaluation = evaluate_criterion_detailed(
        &criterion,
        came_to(Json::Null),
        Some(&response),
        &unasked(),
        &mut RegexCache::new(),
    );

    assert!(!evaluation.matched);
    assert_eq!(evaluation.context_value, Json::Null);
}

/// A body that is not valid UTF-8 never reaches `$response.body`, so an
/// explicit context over it comes to null and the criterion fails closed: it
/// must not fall back to lossy-decoding the raw bytes.
#[test]
fn xpath_explicit_context_over_non_utf8_body_fails_closed() {
    // ISO-8859-1 XML: 0xE9 is not valid UTF-8.
    let mut body = b"<root><pet>caf".to_vec();
    body.push(0xE9);
    body.extend_from_slice(b"</pet></root>");
    let response = xml_response(&body);
    let decoded = String::from_utf8(response.body.clone()).ok();
    assert!(decoded.is_none());
    let criterion = named_criterion("xpath", "$response.body", "count(//pet)");

    let evaluation = evaluate_criterion_detailed(
        &criterion,
        came_to(Json::Null),
        Some(&response),
        &unasked(),
        &mut RegexCache::new(),
    );

    assert!(!evaluation.matched);
    assert_eq!(evaluation.context_value, Json::Null);
}

/// The same null-context rule for JSONPath.
#[test]
fn jsonpath_null_context_fails() {
    let criterion = named_criterion("jsonpath", "$response.body.missing", "$.pets[*]");

    let evaluation = evaluate_criterion_detailed(
        &criterion,
        came_to(Json::Null),
        None,
        &nodes(0),
        &mut RegexCache::new(),
    );

    assert!(!evaluation.matched);
    assert_eq!(evaluation.context_value, Json::Null);
}

/// Falsy booleans and zero numbers fail, though their texts are not empty.
#[test]
fn xpath_criteria_follow_the_spec_truth_table() {
    let xml = "<root><pets><pet>dog</pet></pets><empty/></root>";
    let mut cache = RegexCache::new();
    let mut matched = |condition: &str| {
        let criterion = named_criterion("xpath", "$response.body", condition);
        evaluate_criterion_detailed(
            &criterion,
            came_to(Json::Text(xml.to_string())),
            None,
            &unasked(),
            &mut cache,
        )
        .matched
    };

    // boolean results decide the criterion directly
    assert!(matched("count(//pet) = 1"));
    assert!(!matched("count(//pet) > 1"));
    assert!(!matched("not(//pet)"));

    // number results: non-zero passes, zero fails
    assert!(matched("count(//pet)"));
    assert!(!matched("count(//missing)"));

    // node-set with at least one node passes even when its text is empty
    assert!(matched("//empty"));
    assert!(!matched("//missing"));
}

/// The four values where nodelist cardinality and JSON truthiness diverge:
/// each is one node, so each passes despite being falsy. The absent key is the
/// negative half of the same rule.
#[test]
fn nodelist_cardinality_decides_not_truthiness() {
    for condition in ["$.data.active", "$.data.count", "$.data.name", "$.data.missing"] {
        assert_eq!(
            jsonpath_condition_holds(&Ok(1)),
            Ok(true),
            "{condition}: one node selected must pass"
        );
    }
    assert_eq!(jsonpath_condition_holds(&Ok(0)), Ok(false), "an empty nodelist must fail");
}

/// A resource failure invalidates the whole query rather than contributing a
/// boolean, so negating a function cannot turn the failure into a pass.
#[test]
fn operational_failure_is_returned_even_under_negation() {
    assert_eq!(
        jsonpath_condition_holds(&Ok(1)),
        Ok(true),
        "positive control: the regex function itself works"
    );
    for condition in
        ["$[?match(@.value, 'a{1000000000}')]", "$[?!match(@.value, 'a{1000000000}')]"]
    {
        let failed = Err("compiled regex exceeds size limit".to_string());
        match jsonpath_condition_holds(&failed) {
            Err(detail) => assert!(detail.contains("limit"), "{condition}: {detail}"),
            other => panic!("{condition}: expected an error, got {other:?}"),
        }
    }
}

#[test]
fn evaluate_criterion_modes() {
    let mut cache = RegexCache::new();
    let body = || {
        came_to(j(
            r#"{"name":"alice","ok":true,"pets":[{"id":1}],"items":[
                {"id":1,"ok":false,"pets":[]},{"id":2,"ok":true,"pets":[{"id":"a"}]}]}"#,
        ))
    };
    let items = || {
        came_to(j(
            r#"[{"id":1,"ok":false,"pets":[]},{"id":2,"ok":true,"pets":[{"id":"a"}]}]"#,
        ))
    };

    let plain = SuccessCriterion {
        condition: "$statusCode == 200".to_string(),
        ..SuccessCriterion::default()
    };
    let holds = ConditionAnswers { nodes: Ok(0), holds: true, warnings: Vec::new() };
    assert!(evaluate_criterion(&plain, came_to(Json::Null), None, &holds, &mut cache));

    let regex = named_criterion("regex", "$response.body.name", "^[a-z]+$");
    let name = came_to(j(r#""alice""#));
    assert!(evaluate_criterion(&regex, name, None, &unasked(), &mut cache));

    let jsonpath = jsonpath_criterion("$response.body", "$.name");
    assert!(evaluate_criterion(&jsonpath, body(), None, &nodes(1), &mut cache));

    let jp_existence = jsonpath_criterion("$response.body", "$.ok");
    assert!(evaluate_criterion(&jp_existence, body(), None, &nodes(1), &mut cache));

    let jp_nested = jsonpath_criterion("$response.body", "$.pets[0].id");
    assert!(evaluate_criterion(&jp_nested, body(), None, &nodes(1), &mut cache));

    let jp_missing = jsonpath_criterion("$response.body", "$.nonexistent");
    assert!(!evaluate_criterion(&jp_missing, body(), None, &nodes(0), &mut cache));

    let jp_filter_at_ok = jsonpath_criterion("$response.body.items", "$[?(@.ok == true)]");
    assert!(evaluate_criterion(&jp_filter_at_ok, items(), None, &nodes(1), &mut cache));

    let jp_filter_none = jsonpath_criterion("$response.body.items", "$[?(@.id == 999)]");
    assert!(!evaluate_criterion(&jp_filter_none, items(), None, &nodes(0), &mut cache));

    let jp_count = jsonpath_criterion("$response.body.items", "$[?(count(@.pets) > 0)]");
    assert!(evaluate_criterion(&jp_count, items(), None, &nodes(1), &mut cache));

    let jp_and = jsonpath_criterion("$response.body.items", "$[?(@.ok == true && @.id == 2)]");
    assert!(evaluate_criterion(&jp_and, items(), None, &nodes(1), &mut cache));

    let jp_or = jsonpath_criterion("$response.body.items", "$[?(@.id == 99 || @.id == 1)]");
    assert!(evaluate_criterion(&jp_or, items(), None, &nodes(1), &mut cache));

    let jp_comparison = jsonpath_criterion("$response.body.items", "$[?(@.id > 1)]");
    assert!(evaluate_criterion(&jp_comparison, items(), None, &nodes(1), &mut cache));

    let jp_root_count = jsonpath_criterion("$response.body.items", "$[?(count($) > 0)]");
    assert!(evaluate_criterion(&jp_root_count, items(), None, &nodes(2), &mut cache));
}

#[test]
fn evaluate_criterion_xpath_uses_context_and_condition() {
    let mut cache = RegexCache::new();
    let criterion = typed_criterion("xpath", "xpath-10", "$response.body", "//item[1]/title");
    let xml =
        r#"<?xml version="1.0"?><rss><channel><item><title>Hello</title></item></channel></rss>"#;
    let response = xml_response(xml.as_bytes());
    let context = came_to(Json::Text(xml.to_string()));

    assert!(evaluate_criterion(&criterion, context, Some(&response), &unasked(), &mut cache));
}

#[test]
fn evaluate_jsonpath_count_predicate_handles_quotes_bug() {
    let mut cache = RegexCache::new();
    let context = came_to(j(r#"{"items": [{"type": "foo)bar"}]}"#));
    let jp_count = jsonpath_criterion(
        "$response.body",
        "$[?(count(@.items[?(@.type == 'foo)bar')]) > 0)]",
    );
    assert!(
        evaluate_criterion(&jp_count, context, None, &nodes(1), &mut cache),
        "Count should handle parentheses in strings"
    );
}

#[test]
fn evaluate_jsonpath_count_predicate_counts_nodelist_cardinality() {
    let mut cache = RegexCache::new();
    let body = || {
        came_to(j(
            r#"{"items": [{"type": "match", "name": "kept", "extra": true},
                {"type": "other", "name": "skipped"}]}"#,
        ))
    };

    let matching_object =
        jsonpath_criterion("$response.body", "$[?(count(@.items[?(@.type == 'match')]) == 1)]");
    assert!(evaluate_criterion(&matching_object, body(), None, &nodes(1), &mut cache));

    let missing =
        jsonpath_criterion("$response.body", "$[?(count(@.items[?(@.type == 'missing')]) == 0)]");
    assert!(evaluate_criterion(&missing, body(), None, &nodes(1), &mut cache));

    let indexed = jsonpath_criterion("$response.body", "$[?(count(@.items[0]) == 1)]");
    assert!(evaluate_criterion(&indexed, body(), None, &nodes(1), &mut cache));

    let unsupported = jsonpath_criterion("$response.body", "$[?(count(@.items[0:1]) == 1)]");
    let refused = ConditionAnswers {
        nodes: Err("unsupported slice".to_string()),
        holds: false,
        warnings: Vec::new(),
    };
    assert!(!evaluate_criterion(&unsupported, body(), None, &refused, &mut cache));
}

#[test]
fn a_regex_criterion_reads_the_text_of_its_context() {
    let mut cache = RegexCache::new();
    let five = named_criterion("regex", "$response.body.n", "^[0-9]{2}$");
    assert!(evaluate_criterion(&five, came_to(j("42")), None, &unasked(), &mut cache));
    assert!(!evaluate_criterion(&five, came_to(j("420")), None, &unasked(), &mut cache));
    // The pattern was compiled the first time; what it finds stays the same.
    assert!(evaluate_criterion(&five, came_to(j("17")), None, &unasked(), &mut cache));

    let null = evaluate_criterion_detailed(
        &named_criterion("regex", "$response.body.n", "^$"),
        came_to(Json::Null),
        None,
        &unasked(),
        &mut cache,
    );
    // No value reads as the empty text.
    assert!(null.matched);

    let broken = evaluate_criterion_detailed(
        &named_criterion("regex", "$response.body.n", "("),
        came_to(j("42")),
        None,
        &unasked(),
        &mut cache,
    );
    assert!(!broken.matched);
    match broken.error {
        Some(error) => assert!(error.contains("regex"), "got: {error}"),
        None => panic!("an invalid pattern must be reported"),
    }
}

#[test]
fn a_cached_pattern_answers_as_before() {
    let mut cache = RegexCache::new();
    assert_eq!(cache.is_match("a+b", "xaab"), Ok(true));
    assert_eq!(cache.is_match("a+b", "b"), Ok(false));
    assert_eq!(cache.is_match("a+b", "ab"), Ok(true));
    assert!(cache.is_match("a(", "a(").is_err());
    assert_eq!(replace_all("[0-9]+", "a1b22", "#"), "a#b#");
    assert_eq!(replace_all("(", "a(b", "#"), "a(b");
}

#[test]
fn a_criterion_without_a_context_reads_the_response() {
    let mut response = xml_response(b"<a><b>1</b></a>");
    assert_eq!(
        default_criterion_context(Some(&response)),
        Json::Text("<a><b>1</b></a>".to_string())
    );
    let criterion = named_criterion("xpath", "", "//b = 1");
    assert!(evaluate_criterion(
        &criterion,
        came_to(Json::Null),
        Some(&response),
        &unasked(),
        &mut RegexCache::new()
    ));

    response.body_json = Some(j("[1]"));
    assert_eq!(default_criterion_context(Some(&response)), j("[1]"));
    response.body_json = None;
    response.body = Vec::new();
    assert_eq!(default_criterion_context(Some(&response)), Json::Null);
    assert_eq!(default_criterion_context(None), Json::Null);
    response.body = vec![b'a', 0xff];
    assert_eq!(
        default_criterion_context(Some(&response)),
        Json::Text("a\u{fffd}".to_string())
    );
}

#[test]
fn a_context_that_warned_is_reported_with_the_criterion() {
    let criterion = named_criterion("regex", "$inputs.absent", "a");
    let evaluation = evaluate_criterion_detailed(
        &criterion,
        warned("$inputs.absent", "not found"),
        None,
        &unasked(),
        &mut RegexCache::new(),
    );
    assert!(!evaluation.matched);
    assert_eq!(evaluation.warnings.len(), 1);
    assert_eq!(evaluation.warnings[0].line(), "$inputs.absent: not found");
}

#[test]
fn an_xml_output_is_read_from_the_body() {
    let response = xml_response(b"<a><b>7</b></a>");
    assert_eq!(evaluate_output_expression("//b", &no_answers(), Some(&response)), j(r#""7""#));
    assert_eq!(evaluate_output_expression("//b", &no_answers(), None), Json::Null);
}

#[test]
fn a_selector_output_selects_from_its_context() {
    let mut answers = no_answers();
    answers.contexts.insert("$response.body".to_string(), came_to(j(r#"{"a": [1, 2]}"#)));
    let output = OutputValue::Selector(SelectorObject {
        context: "$response.body".to_string(),
        selector: "/a/1".to_string(),
        type_: SelectorType::Name("jsonpointer".to_string()),
    });
    let (value, warnings) = evaluate_output_value_detailed(&output, &answers, None);
    assert_eq!(value, j("2"));
    assert!(warnings.is_empty());
}
