use arazzo_runtime::actions::find_matching_action;
use arazzo_runtime::criteria::{evaluate_criterion, ConditionAnswers};
use arazzo_runtime::error::RuntimeErrorKind;
use arazzo_runtime::http_request::{prepare_http_request, PreparedRequest, RequestPlan};
use arazzo_runtime::http_url::{
    build_url_from_path, parse_method, OperationPathForm, UrlBuildResult,
};
use arazzo_runtime::json::Json;
use arazzo_runtime::json_text::parse_json;
use arazzo_runtime::model::{
    ActionType, Literal, OnAction, OutputValue, ParamLocation, Parameter, RequestBody,
    SelectorType, SourceDescription, SourceType, Step, StepTarget, SuccessCriterion,
    ValueSource, Workflow,
};
use arazzo_runtime::operations::OperationIndex;
use arazzo_runtime::outcome::Response;
use arazzo_runtime::patterns::RegexCache;
use arazzo_runtime::payload::{Answers, Evaluated, ExpressionWarning};
use arazzo_runtime::replay::{ReplayState, RequestConfig};
use arazzo_runtime::routing::{OperationIdTarget, RequestIndex};
use arazzo_runtime::step_response::{
    evaluate_step_response, execute_dry_run_step, CriterionAnswers,
};
use arazzo_runtime::subworkflows::build_outputs;
use arazzo_runtime::text_map::TextMap;
use arazzo_runtime::trace::{
    ContentType, TraceDecision, TraceDecisionPath, TraceRequest, TraceResponse, TraceStepRecord,
};
use std::collections::BTreeMap;

/// Reserved TLD: nothing here sends a request, and a fixture that starts to
/// would fail to resolve rather than reach a real host.
const BASE: &str = "https://api.invalid";

fn j(text: &str) -> Json {
    match parse_json(text.as_bytes()) {
        Some(value) => value,
        None => panic!("parsing {text}"),
    }
}

fn index_at(base: &str) -> RequestIndex {
    let mut source_bases = TextMap::new();
    source_bases.insert("test".to_string(), base.to_string());
    RequestIndex {
        source_descriptions: vec![SourceDescription {
            name: "test".to_string(),
            url: base.to_string(),
            type_: SourceType::OpenApi,
        }],
        base_url: base.to_string(),
        source_bases,
        explicit_specs: Vec::new(),
    }
}

fn param(name: &str, in_: Option<ParamLocation>, value: &str) -> Parameter {
    Parameter {
        name: name.to_string(),
        in_,
        value: ValueSource::Literal(Literal::Text(value.to_string())),
    }
}

fn step_at(op_path: &str, parameters: Vec<Parameter>) -> Step {
    Step {
        step_id: "s1".to_string(),
        target: Some(StepTarget::OperationPath(op_path.to_string())),
        parameters,
        ..Step::default()
    }
}

fn came_to(value: Json) -> Evaluated {
    Evaluated { value, warnings: Vec::new() }
}

fn missing(expression: &str) -> Evaluated {
    let warning =
        ExpressionWarning { expression: expression.to_string(), message: "not found".to_string() };
    Evaluated { value: Json::Null, warnings: vec![warning] }
}

/// The answers to plain texts, which stay as they are, and to the given
/// expressions.
fn answers(plain: &[&str], given: Vec<(&str, Evaluated)>) -> Answers {
    let mut texts = TextMap::new();
    for text in plain {
        texts.insert(text.to_string(), came_to(Json::Text(text.to_string())));
    }
    for (text, value) in given {
        texts.insert(text.to_string(), value);
    }
    Answers { texts, contexts: TextMap::new(), queries: Vec::new() }
}

fn base_path(path: &str) -> OperationPathForm {
    OperationPathForm::BasePath(path.to_string())
}

fn build_url(op_path: &str, step: &Step, known: &Answers) -> UrlBuildResult {
    match build_url_from_path(&index_at(BASE), op_path, None, &base_path(op_path), step, known) {
        Ok(result) => result,
        Err(err) => panic!("build_url_from_path({op_path:?}): {}", err.message),
    }
}

fn prepare_with(step: &Step, path: &str, known: &Answers) -> PreparedRequest {
    let operations = Ok(OperationIndex::new());
    let plan = RequestPlan {
        index: &index_at(BASE),
        operations: &operations,
        id_form: &OperationIdTarget::Bare(String::new()),
        path_form: &base_path(path),
        url_answers: known,
        answers: known,
        located: &Vec::new(),
    };
    match prepare_http_request(step, &plan) {
        Ok(prepared) => prepared,
        Err(err) => panic!("prepare_http_request: {}", err.message),
    }
}

fn query_pairs(url: &str) -> Vec<(String, String)> {
    let parsed = match url::Url::parse(url) {
        Ok(parsed) => parsed,
        Err(err) => panic!("parsing {url:?}: {err}"),
    };
    parsed.query_pairs().into_owned().collect()
}

fn entry(map: &TextMap<String>, key: &str) -> Option<String> {
    map.get(key).cloned()
}

/// An object cannot be exploded into key-value pairs the way an array can, so
/// it is serialized whole. The pair carries one JSON document as its value,
/// not one pair per member.
#[test]
fn a_query_parameter_holding_an_object_is_sent_as_one_json_string() {
    let known = answers(&[], vec![("$inputs.filter", came_to(j(r#"{ "status": "open" }"#)))]);
    let step =
        step_at("/items", vec![param("filter", Some(ParamLocation::Query), "$inputs.filter")]);
    let result = build_url("/items", &step, &known);

    assert_eq!(
        query_pairs(&result.url),
        vec![("filter".to_string(), r#"{"status":"open"}"#.to_string())],
        "the object is one value, not one pair per member: {}",
        result.url
    );
    assert_eq!(
        entry(&result.query_params, "filter"),
        Some(r#"{"status":"open"}"#.to_string()),
        "$request.query.filter must describe the query actually sent"
    );
}

/// An array is exploded, which is the contrasting rule: asserted here so the
/// object case above cannot be read as the general shape for structures.
#[test]
fn a_query_parameter_holding_an_array_is_exploded_into_one_pair_per_element() {
    let known = answers(&[], vec![("$inputs.tag", came_to(j(r#"["a", "b"]"#)))]);
    let step = step_at("/items", vec![param("tag", Some(ParamLocation::Query), "$inputs.tag")]);
    let result = build_url("/items", &step, &known);

    assert_eq!(
        query_pairs(&result.url),
        vec![("tag".to_string(), "a".to_string()), ("tag".to_string(), "b".to_string())],
        "actual: {}",
        result.url
    );
    assert_eq!(
        entry(&result.query_params, "tag"),
        Some("a,b".to_string()),
        "repeats collapse comma-joined for the expression context"
    );
}

/// A value with no location names no part of the request, so it reaches
/// neither the URL nor the headers rather than defaulting to one.
#[test]
fn a_parameter_with_no_in_location_reaches_no_part_of_the_request() {
    let known = answers(&["value"], Vec::new());
    let step = step_at("/items", vec![param("stray", None, "value")]);

    let result = build_url("/items", &step, &known);
    assert_eq!(result.url, format!("{BASE}/items"));
    assert_eq!(result.query_params.len(), 0, "actual: {:?}", result.query_params);
    assert_eq!(result.path_params.len(), 0, "actual: {:?}", result.path_params);

    let prepared = prepare_with(&step, "/items", &known);
    assert!(!prepared.headers.contains_key("stray"), "actual: {:?}", prepared.headers);
}

/// Every parameter is resolved once, by the site that owns its location.
#[test]
fn a_parameter_value_that_warns_is_reported_once_per_parameter() {
    for location in [
        ParamLocation::Header,
        ParamLocation::Cookie,
        ParamLocation::Query,
        ParamLocation::Path,
    ] {
        let known = answers(&[], vec![("$inputs.absent", missing("$inputs.absent"))]);
        let step =
            step_at("/items/{id}", vec![param("probe", Some(location), "$inputs.absent")]);
        let warnings = prepare_with(&step, "/items/{id}", &known).warnings;
        assert_eq!(
            warnings.len(),
            1,
            "{location:?}: one unresolvable value is one warning, got {warnings:?}"
        );
        assert!(warnings[0].starts_with("parameter \"probe\": "), "{location:?}: {warnings:?}");
    }
}

/// A parameter carrying no `in:` binds nothing, but its value is still
/// resolved so an unresolvable one is not silently dropped.
#[test]
fn a_parameter_with_no_in_location_still_reports_an_unresolvable_value_once() {
    let known = answers(&[], vec![("$inputs.absent", missing("$inputs.absent"))]);
    let step = step_at("/items", vec![param("probe", None, "$inputs.absent")]);

    let warnings = prepare_with(&step, "/items", &known).warnings;
    assert_eq!(warnings.len(), 1, "actual: {warnings:?}");
    assert!(warnings[0].starts_with("parameter \"probe\": "), "actual: {warnings:?}");
}

/// Query parameters are appended to whatever query the resolved target already
/// carries, joined with `&`. Only `in: querystring` replaces it.
#[test]
fn query_parameters_append_to_a_target_that_already_carries_a_query() {
    let known = answers(&["rust"], Vec::new());
    let step =
        step_at("/search?scope=all", vec![param("q", Some(ParamLocation::Query), "rust")]);

    let result = build_url("/search?scope=all", &step, &known);
    assert_eq!(result.url, format!("{BASE}/search?scope=all&q=rust"));
}

/// The component is written verbatim, so a repeated key stays repeated on the
/// wire; for expressions the repeat collapses comma-joined.
#[test]
fn a_querystring_repeating_one_key_stays_verbatim_and_collapses_for_expressions() {
    let known = answers(&["tag=a&tag=b"], Vec::new());
    let step =
        step_at("/search", vec![param("raw", Some(ParamLocation::Querystring), "tag=a&tag=b")]);

    let result = build_url("/search", &step, &known);
    assert_eq!(
        result.url,
        format!("{BASE}/search?tag=a&tag=b"),
        "an already-encoded component is never re-encoded"
    );
    assert_eq!(
        entry(&result.query_params, "tag"),
        Some("a,b".to_string()),
        "$request.query.tag must describe the query actually sent"
    );
}

/// A bare trailing `?` is an empty query component: nothing was declared twice,
/// so the `querystring` takes over.
#[test]
fn a_querystring_takes_over_a_bare_trailing_question_mark() {
    let known = answers(&["page=2"], Vec::new());
    let step =
        step_at("/items?", vec![param("raw", Some(ParamLocation::Querystring), "page=2")]);

    let result = build_url("/items?", &step, &known);
    assert_eq!(result.url, format!("{BASE}/items?page=2"));
}

/// The negative case for the rule above: a target carrying a real query is two
/// declarations of the same component, and the step fails rather than picking
/// one.
#[test]
fn a_querystring_meeting_a_non_empty_target_query_is_refused() {
    let known = answers(&["page=2"], Vec::new());
    let step =
        step_at("/items?page=1", vec![param("raw", Some(ParamLocation::Querystring), "page=2")]);

    let path = "/items?page=1";
    let err = match build_url_from_path(&index_at(BASE), path, None, &base_path(path), &step, &known)
    {
        Ok(result) => panic!("expected a refusal, built {}", result.url),
        Err(err) => err,
    };
    assert_eq!(err.kind, RuntimeErrorKind::InvalidParameterValue);
    assert!(err.message.contains("already carries a query"), "actual: {}", err.message);
}

/// An `operationPath` naming no method leaves the step to the default, which
/// reads `requestBody` presence.
#[test]
fn the_method_defaults_to_post_with_a_request_body_and_get_without() {
    let known = answers(&["widget"], Vec::new());
    let mut with_body = step_at("/items", Vec::new());
    with_body.request_body = Some(RequestBody {
        content_type: "application/json".to_string(),
        payload: Some(ValueSource::Literal(Literal::Mapping(vec![(
            Some("name".to_string()),
            ValueSource::Literal(Literal::Text("widget".to_string())),
        )]))),
        ..RequestBody::default()
    });

    let prepared = prepare_with(&with_body, "/items", &known);
    assert_eq!(prepared.method, "POST");
    assert_eq!(prepared.body_json, Some(j(r#"{"name": "widget"}"#)));
    assert_eq!(prepared.body, Some(br#"{"name":"widget"}"#.to_vec()));
    assert_eq!(prepare_with(&step_at("/items", Vec::new()), "/items", &known).method, "GET");
}

/// An explicit method token always wins, including over the `requestBody`
/// default it contradicts.
#[test]
fn an_explicit_method_token_overrides_the_request_body_default() {
    let known = answers(&["body"], Vec::new());
    let mut step = step_at("PUT /items", Vec::new());
    step.request_body = Some(RequestBody {
        content_type: "application/json".to_string(),
        payload: Some(ValueSource::Literal(Literal::Text("body".to_string()))),
        ..RequestBody::default()
    });

    assert_eq!(prepare_with(&step, "/items", &known).method, "PUT");
}

/// The method default keys off the `requestBody` field, not off the payload
/// inside it: a `requestBody` with nothing to send still makes the step a
/// POST, and sends no body and no `Content-Type` describing one.
#[test]
fn a_request_body_with_no_payload_sends_no_body_but_still_defaults_to_post() {
    let known = answers(&[], Vec::new());
    let mut step = step_at("/items", Vec::new());
    step.request_body = Some(RequestBody {
        content_type: "application/json".to_string(),
        payload: None,
        ..RequestBody::default()
    });

    let prepared = prepare_with(&step, "/items", &known);
    assert_eq!(prepared.method, "POST");
    assert!(prepared.body.is_none(), "actual: {:?}", prepared.body);
    assert!(prepared.body_json.is_none(), "actual: {:?}", prepared.body_json);
    assert!(
        !prepared.headers.contains_key("Content-Type"),
        "no body means no Content-Type describing one: {:?}",
        prepared.headers
    );
}

/// A step naming neither `operationId` nor `operationPath` resolves to the
/// engine base with no path appended, rather than being refused.
#[test]
fn a_step_with_no_target_requests_the_engine_base() {
    let known = answers(&[], Vec::new());
    let step = Step { step_id: "s1".to_string(), ..Step::default() };

    let prepared = prepare_with(&step, "", &known);
    assert_eq!(prepared.method, "GET");
    assert_eq!(prepared.url_result.url, BASE);
}

/// A dry run evaluates outputs against a synthetic response, and an output
/// whose expression cannot be resolved is named in the warning rather than
/// reported as an anonymous failure.
#[test]
fn a_dry_run_names_the_output_whose_expression_warned() {
    let mut step = step_at("/items", Vec::new());
    step.outputs.insert(
        "token".to_string(),
        OutputValue::RuntimeExpression("$nope.thing".to_string()),
    );
    let known = answers(&[], Vec::new());
    let prepared = prepare_with(&step, "/items", &known);
    let mut after = answers(&[], Vec::new());
    after.contexts.insert("$nope.thing".to_string(), missing("$nope.thing"));

    let execution = execute_dry_run_step(&step, prepared, &after);
    let request = match &execution.dry_run_request {
        Some(request) => request,
        None => panic!("expected exactly one dry-run request"),
    };
    assert!(
        request.warnings.iter().any(|warning| warning.starts_with(r#"output "token": "#)),
        "actual: {:?}",
        request.warnings
    );
}

/// A criterion whose expression warns is attributed by its position in
/// `successCriteria`, so an author with several criteria learns which one
/// warned. Two criteria are declared and only the second warns, which is what
/// makes the index assertion meaningful.
#[test]
fn a_success_criterion_warning_carries_the_index_of_the_criterion() {
    let mut step = step_at("/items", Vec::new());
    step.success_criteria = vec![
        SuccessCriterion {
            condition: "$statusCode == 200".to_string(),
            ..SuccessCriterion::default()
        },
        // Warns on the left branch, then passes on the right, so the step
        // succeeds and the warning is the only thing under test.
        SuccessCriterion {
            condition: "$inputs.absent == true || $statusCode == 200".to_string(),
            ..SuccessCriterion::default()
        },
    ];
    let known = answers(&[], Vec::new());
    let prepared = prepare_with(&step, "/items", &known);

    // Replayed rather than served: a trace supplies the response without a
    // socket.
    let replayed = vec![TraceStepRecord {
        seq: 1,
        workflow_id: "wf".to_string(),
        step_id: "s1".to_string(),
        attempt: 1,
        kind: "http".to_string(),
        operation_path: "/items".to_string(),
        workflow_id_ref: String::new(),
        duration_ms: 0,
        request: Some(TraceRequest {
            method: "GET".to_string(),
            url: format!("{BASE}/items"),
            headers: TextMap::new(),
            body: None,
            redirects: Vec::new(),
        }),
        response: Some(TraceResponse {
            status_code: 200,
            content_type: ContentType::Json,
            headers: TextMap::new(),
            body_bytes: 2,
            body_preview: None,
            body: Some("{}".to_string()),
            body_lossy: false,
        }),
        criteria: Vec::new(),
        warnings: Vec::new(),
        decision: TraceDecision::with_path(TraceDecisionPath::Next),
        outputs: TextMap::new(),
        error: None,
    }];
    let mut replay = ReplayState::from_trace_steps(&replayed);
    let sent = RequestConfig {
        workflow_id: "wf".to_string(),
        step_id: "s1".to_string(),
        method: prepared.method.clone(),
        url: prepared.url_result.url.clone(),
        headers: TextMap::new(),
        body: None,
    };
    let response = match replay.replay_request(&sent) {
        Ok(response) => response,
        Err(err) => panic!("expected the replayed step to succeed, got: {}", err.message),
    };
    let asked = vec![
        CriterionAnswers {
            context: came_to(Json::Null),
            asked: ConditionAnswers { nodes: Ok(0), holds: true, warnings: Vec::new() },
        },
        CriterionAnswers {
            context: came_to(Json::Null),
            asked: ConditionAnswers {
                nodes: Ok(0),
                holds: true,
                warnings: vec![ExpressionWarning {
                    expression: "$inputs.absent".to_string(),
                    message: "not found".to_string(),
                }],
            },
        },
    ];

    let execution =
        evaluate_step_response(&step, &prepared, &response, asked, &known, &mut RegexCache::new());
    assert!(execution.result.success);
    let attributed: Vec<&String> = execution
        .trace
        .warnings
        .iter()
        .filter(|warning| warning.starts_with("successCriteria["))
        .collect();
    assert_eq!(attributed.len(), 1, "only the second criterion warns: {:?}", execution.trace);
    assert!(
        attributed[0].starts_with("successCriteria[1]: "),
        "the warning must name the criterion that produced it: {:?}",
        attributed[0]
    );
}

#[test]
fn parse_method_supports_known_verbs() {
    let parsed = |text: &str| {
        let (method, path) = parse_method(text);
        format!("{method}|{path}")
    };
    assert_eq!(parsed("GET /items"), "GET|/items");
    assert_eq!(parsed("POST /items"), "POST|/items");
    assert_eq!(parsed("DELETE /items/1"), "DELETE|/items/1");
    assert_eq!(parsed("PATCH /items/1"), "PATCH|/items/1");
    assert_eq!(parsed("HEAD /health"), "HEAD|/health");
    assert_eq!(parsed("OPTIONS /api"), "OPTIONS|/api");
    assert_eq!(parsed("/items"), "|/items");
    assert_eq!(parsed(""), "|");
    assert_eq!(parsed("UNKNOWN /items"), "|UNKNOWN /items");
}

fn criterion_result(criterion: &SuccessCriterion, status: i64, nodes: usize) -> bool {
    let response = Response {
        status_code: status,
        headers: TextMap::new(),
        body: br#"{"pets":[{"id":1}]}"#.to_vec(),
        body_json: Some(j(r#"{"pets":[{"id":1}]}"#)),
        content_type: ContentType::Json,
        redirects: Vec::new(),
    };
    let holds = criterion.condition == format!("$statusCode == {status}");
    let asked = ConditionAnswers { nodes: Ok(nodes), holds, warnings: Vec::new() };
    let body = came_to(j(r#"{"pets":[{"id":1}]}"#));
    evaluate_criterion(criterion, body, Some(&response), &asked, &mut RegexCache::new())
}

fn results(actions: &[OnAction], status: i64, nodes: usize) -> Vec<Vec<bool>> {
    actions
        .iter()
        .map(|a| a.criteria.iter().map(|c| criterion_result(c, status, nodes)).collect())
        .collect()
}

#[test]
fn find_matching_action_behavior() {
    let no_criteria = vec![OnAction { type_: ActionType::End, ..OnAction::default() }];
    let first = find_matching_action(&no_criteria, &results(&no_criteria, 0, 0), 0);
    match first {
        Some(i) => assert_eq!(no_criteria[i].type_, ActionType::End),
        None => panic!("an action without criteria applies"),
    }

    let throttled = || SuccessCriterion {
        condition: "$statusCode == 429".to_string(),
        ..SuccessCriterion::default()
    };
    let with_criteria = vec![OnAction {
        type_: ActionType::Retry,
        criteria: vec![throttled()],
        ..OnAction::default()
    }];
    let none = find_matching_action(&with_criteria, &results(&with_criteria, 0, 0), 0);
    assert!(none.is_none());

    let ordered = vec![
        OnAction {
            name: "first".to_string(),
            type_: ActionType::Retry,
            criteria: vec![throttled()],
            ..OnAction::default()
        },
        OnAction { name: "second".to_string(), type_: ActionType::End, ..OnAction::default() },
    ];
    match find_matching_action(&ordered, &results(&ordered, 429, 0), 0) {
        Some(i) => assert_eq!(ordered[i].name, "first".to_string()),
        None => panic!("the first action applies"),
    }

    let typed = vec![OnAction {
        name: "typed".to_string(),
        type_: ActionType::Goto,
        step_id: "next".to_string(),
        criteria: vec![SuccessCriterion {
            context: "$response.body".to_string(),
            condition: "$.pets[0]".to_string(),
            type_: Some(SelectorType::ExpressionType {
                type_: "jsonpath".to_string(),
                version: "draft-goessner-dispatch-jsonpath-00".to_string(),
            }),
        }],
        ..OnAction::default()
    }];
    match find_matching_action(&typed, &results(&typed, 200, 1), 0) {
        Some(i) => assert_eq!(typed[i].name, "typed".to_string()),
        None => panic!("the typed action applies"),
    }
}

#[test]
fn build_outputs_evaluates_inputs_and_step_values() {
    let mut workflow = Workflow::default();
    for (name, expression) in
        [("inputName", "$inputs.name"), ("stepResult", "$steps.s1.outputs.result")]
    {
        workflow.outputs.insert(
            name.to_string(),
            OutputValue::RuntimeExpression(expression.to_string()),
        );
    }
    let known = || {
        answers(
            &[],
            vec![
                ("$inputs.name", came_to(j(r#""test""#))),
                ("$steps.s1.outputs.result", came_to(j(r#""hello""#))),
            ],
        )
    };

    let (outputs, warnings) = build_outputs(&workflow, &vec![known(), known()]);
    assert_eq!(outputs.get("inputName"), Some(&j(r#""test""#)));
    assert_eq!(outputs.get("stepResult"), Some(&j(r#""hello""#)));
    assert!(warnings.is_empty());
}

#[test]
fn build_url_encodes_query_params() {
    let known = answers(
        &["a=b"],
        vec![("$inputs.q", came_to(Json::Text("hello world&more=stuff".to_string())))],
    );
    let step = step_at(
        "/search",
        vec![
            param("q", Some(ParamLocation::Query), "$inputs.q"),
            param("tag", Some(ParamLocation::Query), "a=b"),
        ],
    );
    let path = "/search";
    let index = index_at("http://localhost");
    let url_result =
        match build_url_from_path(&index, path, None, &base_path(path), &step, &known) {
            Ok(v) => v,
            Err(err) => panic!("building URL for query encoding test: {}", err.message),
        };
    let query: BTreeMap<String, String> = query_pairs(&url_result.url).into_iter().collect();
    assert_eq!(query.get("q"), Some(&"hello world&more=stuff".to_string()));
    assert_eq!(query.get("tag"), Some(&"a=b".to_string()));
    assert_eq!(
        url_result.url,
        "http://localhost/search?q=hello+world%26more%3Dstuff&tag=a%3Db"
    );
}

#[test]
fn build_url_avoids_double_slash() {
    let known = answers(&[], Vec::new());
    let step = step_at("/users", Vec::new());
    let index = index_at("https://api.example.com/");
    let url_result =
        match build_url_from_path(&index, "/users", None, &base_path("/users"), &step, &known) {
            Ok(v) => v,
            Err(err) => panic!("building URL for slash normalization test: {}", err.message),
        };
    assert_eq!(url_result.url, "https://api.example.com/users");
    assert!(!url_result.url.contains("//users"));
}

#[test]
fn build_url_errors_for_unknown_source_description_prefix() {
    let known = answers(&[], Vec::new());
    let step = step_at("{missing}./users", Vec::new());
    let form = OperationPathForm::SourceRouted {
        source_name: "missing".to_string(),
        path: "/users".to_string(),
    };
    let index = index_at("https://api.example.com");
    let err = match build_url_from_path(&index, "{missing}./users", None, &form, &step, &known) {
        Ok(result) => panic!("expected unknown sourceDescription error, got URL {}", result.url),
        Err(err) => err,
    };
    assert_eq!(err.kind, RuntimeErrorKind::SourceDescriptionNotFound);
    assert_eq!(err.code(), "RUNTIME_SOURCE_DESCRIPTION_NOT_FOUND");
}
