use arazzo_runtime::actions::{FlowDecision, Interrupt, RetryReference, RoutedDecision};
use arazzo_runtime::attempts::{AttemptCounts, SettledAttempt};
use arazzo_runtime::breakpoints::{StepBreakpoint, StepCheckpoint};
use arazzo_runtime::contexts::{checkpoint_context, make_eval_context};
use arazzo_runtime::controller::{DebugController, DebugStopReason};
use arazzo_runtime::criteria::{ConditionAnswers, CriterionEvaluation};
use arazzo_runtime::error::{RuntimeError, RuntimeErrorKind};
use arazzo_runtime::http_request::PreparedRequest;
use arazzo_runtime::http_url::UrlBuildResult;
use arazzo_runtime::json::Json;
use arazzo_runtime::json_text::parse_json;
use arazzo_runtime::levels::{
    after_level_attempt, restrict_to_level, sequential_fallback, settle_level,
    single_step_fallback, LevelEnd, LevelStep,
};
use arazzo_runtime::locals::{debug_scopes, output_locals, success_criterion_locals};
use arazzo_runtime::model::{
    Literal, OutputValue, ParamLocation, Parameter, SourceDescription, SourceType, Step,
    StepTarget, SuccessCriterion, ValueSource, Workflow,
};
use arazzo_runtime::outcome::{Response, StepExecution, StepResult, StepTraceData};
use arazzo_runtime::patterns::RegexCache;
use arazzo_runtime::payload::{Answers, Evaluated};
use arazzo_runtime::recording::{ParallelAttempt, Recorder};
use arazzo_runtime::replay::{ReplayState, RequestConfig};
use arazzo_runtime::retries::{RetryCounts, RetrySite, ScheduledRetry};
use arazzo_runtime::scheduler::{
    large_decimal_text, order_outcomes, AfterAttempt, RunStep, SelectedRun, SequentialRun,
    StepOutcome,
};
use arazzo_runtime::step_response::{evaluate_step_response, CriterionAnswers};
use arazzo_runtime::subworkflows::{
    build_outputs, find_reference_step, finish_call, map_action_parameters, read_sub_input,
    reference_error, reference_step_outcome, subworkflow_error, subworkflow_execution,
    subworkflow_inputs, subworkflow_result, SubInput,
};
use arazzo_runtime::text_map::TextMap;
use arazzo_runtime::trace::{
    ContentType, EngineEvent, ExecutionEventKind, ExecutionResult, ObserverEvent, TraceDecision,
    TraceDecisionPath, TraceRequest, TraceResponse, TraceStepRecord,
};
use arazzo_runtime::vars::VarStore;
use arazzo_runtime::workflow_run::{
    check_cancelled, enter_workflow, merge_workflow_params, require_workflow_dependencies,
    steps_to_run, validate_and_populate_inputs, WorkflowDependency,
};
use arazzo_runtime::INTERNAL_RUNTIME_API_VERSION;

const GOING: Interrupt = Interrupt { cancelled: false, timed_out: false };

fn j(text: &str) -> Json {
    match parse_json(text.as_bytes()) {
        Some(value) => value,
        None => panic!("parsing {text}"),
    }
}

fn map(entries: &[(&str, &str)]) -> TextMap<Json> {
    let mut map = TextMap::new();
    for (name, value) in entries {
        map.insert(name.to_string(), j(value));
    }
    map
}

fn no_answers() -> Answers {
    Answers { texts: TextMap::new(), contexts: TextMap::new(), queries: Vec::new() }
}

fn came_to(value: Json) -> Evaluated {
    Evaluated { value, warnings: Vec::new() }
}

fn step(id: &str) -> Step {
    Step {
        step_id: id.to_string(),
        target: Some(StepTarget::OperationPath(format!("/{id}"))),
        ..Step::default()
    }
}

fn workflow(ids: &[&str]) -> Workflow {
    Workflow {
        workflow_id: "wf".to_string(),
        steps: ids.iter().map(|id| step(id)).collect(),
        ..Workflow::default()
    }
}

fn error(message: &str) -> RuntimeError {
    RuntimeError::new(RuntimeErrorKind::Unspecified, message.to_string())
}

fn execution(outputs: TextMap<Json>, err: Option<&str>) -> StepExecution {
    StepExecution {
        result: StepResult {
            success: err.is_none(),
            response: None,
            err: err.map(|e| e.to_string()),
            err_kind: None,
        },
        outputs,
        dry_run_request: None,
        trace: StepTraceData {
            request: None,
            response: None,
            criteria: Vec::new(),
            warnings: Vec::new(),
        },
    }
}

fn settled(err: Option<&str>, flow: FlowDecision) -> SettledAttempt {
    let routed = RoutedDecision { flow, trace: TraceDecision::with_path(TraceDecisionPath::Next) };
    SettledAttempt::new(execution(map(&[("n", "1")]), err), 2_500_000, routed).0
}

fn retry_to(step_idx: usize, reference: Option<RetryReference>) -> FlowDecision {
    FlowDecision::Retry {
        step_idx,
        retry_site: RetrySite::new(step_idx, 0),
        retry_limit: 3,
        delay_nanos: 7,
        reference,
    }
}

#[test]
fn the_interface_has_a_version() {
    assert_eq!(INTERNAL_RUNTIME_API_VERSION, "v1");
}

#[test]
fn a_run_takes_its_steps_in_order() {
    let wf = workflow(&["a", "b"]);
    let mut run = SequentialRun::start(&wf);
    assert!(matches!(run.next(&wf, GOING), RunStep::Attempt(0)));
    assert!(matches!(run.advance(FlowDecision::Next(1), GOING), AfterAttempt::Continue));
    assert!(matches!(run.next(&wf, GOING), RunStep::Attempt(1)));
    assert!(matches!(run.advance(FlowDecision::Next(2), GOING), AfterAttempt::Continue));
    assert!(matches!(run.next(&wf, GOING), RunStep::Completed));
}

#[test]
fn a_retry_is_counted_and_a_reference_runs_first() {
    let wf = workflow(&["a"]);
    let mut run = SequentialRun::start(&wf);
    assert!(matches!(run.next(&wf, GOING), RunStep::Attempt(0)));
    match run.advance(retry_to(0, None), GOING) {
        AfterAttempt::Retried { step_idx, retry } => {
            assert_eq!(step_idx, 0);
            assert_eq!(retry, ScheduledRetry { attempt: 1, max_attempts: 3, delay_nanos: 7 });
        }
        other => panic!("expected a retry, got {other:?}"),
    }
    let reference = RetryReference::Step { step_id: "fix".to_string() };
    match run.advance(retry_to(0, Some(reference)), GOING) {
        AfterAttempt::Reference { step_idx, retry_site, retry_limit, delay_nanos, .. } => {
            assert_eq!(step_idx, 0);
            let after = run.after_reference(
                Ok(()),
                step_idx,
                retry_site,
                retry_limit,
                delay_nanos,
                GOING,
            );
            match after {
                AfterAttempt::Retried { retry, .. } => assert_eq!(retry.attempt, 2),
                other => panic!("expected a retry, got {other:?}"),
            }
        }
        other => panic!("expected a reference, got {other:?}"),
    }
}

#[test]
fn a_run_that_goes_round_in_circles_ends() {
    let wf = workflow(&["a"]);
    let mut run = SequentialRun::start(&wf);
    let limit = run.max_iterations;
    let mut attempts = 0u128;
    let failed = loop {
        match run.next(&wf, GOING) {
            RunStep::Attempt(0) => attempts += 1,
            RunStep::Failed(err) => break err,
            other => panic!("unexpected {other:?}"),
        }
        assert!(matches!(run.advance(FlowDecision::Next(0), GOING), AfterAttempt::Continue));
        assert!(attempts <= limit);
    };
    assert_eq!(attempts, limit);
    assert!(failed.message.contains("exceeded iteration limit ("), "{}", failed.message);
    assert!(failed.message.contains(&large_decimal_text(limit)));
}

#[test]
fn a_cancelled_run_stops_where_it_is() {
    let wf = workflow(&["a"]);
    let mut run = SequentialRun::start(&wf);
    let called_off = Interrupt { cancelled: true, timed_out: false };
    match run.next(&wf, called_off) {
        RunStep::Failed(err) => assert_eq!(err.kind, RuntimeErrorKind::ExecutionCancelled),
        other => panic!("expected the cancellation, got {other:?}"),
    }
    let late = Interrupt { cancelled: true, timed_out: true };
    match check_cancelled(late) {
        Ok(()) => panic!("expected the timeout"),
        Err(err) => assert_eq!(err.kind, RuntimeErrorKind::ExecutionTimeout),
    }
    assert!(check_cancelled(GOING).is_ok());
}

#[test]
fn selected_steps_retry_within_their_selection() {
    let mut run =
        SelectedRun { steps: vec![0, 2], cursor: 0, retry_count: RetryCounts::new(), left: 10 };
    assert!(matches!(run.next(GOING), RunStep::Attempt(0)));
    assert!(matches!(run.advance(FlowDecision::Next(1), GOING), AfterAttempt::Continue));
    assert!(matches!(run.next(GOING), RunStep::Attempt(2)));
    match run.advance(retry_to(1, None), GOING) {
        AfterAttempt::Failed(err) => {
            assert_eq!(err.message, "retry target step index 1 not in execute_step scope")
        }
        other => panic!("expected a failure, got {other:?}"),
    }
}

#[test]
fn outcomes_are_ordered_by_their_steps() {
    let outcome = |index: usize| StepOutcome {
        index,
        step_id: format!("s{index}"),
        outputs: TextMap::new(),
        flow: FlowDecision::Next(index + 1),
    };
    let ordered = order_outcomes(vec![outcome(2), outcome(0), outcome(1)]);
    let indexes: Vec<usize> = ordered.iter().map(|o| o.index).collect();
    assert_eq!(indexes, vec![0, 1, 2]);
}

#[test]
fn the_first_step_that_ends_a_level_decides_it() {
    let outcome = |index: usize, flow: FlowDecision| StepOutcome {
        index,
        step_id: format!("s{index}"),
        outputs: map(&[("v", &index.to_string())]),
        flow,
    };
    let mut vars = VarStore::default();
    let end = settle_level(
        &mut vars,
        vec![
            outcome(0, FlowDecision::Next(1)),
            outcome(1, FlowDecision::Error(error("first"))),
            outcome(2, FlowDecision::Done),
        ],
    );
    match end {
        Some(LevelEnd::Failed(err)) => assert_eq!(err.message, "first"),
        other => panic!("expected the first error, got {other:?}"),
    }
    assert_eq!(vars.step_outputs("s0").get("v"), Some(&j("0")));
    assert_eq!(vars.step_outputs("s1").len(), 0);
    assert_eq!(vars.step_outputs("s2").len(), 0);

    let mut vars = VarStore::default();
    assert!(matches!(
        settle_level(&mut vars, vec![outcome(0, FlowDecision::Done)]),
        Some(LevelEnd::Done)
    ));
    assert_eq!(vars.step_outputs("s0").get("v"), Some(&j("0")));
    assert!(settle_level(&mut vars, vec![outcome(0, FlowDecision::Next(1))]).is_none());
}

#[test]
fn a_level_keeps_its_steps_to_itself() {
    let away = RoutedDecision {
        flow: FlowDecision::GotoWorkflow { workflow_id: "x".to_string(), inputs: None },
        trace: TraceDecision::with_path(TraceDecisionPath::GotoWorkflow),
    };
    match restrict_to_level(away).flow {
        FlowDecision::Error(err) => assert_eq!(err.kind, RuntimeErrorKind::InternalError),
        other => panic!("expected an error, got {other:?}"),
    }
    let mut counts = RetryCounts::new();
    match after_level_attempt(&mut counts, retry_to(0, None)) {
        LevelStep::Retried(retry) => assert_eq!(retry.attempt, 1),
        other => panic!("expected a retry, got {other:?}"),
    }
    assert!(matches!(
        after_level_attempt(&mut counts, FlowDecision::Done),
        LevelStep::Settled(FlowDecision::Done)
    ));
}

#[test]
fn fallbacks_say_why_steps_run_one_by_one() {
    let wf = workflow(&["a"]);
    assert!(sequential_fallback(&wf, false).is_none());
    match sequential_fallback(&wf, true) {
        Some(fallback) => assert_eq!(fallback.detail, "a debug controller is attached"),
        None => panic!("a debugger runs steps one by one"),
    }
    let single = single_step_fallback("wf", "a");
    assert_eq!(
        single.detail,
        "step \"a\" was selected for single-step execution, which runs one step at a time"
    );
}

#[test]
fn a_workflow_is_entered_once_its_dependencies_have_completed() {
    let mut wf = workflow(&["a"]);
    wf.depends_on = vec!["first".to_string()];
    let classes = vec![WorkflowDependency::Local("first".to_string())];
    let mut completed = TextMap::new();
    match require_workflow_dependencies(&wf, &classes, &completed) {
        Ok(()) => panic!("expected a refusal"),
        Err(err) => {
            assert_eq!(err.kind, RuntimeErrorKind::WorkflowDependencyUnsatisfied);
            assert_eq!(
                err.message,
                "workflow \"wf\" depends on workflow \"first\", which has not completed in this execution context"
            );
        }
    }
    completed.insert("first".to_string(), ());
    assert!(enter_workflow(Some(&wf), "wf", &classes, &completed, 0, GOING).is_ok());
    match enter_workflow(None, "wf", &classes, &completed, 0, GOING) {
        Ok(()) => panic!("expected a refusal"),
        Err(err) => assert_eq!(err.message, "workflow \"wf\" not found"),
    }
    match enter_workflow(Some(&wf), "wf", &classes, &completed, 1000, GOING) {
        Ok(()) => panic!("expected a refusal"),
        Err(err) => assert!(err.message.starts_with("max call depth ("), "{}", err.message),
    }
    let elsewhere = vec![WorkflowDependency::External];
    assert!(require_workflow_dependencies(&wf, &elsewhere, &completed).is_err());
}

fn parameter(name: &str, in_: Option<ParamLocation>, value: &str) -> Parameter {
    Parameter {
        name: name.to_string(),
        in_,
        value: ValueSource::Literal(Literal::Text(value.to_string())),
    }
}

#[test]
fn a_step_overrides_the_parameters_of_its_workflow() {
    let mut own = step("a");
    own.parameters = vec![parameter("q", Some(ParamLocation::Query), "own")];
    merge_workflow_params(
        vec![
            parameter("q", Some(ParamLocation::Query), "inherited"),
            parameter("h", Some(ParamLocation::Header), "inherited"),
        ],
        &mut own,
    );
    let names: Vec<&str> = own.parameters.iter().map(|p| p.name.as_str()).collect();
    assert_eq!(names, vec!["h", "q"]);
    assert_eq!(own.parameters[1], parameter("q", Some(ParamLocation::Query), "own"));

    let mut call = step("b");
    call.target = Some(StepTarget::WorkflowId("other".to_string()));
    merge_workflow_params(vec![parameter("h", Some(ParamLocation::Header), "x")], &mut call);
    assert!(call.parameters.is_empty());
}

#[test]
fn a_selected_step_brings_the_steps_it_reads() {
    let mut wf = workflow(&["a", "b", "c"]);
    wf.steps[2].parameters =
        vec![parameter("q", Some(ParamLocation::Query), "$steps.a.outputs.id")];
    match steps_to_run(&wf, "c", false) {
        Ok(steps) => assert_eq!(steps, vec![0, 2]),
        Err(err) => panic!("{}", err.message),
    }
    match steps_to_run(&wf, "c", true) {
        Ok(steps) => panic!("expected a refusal, got {steps:?}"),
        Err(err) => assert_eq!(
            err.message,
            "step \"c\" references outputs from step(s) [a] which were not executed (use without --no-deps to auto-resolve)"
        ),
    }
    match steps_to_run(&wf, "b", true) {
        Ok(steps) => assert_eq!(steps, vec![1]),
        Err(err) => panic!("{}", err.message),
    }
    match steps_to_run(&wf, "none", false) {
        Ok(steps) => panic!("expected a refusal, got {steps:?}"),
        Err(err) => assert_eq!(err.message, "step \"none\" not found in workflow \"wf\""),
    }
}

#[test]
fn inputs_of_a_workflow_without_a_schema_are_taken_as_they_are() {
    match validate_and_populate_inputs(&workflow(&["a"]), map(&[("x", "1")]), true) {
        Ok((vars, warnings)) => {
            assert_eq!(vars.inputs.get("x"), Some(&j("1")));
            assert!(warnings.is_empty());
        }
        Err(err) => panic!("{}", err.message),
    }
}

#[test]
fn setting_one_output_leaves_the_others() {
    let mut vars = VarStore::default();
    vars.set_input("i", j("0"));
    vars.set_step_output("a", "x", j("1"));
    vars.set_step_output("b", "x", j("2"));
    vars.set_step_output("a", "y", j("3"));
    assert_eq!(vars.step_outputs("a").get("x"), Some(&j("1")));
    assert_eq!(vars.step_outputs("b").get("x"), Some(&j("2")));
    assert_eq!(vars.inputs.get("i"), Some(&j("0")));
    let copy = vars.copy();
    assert_eq!(copy, vars);
}

fn response(body: &[u8]) -> Response {
    let mut headers = TextMap::new();
    headers.insert("X-Id".to_string(), "7".to_string());
    Response {
        status_code: 201,
        headers,
        body: body.to_vec(),
        body_json: parse_json(body),
        content_type: ContentType::Json,
        redirects: Vec::new(),
    }
}

#[test]
fn expressions_see_inputs_outputs_and_the_response() {
    let mut vars = VarStore::default();
    vars.set_input("i", j("1"));
    vars.set_step_output("a", "x", j("2"));
    vars.register_workflow_state("other", map(&[("p", "3")]), map(&[("q", "4")]));
    let sources = vec![SourceDescription {
        name: "pets".to_string(),
        url: "https://pets.test".to_string(),
        type_: SourceType::OpenApi,
    }];
    let got = response(b"{\"id\": 5}");
    let context =
        make_eval_context(&vars, Some(&got), &Some("https://self.test".to_string()), &sources);
    assert_eq!(context.inputs.get("i"), Some(&j("1")));
    assert_eq!(context.steps.get("a").and_then(|m| m.get("x")), Some(&j("2")));
    assert_eq!(
        context.workflows.get("other").and_then(|w| w.outputs.get("q")),
        Some(&j("4"))
    );
    assert_eq!(context.status_code, Some(201));
    assert_eq!(context.response_headers.get("X-Id"), Some(&"7".to_string()));
    assert_eq!(context.response_body, Some(j("{\"id\": 5}")));
    assert_eq!(context.self_uri, Some("https://self.test".to_string()));
    assert_eq!(context.method, None);
    match context.source_descriptions.get("pets") {
        Some(source) => {
            assert_eq!(source.url, "https://pets.test");
            assert_eq!(source.type_, "openapi");
        }
        None => panic!("the source description is seen"),
    }

    let text = response(b"plain");
    let context = make_eval_context(&vars, Some(&text), &None, &sources);
    assert_eq!(context.response_body, Some(Json::Text("plain".to_string())));
    let binary = response(&[0xff]);
    assert_eq!(make_eval_context(&vars, Some(&binary), &None, &sources).response_body, None);

    let at = checkpoint_context(vars.copy(), None, &None, &sources, "a", &map(&[("y", "9")]));
    assert_eq!(at.steps.get("a").and_then(|m| m.get("y")), Some(&j("9")));
    assert_eq!(at.steps.get("a").and_then(|m| m.get("x")), Some(&j("2")));
    assert_eq!(at.status_code, None);
}

#[test]
fn a_debugger_sees_what_a_checkpoint_knows() {
    let evaluation = CriterionEvaluation {
        type_: "simple".to_string(),
        type_version: None,
        condition: "$statusCode == 201".to_string(),
        condition_result: true,
        matched: true,
        context_expr: String::new(),
        context_value: Json::Null,
        error: None,
        warnings: Vec::new(),
    };
    let got = response(b"{}");
    let locals = success_criterion_locals(2, &evaluation, None, Some(&got));
    assert_eq!(locals.get("statusCode"), Some(&j("201")));
    assert_eq!(locals.get("criterionIndex"), Some(&j("2")));
    let locals = output_locals("id", "$response.body.id", &map(&[("a", "1")]), None, None);
    assert_eq!(locals.get("statusCode"), Some(&j("0")));
    assert_eq!(locals.get("outputName"), Some(&j("\"id\"")));
    assert_eq!(locals.get("a"), Some(&j("1")));

    let mut vars = VarStore::default();
    vars.set_input("i", j("1"));
    let scopes = debug_scopes(vars, "s", &map(&[("o", "2")]), map(&[("l", "3")]));
    assert_eq!(scopes.inputs.get("i"), Some(&j("1")));
    assert_eq!(scopes.locals.get("l"), Some(&j("3")));
    assert_eq!(scopes.steps.get("s").and_then(|m| m.get("o")), Some(&j("2")));
}

#[test]
fn a_gate_holds_a_step_until_it_is_resumed() {
    let mut gate = DebugController::new();
    let at = StepCheckpoint::Step;
    assert!(!gate.gate_step("wf", "a", &at, &Vec::new()));
    gate.set_breakpoints(vec![
        StepBreakpoint::new("wf".to_string(), "a".to_string()).with_condition(" x == 1 ".to_string()),
    ]);
    assert!(!gate.gate_step("wf", "a", &at, &vec![false]));
    assert!(gate.gate_step("wf", "a", &at, &vec![true]));
    assert!(!gate.leave_gate());
    gate.resume();
    assert!(gate.leave_gate());
    gate.request_pause();
    assert!(gate.gate_step("wf", "b", &at, &vec![true]));
    let events = gate.stop_events();
    assert_eq!(events.len(), 2);
    assert_eq!((events[0].seq, events[1].seq), (1, 2));
    assert_eq!(events[0].reason, DebugStopReason::Breakpoint);
    assert_eq!(events[0].breakpoint_condition, Some(" x == 1 ".to_string()));
    assert_eq!(events[1].reason, DebugStopReason::Pause);
    assert_eq!(gate.wait_for_stop_count(2, false), Some(true));
    assert_eq!(gate.wait_for_stop_count(3, false), None);
    assert_eq!(gate.wait_for_stop_count(3, true), Some(false));
}

#[test]
fn attempts_are_numbered_per_step() {
    let mut counts = AttemptCounts::new();
    assert_eq!(counts.next_attempt("wf", "a"), 1);
    assert_eq!(counts.next_attempt("wf", "a"), 2);
    assert_eq!(counts.next_attempt("wf", "b"), 1);
    assert_eq!(counts.next_attempt("other", "a"), 1);
}

/// The stream of two attempts at a step, the first of which is retried.
fn two_attempts() -> (ParallelAttempt, ScheduledRetry, ParallelAttempt) {
    let sent = || {
        vec![EngineEvent::Observer(ObserverEvent::RequestSent {
            workflow_id: "wf".to_string(),
            step_id: "a".to_string(),
            method: "GET".to_string(),
            url: "https://a.test".to_string(),
        })]
    };
    let first = ParallelAttempt { events: sent(), settled: settled(Some("no"), retry_to(0, None)) };
    let retry = ScheduledRetry { attempt: 1, max_attempts: 3, delay_nanos: 7 };
    let last = ParallelAttempt { events: sent(), settled: settled(None, FlowDecision::Next(1)) };
    (first, retry, last)
}

#[test]
fn a_level_is_recorded_as_steps_in_turn() {
    let s = step("a");
    for tracing in [true, false] {
        let mut level = Recorder::new(tracing);
        let (first, retry, last) = two_attempts();
        level.announce("wf", &s);
        let _ = level.replay_step("wf", &s, vec![(first, retry)], last);

        let mut turn = Recorder::new(tracing);
        let (first, retry, last) = two_attempts();
        let number = turn.begin_attempt("wf", &s);
        turn.forward(first.events);
        turn.complete_attempt("wf", &s, &first.settled.execution, first.settled.duration_nanos);
        turn.trace_attempt("wf", &s, number, &first.settled);
        turn.report_retry("wf", &s, retry);
        let number = turn.begin_attempt("wf", &s);
        turn.forward(last.events);
        turn.complete_attempt("wf", &s, &last.settled.execution, last.settled.duration_nanos);
        turn.trace_attempt("wf", &s, number, &last.settled);

        assert_eq!(level.stream, turn.stream);
        let events = ExecutionResult { outputs: Ok(TextMap::new()), events: level.stream };
        let kinds: Vec<(u64, ExecutionEventKind)> =
            events.execution_events().iter().map(|e| (e.seq, e.kind)).collect();
        assert_eq!(
            kinds,
            vec![
                (1, ExecutionEventKind::BeforeStep),
                (2, ExecutionEventKind::AfterStep),
                (3, ExecutionEventKind::BeforeStep),
                (4, ExecutionEventKind::AfterStep),
            ]
        );
        let traced: Vec<(u64, u32, u64)> =
            events.trace_steps().iter().map(|t| (t.seq, t.attempt, t.duration_ms)).collect();
        if tracing {
            assert_eq!(traced, vec![(1, 1, 2), (2, 2, 2)]);
        } else {
            assert!(traced.is_empty());
        }
        assert!(events.dry_run_requests().is_empty());
    }
}

fn recorded(seq: u64, url: &str, response: Option<&str>, error: Option<&str>) -> TraceStepRecord {
    TraceStepRecord {
        seq,
        workflow_id: "wf".to_string(),
        step_id: "a".to_string(),
        attempt: 1,
        kind: "http".to_string(),
        operation_path: "/a".to_string(),
        workflow_id_ref: String::new(),
        duration_ms: 0,
        request: Some(TraceRequest {
            method: "GET".to_string(),
            url: url.to_string(),
            headers: TextMap::new(),
            body: None,
            redirects: Vec::new(),
        }),
        response: response.map(|body| TraceResponse {
            status_code: 200,
            content_type: ContentType::Json,
            headers: TextMap::new(),
            body_bytes: body.len() as u64,
            body_preview: None,
            body: Some(body.to_string()),
            body_lossy: false,
        }),
        criteria: Vec::new(),
        warnings: Vec::new(),
        decision: TraceDecision::with_path(TraceDecisionPath::Next),
        outputs: TextMap::new(),
        error: error.map(|e| e.to_string()),
    }
}

fn sent(url: &str) -> RequestConfig {
    RequestConfig {
        workflow_id: "wf".to_string(),
        step_id: "a".to_string(),
        method: "GET".to_string(),
        url: url.to_string(),
        headers: TextMap::new(),
        body: None,
    }
}

#[test]
fn recorded_requests_are_replayed_in_their_order() {
    let mut replay = ReplayState::from_trace_steps(&vec![
        recorded(1, "https://a.test/1", Some("{\"n\": 1}"), None),
        recorded(2, "https://a.test/2", None, Some("refused")),
        recorded(3, "https://a.test/3", None, None),
    ]);
    match replay.replay_request(&sent("https://a.test/1")) {
        Ok(response) => {
            assert_eq!(response.status_code, 200);
            assert_eq!(response.body, b"{\"n\": 1}".to_vec());
            assert_eq!(response.body_json, Some(j("{\"n\": 1}")));
        }
        Err(err) => panic!("{}", err.message),
    }
    let failed = |replay: &mut ReplayState, url: &str| match replay.replay_request(&sent(url)) {
        Ok(response) => panic!("expected an error, got {response:?}"),
        Err(err) => err,
    };
    assert_eq!(
        failed(&mut replay, "https://a.test/2").message,
        "replay trace request failed at seq 2 (attempt 1): refused"
    );
    assert_eq!(
        failed(&mut replay, "https://a.test/3").message,
        "replay trace missing response for workflow \"wf\" step \"a\" (seq 3)"
    );
    assert_eq!(
        failed(&mut replay, "https://a.test/4").message,
        "recorded replay requests exhausted for workflow \"wf\" step \"a\""
    );
    let mut other = sent("https://a.test/1");
    other.step_id = "b".to_string();
    match replay.replay_request(&other) {
        Ok(response) => panic!("expected an error, got {response:?}"),
        Err(err) => assert_eq!(
            err.message,
            "no recorded replay request for workflow \"wf\" step \"b\""
        ),
    }
}

#[test]
fn a_request_that_drifted_from_its_record_is_refused() {
    let drift = |change: &dyn Fn(&mut RequestConfig)| {
        let mut replay = ReplayState::from_trace_steps(&vec![recorded(
            4,
            "https://a.test/",
            Some("{}"),
            None,
        )]);
        let mut config = sent("https://a.test/");
        change(&mut config);
        match replay.replay_request(&config) {
            Ok(response) => panic!("expected drift, got {response:?}"),
            Err(err) => err.message,
        }
    };
    assert_eq!(
        drift(&|c| c.method = "POST".to_string()),
        "replay request drift at seq 4 attempt 1: method expected \"GET\" got \"POST\""
    );
    assert_eq!(
        drift(&|c| c.url = "https://b.test/".to_string()),
        "replay request drift at seq 4 attempt 1: url expected \"https://a.test/\" got \"https://b.test/\""
    );
    assert_eq!(
        drift(&|c| c.headers.insert("A".to_string(), "1\n".to_string())),
        "replay request drift at seq 4 attempt 1: headers expected {} got {\"A\": \"1\\n\"}"
    );
    assert_eq!(
        drift(&|c| c.body = Some(b"x".to_vec())),
        "replay request drift at seq 4 attempt 1: request body mismatch"
    );
}

#[test]
fn sub_workflow_inputs_are_read_from_their_texts() {
    assert_eq!(
        read_sub_input("$inputs.a"),
        SubInput::Expression("$inputs.a".to_string())
    );
    assert_eq!(
        read_sub_input("a {$inputs.a}"),
        SubInput::Interpolated("a {$inputs.a}".to_string())
    );
    let mut answers = no_answers();
    answers.contexts.insert("$inputs.a".to_string(), came_to(j("[1]")));
    answers.texts.insert("id {$inputs.a}".to_string(), came_to(j("\"id 1\"")));
    let inputs = subworkflow_inputs(
        &vec![
            parameter("a", None, "$inputs.a"),
            parameter("b", None, "id {$inputs.a}"),
        ],
        &vec!["$inputs.a".to_string(), "id {$inputs.a}".to_string()],
        &answers,
    );
    assert_eq!(inputs.get("a"), Some(&j("[1]")));
    assert_eq!(inputs.get("b"), Some(&j("\"id 1\"")));
}

#[test]
fn what_a_called_workflow_came_to_is_known_to_its_caller() {
    let mut vars = VarStore::default();
    finish_call(&mut vars, "s", "child", map(&[("i", "1")]), &map(&[("o", "2")]));
    assert_eq!(vars.step_outputs("s").get("o"), Some(&j("2")));
    match vars.workflow_states.get("child") {
        Some(state) => {
            assert_eq!(state.inputs.get("i"), Some(&j("1")));
            assert_eq!(state.outputs.get("o"), Some(&j("2")));
        }
        None => panic!("the called workflow is known"),
    }
    let err = subworkflow_error("child", error("boom"));
    assert_eq!(err.message, "sub-workflow child: boom");
    assert_eq!(err.source, Some("boom".to_string()));
    let dependency =
        RuntimeError::new(RuntimeErrorKind::WorkflowDependencyUnsatisfied, "wait".to_string());
    assert_eq!(subworkflow_error("child", dependency).message, "wait");
}

fn answered(holds: bool) -> CriterionAnswers {
    CriterionAnswers {
        context: came_to(Json::Null),
        asked: ConditionAnswers { nodes: Ok(0), holds, warnings: Vec::new() },
    }
}

fn simple(condition: &str) -> SuccessCriterion {
    SuccessCriterion { condition: condition.to_string(), ..SuccessCriterion::default() }
}

#[test]
fn a_call_succeeds_where_its_criteria_hold() {
    let criteria = vec![simple("a"), simple("b")];
    let mut cache = RegexCache::new();
    let good = subworkflow_result(&criteria, vec![answered(true), answered(true)], &mut cache);
    assert!(good.success);
    let bad = subworkflow_result(&criteria, vec![answered(true), answered(false)], &mut cache);
    assert!(!bad.success);
    let mut vars = VarStore::default();
    vars.set_step_output("s", "o", j("1"));
    let ran = subworkflow_execution(&vars, "s", good);
    assert_eq!(ran.outputs.get("o"), Some(&j("1")));
}

#[test]
fn a_reference_that_fails_is_named() {
    let wf = workflow(&["a", "fix"]);
    match find_reference_step(&wf, "wf", "a", "fix") {
        Ok(index) => assert_eq!(index, 1),
        Err(err) => panic!("{}", err.message),
    }
    match find_reference_step(&wf, "wf", "a", "none") {
        Ok(index) => panic!("expected an error, got {index}"),
        Err(err) => assert_eq!(
            err.message,
            "step a: retry reference step \"none\" not found in workflow \"wf\""
        ),
    }
    let failed = execution(TextMap::new(), Some("boom")).result;
    match reference_step_outcome("a", "fix", &failed) {
        Ok(()) => panic!("expected an error"),
        Err(err) => assert_eq!(err.message, "step a: retry reference step \"fix\": boom"),
    }
    assert!(reference_step_outcome("a", "fix", &execution(TextMap::new(), None).result).is_ok());
    let reference = RetryReference::Workflow { workflow_id: "other".to_string(), inputs: None };
    let named = reference_error("a", &reference, error("boom"));
    assert_eq!(named.message, "step a: retry reference workflow \"other\": boom");
    assert_eq!(named.source, Some("boom".to_string()));
    let waiting = RuntimeError::with_source(
        RuntimeErrorKind::WorkflowDependencyUnsatisfied,
        "wait".to_string(),
        "why".to_string(),
    );
    let passed = reference_error("a", &reference, waiting);
    assert_eq!((passed.message, passed.source), ("wait".to_string(), Some("why".to_string())));
}

#[test]
fn every_output_of_a_workflow_is_there() {
    let mut wf = workflow(&["a"]);
    wf.outputs.insert("x".to_string(), OutputValue::RuntimeExpression("$inputs.x".to_string()));
    wf.outputs.insert("y".to_string(), OutputValue::RuntimeExpression("$inputs.y".to_string()));
    let (outputs, _) = build_outputs(&wf, &Vec::new());
    assert_eq!(outputs.get("x"), Some(&Json::Null));
    assert_eq!(outputs.get("y"), Some(&Json::Null));
}

#[test]
fn action_parameters_become_inputs() {
    let mut answers = no_answers();
    answers.texts.insert("$inputs.a".to_string(), came_to(j("5")));
    let (inputs, warnings) =
        map_action_parameters(&vec![parameter("a", None, "$inputs.a")], &answers);
    assert!(warnings.is_empty());
    match inputs {
        Some(inputs) => assert_eq!(inputs.get("a"), Some(&j("5"))),
        None => panic!("parameters hand inputs on"),
    }
    let (none, _) = map_action_parameters(&Vec::new(), &answers);
    assert!(none.is_none());
}

#[test]
fn a_step_fails_at_the_first_criterion_that_does_not_hold() {
    let mut s = step("a");
    s.success_criteria = vec![simple("a"), simple("b"), simple("c")];
    s.outputs.insert("o".to_string(), OutputValue::RuntimeExpression("$response.body".to_string()));
    let prep = PreparedRequest {
        method: "GET".to_string(),
        url_result: UrlBuildResult {
            url: "https://a.test".to_string(),
            path_params: TextMap::new(),
            query_params: TextMap::new(),
            warnings: Vec::new(),
        },
        headers: TextMap::new(),
        body: None,
        body_json: None,
        trace_request: TraceRequest {
            method: "GET".to_string(),
            url: "https://a.test".to_string(),
            headers: TextMap::new(),
            body: None,
            redirects: Vec::new(),
        },
        warnings: Vec::new(),
    };
    let got = response(b"{\"id\": 5}");
    let mut answers = no_answers();
    answers.contexts.insert("$response.body".to_string(), came_to(j("{\"id\": 5}")));
    let failed = evaluate_step_response(
        &s,
        &prep,
        &got,
        vec![answered(true), answered(false), answered(true)],
        &answers,
        &mut RegexCache::new(),
    );
    assert!(!failed.result.success);
    assert_eq!(failed.outputs.len(), 0);
    assert_eq!(failed.trace.criteria.len(), 2);
    assert!(failed.trace.criteria[0].result);
    assert!(!failed.trace.criteria[1].result);

    let passed = evaluate_step_response(
        &s,
        &prep,
        &got,
        vec![answered(true), answered(true), answered(true)],
        &answers,
        &mut RegexCache::new(),
    );
    assert!(passed.result.success);
    assert_eq!(passed.outputs.get("o"), Some(&j("{\"id\": 5}")));
    assert_eq!(passed.trace.response.map(|r| r.body), Some(Some("{\"id\": 5}".to_string())));

    s.success_criteria = Vec::new();
    let plain = evaluate_step_response(
        &s,
        &prep,
        &got,
        Vec::new(),
        &answers,
        &mut RegexCache::new(),
    );
    assert!(plain.result.success);
}

#[test]
fn a_selected_run_has_the_attempts_of_its_steps() {
    let wf = workflow(&["a", "b", "c"]);
    let run = SelectedRun::start(&wf, vec![0, 2]);
    assert_eq!((run.cursor, run.left), (0, 20));
    assert_eq!(run.steps, vec![0, 2]);

    let mut run = SelectedRun::start(&wf, vec![0, 2]);
    run.cursor = 1;
    let site = RetrySite::new(2, 0);
    match run.after_reference(Ok(()), 2, site, 3, 7, GOING) {
        AfterAttempt::Retried { step_idx, retry } => {
            assert_eq!((step_idx, retry.attempt), (2, 1));
        }
        other => panic!("expected a retry, got {other:?}"),
    }
    assert_eq!((run.cursor, run.retry_count.get(site)), (1, 1));
    match run.after_reference(Err(error("boom")), 2, site, 3, 7, GOING) {
        AfterAttempt::Failed(err) => assert_eq!(err.message, "boom"),
        other => panic!("expected a failure, got {other:?}"),
    }
    match run.after_reference(Ok(()), 1, site, 3, 7, GOING) {
        AfterAttempt::Failed(err) => {
            assert_eq!(err.message, "retry target step index 1 not in execute_step scope");
        }
        other => panic!("expected a failure, got {other:?}"),
    }
    let called_off = Interrupt { cancelled: true, timed_out: false };
    match run.after_reference(Ok(()), 2, site, 3, 7, called_off) {
        AfterAttempt::Failed(err) => assert_eq!(err.kind, RuntimeErrorKind::ExecutionCancelled),
        other => panic!("expected the cancellation, got {other:?}"),
    }
    assert_eq!(run.retry_count.get(site), 1);
}

#[test]
fn a_resume_stores_no_permit_up() {
    let at = StepCheckpoint::Step;
    let mut gate = DebugController::new();
    gate.set_breakpoints(vec![StepBreakpoint::new("wf".to_string(), "a".to_string())]);
    gate.request_pause();
    gate.resume();
    gate.resume();
    assert!(!gate.gate_step("wf", "b", &at, &vec![true]));
    assert!(gate.gate_step("wf", "a", &at, &vec![true]));
    assert!(!gate.leave_gate());
    gate.resume();
    assert!(gate.leave_gate());
    assert!(gate.gate_step("wf", "a", &at, &vec![true]));
    assert!(!gate.leave_gate());
    let numbers: Vec<u64> = gate.stop_events().iter().map(|e| e.seq).collect();
    assert_eq!(numbers, vec![1, 2]);
    gate.clear_stop_events();
    assert!(gate.gate_step("wf", "a", &at, &vec![true]));
    assert_eq!(gate.stop_events()[0].seq, 3);
}
