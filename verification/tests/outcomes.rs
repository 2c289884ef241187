use arazzo_runtime::actions::{
    execute_action, handle_step_result, past_delay_gate, past_selected_gate, past_sleep,
    route_past_action, select_from, select_past_criterion, select_past_gate, ActionBranch,
    ActionExecution, ActionStep, ExhaustedRetry, FlowDecision, Interrupt, ResolvedAction,
    RetryReference, RoutedDecision, RoutingStep, Selection,
};
use arazzo_runtime::breakpoints::{
    breakpoint_condition_matches, first_matching_breakpoint, is_step_checkpoint, StepBreakpoint,
    StepCheckpoint,
};
use arazzo_runtime::error::{RuntimeError, RuntimeErrorKind};
use arazzo_runtime::json_pointer::{parse_replace_array_index, unescape_json_pointer_token};
use arazzo_runtime::model::{ActionType, OnAction, RetryAfter, Step, SuccessCriterion};
use arazzo_runtime::outcome::StepResult;
use arazzo_runtime::retries::{RetryCounts, RetrySite};
use arazzo_runtime::trace::TraceDecisionPath;

const GOING: Interrupt = Interrupt { cancelled: false, timed_out: false };
const CALLED_OFF: Interrupt = Interrupt { cancelled: true, timed_out: false };

fn result(success: bool) -> StepResult {
    StepResult { success, response: None, err: None, err_kind: None }
}

fn steps() -> Vec<Step> {
    ["a", "b"]
        .iter()
        .map(|id| Step { step_id: id.to_string(), ..Step::default() })
        .collect()
}

fn plain(step_id: &str, workflow_id: &str) -> ResolvedAction {
    ResolvedAction {
        step_id: step_id.to_string(),
        workflow_id: workflow_id.to_string(),
        inputs: None,
    }
}

fn begun(action: &OnAction, resolved: ResolvedAction, branch: ActionBranch) -> ActionStep {
    execute_action(
        action,
        resolved,
        &steps(),
        0,
        branch,
        None,
        RetrySite::new(0, 0),
        &RetryCounts::new(),
        None,
        GOING,
    )
}

fn routed(step: ActionStep) -> RoutedDecision {
    match step {
        ActionStep::Finished(ActionExecution::Routed(decision)) => decision,
        other => panic!("expected a decision, got {other:?}"),
    }
}

#[test]
fn an_end_action_ends_a_success_and_fails_a_failure() {
    let end = OnAction { type_: ActionType::End, ..OnAction::default() };
    let decision = routed(begun(&end, plain("", ""), ActionBranch::Success));
    assert!(matches!(decision.flow, FlowDecision::Done));
    assert_eq!(decision.trace.path, TraceDecisionPath::Done);
    assert_eq!(decision.trace.action_type, "end");
    match routed(begun(&end, plain("", ""), ActionBranch::Failure)).flow {
        FlowDecision::Error(err) => {
            assert_eq!(err.kind, RuntimeErrorKind::SuccessCriteriaFailed);
            assert_eq!(err.message, "step a: workflow ended by onFailure action");
        }
        other => panic!("expected an error, got {other:?}"),
    }
}

#[test]
fn a_goto_leads_to_a_step_or_a_workflow() {
    let goto = |step_id: &str, workflow_id: &str| OnAction {
        type_: ActionType::Goto,
        step_id: step_id.to_string(),
        workflow_id: workflow_id.to_string(),
        ..OnAction::default()
    };
    let to = |action: OnAction| {
        let resolved = plain(&action.step_id, &action.workflow_id);
        routed(begun(&action, resolved, ActionBranch::Success))
    };
    assert!(matches!(to(goto("b", "")).flow, FlowDecision::Next(1)));
    match to(goto("", "other")).flow {
        FlowDecision::GotoWorkflow { workflow_id, inputs } => {
            assert_eq!(workflow_id, "other");
            assert!(inputs.is_none());
        }
        other => panic!("expected a workflow, got {other:?}"),
    }
    match to(goto("none", "")).flow {
        FlowDecision::Error(err) => {
            assert_eq!(err.kind, RuntimeErrorKind::GotoTargetNotFound);
            assert_eq!(err.message, "goto: step \"none\" not found");
        }
        other => panic!("expected an error, got {other:?}"),
    }
    match to(goto("", "")).flow {
        FlowDecision::Error(err) => {
            assert_eq!(err.message, "goto: no stepId or workflowId specified");
        }
        other => panic!("expected an error, got {other:?}"),
    }
}

fn retry() -> OnAction {
    OnAction {
        type_: ActionType::Retry,
        retry_limit: Some(1),
        retry_after: RetryAfter { bits: 2.0f64.to_bits(), nanos: Some(2_000_000_000) },
        ..OnAction::default()
    }
}

#[test]
fn a_retry_passes_its_gates_and_waits() {
    let pending = match begun(&retry(), plain("", ""), ActionBranch::Failure) {
        ActionStep::GateSelected(pending) => pending,
        other => panic!("expected the first gate, got {other:?}"),
    };
    assert_eq!((pending.current, pending.limit), (0, 1));
    assert_eq!(pending.delay_nanos, 2_000_000_000);
    let pending = match past_selected_gate(pending, Ok(()), GOING) {
        ActionStep::GateDelay(pending) => pending,
        other => panic!("expected the second gate, got {other:?}"),
    };
    let pending = match past_delay_gate(pending, Ok(()), GOING) {
        ActionStep::Sleep(pending) => pending,
        other => panic!("expected a wait, got {other:?}"),
    };
    match past_sleep(pending, Ok(()), GOING) {
        ActionExecution::Routed(decision) => match decision.flow {
            FlowDecision::Retry { step_idx, retry_limit, delay_nanos, reference, .. } => {
                assert_eq!((step_idx, retry_limit, delay_nanos), (0, 1, 2_000_000_000));
                assert!(reference.is_none());
            }
            other => panic!("expected a retry, got {other:?}"),
        },
        other => panic!("expected a decision, got {other:?}"),
    }
}

#[test]
fn a_gate_that_fails_or_a_cancellation_ends_a_retry() {
    let pending = |step: ActionStep| match step {
        ActionStep::GateSelected(pending) => pending,
        other => panic!("expected the first gate, got {other:?}"),
    };
    let failed = RuntimeError::new(RuntimeErrorKind::DebugController, "gone".to_string());
    let first = pending(begun(&retry(), plain("", ""), ActionBranch::Failure));
    match routed(past_selected_gate(first, Err(failed), GOING)).flow {
        FlowDecision::Error(err) => assert_eq!(err.message, "gone"),
        other => panic!("expected an error, got {other:?}"),
    }
    let second = pending(begun(&retry(), plain("", ""), ActionBranch::Failure));
    match routed(past_selected_gate(second, Ok(()), CALLED_OFF)).flow {
        FlowDecision::Error(err) => assert_eq!(err.kind, RuntimeErrorKind::ExecutionCancelled),
        other => panic!("expected an error, got {other:?}"),
    }
}

#[test]
fn a_retry_runs_its_reference_first() {
    let mut action = retry();
    action.workflow_id = "fix".to_string();
    action.retry_after = RetryAfter { bits: 0, nanos: Some(0) };
    let pending = match begun(&action, plain("", "fix"), ActionBranch::Failure) {
        ActionStep::GateSelected(pending) => pending,
        other => panic!("expected the first gate, got {other:?}"),
    };
    match routed(past_selected_gate(pending, Ok(()), GOING)).flow {
        FlowDecision::Retry { reference: Some(reference), .. } => assert_eq!(
            reference,
            RetryReference::Workflow { workflow_id: "fix".to_string(), inputs: None }
        ),
        other => panic!("expected a reference, got {other:?}"),
    }
}

fn exhausted() -> ExhaustedRetry {
    ExhaustedRetry {
        effective_limit: 1,
        retry_after: RetryAfter { bits: 0, nanos: Some(0) },
        configured_limit: Some(1),
    }
}

fn next(index: usize) -> ActionExecution {
    ActionExecution::Routed(RoutedDecision {
        flow: FlowDecision::Next(index),
        trace: arazzo_runtime::trace::TraceDecision::with_path(TraceDecisionPath::GotoStep),
    })
}

#[test]
fn an_exhausted_retry_yields_to_the_actions_behind_it() {
    let answers = vec![None, Some(ActionExecution::RetryExhausted(exhausted())), Some(next(7))];
    let decision = handle_step_result("a", 0, &result(false), answers, GOING);
    assert!(matches!(decision.flow, FlowDecision::Next(7)));

    let alone = vec![Some(ActionExecution::RetryExhausted(exhausted()))];
    match handle_step_result("a", 0, &result(false), alone, GOING).flow {
        FlowDecision::Error(err) => {
            assert_eq!(err.kind, RuntimeErrorKind::RetryLimitExceeded);
            assert_eq!(err.message, "step a: max retries (1) exceeded");
        }
        other => panic!("expected an error, got {other:?}"),
    }
}

#[test]
fn without_an_action_a_success_goes_on_and_a_failure_ends() {
    let decision = handle_step_result("a", 3, &result(true), Vec::new(), GOING);
    assert!(matches!(decision.flow, FlowDecision::Next(4)));
    match handle_step_result("a", 3, &result(false), vec![None], GOING).flow {
        FlowDecision::Error(err) => {
            assert_eq!(err.message, "step a: success criteria not met");
        }
        other => panic!("expected an error, got {other:?}"),
    }
    match handle_step_result("a", 3, &result(true), vec![Some(next(7))], CALLED_OFF).flow {
        FlowDecision::Error(err) => assert_eq!(err.kind, RuntimeErrorKind::ExecutionCancelled),
        other => panic!("expected the cancellation, got {other:?}"),
    }
    match route_past_action("a", false, 2, ActionExecution::RetryExhausted(exhausted()), GOING) {
        RoutingStep::SearchFrom { action_index, .. } => assert_eq!(action_index, 3),
        other => panic!("expected the search to go on, got {other:?}"),
    }
}

#[test]
fn the_search_for_an_action_asks_criterion_by_criterion() {
    let criteria = || vec![SuccessCriterion::default(), SuccessCriterion::default()];
    let actions = vec![
        OnAction { criteria: criteria(), ..OnAction::default() },
        OnAction::default(),
    ];
    assert_eq!(select_from(&actions, 0), Selection::Gate { action_index: 0 });
    assert_eq!(
        select_past_gate(&actions, 0),
        Selection::Criterion { action_index: 0, criterion_index: 0 }
    );
    assert_eq!(
        select_past_criterion(&actions, 0, 0, true),
        Selection::Criterion { action_index: 0, criterion_index: 1 }
    );
    assert_eq!(
        select_past_criterion(&actions, 0, 1, true),
        Selection::Selected { action_index: 0 }
    );
    assert_eq!(
        select_past_criterion(&actions, 0, 0, false),
        Selection::Gate { action_index: 1 }
    );
    assert_eq!(select_past_gate(&actions, 1), Selection::Selected { action_index: 1 });
    assert_eq!(select_from(&actions, 2), Selection::Nothing);
}

#[test]
fn breakpoints_stand_at_their_checkpoints() {
    let at = || StepBreakpoint::new("wf".to_string(), "a".to_string());
    let places = vec![
        (at(), StepCheckpoint::Step),
        (at().at_success_criterion(1), StepCheckpoint::SuccessCriterion { index: 1 }),
        (at().at_on_success_action(2), StepCheckpoint::OnSuccessAction { index: 2 }),
        (at().at_on_failure_action(3), StepCheckpoint::OnFailureAction { index: 3 }),
        (
            at().at_on_success_criterion(4, 5),
            StepCheckpoint::OnSuccessCriterion { action_index: 4, criterion_index: 5 },
        ),
        (
            at().at_on_failure_criterion(6, 7),
            StepCheckpoint::OnFailureCriterion { action_index: 6, criterion_index: 7 },
        ),
        (
            at().at_on_success_retry_selected(8),
            StepCheckpoint::OnSuccessRetrySelected { action_index: 8 },
        ),
        (
            at().at_on_success_retry_delay(9),
            StepCheckpoint::OnSuccessRetryDelay { action_index: 9 },
        ),
        (
            at().at_on_failure_retry_selected(10),
            StepCheckpoint::OnFailureRetrySelected { action_index: 10 },
        ),
        (
            at().at_on_failure_retry_delay(11),
            StepCheckpoint::OnFailureRetryDelay { action_index: 11 },
        ),
        (at().at_output("x".to_string()), StepCheckpoint::Output { name: "x".to_string() }),
    ];
    for (i, (breakpoint, _)) in places.iter().enumerate() {
        for (k, (_, checkpoint)) in places.iter().enumerate() {
            assert_eq!(breakpoint.matches_identity("wf", "a", checkpoint), i == k, "{i} {k}");
            assert!(!breakpoint.matches_identity("wf", "b", checkpoint));
            assert!(!breakpoint.matches_identity("other", "a", checkpoint));
        }
    }
    assert!(is_step_checkpoint(&StepCheckpoint::Step));
    assert!(!is_step_checkpoint(&StepCheckpoint::SuccessCriterion { index: 0 }));
    let conditional = at().with_condition("x".to_string());
    assert!(!breakpoint_condition_matches(&conditional, false));
    assert!(breakpoint_condition_matches(&conditional, true));
    assert!(breakpoint_condition_matches(&at().with_condition("  ".to_string()), false));
    let list = vec![conditional, at()];
    let step = StepCheckpoint::Step;
    assert_eq!(first_matching_breakpoint(&list, &vec![false, true], "wf", "a", &step), Some(1));
    assert_eq!(first_matching_breakpoint(&list, &vec![true, true], "wf", "a", &step), Some(0));
    assert_eq!(first_matching_breakpoint(&list, &vec![true, true], "wf", "z", &step), None);
}

#[test]
fn errors_carry_codes() {
    let err = RuntimeError::unspecified("x".to_string());
    assert_eq!(err.kind, RuntimeErrorKind::Unspecified);
    assert_eq!(err.code(), RuntimeErrorKind::Unspecified.code());
    assert_eq!(RuntimeErrorKind::HttpRequest.code(), "RUNTIME_HTTP_REQUEST");
    assert_eq!(
        RuntimeErrorKind::RetryLimitExceeded.code(),
        "RUNTIME_RETRY_LIMIT_EXCEEDED"
    );
    assert!(RuntimeErrorKind::ExecutionTimeout.is_cancellation());
    assert!(RuntimeErrorKind::ExecutionCancelled.is_cancellation());
    assert!(!RuntimeErrorKind::HttpRequest.is_cancellation());
    let sourced =
        RuntimeError::with_source(RuntimeErrorKind::HttpRequest, "m".to_string(), "s".to_string());
    assert_eq!(sourced.copy().source, Some("s".to_string()));
}

#[test]
fn a_step_counts_its_retries_as_a_shared_count_would() {
    let mut shared = RetryCounts::new();
    let mut own = RetryCounts::new();
    for (step, action) in [(0, 0), (1, 0), (0, 1), (0, 0), (1, 1)] {
        let site = RetrySite::new(step, action);
        shared.increment(site);
        if step == 0 {
            own.increment(site);
        }
    }
    for action in [0, 1] {
        let site = RetrySite::new(0, action);
        assert_eq!(shared.get(site), own.get(site));
    }
    assert_eq!(own.get(RetrySite::new(0, 0)), 2);
    assert_eq!(own.get(RetrySite::new(1, 0)), 0);
}

#[test]
fn pointer_tokens_are_unescaped() {
    assert_eq!(unescape_json_pointer_token("a~1b~0c"), "a/b~c");
    assert_eq!(unescape_json_pointer_token("~01"), "~1");
    assert_eq!(parse_replace_array_index("12"), Ok(12));
    assert!(parse_replace_array_index("-").is_err());
    assert!(parse_replace_array_index("x").is_err());
}

#[test]
fn codes_are_made_of_capitals_and_underscores() {
    for kind in [
        RuntimeErrorKind::Unspecified,
        RuntimeErrorKind::UnsupportedSourceDescriptionType,
        RuntimeErrorKind::StepMissingDependency,
    ] {
        assert!(kind.code().chars().all(|c| c.is_ascii_uppercase() || c == '_'));
    }
}
