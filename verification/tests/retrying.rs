use arazzo_runtime::actions::{compute_retry_after_delay, FlowDecision, RoutedDecision};
use arazzo_runtime::attempts::SettledAttempt;
use arazzo_runtime::error::{RuntimeError, RuntimeErrorKind};
use arazzo_runtime::json::Json;
use arazzo_runtime::model::{ActionType, OnAction, RetryAfter, Step};
use arazzo_runtime::outcome::{settle, StepExecution, StepResult, StepTraceData};
use arazzo_runtime::retries::{
    compute_max_iterations, count_retry, effective_retry_limit, RetryCounts, RetrySite,
};
use arazzo_runtime::text_map::TextMap;
use arazzo_runtime::trace::{TraceDecision, TraceDecisionPath};
use std::time::Duration;

fn secs(n: u128) -> u128 {
    n * 1_000_000_000
}

fn after(seconds: f64) -> RetryAfter {
    RetryAfter {
        bits: seconds.to_bits(),
        nanos: Duration::try_from_secs_f64(seconds).ok().map(|d| d.as_nanos()),
    }
}



fn execution(
    success: bool,
    err: Option<&str>,
    outputs: TextMap<Json>,
) -> StepExecution {
    StepExecution {
        result: StepResult {
            success,
            response: None,
            err: err.map(str::to_string),
            err_kind: None,
        },
        outputs,
        dry_run_request: None,
        trace: StepTraceData {
            request: None,
            response: None,
            criteria: Vec::new(),
            warnings: Vec::new(),
        },
    }
}

#[test]
fn settle_keeps_a_run_that_returned_an_execution() {
    let mut outputs = TextMap::new();
    outputs.insert("ok".to_string(), Json::Bool(true));
    let settled = settle(Ok(execution(true, None, outputs)));

    assert!(settled.result.success);
    assert_eq!(settled.result.err, None);
    assert_eq!(settled.outputs.len(), 1);
    assert_eq!(settled.outputs.get("ok"), Some(&Json::Bool(true)));
}

#[test]
fn settle_turns_a_runtime_error_into_a_failed_attempt() {
    let settled = settle(Err(RuntimeError::new(
        RuntimeErrorKind::HttpRequest,
        "connection refused".to_string(),
    )));

    assert!(!settled.result.success);
    assert!(settled.result.response.is_none());
    assert_eq!(settled.result.err.as_deref(), Some("connection refused"));
    assert_eq!(settled.result.err_kind, Some(RuntimeErrorKind::HttpRequest));
    assert!(settled.outputs.len() == 0);
    assert!(settled.dry_run_request.is_none());
    assert!(settled.trace.request.is_none());
    assert!(settled.trace.response.is_none());
    assert!(settled.trace.criteria.is_empty());
    assert!(settled.trace.warnings.is_empty());
}

#[test]
fn a_settled_attempt_traces_the_error_that_ends_the_workflow() {
    let routed = RoutedDecision::error(RuntimeError::new(
        RuntimeErrorKind::RetryLimitExceeded,
        "step s: max retries (2) exceeded".to_string(),
    ));
    let duration: u128 = 5_000_000;

    let (attempt, flow) = SettledAttempt::new(
        execution(false, Some("connection refused"), TextMap::new()),
        duration,
        routed,
    );

    assert!(matches!(
        flow,
        FlowDecision::Error(ref err) if err.kind == RuntimeErrorKind::RetryLimitExceeded
    ));
    assert_eq!(
        attempt.trace_error.as_deref(),
        Some("step s: max retries (2) exceeded")
    );
    assert_eq!(attempt.decision.path, TraceDecisionPath::Error);
    assert_eq!(attempt.duration_nanos, duration);
}

#[test]
fn a_settled_attempt_traces_its_own_error_when_routing_continues() {
    for err in [None, Some("connection refused")] {
        let decision = TraceDecision::with_path(TraceDecisionPath::Next);
        let routed = RoutedDecision {
            flow: FlowDecision::Next(1),
            trace: TraceDecision::with_path(TraceDecisionPath::Next),
        };

        let (attempt, flow) = SettledAttempt::new(
            execution(err.is_none(), err, TextMap::new()),
            0,
            routed,
        );

        assert!(matches!(flow, FlowDecision::Next(1)));
        assert_eq!(attempt.trace_error.as_deref(), err);
        assert_eq!(attempt.decision, decision);
    }
}

#[test]
fn count_retry_counts_each_site_from_one() {
    let first_action = RetrySite::new(0, 0);
    let later_action = RetrySite::new(0, 1);
    let mut counts = RetryCounts::new();

    let reported: Vec<(u64, u64, u128)> = [
        count_retry(&mut counts, first_action, 3, 500_000_000),
        count_retry(&mut counts, first_action, 3, 500_000_000),
        count_retry(&mut counts, later_action, 1, 2_000_000_000),
    ]
    .iter()
    .map(|retry| (retry.attempt, retry.max_attempts, retry.delay_nanos))
    .collect();

    assert_eq!(
        reported,
        [(1, 3, 500_000_000), (2, 3, 500_000_000), (1, 1, 2_000_000_000)]
    );
    assert_eq!(counts.get(first_action), 2);
    assert_eq!(counts.get(later_action), 1);
}


#[test]
fn effective_retry_limit_preserves_u64_max() {
    assert_eq!(effective_retry_limit(Some(u64::MAX)), u64::MAX);
}

#[test]
fn retry_after_header_integer_overrides_config() {
    let action = OnAction {
        retry_after: after(10.0),
        ..OnAction::default()
    };
    let mut headers = TextMap::new();
    headers.insert("Retry-After".to_string(), "2".to_string());
    let delay = compute_retry_after_delay(&action, Some(&headers))
        .unwrap_or_else(|err| panic!("integer header delay must convert: {}", err.message));
    assert_eq!(delay, secs(2));
}

#[test]
fn retry_after_header_respected_when_no_config() {
    let action = OnAction {
        retry_after: after(0.0),
        ..OnAction::default()
    };
    let mut headers = TextMap::new();
    headers.insert("retry-after".to_string(), "3".to_string());
    let delay = compute_retry_after_delay(&action, Some(&headers))
        .unwrap_or_else(|err| panic!("header override must convert: {}", err.message));
    assert_eq!(delay, secs(3));
}

#[test]
fn retry_after_config_used_when_no_header() {
    let action = OnAction {
        retry_after: after(5.0),
        ..OnAction::default()
    };
    let headers = TextMap::new();
    let delay = compute_retry_after_delay(&action, Some(&headers))
        .unwrap_or_else(|err| panic!("configured integer delay must convert: {}", err.message));
    assert_eq!(delay, secs(5));
}

#[test]
fn retry_after_malformed_header_falls_back() {
    let action = OnAction {
        retry_after: after(4.0),
        ..OnAction::default()
    };
    let mut headers = TextMap::new();
    headers.insert("Retry-After".to_string(), "not-a-number".to_string());
    let delay = compute_retry_after_delay(&action, Some(&headers))
        .unwrap_or_else(|err| panic!("malformed header fallback must convert: {}", err.message));
    assert_eq!(delay, secs(4));
}

#[test]
fn retry_after_no_headers_at_all() {
    let action = OnAction {
        retry_after: after(7.0),
        ..OnAction::default()
    };
    let delay = compute_retry_after_delay(&action, None)
        .unwrap_or_else(|err| panic!("configured integer delay must convert: {}", err.message));
    assert_eq!(delay, secs(7));
}

#[test]
fn retry_after_fractional_config_and_header_zero_preserve_effective_delay() {
    let action = OnAction {
        retry_after: after(0.25),
        ..OnAction::default()
    };
    let fallback = compute_retry_after_delay(&action, None)
        .unwrap_or_else(|err| panic!("fractional configured delay must convert: {}", err.message));
    assert_eq!(fallback, 250_000_000);

    let mut headers = TextMap::new();
    headers.insert("Retry-After".to_string(), "0".to_string());
    let overridden = compute_retry_after_delay(&action, Some(&headers))
        .unwrap_or_else(|err| panic!("Retry-After: 0 must override: {}", err.message));
    assert_eq!(overridden, 0);

    headers.insert("Retry-After".to_string(), "invalid".to_string());
    let malformed_fallback = compute_retry_after_delay(&action, Some(&headers))
        .unwrap_or_else(|err| panic!("malformed header must use fractional fallback: {}", err.message));
    assert_eq!(malformed_fallback, 250_000_000);
}

#[test]
fn retry_after_nonfinite_typed_model_fails_even_with_header_override() {
    for retry_after in [f64::NAN, f64::INFINITY, f64::NEG_INFINITY] {
        let action = OnAction {
            retry_after: after(retry_after),
            ..OnAction::default()
        };
        let mut headers = TextMap::new();
        headers.insert("Retry-After".to_string(), "0".to_string());
        let err = match compute_retry_after_delay(&action, Some(&headers)) {
            Ok(delay) => panic!(
                "invalid configured retryAfter must fail before header override, got {delay:?}"
            ),
            Err(err) => err,
        };
        assert_eq!(err.kind, RuntimeErrorKind::InputValidation);
        assert_eq!(err.code(), "RUNTIME_INPUT_VALIDATION");
    }
}

#[test]
fn retry_after_finite_overflow_fails_only_when_used_as_fallback() {
    let action = OnAction {
        retry_after: after(f64::MAX),
        ..OnAction::default()
    };
    let err = match compute_retry_after_delay(&action, None) {
        Ok(delay) => {
            panic!(
                "finite retryAfter overflow must fail without a header override, got {delay:?}"
            )
        }
        Err(err) => err,
    };
    assert_eq!(err.kind, RuntimeErrorKind::InputValidation);
    assert_eq!(err.code(), "RUNTIME_INPUT_VALIDATION");

    let mut headers = TextMap::new();
    headers.insert("Retry-After".to_string(), "0".to_string());
    let overridden = compute_retry_after_delay(&action, Some(&headers))
        .unwrap_or_else(|err| panic!("Retry-After: 0 must override finite overflow: {}", err.message));
    assert_eq!(overridden, 0);

    headers.insert("Retry-After".to_string(), "malformed".to_string());
    let malformed = match compute_retry_after_delay(&action, Some(&headers)) {
        Ok(delay) => {
            panic!(
                "malformed header must use the overflowing configured fallback, got {delay:?}"
            )
        }
        Err(err) => err,
    };
    assert_eq!(malformed.kind, RuntimeErrorKind::InputValidation);
}


#[test]
fn maximum_iterations_sums_effective_failure_retry_budgets_only() {
    let steps = [Step {
        on_failure: vec![
            OnAction {
                type_: ActionType::Retry,
                retry_limit: Some(10),
                ..OnAction::default()
            },
            OnAction {
                type_: ActionType::Retry,
                retry_limit: Some(20),
                ..OnAction::default()
            },
            OnAction {
                type_: ActionType::Retry,
                retry_limit: Some(30),
                ..OnAction::default()
            },
        ],
        // Retry is not legal in a Success Action Object. The runtime's
        // iteration protection must not give this model deviation budget.
        on_success: vec![OnAction {
            type_: ActionType::Retry,
            retry_limit: Some(99),
            ..OnAction::default()
        }],
        ..Step::default()
    }];

    assert_eq!(compute_max_iterations(&steps.iter().collect(), &Vec::new()), 122);
}

#[test]
fn maximum_iterations_preserves_u64_max_retry_and_initial_attempt() {
    let steps = [Step {
        on_failure: vec![OnAction {
            type_: ActionType::Retry,
            retry_limit: Some(u64::MAX),
            ..OnAction::default()
        }],
        ..Step::default()
    }];

    assert_eq!(
        compute_max_iterations(&steps.iter().collect(), &Vec::new()),
        (u128::from(u64::MAX) + 1) * 2
    );
}
