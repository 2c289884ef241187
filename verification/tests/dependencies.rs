use arazzo_runtime::deps::{
    build_levels, compute_transitive_deps, parallel_blocker, ParallelBlocker,
    SequentialFallbackReason,
};
use arazzo_runtime::error::RuntimeErrorKind;
use arazzo_runtime::model::{
    ActionType, Literal, OnAction, OutputValue, ParamLocation, Parameter, Step, StepTarget,
    SuccessCriterion, ValueSource, Workflow,
};
use arazzo_runtime::step_refs::extract_step_refs;
use arazzo_runtime::text_map::TextMap;

fn outputs(list: &[(&str, &str)]) -> TextMap<OutputValue> {
    let mut map = TextMap::new();
    for (name, expression) in list {
        map.insert((*name).to_string(), OutputValue::RuntimeExpression((*expression).to_string()));
    }
    map
}

fn step(step_id: &str) -> Step {
    Step {
        step_id: step_id.to_string(),
        target: Some(StepTarget::OperationPath(format!("/{step_id}"))),
        ..Step::default()
    }
}

fn action(type_: ActionType) -> OnAction {
    OnAction {
        name: format!("{}-action", type_.name()),
        type_,
        ..OnAction::default()
    }
}

fn criterion(context: &str, condition: &str) -> SuccessCriterion {
    SuccessCriterion {
        context: context.to_string(),
        condition: condition.to_string(),
        ..SuccessCriterion::default()
    }
}

fn workflow(steps: Vec<Step>) -> Workflow {
    Workflow {
        workflow_id: "wf".to_string(),
        steps,
        ..Workflow::default()
    }
}

fn blocker(wf: &Workflow) -> ParallelBlocker {
    parallel_blocker(wf).unwrap_or_else(|| panic!("expected a parallel blocker for {wf:?}"))
}

#[test]
fn plain_failure_retries_do_not_block_parallel_levels() {
    let mut retrying = step("a");
    retrying.on_failure = vec![action(ActionType::Retry), action(ActionType::Retry)];
    let mut wf = workflow(vec![retrying, step("b")]);
    wf.failure_actions = vec![action(ActionType::Retry)];

    assert_eq!(parallel_blocker(&wf), None);
}

#[test]
fn goto_and_end_actions_block_with_the_declaring_step() {
    let mut ending = step("b");
    ending.on_failure = vec![action(ActionType::Retry), action(ActionType::End)];
    let wf = workflow(vec![step("a"), ending]);

    assert_eq!(
        blocker(&wf),
        ParallelBlocker {
            reason: SequentialFallbackReason::ControlFlowAction,
            step_id: "b".to_string(),
            detail: "step \"b\" has an onFailure action of type \"end\", which redirects control flow"
                .to_string(),
        }
    );

    let mut going = step("a");
    going.on_failure = vec![OnAction {
        step_id: "a".to_string(),
        ..action(ActionType::Goto)
    }];
    let blocked = blocker(&workflow(vec![going]));
    assert_eq!(blocked.reason, SequentialFallbackReason::ControlFlowAction);
    assert_eq!(blocked.step_id, "a");
}

#[test]
fn every_success_action_blocks_even_a_nonconformant_retry() {
    let mut succeeding = step("a");
    succeeding.on_success = vec![action(ActionType::Retry)];

    let blocked = blocker(&workflow(vec![succeeding]));
    assert_eq!(blocked.reason, SequentialFallbackReason::ControlFlowAction);
    assert_eq!(
        blocked.detail,
        "step \"a\" has an onSuccess action of type \"retry\", which redirects control flow"
    );
}

#[test]
fn retry_references_block_because_they_run_another_step_or_workflow() {
    let mut recovering = step("a");
    recovering.on_failure = vec![OnAction {
        step_id: "login".to_string(),
        ..action(ActionType::Retry)
    }];
    let blocked = blocker(&workflow(vec![recovering, step("login")]));
    assert_eq!(blocked.reason, SequentialFallbackReason::RetryReference);
    assert_eq!(
        blocked.detail,
        "step \"a\" has an onFailure action of type \"retry\" with a stepId, which runs another step before retrying"
    );

    let mut wf = workflow(vec![step("a")]);
    wf.failure_actions = vec![OnAction {
        workflow_id: "refresh-token".to_string(),
        ..action(ActionType::Retry)
    }];
    assert_eq!(
        blocker(&wf),
        ParallelBlocker {
            reason: SequentialFallbackReason::RetryReference,
            step_id: String::new(),
            detail: "the workflow's failureActions include an action of type \"retry\" with a workflowId, which runs another workflow before retrying"
                .to_string(),
        }
    );
}

#[test]
fn workflow_level_success_actions_and_subworkflow_steps_block() {
    let mut wf = workflow(vec![step("a")]);
    wf.success_actions = vec![action(ActionType::End)];
    let blocked = blocker(&wf);
    assert_eq!(blocked.reason, SequentialFallbackReason::ControlFlowAction);
    assert_eq!(blocked.step_id, "");

    let calling = Step {
        step_id: "call".to_string(),
        target: Some(StepTarget::WorkflowId("child".to_string())),
        ..Step::default()
    };
    assert_eq!(
        blocker(&workflow(vec![step("a"), calling])),
        ParallelBlocker {
            reason: SequentialFallbackReason::SubWorkflowStep,
            step_id: "call".to_string(),
            detail: "step \"call\" calls workflow \"child\"".to_string(),
        }
    );
}

#[test]
fn failure_criteria_order_levels_through_condition_and_context() {
    let mut by_context = step("b");
    by_context.on_failure = vec![OnAction {
        criteria: vec![criterion("$steps.a.outputs.code", "^5")],
        ..action(ActionType::Retry)
    }];
    let wf = workflow(vec![step("a"), by_context]);
    // extract_step_refs does not read action criteria contexts; routing does.
    assert!(extract_step_refs(&wf.steps[1]).is_empty());
    assert_eq!(
        build_levels(&wf).unwrap_or_else(|err| panic!("levels: {}", err.message)),
        vec![vec![0], vec![1]]
    );
}

#[test]
fn inherited_workflow_failure_criteria_order_only_inheriting_steps() {
    let mut own_list = step("c");
    own_list.on_failure = vec![action(ActionType::Retry)];
    let mut wf = workflow(vec![step("a"), step("b"), own_list]);
    wf.failure_actions = vec![OnAction {
        criteria: vec![criterion("", "$steps.b.outputs.retryable == true")],
        ..action(ActionType::Retry)
    }];

    // "a" inherits the workflow list, so it waits for "b". "b" inherits it
    // too, but a step's routing never sees its own outputs, so no self-edge.
    assert_eq!(
        build_levels(&wf).unwrap_or_else(|err| panic!("levels: {}", err.message)),
        vec![vec![1, 2], vec![0]]
    );

    wf.failure_actions[0].criteria = vec![criterion("", "$steps.c.outputs.retryable == true")];
    // "c" routes through its own list, so only "a" and "b" wait for it.
    assert_eq!(
        build_levels(&wf).unwrap_or_else(|err| panic!("levels: {}", err.message)),
        vec![vec![2], vec![0, 1]]
    );
}

#[test]
fn only_routing_self_references_are_dropped_from_levels() {
    let mut routed_on_itself = step("a");
    routed_on_itself.on_failure = vec![OnAction {
        criteria: vec![criterion("", "$steps.a.outputs.code == 503")],
        ..action(ActionType::Retry)
    }];
    let wf = workflow(vec![routed_on_itself]);
    assert_eq!(
        build_levels(&wf).unwrap_or_else(|err| panic!("levels: {}", err.message)),
        vec![vec![0]]
    );
    // Single-step dependency resolution still reads the condition.
    assert_eq!(extract_step_refs(&wf.steps[0]), vec!["a".to_string()]);

    let reads_itself = Step {
        parameters: vec![Parameter {
            name: "id".to_string(),
            in_: Some(ParamLocation::Query),
            value: ValueSource::Literal(Literal::Text("$steps.a.outputs.id".to_string())),
        }],
        ..step("a")
    };
    assert_eq!(
        build_levels(&workflow(vec![reads_itself]))
            .map_err(|err| err.kind)
            .err(),
        Some(RuntimeErrorKind::DependencyCycle)
    );
}

#[test]
fn extract_step_refs_and_control_flow() {
    let step = Step {
        step_id: "s2".to_string(),
        target: Some(StepTarget::OperationPath(
            "/items/$steps.s1.outputs.id".to_string(),
        )),
        parameters: vec![Parameter {
            name: "q".to_string(),
            in_: Some(ParamLocation::Query),
            value: ValueSource::Literal(Literal::Text("$steps.s1.outputs.query".to_string())),
        }],
        outputs: outputs(&[("val", "$steps.s1.outputs.value")]),
        on_failure: vec![OnAction {
            type_: ActionType::Retry,
            criteria: vec![SuccessCriterion {
                condition: "$steps.s1.outputs.code == 429".to_string(),
                ..SuccessCriterion::default()
            }],
            ..OnAction::default()
        }],
        ..Step::default()
    };

    let refs = extract_step_refs(&step);
    assert_eq!(refs, vec!["s1".to_string()]);

    let wf_no_flow = Workflow {
        workflow_id: "no-flow".to_string(),
        steps: vec![Step {
            step_id: "s1".to_string(),
            target: Some(StepTarget::OperationPath("/ok".to_string())),
            ..Step::default()
        }],
        ..Workflow::default()
    };
    assert!(parallel_blocker(&wf_no_flow).is_none());

    let wf_with_flow = Workflow {
        workflow_id: "with-flow".to_string(),
        steps: vec![Step {
            step_id: "s1".to_string(),
            target: Some(StepTarget::OperationPath("/ok".to_string())),
            on_failure: vec![OnAction {
                type_: ActionType::Goto,
                step_id: "fallback".to_string(),
                ..OnAction::default()
            }],
            ..Step::default()
        }],
        ..Workflow::default()
    };
    assert!(parallel_blocker(&wf_with_flow).is_some());
}

#[test]
fn build_levels_supports_independent_chain_and_cycle() {
    let independent = Workflow {
        workflow_id: "independent".to_string(),
        steps: vec![
            Step {
                step_id: "a".to_string(),
                target: Some(StepTarget::OperationPath("/a".to_string())),
                ..Step::default()
            },
            Step {
                step_id: "b".to_string(),
                target: Some(StepTarget::OperationPath("/b".to_string())),
                ..Step::default()
            },
        ],
        ..Workflow::default()
    };
    let independent_levels = match build_levels(&independent) {
        Ok(levels) => levels,
        Err(err) => panic!("building levels: {}", err.message),
    };
    assert_eq!(independent_levels, vec![vec![0, 1]]);

    let chain = Workflow {
        workflow_id: "chain".to_string(),
        steps: vec![
            Step {
                step_id: "s1".to_string(),
                target: Some(StepTarget::OperationPath("/one".to_string())),
                ..Step::default()
            },
            Step {
                step_id: "s2".to_string(),
                target: Some(StepTarget::OperationPath("/two".to_string())),
                parameters: vec![Parameter {
                    name: "from".to_string(),
                    in_: Some(ParamLocation::Query),
                    value: ValueSource::Literal(Literal::Text("$steps.s1.outputs.id".to_string())),
                }],
                ..Step::default()
            },
        ],
        ..Workflow::default()
    };
    let chain_levels = match build_levels(&chain) {
        Ok(levels) => levels,
        Err(err) => panic!("building levels: {}", err.message),
    };
    assert_eq!(chain_levels, vec![vec![0], vec![1]]);

    let cycle = Workflow {
        workflow_id: "cycle".to_string(),
        steps: vec![
            Step {
                step_id: "s1".to_string(),
                parameters: vec![Parameter {
                    name: "from".to_string(),
                    in_: Some(ParamLocation::Query),
                    value: ValueSource::Literal(Literal::Text("$steps.s2.outputs.id".to_string())),
                }],
                ..Step::default()
            },
            Step {
                step_id: "s2".to_string(),
                parameters: vec![Parameter {
                    name: "from".to_string(),
                    in_: Some(ParamLocation::Query),
                    value: ValueSource::Literal(Literal::Text("$steps.s1.outputs.id".to_string())),
                }],
                ..Step::default()
            },
        ],
        ..Workflow::default()
    };
    let cycle_result = build_levels(&cycle);
    let cycle_err = match cycle_result {
        Ok(_) => panic!("expected cycle detection error"),
        Err(err) => err,
    };
    assert!(cycle_err.message.contains("dependency cycle detected"));
    assert_eq!(cycle_err.kind, RuntimeErrorKind::DependencyCycle);
}

#[test]
fn build_levels_supports_diamond_dependency() {
    let workflow = Workflow {
        workflow_id: "diamond".to_string(),
        steps: vec![
            Step {
                step_id: "a".to_string(),
                target: Some(StepTarget::OperationPath("/a".to_string())),
                ..Step::default()
            },
            Step {
                step_id: "b".to_string(),
                target: Some(StepTarget::OperationPath("/b".to_string())),
                ..Step::default()
            },
            Step {
                step_id: "c".to_string(),
                parameters: vec![
                    Parameter {
                        name: "x".to_string(),
                        in_: Some(ParamLocation::Query),
                        value: ValueSource::Literal(Literal::Text("$steps.a.outputs.id".to_string())),
                    },
                    Parameter {
                        name: "y".to_string(),
                        in_: Some(ParamLocation::Query),
                        value: ValueSource::Literal(Literal::Text("$steps.b.outputs.id".to_string())),
                    },
                ],
                ..Step::default()
            },
        ],
        ..Workflow::default()
    };

    let levels = match build_levels(&workflow) {
        Ok(levels) => levels,
        Err(err) => panic!("building levels: {}", err.message),
    };
    assert_eq!(levels, vec![vec![0, 1], vec![2]]);
}

#[test]
fn compute_transitive_deps_no_deps_returns_empty() {
    let workflow = Workflow {
        workflow_id: "wf".to_string(),
        steps: vec![
            Step {
                step_id: "a".to_string(),
                target: Some(StepTarget::OperationPath("/a".to_string())),
                ..Step::default()
            },
            Step {
                step_id: "b".to_string(),
                target: Some(StepTarget::OperationPath("/b".to_string())),
                ..Step::default()
            },
        ],
        ..Workflow::default()
    };

    let deps = match compute_transitive_deps(&workflow, "a") {
        Ok(d) => d,
        Err(e) => panic!("no-deps step a should resolve: {}", e.message),
    };
    assert!(deps.is_empty(), "step with no refs should have no deps");

    let deps = match compute_transitive_deps(&workflow, "b") {
        Ok(d) => d,
        Err(e) => panic!("no-deps step b should resolve: {}", e.message),
    };
    assert!(deps.is_empty(), "step with no refs should have no deps");
}

#[test]
fn compute_transitive_deps_direct_dependency() {
    let workflow = Workflow {
        workflow_id: "wf".to_string(),
        steps: vec![
            Step {
                step_id: "a".to_string(),
                target: Some(StepTarget::OperationPath("/a".to_string())),
                ..Step::default()
            },
            Step {
                step_id: "b".to_string(),
                target: Some(StepTarget::OperationPath("/b".to_string())),
                outputs: outputs(&[("val", "$steps.a.outputs.result")]),
                ..Step::default()
            },
        ],
        ..Workflow::default()
    };

    let deps = match compute_transitive_deps(&workflow, "b") {
        Ok(d) => d,
        Err(e) => panic!("direct dep should resolve: {}", e.message),
    };
    assert_eq!(deps.len(), 1);
    assert!(deps.contains(&0), "b depends on a (index 0)");
}

#[test]
fn compute_transitive_deps_transitive_chain() {
    // c -> b -> a (transitive)
    let workflow = Workflow {
        workflow_id: "wf".to_string(),
        steps: vec![
            Step {
                step_id: "a".to_string(),
                target: Some(StepTarget::OperationPath("/a".to_string())),
                ..Step::default()
            },
            Step {
                step_id: "b".to_string(),
                target: Some(StepTarget::OperationPath("/b".to_string())),
                outputs: outputs(&[("val", "$steps.a.outputs.result")]),
                ..Step::default()
            },
            Step {
                step_id: "c".to_string(),
                target: Some(StepTarget::OperationPath("/c".to_string())),
                outputs: outputs(&[("val", "$steps.b.outputs.val")]),
                ..Step::default()
            },
        ],
        ..Workflow::default()
    };

    let deps = match compute_transitive_deps(&workflow, "c") {
        Ok(d) => d,
        Err(e) => panic!("transitive chain should resolve: {}", e.message),
    };
    assert_eq!(deps.len(), 2);
    assert!(deps.contains(&0), "c transitively depends on a");
    assert!(deps.contains(&1), "c directly depends on b");
}

#[test]
fn compute_transitive_deps_diamond() {
    // d -> b, d -> c, b -> a, c -> a
    let workflow = Workflow {
        workflow_id: "wf".to_string(),
        steps: vec![
            Step {
                step_id: "a".to_string(),
                target: Some(StepTarget::OperationPath("/a".to_string())),
                ..Step::default()
            },
            Step {
                step_id: "b".to_string(),
                parameters: vec![Parameter {
                    name: "x".to_string(),
                    in_: Some(ParamLocation::Query),
                    value: ValueSource::Literal(Literal::Text("$steps.a.outputs.id".to_string())),
                }],
                ..Step::default()
            },
            Step {
                step_id: "c".to_string(),
                parameters: vec![Parameter {
                    name: "y".to_string(),
                    in_: Some(ParamLocation::Query),
                    value: ValueSource::Literal(Literal::Text("$steps.a.outputs.id".to_string())),
                }],
                ..Step::default()
            },
            Step {
                step_id: "d".to_string(),
                outputs: outputs(&[("v1", "$steps.b.outputs.r"), ("v2", "$steps.c.outputs.r")]),
                ..Step::default()
            },
        ],
        ..Workflow::default()
    };

    let deps = match compute_transitive_deps(&workflow, "d") {
        Ok(d) => d,
        Err(e) => panic!("diamond deps should resolve: {}", e.message),
    };
    assert_eq!(deps.len(), 3, "d depends on a, b, c");
    assert!(deps.contains(&0));
    assert!(deps.contains(&1));
    assert!(deps.contains(&2));
}

#[test]
fn compute_transitive_deps_unknown_step_errors() {
    let workflow = Workflow {
        workflow_id: "wf".to_string(),
        steps: vec![Step {
            step_id: "a".to_string(),
            ..Step::default()
        }],
        ..Workflow::default()
    };

    let err = match compute_transitive_deps(&workflow, "missing") {
        Ok(_) => panic!("unknown step should error"),
        Err(e) => e,
    };
    assert_eq!(err.kind, RuntimeErrorKind::StepNotFound);
}

