//! Calling workflows: the inputs that a call hands on, the outputs of a
//! workflow, and what the failure of a call becomes.

use crate::actions::{RetryReference, ReferenceView};
use crate::criteria::{criterion_outcome, evaluate_criterion};
use crate::deps::{is_step_named, step_exists, step_index};
use crate::error::{ErrorView, RuntimeError, RuntimeErrorKind};
use crate::json::{view_by_variant, Json, JsonView};
use crate::json_text::{plain_text, value_to_string};
use crate::model::{OutputValue, Parameter, Step, SuccessCriterion, ValueSource, Workflow};
use crate::outcome::{StepExecution, StepResult, StepTraceData};
use crate::patterns::RegexCache;
use crate::payload::{
    answer_in, append_texts, resolve_selector, resolve_value_source, resolved, selector_resolved,
    warning_line, warning_views, Answers, EvaluatedView, ExpressionWarning, WarningView,
};
use crate::step_response::CriterionAnswers;
use crate::text::{chars_of, concat4, concat5, contains_part, find_char, occurs_in, text_of, texts};
use crate::text_map::TextMap;
use crate::trace::{copy_json_map, json_map_view};
use crate::vars::{outputs_of, with_outputs, StateView, VarStore, VarsView};
use crate::xpath::{debug_quote, debug_quoted};
use vstd::prelude::*;
use vstd::string::*;

verus! {

// ---------------------------------------------------------------------
// Inputs of a call
// ---------------------------------------------------------------------

/// How the text of a parameter is read: as an expression, whose value keeps
/// its type, or as text with expressions in it.
#[derive(Debug, PartialEq)]
pub enum SubInput {
    Expression(String),
    Interpolated(String),
}

/// Whether a text is one expression in braces.
pub open spec fn is_braced_expression(s: Seq<char>) -> bool {
    &&& s.len() >= 3
    &&& s[0] == '{'
    &&& s.last() == '}'
    &&& s[1] == '$'
    &&& !s.subrange(1, s.len() - 1).contains('{')
}

/// The expression that a text asks for; nothing where it is text with
/// expressions in it.
pub open spec fn asked_expression(s: Seq<char>) -> Option<Seq<char>> {
    if is_braced_expression(s) {
        Some(s.subrange(1, s.len() - 1))
    } else if occurs_in(s, "{$"@) {
        None
    } else {
        Some(s)
    }
}

/// How the text of a parameter is read.
pub fn read_sub_input(text: &str) -> (r: SubInput)
    ensures
        match r {
            SubInput::Expression(e) => asked_expression(text@) == Some(e@),
            SubInput::Interpolated(t) => asked_expression(text@) is None && t@ == text@,
        },
{
    let chars = chars_of(text);
    let n: usize = chars.len();
    if n >= 3 && chars[0] == '{' && chars[n - 1] == '}' && chars[1] == '$' {
        let inner = text_of(&chars, 1, n - 1);
        let inside = chars_of(inner.as_str());
        assert(inner@ == text@.subrange(1, n - 1));
        if find_char(&inside, 0, '{') >= inside.len() {
            assert(!inner@.contains('{'));
            return SubInput::Expression(inner);
        }
        assert(inner@.contains('{'));
    }
    if contains_part(text, "{$") {
        SubInput::Interpolated(text.to_owned())
    } else {
        SubInput::Expression(text.to_owned())
    }
}

/// What a parameter of a call comes to: a selector by itself, a text by the
/// expression that it asks for or with its expressions filled in.
pub open spec fn sub_input_value(p: Parameter, text: Seq<char>, a: Answers) -> JsonView {
    match p.value {
        ValueSource::Selector(s) => selector_resolved(s, a).value,
        ValueSource::Literal(l) => match asked_expression(text) {
            Some(e) => answer_in(a.contexts, e).value,
            None => JsonView::Text(plain_text(answer_in(a.texts, text).value)),
        },
    }
}

/// The text of the `i`th parameter.
pub open spec fn text_at(list: Seq<String>, i: int) -> Seq<char> {
    if 0 <= i < list.len() {
        list[i]@
    } else {
        ""@
    }
}

/// The inputs of the first `n` parameters of a call.
pub open spec fn sub_inputs_of(
    list: Seq<Parameter>,
    literals: Seq<String>,
    a: Answers,
    n: nat,
) -> Map<Seq<char>, JsonView>
    decreases n,
{
    if n == 0 {
        Map::empty()
    } else {
        sub_inputs_of(list, literals, a, (n - 1) as nat).insert(
            list[n - 1].name@,
            sub_input_value(list[n - 1], text_at(literals, n - 1), a),
        )
    }
}

fn sub_input(p: &Parameter, text: &str, answers: &Answers) -> (r: Json)
    ensures
        r@ == sub_input_value(*p, text@, *answers),
{
    broadcast use view_by_variant;

    match &p.value {
        ValueSource::Selector(s) => resolve_selector(s, answers).0,
        ValueSource::Literal(_) => match read_sub_input(text) {
            SubInput::Expression(e) => match answers.contexts.get(e.as_str()) {
                Some(v) => v.value.copy(),
                None => Json::Null,
            },
            SubInput::Interpolated(t) => match answers.texts.get(t.as_str()) {
                Some(v) => Json::Text(value_to_string(&v.value)),
                None => {
                    let none = Json::Null;
                    let text = value_to_string(&none);
                    Json::Text(text)
                },
            },
        },
    }
}

/// The inputs that a call hands on. `literals` holds the texts of the
/// parameters that are written out.
pub fn subworkflow_inputs(
    parameters: &Vec<Parameter>,
    literals: &Vec<String>,
    answers: &Answers,
) -> (r: TextMap<Json>)
    ensures
        json_map_view(r) == sub_inputs_of(
            parameters@,
            literals@,
            *answers,
            parameters@.len(),
        ),
{
    let mut out: TextMap<Json> = TextMap::new();
    let mut i: usize = 0;
    assert(json_map_view(out) =~= Map::<Seq<char>, JsonView>::empty());
    while i < parameters.len()
        invariant
            i <= parameters@.len(),
            json_map_view(out) == sub_inputs_of(parameters@, literals@, *answers, i as nat),
        decreases parameters@.len() - i,
    {
        let ghost before = json_map_view(out);
        let text: &str = if i < literals.len() {
            literals[i].as_str()
        } else {
            ""
        };
        let value = sub_input(&parameters[i], text, answers);
        let ghost v = value@;
        out.insert(parameters[i].name.clone(), value);
        assert(json_map_view(out) =~= before.insert(parameters@[i as int].name@, v));
        i = i + 1;
    }
    out
}

// ---------------------------------------------------------------------
// Results of a call
// ---------------------------------------------------------------------

/// What the failure of a call becomes: it is told where it happened, but a
/// workflow that was not entered for want of a dependency is named as it is.
pub open spec fn call_failure(workflow: Seq<char>, e: ErrorView) -> ErrorView {
    if e.kind is WorkflowDependencyUnsatisfied {
        e
    } else {
        ErrorView {
            kind: RuntimeErrorKind::SubWorkflowFailed,
            message: "sub-workflow "@ + workflow + ": "@ + e.message,
        }
    }
}

/// What the failure of a call becomes.
pub fn subworkflow_error(workflow_id: &str, err: RuntimeError) -> (r: RuntimeError)
    ensures
        r@ == call_failure(workflow_id@, err@),
        r.source == (if err.kind is WorkflowDependencyUnsatisfied {
            err.source
        } else {
            Some(err.message)
        }),
{
    match err.kind {
        RuntimeErrorKind::WorkflowDependencyUnsatisfied => err,
        _ => {
            let message = concat4("sub-workflow ", workflow_id, ": ", err.message.as_str());
            RuntimeError::with_source(RuntimeErrorKind::SubWorkflowFailed, message, err.message)
        },
    }
}

/// What is known once a call has come back: the workflow's inputs and outputs,
/// and its outputs as those of the step that called it.
pub open spec fn after_call(
    v: VarsView,
    step_id: Seq<char>,
    workflow_id: Seq<char>,
    inputs: Map<Seq<char>, JsonView>,
    outputs: TextMap<Json>,
) -> VarsView {
    with_outputs(
        VarsView {
            workflows: v.workflows.insert(
                workflow_id,
                StateView { inputs, outputs: json_map_view(outputs) },
            ),
            ..v
        },
        step_id,
        outputs,
        outputs.keys().len(),
    )
}

/// Takes in what a call came back with.
pub fn finish_call(
    vars: &mut VarStore,
    step_id: &str,
    workflow_id: &str,
    inputs: TextMap<Json>,
    outputs: &TextMap<Json>,
)
    ensures
        final(vars)@ == after_call(
            old(vars)@,
            step_id@,
            workflow_id@,
            json_map_view(inputs),
            *outputs,
        ),
{
    vars.register_workflow_state(workflow_id, inputs, copy_json_map(outputs));
    vars.set_step_outputs(step_id, outputs);
}

/// Whether all criteria of a call are met, as far as they were asked about.
pub open spec fn call_criteria_met(
    list: Seq<SuccessCriterion>,
    answers: Seq<CriterionAnswers>,
    n: nat,
) -> bool {
    forall|i: int|
        0 <= i < n ==> i < answers.len() && (#[trigger] criterion_outcome(
            list[i],
            answers[i].context@,
            None,
            answers[i].asked,
        )).matched
}

/// What a step that calls a workflow comes to: it succeeds where all its
/// criteria are met.
pub fn subworkflow_result(
    criteria: &Vec<SuccessCriterion>,
    answers: Vec<CriterionAnswers>,
    regex_cache: &mut RegexCache,
) -> (r: StepResult)
    requires
        old(regex_cache).wf(),
    ensures
        final(regex_cache).wf(),
        r.success == call_criteria_met(criteria@, answers@, criteria@.len()),
        r.response is None,
        r.err is None,
        r.err_kind is None,
{
    let ghost said = answers@;
    let total: usize = criteria.len();
    let mut met = true;
    let mut i: usize = 0;
    for answer in it: answers
        invariant
            it.seq() == said,
            total == criteria@.len(),
            i == if it.index() <= total {
                it.index() as int
            } else {
                total as int
            },
            met ==> call_criteria_met(criteria@, said, i as nat),
            !met ==> !call_criteria_met(criteria@, said, total as nat),
            regex_cache.wf(),
    {
        if i < total {
            let ghost k = i as int;
            if met {
                met = evaluate_criterion(
                    &criteria[i],
                    answer.context,
                    None,
                    &answer.asked,
                    regex_cache,
                );
                assert(met == criterion_outcome(
                    criteria@[k],
                    said[k].context@,
                    None,
                    said[k].asked,
                ).matched);
            }
            i = i + 1;
        }
    }
    let success = met && i == total;
    assert(i < total ==> !call_criteria_met(criteria@, said, total as nat)) by {
        if i < total {
            assert(i == said.len());
            let k = i as int;
            if call_criteria_met(criteria@, said, total as nat) {
                let o = criterion_outcome(criteria@[k], said[k].context@, None, said[k].asked);
                assert(o.matched);
            }
        }
    }
    StepResult { success, response: None, err: None, err_kind: None }
}

// ---------------------------------------------------------------------
// What runs before a retry
// ---------------------------------------------------------------------

/// The beginning of a message about what runs before a retry.
pub open spec fn reference_words(step: Seq<char>, r: ReferenceView) -> Seq<char> {
    match r {
        ReferenceView::Workflow { workflow_id, inputs } => "step "@ + step
            + ": retry reference workflow \""@ + workflow_id + "\""@,
        ReferenceView::Step { step_id } => "step "@ + step + ": retry reference step \""@ + step_id
            + "\""@,
    }
}

pub open spec fn reference_failed(message: Seq<char>) -> ErrorView {
    ErrorView { kind: RuntimeErrorKind::RetryReferenceFailed, message }
}

fn reference_text(step: &str, r: &RetryReference) -> (t: String)
    ensures
        t@ == reference_words(step@, r@),
{
    match r {
        RetryReference::Workflow { workflow_id, inputs: _ } => concat5(
            "step ",
            step,
            ": retry reference workflow \"",
            workflow_id.as_str(),
            "\"",
        ),
        RetryReference::Step { step_id } => concat5(
            "step ",
            step,
            ": retry reference step \"",
            step_id.as_str(),
            "\"",
        ),
    }
}

/// What the failure of something that runs before a retry becomes. A workflow
/// that was not entered for want of a dependency is named as it is.
pub open spec fn reference_failure(step: Seq<char>, r: ReferenceView, e: ErrorView) -> ErrorView {
    if r is Workflow && e.kind is WorkflowDependencyUnsatisfied {
        e
    } else {
        reference_failed(reference_words(step, r) + ": "@ + e.message)
    }
}

/// What the failure of something that runs before a retry becomes.
pub fn reference_error(retried_step_id: &str, reference: &RetryReference, err: RuntimeError) -> (r:
    RuntimeError)
    ensures
        r@ == reference_failure(retried_step_id@, reference@, err@),
        r.source == (if reference is Workflow && err.kind is WorkflowDependencyUnsatisfied {
            err.source
        } else {
            Some(err.message)
        }),
{
    let calls = match reference {
        RetryReference::Workflow { workflow_id: _, inputs: _ } => true,
        RetryReference::Step { step_id: _ } => false,
    };
    let unsatisfied = match err.kind {
        RuntimeErrorKind::WorkflowDependencyUnsatisfied => true,
        _ => false,
    };
    if calls && unsatisfied {
        return err;
    }
    let mut message = reference_text(retried_step_id, reference);
    message.append(": ");
    message.append(err.message.as_str());
    RuntimeError::with_source(RuntimeErrorKind::RetryReferenceFailed, message, err.message)
}

/// Finds the step that runs before a retry.
pub fn find_reference_step(
    workflow: &Workflow,
    workflow_id: &str,
    retried_step_id: &str,
    step_id: &str,
) -> (r: Result<usize, RuntimeError>)
    ensures
        match r {
            Ok(i) => is_step_named(workflow.steps@, step_id@, i as int),
            Err(e) => !step_exists(workflow.steps@, step_id@) && e@ == reference_failed(
                "step "@ + retried_step_id@ + ": retry reference step \""@ + step_id@
                    + "\" not found in workflow \""@ + workflow_id@ + "\""@,
            ),
        },
{
    match step_index(&workflow.steps, step_id) {
        Some(i) => Ok(i),
        None => {
            let mut message = concat5(
                "step ",
                retried_step_id,
                ": retry reference step \"",
                step_id,
                "\" not found in workflow \"",
            );
            message.append(workflow_id);
            message.append("\"");
            Err(RuntimeError::new(RuntimeErrorKind::RetryReferenceFailed, message))
        },
    }
}

/// What a step that runs before a retry comes to: anything but success is a
/// failure.
pub fn reference_step_outcome(
    retried_step_id: &str,
    step_id: &str,
    result: &StepResult,
) -> (r: Result<(), RuntimeError>)
    ensures
        (r is Ok) == result.success,
        r matches Err(e) ==> e@ == reference_failed(
            "step "@ + retried_step_id@ + ": retry reference step \""@ + step_id@ + "\": "@ + (
            match result.err {
                Some(d) => d@,
                None => "step did not succeed"@,
            }),
        ),
{
    if result.success {
        return Ok(());
    }
    let detail: &str = match &result.err {
        Some(d) => d.as_str(),
        None => "step did not succeed",
    };
    let mut message = concat5(
        "step ",
        retried_step_id,
        ": retry reference step \"",
        step_id,
        "\": ",
    );
    message.append(detail);
    Err(RuntimeError::new(RuntimeErrorKind::RetryReferenceFailed, message))
}

// ---------------------------------------------------------------------
// Outputs of a workflow
// ---------------------------------------------------------------------

/// What an output of a workflow comes to.
pub open spec fn workflow_output(output: OutputValue, a: Answers) -> EvaluatedView {
    match output {
        OutputValue::RuntimeExpression(e) => answer_in(a.texts, e@),
        OutputValue::Selector(s) => EvaluatedView {
            value: selector_resolved(s, a).value,
            warnings: selector_resolved(s, a).warnings,
        },
    }
}

/// The outputs of a workflow, and the warnings that they leave.
#[verifier::ext_equal]
pub struct WorkflowOutputsView {
    pub outputs: Map<Seq<char>, JsonView>,
    pub warnings: Seq<Seq<char>>,
}

/// The lines of the warnings about an output of a workflow.
pub open spec fn workflow_output_lines(name: Seq<char>, warnings: Seq<WarningView>) -> Seq<
    Seq<char>,
> {
    warnings.map_values(
        |w: WarningView| "workflow output "@ + debug_quoted(name) + ": "@ + warning_line(w),
    )
}

/// The first `n` outputs of a workflow. Each is read with its own answers,
/// which know the outputs before it; one without answers is `null`.
pub open spec fn workflow_outputs(
    list: TextMap<OutputValue>,
    answers: Seq<Answers>,
    n: nat,
) -> WorkflowOutputsView
    decreases n,
{
    if n == 0 {
        WorkflowOutputsView { outputs: Map::empty(), warnings: Seq::empty() }
    } else {
        let before = workflow_outputs(list, answers, (n - 1) as nat);
        let name = list.keys()[n - 1];
        let v = if n - 1 < answers.len() {
            workflow_output(list.values()[n - 1], answers[n - 1])
        } else {
            crate::payload::nothing()
        };
        WorkflowOutputsView {
            outputs: before.outputs.insert(name, v.value),
            warnings: before.warnings + workflow_output_lines(name, v.warnings),
        }
    }
}

fn read_workflow_output(output: &OutputValue, answers: &Answers) -> (r: (
    Json,
    Vec<ExpressionWarning>,
))
    ensures
        r.0@ == workflow_output(*output, *answers).value,
        warning_views(r.1@) == workflow_output(*output, *answers).warnings,
{
    broadcast use view_by_variant;

    match output {
        OutputValue::RuntimeExpression(e) => match answers.texts.get(e.as_str()) {
            Some(v) => {
                let mut warnings: Vec<ExpressionWarning> = Vec::new();
                assert(warning_views(warnings@) =~= Seq::<WarningView>::empty());
                crate::payload::extend_warnings(&mut warnings, &v.warnings);
                assert(Seq::<WarningView>::empty() + warning_views(v.warnings@) =~= warning_views(
                    v.warnings@,
                ));
                (v.value.copy(), warnings)
            },
            None => {
                let warnings: Vec<ExpressionWarning> = Vec::new();
                assert(warning_views(warnings@) =~= Seq::<WarningView>::empty());
                (Json::Null, warnings)
            },
        },
        OutputValue::Selector(s) => resolve_selector(s, answers),
    }
}

/// Reads the outputs of a workflow. `answers` holds, for each output by name,
/// what its expressions came to.
pub fn build_outputs(workflow: &Workflow, answers: &Vec<Answers>) -> (r: (
    TextMap<Json>,
    Vec<String>,
))
    ensures
        ({
            let v = workflow_outputs(
                workflow.outputs,
                answers@,
                workflow.outputs.keys().len(),
            );
            json_map_view(r.0) == v.outputs && texts(r.1@) == v.warnings
        }),
{
    broadcast use view_by_variant;

    let list = &workflow.outputs;
    let count = list.len();
    let mut outputs: TextMap<Json> = TextMap::new();
    let mut lines: Vec<String> = Vec::new();
    let mut i: usize = 0;
    assert(json_map_view(outputs) =~= Map::<Seq<char>, JsonView>::empty());
    assert(texts(lines@) =~= Seq::<Seq<char>>::empty());
    while i < count
        invariant
            i <= count,
            count == list.keys().len(),
            list.wf(),
            *list == workflow.outputs,
            ({
                let v = workflow_outputs(*list, answers@, i as nat);
                json_map_view(outputs) == v.outputs && texts(lines@) == v.warnings
            }),
        decreases count - i,
    {
        let ghost before = json_map_view(outputs);
        let name = list.key_at(i);
        let (value, noted) = if i < answers.len() {
            read_workflow_output(list.value_at(i), &answers[i])
        } else {
            let none: Vec<ExpressionWarning> = Vec::new();
            assert(warning_views(none@) =~= Seq::<WarningView>::empty());
            let null = Json::Null;
            proof {
                view_by_variant(null);
            }
            (null, none)
        };
        let ghost v = value@;
        outputs.insert(name.clone(), value);
        assert(json_map_view(outputs) =~= before.insert(name@, v));
        let more = output_warnings(name.as_str(), &noted);
        append_texts(&mut lines, more);
        i = i + 1;
    }
    (outputs, lines)
}

fn output_warnings(name: &str, warnings: &Vec<ExpressionWarning>) -> (r: Vec<String>)
    ensures
        texts(r@) == workflow_output_lines(name@, warning_views(warnings@)),
{
    let quoted = debug_quote(name);
    let mut out: Vec<String> = Vec::new();
    let mut i: usize = 0;
    while i < warnings.len()
        invariant
            i <= warnings@.len(),
            quoted@ == debug_quoted(name@),
            out@.len() == i,
            forall|j: int|
                0 <= j < i ==> (#[trigger] out@[j])@ == "workflow output "@ + debug_quoted(name@)
                    + ": "@ + warning_line(warnings@[j]@),
        decreases warnings@.len() - i,
    {
        let line = warnings[i].line();
        out.push(concat4("workflow output ", quoted.as_str(), ": ", line.as_str()));
        i = i + 1;
    }
    assert(texts(out@) =~= workflow_output_lines(name@, warning_views(warnings@)));
    out
}

/// A workflow has an output for each that it declares.
pub proof fn every_output_is_there(list: TextMap<OutputValue>, answers: Seq<Answers>, n: nat, i: int)
    requires
        0 <= i < n <= list.keys().len(),
    ensures
        workflow_outputs(list, answers, n).outputs.contains_key(list.keys()[i]),
    decreases n,
{
    if i < n - 1 {
        every_output_is_there(list, answers, (n - 1) as nat, i);
    }
}

// ---------------------------------------------------------------------
// Parameters of an action
// ---------------------------------------------------------------------

/// What the first `n` parameters of an action come to.
pub open spec fn action_inputs(list: Seq<Parameter>, a: Answers, n: nat) -> Map<
    Seq<char>,
    JsonView,
>
    decreases n,
{
    if n == 0 {
        Map::empty()
    } else {
        action_inputs(list, a, (n - 1) as nat).insert(
            list[n - 1].name@,
            resolved(list[n - 1].value, a).value,
        )
    }
}

/// The lines of the warnings about the first `n` parameters of an action.
pub open spec fn action_lines(list: Seq<Parameter>, a: Answers, n: nat) -> Seq<Seq<char>>
    decreases n,
{
    if n == 0 {
        Seq::empty()
    } else {
        action_lines(list, a, (n - 1) as nat) + resolved(
            list[n - 1].value,
            a,
        ).warnings.map_values(
            |w: WarningView|
                "action parameter "@ + debug_quoted(list[n - 1].name@) + ": "@ + warning_line(w),
        )
    }
}

fn action_warnings(name: &str, warnings: &Vec<ExpressionWarning>) -> (r: Vec<String>)
    ensures
        texts(r@) == warning_views(warnings@).map_values(
            |w: WarningView|
                "action parameter "@ + debug_quoted(name@) + ": "@ + warning_line(w),
        ),
{
    let quoted = debug_quote(name);
    let mut out: Vec<String> = Vec::new();
    let mut i: usize = 0;
    while i < warnings.len()
        invariant
            i <= warnings@.len(),
            quoted@ == debug_quoted(name@),
            out@.len() == i,
            forall|j: int|
                0 <= j < i ==> (#[trigger] out@[j])@ == "action parameter "@ + debug_quoted(name@)
                    + ": "@ + warning_line(warnings@[j]@),
        decreases warnings@.len() - i,
    {
        let line = warnings[i].line();
        out.push(concat4("action parameter ", quoted.as_str(), ": ", line.as_str()));
        i = i + 1;
    }
    assert(texts(out@) =~= warning_views(warnings@).map_values(
        |w: WarningView| "action parameter "@ + debug_quoted(name@) + ": "@ + warning_line(w),
    ));
    out
}

/// The inputs that an action hands to the workflow that it names, and the
/// warnings about them. An action without parameters hands on none, and the
/// workflow is given those of its caller.
pub fn map_action_parameters(parameters: &Vec<Parameter>, answers: &Answers) -> (r: (
    Option<TextMap<Json>>,
    Vec<String>,
))
    ensures
        (r.0 is None) == (parameters@.len() == 0),
        r.0 matches Some(m) ==> json_map_view(m) == action_inputs(
            parameters@,
            *answers,
            parameters@.len(),
        ),
        texts(r.1@) == action_lines(parameters@, *answers, parameters@.len()),
{
    let mut lines: Vec<String> = Vec::new();
    assert(texts(lines@) =~= Seq::<Seq<char>>::empty());
    if parameters.len() == 0 {
        return (None, lines);
    }
    let mut mapped: TextMap<Json> = TextMap::new();
    let mut i: usize = 0;
    assert(json_map_view(mapped) =~= Map::<Seq<char>, JsonView>::empty());
    while i < parameters.len()
        invariant
            i <= parameters@.len(),
            json_map_view(mapped) == action_inputs(parameters@, *answers, i as nat),
            texts(lines@) == action_lines(parameters@, *answers, i as nat),
        decreases parameters@.len() - i,
    {
        let ghost before = json_map_view(mapped);
        let p = &parameters[i];
        let (value, noted) = resolve_value_source(&p.value, answers);
        let ghost v = value@;
        mapped.insert(p.name.clone(), value);
        assert(json_map_view(mapped) =~= before.insert(p.name@, v));
        let more = action_warnings(p.name.as_str(), &noted);
        append_texts(&mut lines, more);
        i = i + 1;
    }
    (Some(mapped), lines)
}

// ---------------------------------------------------------------------
// A step that calls a workflow
// ---------------------------------------------------------------------

/// A step that called a workflow, as it ran: with the outputs that are known of
/// it, and nothing traced.
pub fn subworkflow_execution(vars: &VarStore, step_id: &str, result: StepResult) -> (r:
    StepExecution)
    ensures
        r.result == result,
        json_map_view(r.outputs) == outputs_of(vars@, step_id@),
        r.dry_run_request is None,
        r.trace.request is None,
        r.trace.response is None,
        r.trace.criteria@.len() == 0,
        r.trace.warnings@.len() == 0,
{
    StepExecution {
        result,
        outputs: vars.step_outputs(step_id),
        dry_run_request: None,
        trace: StepTraceData {
            request: None,
            response: None,
            criteria: Vec::new(),
            warnings: Vec::new(),
        },
    }
}

} // verus!
