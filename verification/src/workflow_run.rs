//! Entering a workflow: what has to hold before its first step, what its
//! inputs are, and which of its steps run.

use crate::actions::Interrupt;
use crate::deps::{compute_transitive_deps, is_step_named, needed_by, step_not_found};
use crate::error::{cancellation, cancellation_error, ErrorView, RuntimeError, RuntimeErrorKind};
use crate::input_validation::{
    completed_inputs, input_issues, issue_line, issue_views, validate_inputs, InputIssue,
    InputIssueSeverity, InputIssueView,
};
use crate::json::{Json, JsonView};
use crate::model::{Parameter, Step, StepTarget, Workflow};
use crate::step_refs::{declares_ref, extract_step_refs, NameSet};
use crate::text::{concat3, concat4, concat5, decimal, decimal_text, join_texts, joined, same_text, texts};
use crate::text_map::{ascending, TextMap};
use crate::trace::json_map_view;
use crate::vars::{VarStore, VarsView};
use std::collections::BTreeSet;
use vstd::prelude::*;
use vstd::string::*;

verus! {

// ---------------------------------------------------------------------
// Entering
// ---------------------------------------------------------------------

/// How deep workflows may call each other.
pub const MAX_CALL_DEPTH: usize = 10;

/// Refuses to go on where the execution was called off.
pub fn check_cancelled(interrupt: Interrupt) -> (r: Result<(), RuntimeError>)
    ensures
        (r is Err) == interrupt.cancelled,
        r matches Err(e) ==> e@ == cancellation(interrupt.timed_out),
{
    if interrupt.cancelled {
        Err(cancellation_error(interrupt.timed_out))
    } else {
        Ok(())
    }
}

/// What the text of a workflow dependency stands for.
#[derive(Debug, PartialEq)]
pub enum WorkflowDependency {
    /// A workflow of the same document.
    Local(String),
    /// A workflow of another document.
    External,
    Invalid,
}

/// Whether a dependency is satisfied: the workflow is of the same document and
/// has completed.
pub open spec fn is_satisfied(d: WorkflowDependency, completed: Set<Seq<char>>) -> bool {
    d matches WorkflowDependency::Local(id) && completed.contains(id@)
}

/// The position of the first dependency, at or after `from`, that is not
/// satisfied. One that was not classified is not.
pub open spec fn unsatisfied_from(
    classes: Seq<WorkflowDependency>,
    completed: Set<Seq<char>>,
    n: int,
    from: int,
) -> int
    decreases n - from,
{
    if from >= n {
        n
    } else if from < classes.len() && is_satisfied(classes[from], completed) {
        unsatisfied_from(classes, completed, n, from + 1)
    } else {
        from
    }
}

/// The refusal of a workflow whose dependency has not completed.
pub open spec fn dependency_refusal(workflow: Seq<char>, dependency: Seq<char>) -> ErrorView {
    ErrorView {
        kind: RuntimeErrorKind::WorkflowDependencyUnsatisfied,
        message: "workflow \""@ + workflow + "\" depends on workflow \""@ + dependency
            + "\", which has not completed in this execution context"@,
    }
}

/// Refuses a workflow of whose dependencies one has not completed. `classes`
/// says what each dependency stands for.
pub fn require_workflow_dependencies(
    workflow: &Workflow,
    classes: &Vec<WorkflowDependency>,
    completed: &NameSet,
) -> (r: Result<(), RuntimeError>)
    ensures
        ({
            let n = workflow.depends_on@.len() as int;
            let at = unsatisfied_from(classes@, completed@.dom(), n, 0);
            if at < n {
                r matches Err(e) && e@ == dependency_refusal(
                    workflow.workflow_id@,
                    workflow.depends_on@[at]@,
                )
            } else {
                r is Ok
            }
        }),
{
    let mut i: usize = 0;
    while i < workflow.depends_on.len()
        invariant
            i <= workflow.depends_on@.len(),
            unsatisfied_from(classes@, completed@.dom(), workflow.depends_on@.len() as int, 0)
                == unsatisfied_from(
                classes@,
                completed@.dom(),
                workflow.depends_on@.len() as int,
                i as int,
            ),
        decreases workflow.depends_on@.len() - i,
    {
        let satisfied = if i < classes.len() {
            match &classes[i] {
                WorkflowDependency::Local(id) => completed.contains_key(id.as_str()),
                _ => false,
            }
        } else {
            false
        };
        if !satisfied {
            let message = concat5(
                "workflow \"",
                workflow.workflow_id.as_str(),
                "\" depends on workflow \"",
                workflow.depends_on[i].as_str(),
                "\", which has not completed in this execution context",
            );
            return Err(RuntimeError::new(RuntimeErrorKind::WorkflowDependencyUnsatisfied, message));
        }
        i = i + 1;
    }
    Ok(())
}

/// The refusal of a workflow that is not there.
pub open spec fn workflow_not_found(id: Seq<char>) -> ErrorView {
    ErrorView {
        kind: RuntimeErrorKind::WorkflowNotFound,
        message: "workflow \""@ + id + "\" not found"@,
    }
}

/// The refusal of a call that is too deep.
pub open spec fn too_deep(id: Seq<char>) -> ErrorView {
    ErrorView {
        kind: RuntimeErrorKind::MaxCallDepthExceeded,
        message: "max call depth ("@ + decimal(MAX_CALL_DEPTH as nat)
            + ") exceeded calling workflow \""@ + id + "\""@,
    }
}

/// Why a workflow is not entered: the execution was called off, the call is too
/// deep, there is no such workflow, or a dependency has not completed.
pub open spec fn entry_refusal(
    workflow: Option<Workflow>,
    id: Seq<char>,
    classes: Seq<WorkflowDependency>,
    completed: Set<Seq<char>>,
    depth: nat,
    interrupt: Interrupt,
) -> Option<ErrorView> {
    if interrupt.cancelled {
        Some(cancellation(interrupt.timed_out))
    } else if depth >= MAX_CALL_DEPTH {
        Some(too_deep(id))
    } else {
        match workflow {
            None => Some(workflow_not_found(id)),
            Some(w) => {
                let n = w.depends_on@.len() as int;
                let at = unsatisfied_from(classes, completed, n, 0);
                if at < n {
                    Some(dependency_refusal(w.workflow_id@, w.depends_on@[at]@))
                } else {
                    None
                }
            },
        }
    }
}

/// Checks that a workflow may be entered.
pub fn enter_workflow(
    workflow: Option<&Workflow>,
    workflow_id: &str,
    classes: &Vec<WorkflowDependency>,
    completed: &NameSet,
    depth: usize,
    interrupt: Interrupt,
) -> (r: Result<(), RuntimeError>)
    ensures
        match entry_refusal(
            match workflow {
                Some(w) => Some(*w),
                None => None,
            },
            workflow_id@,
            classes@,
            completed@.dom(),
            depth as nat,
            interrupt,
        ) {
            Some(e) => r matches Err(x) && x@ == e,
            None => r is Ok,
        },
{
    match check_cancelled(interrupt) {
        Ok(_) => {},
        Err(e) => {
            return Err(e);
        },
    }
    if depth >= MAX_CALL_DEPTH {
        let limit = decimal_text(MAX_CALL_DEPTH as u64);
        let message = concat5(
            "max call depth (",
            limit.as_str(),
            ") exceeded calling workflow \"",
            workflow_id,
            "\"",
        );
        return Err(RuntimeError::new(RuntimeErrorKind::MaxCallDepthExceeded, message));
    }
    match workflow {
        None => Err(
            RuntimeError::new(
                RuntimeErrorKind::WorkflowNotFound,
                concat3("workflow \"", workflow_id, "\" not found"),
            ),
        ),
        Some(w) => require_workflow_dependencies(w, classes, completed),
    }
}

/// A call at the greatest depth, or deeper, is never entered.
pub proof fn calls_are_bounded(
    workflow: Option<Workflow>,
    id: Seq<char>,
    classes: Seq<WorkflowDependency>,
    completed: Set<Seq<char>>,
    depth: nat,
    interrupt: Interrupt,
)
    requires
        depth >= MAX_CALL_DEPTH,
    ensures
        entry_refusal(workflow, id, classes, completed, depth, interrupt) is Some,
{
}

/// Only workflows all of whose dependencies have completed are entered.
pub proof fn dependencies_come_first(
    w: Workflow,
    id: Seq<char>,
    classes: Seq<WorkflowDependency>,
    completed: Set<Seq<char>>,
    depth: nat,
    interrupt: Interrupt,
    i: int,
)
    requires
        entry_refusal(Some(w), id, classes, completed, depth, interrupt) is None,
        0 <= i < w.depends_on@.len(),
    ensures
        i < classes.len(),
        is_satisfied(classes[i], completed),
{
    satisfied_before(classes, completed, w.depends_on@.len() as int, 0, i);
}

proof fn satisfied_before(
    classes: Seq<WorkflowDependency>,
    completed: Set<Seq<char>>,
    n: int,
    from: int,
    i: int,
)
    requires
        0 <= from <= i < n,
        unsatisfied_from(classes, completed, n, from) >= n,
    ensures
        i < classes.len(),
        is_satisfied(classes[i], completed),
    decreases n - from,
{
    if from < i {
        satisfied_before(classes, completed, n, from + 1, i);
    }
}

// ---------------------------------------------------------------------
// Inputs
// ---------------------------------------------------------------------

/// Whether one of some issues is an error.
pub open spec fn has_error(issues: Seq<InputIssueView>) -> bool {
    exists|i: int| 0 <= i < issues.len() && (#[trigger] issues[i]).severity is Error
}

/// The lines of issues.
pub open spec fn issue_lines(issues: Seq<InputIssueView>) -> Seq<Seq<char>> {
    issues.map_values(|i: InputIssueView| issue_line(i))
}

/// The refusal of inputs.
pub open spec fn inputs_refused(workflow: Seq<char>, issues: Seq<InputIssueView>) -> ErrorView {
    ErrorView {
        kind: RuntimeErrorKind::InputValidation,
        message: "input validation failed for workflow \""@ + workflow + "\": "@ + joined(
            issue_lines(issues),
            "; "@,
        ),
    }
}

fn lines_of(issues: &Vec<InputIssue>) -> (r: Vec<String>)
    ensures
        texts(r@) == issue_lines(issue_views(issues@)),
{
    let mut out: Vec<String> = Vec::new();
    let mut i: usize = 0;
    while i < issues.len()
        invariant
            i <= issues@.len(),
            out@.len() == i,
            forall|j: int| 0 <= j < i ==> (#[trigger] out@[j])@ == issue_line(issues@[j]@),
        decreases issues@.len() - i,
    {
        out.push(issues[i].line());
        i = i + 1;
    }
    assert(texts(out@) =~= issue_lines(issue_views(issues@)));
    out
}

fn any_error(issues: &Vec<InputIssue>) -> (r: bool)
    ensures
        r == has_error(issue_views(issues@)),
{
    let ghost views = issue_views(issues@);
    let mut i: usize = 0;
    while i < issues.len()
        invariant
            i <= issues@.len(),
            views == issue_views(issues@),
            forall|j: int| 0 <= j < i ==> !((#[trigger] views[j]).severity is Error),
        decreases issues@.len() - i,
    {
        assert(views[i as int] == issues@[i as int]@);
        match issues[i].severity {
            InputIssueSeverity::Error => {
                return true;
            },
            InputIssueSeverity::Warning => {},
        }
        i = i + 1;
    }
    false
}

/// What a workflow starts with, or why it does not.
pub open spec fn inputs_taken(
    workflow: Workflow,
    given: Map<Seq<char>, JsonView>,
    strict: bool,
    names: Seq<Seq<char>>,
) -> Result<(Map<Seq<char>, JsonView>, Seq<Seq<char>>), ErrorView> {
    match workflow.inputs {
        None => Ok((given, Seq::empty())),
        Some(schema) => {
            let issues = input_issues(schema, given, names);
            if strict && has_error(issues) {
                Err(inputs_refused(workflow.workflow_id@, issues))
            } else {
                Ok((completed_inputs(schema, given), issue_lines(issues)))
            }
        },
    }
}

/// Whether a workflow starts like this.
pub open spec fn starts_with_inputs(
    workflow: Workflow,
    given: Map<Seq<char>, JsonView>,
    strict: bool,
    r: Result<(VarStore, Vec<String>), RuntimeError>,
) -> bool {
    exists|names: Seq<Seq<char>>|
        match #[trigger] inputs_taken(workflow, given, strict, names) {
            Ok(v) => r matches Ok(x) && x.0@.inputs == v.0 && texts(x.1@) == v.1,
            Err(e) => r matches Err(x) && x@ == e,
        }
}

/// What a workflow starts with: the inputs, with the defaults that it declares,
/// and the warnings about them. Strict checking refuses inputs with errors.
pub fn validate_and_populate_inputs(
    workflow: &Workflow,
    inputs: TextMap<Json>,
    strict: bool,
) -> (r: Result<(VarStore, Vec<String>), RuntimeError>)
    ensures
        match workflow.inputs {
            None => r matches Ok(x) && x.0@ == (VarsView {
                inputs: json_map_view(inputs),
                steps: Map::empty(),
                workflows: Map::empty(),
            }) && x.1@.len() == 0,
            Some(schema) => exists|names: Seq<Seq<char>>|
                {
                    let issues = #[trigger] input_issues(schema, json_map_view(inputs), names);
                    &&& ascending(names)
                    &&& forall|k: Seq<char>| #[trigger] names.contains(k) == completed_inputs(
                        schema,
                        json_map_view(inputs),
                    ).contains_key(k)
                    &&& if strict && has_error(issues) {
                        r matches Err(e) && e@ == inputs_refused(workflow.workflow_id@, issues)
                    } else {
                        r matches Ok(x) && x.0@ == (VarsView {
                            inputs: completed_inputs(schema, json_map_view(inputs)),
                            steps: Map::empty(),
                            workflows: Map::empty(),
                        }) && texts(x.1@) == issue_lines(issues)
                    }
                },
        },
        starts_with_inputs(*workflow, json_map_view(inputs), strict, r),
{
    let mut vars = VarStore::default();
    match &workflow.inputs {
        None => {
            let ghost given = json_map_view(inputs);
            vars.inputs = inputs;
            let none: Vec<String> = Vec::new();
            proof {
                assert(texts(none@) =~= Seq::<Seq<char>>::empty());
                let taken = inputs_taken(*workflow, given, strict, Seq::empty());
            }
            Ok((vars, none))
        },
        Some(schema) => {
            let ghost given = json_map_view(inputs);
            let mut inputs = inputs;
            let issues = validate_inputs(schema, &mut inputs);
            let count = inputs.len();
            let ghost names = inputs.keys();
            let ghost views = issue_views(issues@);
            proof {
                assert(ascending(names));
                assert forall|k: Seq<char>| #[trigger] names.contains(k) == completed_inputs(
                    *schema,
                    given,
                ).contains_key(k) by {
                    assert(inputs@.dom().contains(k) == inputs.keys().contains(k));
                }
            }
            assert(views == input_issues(*schema, given, names));
            let ghost taken = inputs_taken(*workflow, given, strict, names);
            let lines = lines_of(&issues);
            if strict && any_error(&issues) {
                let all = join_texts(&lines, "; ");
                let message = concat4(
                    "input validation failed for workflow \"",
                    workflow.workflow_id.as_str(),
                    "\": ",
                    all.as_str(),
                );
                return Err(RuntimeError::new(RuntimeErrorKind::InputValidation, message));
            }
            vars.inputs = inputs;
            Ok((vars, lines))
        },
    }
}

// ---------------------------------------------------------------------
// Parameters
// ---------------------------------------------------------------------

/// Whether two parameters are for the same place.
pub open spec fn same_place(a: Parameter, b: Parameter) -> bool {
    a.name@ == b.name@ && a.in_ == b.in_
}

/// Whether a parameter has one of a list in its place.
pub open spec fn is_overridden(p: Parameter, own: Seq<Parameter>) -> bool {
    exists|i: int| 0 <= i < own.len() && same_place(p, #[trigger] own[i])
}

/// The parameters of a workflow that a step does not override.
pub open spec fn inherited(list: Seq<Parameter>, own: Seq<Parameter>) -> Seq<Parameter>
    decreases list.len(),
{
    if list.len() == 0 {
        list
    } else {
        let before = inherited(list.drop_last(), own);
        if is_overridden(list.last(), own) {
            before
        } else {
            before.push(list.last())
        }
    }
}

/// The parameters of a step of a workflow: those that it inherits, then its
/// own. A step that calls a workflow inherits none.
pub open spec fn merged_parameters(list: Seq<Parameter>, step: Step) -> Seq<Parameter> {
    if step.target matches Some(StepTarget::WorkflowId(_)) {
        step.parameters@
    } else {
        inherited(list, step.parameters@) + step.parameters@
    }
}

fn overridden(p: &Parameter, own: &Vec<Parameter>) -> (r: bool)
    ensures
        r == is_overridden(*p, own@),
{
    let mut i: usize = 0;
    while i < own.len()
        invariant
            i <= own@.len(),
            forall|j: int| 0 <= j < i ==> !same_place(*p, #[trigger] own@[j]),
        decreases own@.len() - i,
    {
        let same_location = match (p.in_, own[i].in_) {
            (Some(a), Some(b)) => a == b,
            (None, None) => true,
            _ => false,
        };
        if same_location && same_text(p.name.as_str(), own[i].name.as_str()) {
            return true;
        }
        i = i + 1;
    }
    false
}

/// Hands the parameters of a workflow on to one of its steps.
pub fn merge_workflow_params(workflow_params: Vec<Parameter>, step: &mut Step)
    ensures
        final(step).parameters@ == merged_parameters(workflow_params@, *old(step)),
        final(step).step_id == old(step).step_id,
        final(step).target == old(step).target,
        final(step).has_async_action == old(step).has_async_action,
        final(step).depends_on == old(step).depends_on,
        final(step).request_body == old(step).request_body,
        final(step).success_criteria == old(step).success_criteria,
        final(step).on_success == old(step).on_success,
        final(step).on_failure == old(step).on_failure,
        final(step).outputs == old(step).outputs,
{
    let calls = match &step.target {
        Some(StepTarget::WorkflowId(_)) => true,
        _ => false,
    };
    if calls {
        return ;
    }
    let ghost own = step.parameters@;
    let ghost list = workflow_params@;
    let mut merged: Vec<Parameter> = Vec::new();
    assert(merged@ =~= inherited(list.take(0), own));
    for p in it: workflow_params
        invariant
            it.seq() == list,
            *step == *old(step),
            own == step.parameters@,
            merged@ == inherited(list.take(it.index() as int), own),
    {
        let ghost i = it.index() as int;
        assert(list.take(i + 1).drop_last() =~= list.take(i));
        if !overridden(&p, &step.parameters) {
            merged.push(p);
        }
    }
    assert(list.take(list.len() as int) =~= list);
    let mut parameters: Vec<Parameter> = Vec::new();
    std::mem::swap(&mut parameters, &mut step.parameters);
    merged.append(&mut parameters);
    step.parameters = merged;
}

/// A step keeps its own parameters, behind those that it inherits.
pub proof fn own_parameters_come_last(list: Seq<Parameter>, step: Step)
    ensures
        merged_parameters(list, step).len() >= step.parameters@.len(),
        merged_parameters(list, step).skip(
            merged_parameters(list, step).len() - step.parameters@.len(),
        ) == step.parameters@,
{
    let m = merged_parameters(list, step);
    assert(m.skip(m.len() - step.parameters@.len()) =~= step.parameters@);
}

/// What a step inherits does not stand in the place of its own parameters.
pub proof fn inherited_parameters_do_not_override(list: Seq<Parameter>, own: Seq<Parameter>)
    ensures
        forall|i: int|
            0 <= i < inherited(list, own).len() ==> !is_overridden(
                #[trigger] inherited(list, own)[i],
                own,
            ),
    decreases list.len(),
{
    if list.len() > 0 {
        let before = inherited(list.drop_last(), own);
        inherited_parameters_do_not_override(list.drop_last(), own);
        assert forall|i: int| 0 <= i < inherited(list, own).len() implies !is_overridden(
            #[trigger] inherited(list, own)[i],
            own,
        ) by {
            if i < before.len() {
                assert(!is_overridden(before[i], own));
            }
        }
    }
}

// ---------------------------------------------------------------------
// Single steps
// ---------------------------------------------------------------------

/// The position of the first step of an id, at or after `from`.
pub open spec fn first_step(steps: Seq<Step>, id: Seq<char>, from: int) -> int
    decreases steps.len() - from,
{
    if from >= steps.len() {
        steps.len() as int
    } else if steps[from].step_id@ == id {
        from
    } else {
        first_step(steps, id, from + 1)
    }
}

/// The members of a set below `n`, in order.
pub open spec fn listed(s: Set<usize>, n: nat) -> Seq<usize>
    decreases n,
{
    if n == 0 {
        Seq::empty()
    } else if s.contains((n - 1) as usize) {
        listed(s, (n - 1) as nat).push((n - 1) as usize)
    } else {
        listed(s, (n - 1) as nat)
    }
}

proof fn listed_are_below(s: Set<usize>, n: nat)
    requires
        n <= usize::MAX,
    ensures
        forall|i: int| 0 <= i < listed(s, n).len() ==> #[trigger] listed(s, n)[i] < n,
    decreases n,
{
    if n > 0 {
        listed_are_below(s, (n - 1) as nat);
        let before = listed(s, (n - 1) as nat);
        assert forall|i: int| 0 <= i < listed(s, n).len() implies #[trigger] listed(s, n)[i] < n by {
            if i < before.len() {
                assert(before[i] < n - 1);
            }
        }
    }
}

/// The refusal of a step whose references are not run.
pub open spec fn missing_dependency(step_id: Seq<char>, names: Seq<Seq<char>>) -> ErrorView {
    ErrorView {
        kind: RuntimeErrorKind::StepMissingDependency,
        message: "step \""@ + step_id + "\" references outputs from step(s) ["@ + joined(
            names,
            ", "@,
        ) + "] which were not executed (use without --no-deps to auto-resolve)"@,
    }
}

/// Whether names are those of the steps that a step refers to, but for itself.
pub open spec fn other_refs(step: Step, names: Seq<Seq<char>>) -> bool {
    &&& ascending(names)
    &&& forall|n: Seq<char>|
        #[trigger] names.contains(n) == (declares_ref(step, n) && n != step.step_id@)
}

/// Whether steps are those that a step needs, and the step itself.
pub open spec fn steps_needed(w: Workflow, target: int, id: Seq<char>, run: Seq<usize>) -> bool {
    exists|s: Set<usize>|
        #![trigger s.insert(target as usize)]
        (forall|t: int| is_step_named(w.steps@, id, t) ==> #[trigger] needed_by(w, t, s)) && run
            == listed(s.insert(target as usize), w.steps@.len())
}

/// Whether these are the steps that run for one step, or this is why none do.
pub open spec fn chosen_to_run(
    w: Workflow,
    id: Seq<char>,
    no_deps: bool,
    r: Result<Seq<usize>, ErrorView>,
) -> bool {
    let at = first_step(w.steps@, id, 0);
    if at >= w.steps@.len() {
        r matches Err(e) && e == step_not_found(id, w.workflow_id@)
    } else if no_deps {
        exists|names: Seq<Seq<char>>| #[trigger]
            other_refs(w.steps@[at], names) && if names.len() > 0 {
                r matches Err(e) && e == missing_dependency(id, names)
            } else {
                r matches Ok(v) && v == seq![at as usize]
            }
    } else {
        r matches Ok(v) && steps_needed(w, at, id, v)
    }
}

/// The steps that run when one step is asked for: the ones that it needs and
/// itself, in order. Without those that it needs it is refused if it refers to
/// any.
pub fn steps_to_run(workflow: &Workflow, step_id: &str, no_deps: bool) -> (r: Result<
    Vec<usize>,
    RuntimeError,
>)
    ensures
        chosen_to_run(
            *workflow,
            step_id@,
            no_deps,
            match r {
                Ok(v) => Ok(v@),
                Err(e) => Err(e@),
            },
        ),
        ({
            let at = first_step(workflow.steps@, step_id@, 0);
            if at >= workflow.steps@.len() {
                r matches Err(e) && e@ == step_not_found(step_id@, workflow.workflow_id@)
            } else if no_deps {
                exists|names: Seq<Seq<char>>| #[trigger]
                    other_refs(workflow.steps@[at], names) && if names.len() > 0 {
                        r matches Err(e) && e@ == missing_dependency(step_id@, names)
                    } else {
                        r matches Ok(v) && v@ == seq![at as usize]
                    }
            } else {
                r matches Ok(v) && steps_needed(*workflow, at, step_id@, v@)
            }
        }),
        r matches Ok(v) ==> forall|i: int|
            0 <= i < v@.len() ==> #[trigger] v@[i] < workflow.steps@.len(),
{
    let mut target: usize = 0;
    while target < workflow.steps.len() && !same_text(
        workflow.steps[target].step_id.as_str(),
        step_id,
    )
        invariant
            target <= workflow.steps@.len(),
            first_step(workflow.steps@, step_id@, 0) == first_step(
                workflow.steps@,
                step_id@,
                target as int,
            ),
        decreases workflow.steps@.len() - target,
    {
        target = target + 1;
    }
    if target >= workflow.steps.len() {
        return Err(
            RuntimeError::new(
                RuntimeErrorKind::StepNotFound,
                concat5(
                    "step \"",
                    step_id,
                    "\" not found in workflow \"",
                    workflow.workflow_id.as_str(),
                    "\"",
                ),
            ),
        );
    }
    let ghost at = target as int;
    assert(at == first_step(workflow.steps@, step_id@, 0));
    assert(workflow.steps@[at].step_id@ == step_id@);
    if no_deps {
        let refs = extract_step_refs(&workflow.steps[target]);
        let others = without_name(refs, step_id);
        assert(other_refs(workflow.steps@[at], texts(others@)));
        assert(texts(others@).len() == others@.len());
        if others.len() > 0 {
            let names = join_texts(&others, ", ");
            let message = concat5(
                "step \"",
                step_id,
                "\" references outputs from step(s) [",
                names.as_str(),
                "] which were not executed (use without --no-deps to auto-resolve)",
            );
            return Err(RuntimeError::new(RuntimeErrorKind::StepMissingDependency, message));
        }
        let mut run: Vec<usize> = Vec::new();
        run.push(target);
        assert(run@ =~= seq![at as usize]);
        return Ok(run);
    }
    proof {
        assert(workflow.steps@[at].step_id@ == step_id@);
    }
    match compute_transitive_deps(workflow, step_id) {
        Ok(deps) => {
            let run = list_members(&deps, target, workflow.steps.len());
            let ghost s = deps@;
            assert(run@ == listed(s.insert(target), workflow.steps@.len()));
            assert(s.insert(at as usize) == s.insert(target));
            proof {
                listed_are_below(s.insert(target), workflow.steps@.len());
            }
            Ok(run)
        },
        Err(e) => Err(e),
    }
}

/// Whether a name is one of the first `n` of a list, and not the one that is
/// taken out.
spec fn kept(list: Seq<Seq<char>>, n: int, out: Seq<char>, x: Seq<char>) -> bool {
    x != out && exists|k: int| 0 <= k < n && #[trigger] list[k] == x
}

fn without_name(names: Vec<String>, name: &str) -> (r: Vec<String>)
    requires
        ascending(texts(names@)),
    ensures
        ascending(texts(r@)),
        forall|n: Seq<char>|
            #[trigger] texts(r@).contains(n) == (texts(names@).contains(n) && n != name@),
{
    let ghost list = texts(names@);
    let mut out: Vec<String> = Vec::new();
    let mut i: usize = 0;
    while i < names.len()
        invariant
            i <= names@.len(),
            list == texts(names@),
            ascending(list),
            ascending(texts(out@)),
            forall|x: Seq<char>|
                #[trigger] texts(out@).contains(x) == kept(list, i as int, name@, x),
        decreases names@.len() - i,
    {
        let ghost before = texts(out@);
        let ghost next = list[i as int];
        assert forall|x: Seq<char>| #[trigger] kept(list, i + 1, name@, x) == (kept(
            list,
            i as int,
            name@,
            x,
        ) || (x == next && x != name@)) by {
            if kept(list, i + 1, name@, x) {
                let k = choose|k: int| 0 <= k < i + 1 && #[trigger] list[k] == x;
                if k < i {
                    assert(list[k] == x);
                }
            }
            if kept(list, i as int, name@, x) {
                let k = choose|k: int| 0 <= k < i && #[trigger] list[k] == x;
                assert(list[k] == x);
            }
        }
        if !same_text(names[i].as_str(), name) {
            out.push(names[i].clone());
            assert(texts(out@) =~= before.push(next));
            assert forall|a: int, b: int|
                0 <= a < b < texts(out@).len() implies crate::text::text_before(
                #[trigger] texts(out@)[a],
                #[trigger] texts(out@)[b],
            ) by {
                assert(before[a] == texts(out@)[a]);
                if b < before.len() {
                    assert(before[b] == texts(out@)[b]);
                } else {
                    assert(before.contains(before[a]));
                    let k = choose|k: int| 0 <= k < i && #[trigger] list[k] == before[a];
                    assert(crate::text::text_before(list[k], list[i as int]));
                }
            }
            assert forall|x: Seq<char>|
                #[trigger] texts(out@).contains(x) == kept(list, i + 1, name@, x) by {
                if before.contains(x) {
                    let j = choose|j: int| 0 <= j < before.len() && before[j] == x;
                    assert(texts(out@)[j] == x);
                }
                if x == next {
                    assert(texts(out@)[before.len() as int] == x);
                }
                if texts(out@).contains(x) {
                    let j = choose|j: int| 0 <= j < texts(out@).len() && texts(out@)[j] == x;
                    if j < before.len() {
                        assert(before[j] == x);
                        assert(before.contains(x));
                    }
                }
                assert(before.contains(x) == kept(list, i as int, name@, x));
            }
        }
        i = i + 1;
    }
    assert forall|n: Seq<char>|
        #[trigger] texts(out@).contains(n) == (list.contains(n) && n != name@) by {
        assert(texts(out@).contains(n) == kept(list, i as int, name@, n));
    }
    out
}

fn list_members(s: &BTreeSet<usize>, extra: usize, n: usize) -> (r: Vec<usize>)
    ensures
        r@ == listed(s@.insert(extra), n as nat),
{
    broadcast use vstd::std_specs::btree::group_btree_axioms;

    let ghost all = s@.insert(extra);
    let mut out: Vec<usize> = Vec::new();
    let mut i: usize = 0;
    while i < n
        invariant
            i <= n,
            all == s@.insert(extra),
            out@ == listed(all, i as nat),
        decreases n - i,
    {
        if i == extra || s.contains(&i) {
            out.push(i);
        }
        i = i + 1;
    }
    out
}

} // verus!
