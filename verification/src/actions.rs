//! Routing: how the result of a step leads on, through its success and
//! failure actions.

use crate::breakpoints::StepCheckpoint;
use crate::deps::{is_step_named, step_exists, step_index};
use crate::error::{cancellation, cancellation_error, ErrorView, RuntimeError, RuntimeErrorKind};
use crate::json::{Json, JsonView};
use crate::json_equal::{float_is_finite, float_is_negative};
use crate::json_pointer::{all_digits, digits_value, unsigned_digits};
use crate::model::{action_type_name, ActionType, OnAction, RetryAfter, Step, Workflow};
use crate::outcome::{result_error, step_result_error, StepResult};
use crate::retries::{effective_retry_limit, retry_limit_of, RetryCounts, RetrySite};
use crate::text::{
    chars_of, concat3, concat5, decimal, decimal_text, digit_char, eq_ignore_case, is_digit,
    same_ignoring_case,
};
use crate::text_map::TextMap;
use crate::trace::{
    bare_decision, json_map_view, DecisionView, TraceDecision, TraceDecisionPath,
};
use vstd::prelude::*;
use vstd::string::*;

verus! {

// ---------------------------------------------------------------------
// Branches
// ---------------------------------------------------------------------

/// Which list of actions a result is routed through.
#[derive(Debug, Clone, Copy, PartialEq, Eq, Structural)]
pub enum ActionBranch {
    Success,
    Failure,
}

/// The field of a document that holds a branch's actions.
pub open spec fn branch_label(b: ActionBranch) -> Seq<char> {
    match b {
        ActionBranch::Success => "onSuccess"@,
        ActionBranch::Failure => "onFailure"@,
    }
}

impl ActionBranch {
    /// The field of a document that holds the branch's actions.
    pub fn label(self) -> (r: &'static str)
        ensures
            r@ == branch_label(self),
    {
        match self {
            ActionBranch::Success => "onSuccess",
            ActionBranch::Failure => "onFailure",
        }
    }

    /// The checkpoint of an action.
    pub fn action_checkpoint(self, action_index: usize) -> (r: StepCheckpoint)
        ensures
            r == (match self {
                ActionBranch::Success => StepCheckpoint::OnSuccessAction { index: action_index },
                ActionBranch::Failure => StepCheckpoint::OnFailureAction { index: action_index },
            }),
    {
        match self {
            ActionBranch::Success => StepCheckpoint::OnSuccessAction { index: action_index },
            ActionBranch::Failure => StepCheckpoint::OnFailureAction { index: action_index },
        }
    }

    /// The checkpoint of a criterion of an action.
    pub fn criterion_checkpoint(self, action_index: usize, criterion_index: usize) -> (r:
        StepCheckpoint)
        ensures
            r == (match self {
                ActionBranch::Success => StepCheckpoint::OnSuccessCriterion {
                    action_index,
                    criterion_index,
                },
                ActionBranch::Failure => StepCheckpoint::OnFailureCriterion {
                    action_index,
                    criterion_index,
                },
            }),
    {
        match self {
            ActionBranch::Success => StepCheckpoint::OnSuccessCriterion {
                action_index,
                criterion_index,
            },
            ActionBranch::Failure => StepCheckpoint::OnFailureCriterion {
                action_index,
                criterion_index,
            },
        }
    }

    /// The checkpoint where an action has selected a retry.
    pub fn retry_selected_checkpoint(self, action_index: usize) -> (r: StepCheckpoint)
        ensures
            r == (match self {
                ActionBranch::Success => StepCheckpoint::OnSuccessRetrySelected { action_index },
                ActionBranch::Failure => StepCheckpoint::OnFailureRetrySelected { action_index },
            }),
    {
        match self {
            ActionBranch::Success => StepCheckpoint::OnSuccessRetrySelected { action_index },
            ActionBranch::Failure => StepCheckpoint::OnFailureRetrySelected { action_index },
        }
    }

    /// The checkpoint before the delay of a retry.
    pub fn retry_delay_checkpoint(self, action_index: usize) -> (r: StepCheckpoint)
        ensures
            r == (match self {
                ActionBranch::Success => StepCheckpoint::OnSuccessRetryDelay { action_index },
                ActionBranch::Failure => StepCheckpoint::OnFailureRetryDelay { action_index },
            }),
    {
        match self {
            ActionBranch::Success => StepCheckpoint::OnSuccessRetryDelay { action_index },
            ActionBranch::Failure => StepCheckpoint::OnFailureRetryDelay { action_index },
        }
    }
}

// ---------------------------------------------------------------------
// Choosing an action
// ---------------------------------------------------------------------

/// Whether every criterion of action `i` holds, given what the criteria came
/// to. An action without criteria always applies.
pub open spec fn action_applies(actions: Seq<OnAction>, matched: Seq<Vec<bool>>, i: int) -> bool {
    forall|j: int|
        0 <= j < actions[i].criteria@.len() ==> #[trigger] criterion_held(matched, i, j)
}

/// Whether criterion `j` of action `i` held. What was not evaluated did not
/// hold.
pub open spec fn criterion_held(matched: Seq<Vec<bool>>, i: int, j: int) -> bool {
    0 <= i < matched.len() && 0 <= j < matched[i]@.len() && matched[i]@[j]
}

/// What the search for an action does next.
#[derive(Debug, Clone, Copy, PartialEq, Eq, Structural)]
pub enum Selection {
    /// Come to the checkpoint of an action.
    Gate { action_index: usize },
    /// Evaluate a criterion.
    Criterion { action_index: usize, criterion_index: usize },
    /// The action was found.
    Selected { action_index: usize },
    /// No action applies.
    Nothing,
}

/// The search begins with the action at `start`.
pub open spec fn selection_from(actions: Seq<OnAction>, start: int) -> Selection {
    if start < actions.len() {
        Selection::Gate { action_index: start as usize }
    } else {
        Selection::Nothing
    }
}

/// Begins the search with the action at `start`.
pub fn select_from(actions: &Vec<OnAction>, start: usize) -> (r: Selection)
    ensures
        r == selection_from(actions@, start as int),
{
    if start < actions.len() {
        Selection::Gate { action_index: start }
    } else {
        Selection::Nothing
    }
}

/// What selection does behind the checkpoint of an action.
pub open spec fn selection_past_gate(actions: Seq<OnAction>, action_index: usize) -> Selection {
    if actions[action_index as int].criteria@.len() == 0 {
        Selection::Selected { action_index }
    } else {
        Selection::Criterion { action_index, criterion_index: 0 }
    }
}

/// What selection does behind a criterion.
pub open spec fn selection_past_criterion(
    actions: Seq<OnAction>,
    action_index: usize,
    criterion_index: usize,
    held: bool,
) -> Selection {
    if !held {
        selection_from(actions, action_index + 1)
    } else if criterion_index + 1 < actions[action_index as int].criteria@.len() {
        Selection::Criterion { action_index, criterion_index: (criterion_index + 1) as usize }
    } else {
        Selection::Selected { action_index }
    }
}

/// Goes on behind the checkpoint of an action: without criteria it is the one.
pub fn select_past_gate(actions: &Vec<OnAction>, action_index: usize) -> (r: Selection)
    requires
        action_index < actions@.len(),
    ensures
        r == (if actions@[action_index as int].criteria@.len() == 0 {
            Selection::Selected { action_index }
        } else {
            Selection::Criterion { action_index, criterion_index: 0 }
        }),
        r == selection_past_gate(actions@, action_index),
{
    if actions[action_index].criteria.len() == 0 {
        Selection::Selected { action_index }
    } else {
        Selection::Criterion { action_index, criterion_index: 0 }
    }
}

/// Goes on behind a criterion: one that fails leads to the next action, and
/// the last one that holds decides for its action.
pub fn select_past_criterion(
    actions: &Vec<OnAction>,
    action_index: usize,
    criterion_index: usize,
    held: bool,
) -> (r: Selection)
    requires
        action_index < actions@.len(),
        criterion_index < actions@[action_index as int].criteria@.len(),
    ensures
        r == (if !held {
            selection_from(actions@, action_index + 1)
        } else if criterion_index + 1 < actions@[action_index as int].criteria@.len() {
            Selection::Criterion { action_index, criterion_index: (criterion_index + 1) as usize }
        } else {
            Selection::Selected { action_index }
        }),
        r == selection_past_criterion(actions@, action_index, criterion_index, held),
{
    let count: usize = actions.len();
    let criteria: usize = actions[action_index].criteria.len();
    if !held {
        if action_index < count - 1 {
            Selection::Gate { action_index: action_index + 1 }
        } else {
            Selection::Nothing
        }
    } else if criterion_index < criteria - 1 {
        Selection::Criterion { action_index, criterion_index: criterion_index + 1 }
    } else {
        Selection::Selected { action_index }
    }
}

/// Whether `r` is the first action at or after `start` that applies.
pub open spec fn first_applying(
    actions: Seq<OnAction>,
    matched: Seq<Vec<bool>>,
    start: int,
    r: Option<usize>,
) -> bool {
    match r {
        Some(i) => start <= i < actions.len() && action_applies(actions, matched, i as int)
            && forall|j: int| start <= j < i ==> !(#[trigger] action_applies(actions, matched, j)),
        None => forall|j: int|
            start <= j < actions.len() ==> !(#[trigger] action_applies(actions, matched, j)),
    }
}

/// The first action at or after `start` that applies, given what the criteria
/// came to: the search, run to its end.
pub fn find_matching_action(
    actions: &Vec<OnAction>,
    matched: &Vec<Vec<bool>>,
    start: usize,
) -> (r: Option<usize>)
    ensures
        first_applying(actions@, matched@, start as int, r),
{
    let mut at = select_from(actions, start);
    let mut i: usize = start;
    while i < actions.len()
        invariant
            start <= i,
            at == selection_from(actions@, i as int),
            forall|j: int| start <= j < i ==> !(#[trigger] action_applies(actions@, matched@, j)),
        decreases actions@.len() - i,
    {
        at = select_past_gate(actions, i);
        let criteria: usize = actions[i].criteria.len();
        if criteria == 0 {
            return Some(i);
        }
        let mut c: usize = 0;
        let mut failed = false;
        while !failed && c < criteria
            invariant
                i < actions@.len(),
                criteria == actions@[i as int].criteria@.len(),
                c <= criteria,
                0 < criteria,
                !failed ==> forall|j: int| 0 <= j < c ==> #[trigger] criterion_held(matched@, i as int, j),
                failed ==> !action_applies(actions@, matched@, i as int) && at == selection_from(
                    actions@,
                    i + 1,
                ),
                !failed && c < criteria ==> at == (Selection::Criterion {
                    action_index: i,
                    criterion_index: c,
                }),
                !failed && c == criteria ==> at == (Selection::Selected { action_index: i }),
            decreases criteria - c, (if failed {
                0int
            } else {
                1int
            }),
        {
            let held = i < matched.len() && c < matched[i].len() && matched[i][c];
            assert(held == criterion_held(matched@, i as int, c as int));
            at = select_past_criterion(actions, i, c, held);
            if held {
                c = c + 1;
            } else {
                failed = true;
            }
        }
        if !failed {
            return Some(i);
        }
        i = i + 1;
    }
    None
}

// ---------------------------------------------------------------------
// Decisions
// ---------------------------------------------------------------------

/// What a retry runs before the step is tried again.
#[derive(Debug, PartialEq)]
pub enum RetryReference {
    Step { step_id: String },
    /// Without `inputs` the caller's own inputs are handed on.
    Workflow { workflow_id: String, inputs: Option<TextMap<Json>> },
}

/// Where execution goes after an attempt.
#[derive(Debug)]
pub enum FlowDecision {
    Next(usize),
    Retry {
        step_idx: usize,
        retry_site: RetrySite,
        retry_limit: u64,
        delay_nanos: u128,
        reference: Option<RetryReference>,
    },
    Done,
    /// Without `inputs` the caller's own inputs are handed on.
    GotoWorkflow { workflow_id: String, inputs: Option<TextMap<Json>> },
    Error(RuntimeError),
}

/// The inputs of a called workflow, by content.
pub type InputsView = Option<Map<Seq<char>, JsonView>>;

pub open spec fn inputs_view(inputs: Option<TextMap<Json>>) -> InputsView {
    match inputs {
        Some(m) => Some(json_map_view(m)),
        None => None,
    }
}

/// The content of a retry's reference.
#[verifier::ext_equal]
pub enum ReferenceView {
    Step { step_id: Seq<char> },
    Workflow { workflow_id: Seq<char>, inputs: InputsView },
}

impl View for RetryReference {
    type V = ReferenceView;

    open spec fn view(&self) -> ReferenceView {
        match *self {
            RetryReference::Step { step_id } => ReferenceView::Step { step_id: step_id@ },
            RetryReference::Workflow { workflow_id, inputs } => ReferenceView::Workflow {
                workflow_id: workflow_id@,
                inputs: inputs_view(inputs),
            },
        }
    }
}

/// The content of a flow decision.
#[verifier::ext_equal]
pub enum FlowView {
    Next(usize),
    Retry {
        step_idx: usize,
        retry_site: RetrySite,
        retry_limit: u64,
        delay_nanos: u128,
        reference: Option<ReferenceView>,
    },
    Done,
    GotoWorkflow { workflow_id: Seq<char>, inputs: InputsView },
    Error(ErrorView),
}

impl View for FlowDecision {
    type V = FlowView;

    open spec fn view(&self) -> FlowView {
        match *self {
            FlowDecision::Next(i) => FlowView::Next(i),
            FlowDecision::Retry { step_idx, retry_site, retry_limit, delay_nanos, reference } =>
            FlowView::Retry {
                step_idx,
                retry_site,
                retry_limit,
                delay_nanos,
                reference: match reference {
                    Some(r) => Some(r@),
                    None => None,
                },
            },
            FlowDecision::Done => FlowView::Done,
            FlowDecision::GotoWorkflow { workflow_id, inputs } => FlowView::GotoWorkflow {
                workflow_id: workflow_id@,
                inputs: inputs_view(inputs),
            },
            FlowDecision::Error(e) => FlowView::Error(e@),
        }
    }
}

/// A flow decision with what is traced of it.
#[derive(Debug)]
pub struct RoutedDecision {
    pub flow: FlowDecision,
    pub trace: TraceDecision,
}

/// The content of a routed decision.
#[verifier::ext_equal]
pub struct RoutedView {
    pub flow: FlowView,
    pub trace: DecisionView,
}

impl View for RoutedDecision {
    type V = RoutedView;

    open spec fn view(&self) -> RoutedView {
        RoutedView { flow: self.flow@, trace: self.trace@ }
    }
}

/// The decision that ends a workflow with an error.
pub open spec fn routed_error(e: ErrorView) -> RoutedView {
    RoutedView { flow: FlowView::Error(e), trace: bare_decision(TraceDecisionPath::Error) }
}

impl RoutedDecision {
    /// The decision that ends a workflow with an error.
    pub fn error(err: RuntimeError) -> (r: RoutedDecision)
        ensures
            r@ == routed_error(err@),
    {
        RoutedDecision {
            flow: FlowDecision::Error(err),
            trace: TraceDecision::with_path(TraceDecisionPath::Error),
        }
    }
}

/// A retry whose site has used its budget up.
#[derive(Debug, Clone, Copy, PartialEq, Eq, Structural)]
pub struct ExhaustedRetry {
    pub effective_limit: u64,
    pub retry_after: RetryAfter,
    pub configured_limit: Option<u64>,
}

/// What an action came to.
#[derive(Debug)]
pub enum ActionExecution {
    Routed(RoutedDecision),
    RetryExhausted(ExhaustedRetry),
}

/// The content of what an action came to.
#[verifier::ext_equal]
pub enum ExecutionView {
    Routed(RoutedView),
    RetryExhausted(ExhaustedRetry),
}

impl View for ActionExecution {
    type V = ExecutionView;

    open spec fn view(&self) -> ExecutionView {
        match *self {
            ActionExecution::Routed(d) => ExecutionView::Routed(d@),
            ActionExecution::RetryExhausted(e) => ExecutionView::RetryExhausted(e),
        }
    }
}

/// Whether the execution was called off, and whether because its time ran out.
#[derive(Debug, Clone, Copy, PartialEq, Eq, Structural)]
pub struct Interrupt {
    pub cancelled: bool,
    pub timed_out: bool,
}

/// The decision of an execution that was called off.
pub open spec fn interrupted(i: Interrupt) -> RoutedView {
    routed_error(cancellation(i.timed_out))
}

fn interrupted_decision(i: Interrupt) -> (r: RoutedDecision)
    ensures
        r@ == interrupted(i),
{
    RoutedDecision::error(cancellation_error(i.timed_out))
}

// ---------------------------------------------------------------------
// The delay before a retry
// ---------------------------------------------------------------------

/// Whether a declared `retryAfter` is finite and not negative.
pub open spec fn retry_after_valid(retry_after: RetryAfter) -> bool {
    float_is_finite(retry_after.bits) && (!float_is_negative(retry_after.bits) || retry_after.bits
        == 0x8000_0000_0000_0000)
}

pub open spec fn retry_after_invalid_error() -> ErrorView {
    ErrorView {
        kind: RuntimeErrorKind::InputValidation,
        message: "retryAfter must be a finite non-negative number"@,
    }
}

pub open spec fn retry_after_range_error() -> ErrorView {
    ErrorView {
        kind: RuntimeErrorKind::InputValidation,
        message:
            "retryAfter must be a finite non-negative duration representable by the runtime"@,
    }
}

/// Refuses a `retryAfter` that is not finite or is negative.
pub fn validate_retry_after_value(retry_after: RetryAfter) -> (r: Result<(), RuntimeError>)
    ensures
        match r {
            Ok(_) => retry_after_valid(retry_after),
            Err(e) => !retry_after_valid(retry_after) && e@ == retry_after_invalid_error(),
        },
{
    let bits: u64 = retry_after.bits;
    let finite = (bits / 0x10_0000_0000_0000) % 0x800 != 0x7ff;
    if finite && (bits < 0x8000_0000_0000_0000 || bits == 0x8000_0000_0000_0000) {
        Ok(())
    } else {
        Err(
            RuntimeError::new(
                RuntimeErrorKind::InputValidation,
                "retryAfter must be a finite non-negative number".to_owned(),
            ),
        )
    }
}

/// The delay that a declared `retryAfter` stands for.
pub fn configured_retry_after_delay(retry_after: RetryAfter) -> (r: Result<u128, RuntimeError>)
    ensures
        match r {
            Ok(nanos) => retry_after.nanos == Some(nanos),
            Err(e) => retry_after.nanos is None && e@ == retry_after_range_error(),
        },
{
    match retry_after.nanos {
        Some(nanos) => Ok(nanos),
        None => Err(
            RuntimeError::new(
                RuntimeErrorKind::InputValidation,
                "retryAfter must be a finite non-negative duration representable by the runtime".to_owned(),
            ),
        ),
    }
}

/// The position of the first header at or after `from` that is a
/// `Retry-After`; the number of headers when there is none.
pub open spec fn retry_header(keys: Seq<Seq<char>>, from: int) -> int
    decreases keys.len() - from,
{
    if from >= keys.len() {
        keys.len() as int
    } else if same_ignoring_case(keys[from], "retry-after"@) {
        from
    } else {
        retry_header(keys, from + 1)
    }
}

/// The seconds that a header value asks for: decimal digits behind an
/// optional plus sign, of a value that 64 bits hold.
pub open spec fn header_seconds(value: Seq<char>) -> Option<nat> {
    let d = unsigned_digits(value);
    if all_digits(d) && digits_value(d) <= u64::MAX {
        Some(digits_value(d))
    } else {
        None
    }
}

/// The seconds that the headers ask for, where they do so in digits.
pub open spec fn requested_seconds(headers: Option<TextMap<String>>) -> Option<nat> {
    match headers {
        Some(h) => {
            let i = retry_header(h.keys(), 0);
            if i < h.keys().len() {
                header_seconds(h.values()[i]@)
            } else {
                None
            }
        },
        None => None,
    }
}

/// The delay before a retry: what the response asks for in whole seconds,
/// else what the action declares.
pub open spec fn retry_delay(action: OnAction, headers: Option<TextMap<String>>) -> Result<
    nat,
    ErrorView,
> {
    if !retry_after_valid(action.retry_after) {
        Err(retry_after_invalid_error())
    } else {
        match requested_seconds(headers) {
            Some(seconds) => Ok(seconds * 1_000_000_000),
            None => match action.retry_after.nanos {
                Some(nanos) => Ok(nanos as nat),
                None => Err(retry_after_range_error()),
            },
        }
    }
}

proof fn digit_prefix_bounded(s: Seq<char>, n: int)
    requires
        0 <= n <= s.len(),
    ensures
        digits_value(s.take(n)) <= digits_value(s),
    decreases s.len() - n,
{
    if n < s.len() {
        digit_prefix_bounded(s, n + 1);
        assert(s.take(n + 1).drop_last() =~= s.take(n));
    } else {
        assert(s.take(n) =~= s);
    }
}

fn parse_seconds(value: &str) -> (r: Option<u64>)
    ensures
        match r {
            Some(n) => header_seconds(value@) == Some(n as nat),
            None => header_seconds(value@) is None,
        },
{
    let chars = chars_of(value);
    let start: usize = if chars.len() > 0 && chars[0] == '+' {
        1
    } else {
        0
    };
    let ghost d = unsigned_digits(value@);
    assert(d =~= value@.skip(start as int));
    if start == chars.len() {
        return None;
    }
    let mut sum: u64 = 0;
    let mut i: usize = start;
    while i < chars.len()
        invariant
            chars@ == value@,
            start <= i <= chars@.len(),
            d == value@.skip(start as int),
            d == unsigned_digits(value@),
            sum == digits_value(d.take(i - start)),
            forall|j: int| 0 <= j < i - start ==> is_digit(#[trigger] d[j]),
        decreases chars@.len() - i,
    {
        let c = chars[i];
        assert(d[i - start] == c);
        if !digit_char(c) {
            return None;
        }
        let digit: u64 = (c as u32 - 48) as u64;
        proof {
            assert(d.take(i - start + 1).drop_last() =~= d.take(i - start));
            digit_prefix_bounded(d, i - start + 1);
        }
        if sum > (u64::MAX - digit) / 10 {
            assert(sum * 10 + digit > u64::MAX);
            return None;
        }
        sum = sum * 10 + digit;
        i = i + 1;
    }
    assert(d.take(i - start) =~= d);
    Some(sum)
}

/// The delay before a retry, in nanoseconds. A `Retry-After` header in whole
/// seconds outranks what the action declares; any other one is passed over.
pub fn compute_retry_after_delay(action: &OnAction, headers: Option<&TextMap<String>>) -> (r:
    Result<u128, RuntimeError>)
    ensures
        ({
            let h = match headers {
                Some(m) => Some(*m),
                None => None,
            };
            match r {
                Ok(nanos) => retry_delay(*action, h) == Ok::<nat, ErrorView>(nanos as nat),
                Err(e) => retry_delay(*action, h) == Err::<nat, ErrorView>(e@),
            }
        }),
{
    match validate_retry_after_value(action.retry_after) {
        Ok(_) => {},
        Err(e) => {
            return Err(e);
        },
    }
    match headers {
        None => configured_retry_after_delay(action.retry_after),
        Some(m) => {
            let count = m.len();
            let mut i: usize = 0;
            while i < count && !eq_ignore_case(m.key_at(i).as_str(), "retry-after")
                invariant
                    i <= count,
                    count == m.keys().len(),
                    retry_header(m.keys(), 0) == retry_header(m.keys(), i as int),
                decreases count - i,
            {
                i = i + 1;
            }
            if i < count {
                match parse_seconds(m.value_at(i).as_str()) {
                    Some(seconds) => {
                        return Ok(seconds as u128 * 1_000_000_000);
                    },
                    None => {},
                }
            }
            configured_retry_after_delay(action.retry_after)
        },
    }
}

// ---------------------------------------------------------------------
// Carrying an action out
// ---------------------------------------------------------------------

/// What the expressions of an action came to: its target ids with their
/// expressions filled in, and its parameters where it declares any.
#[derive(Debug, PartialEq)]
pub struct ResolvedAction {
    pub step_id: String,
    pub workflow_id: String,
    pub inputs: Option<TextMap<Json>>,
}

/// A traced decision of an action.
pub open spec fn action_trace(path: TraceDecisionPath, t: ActionType) -> DecisionView {
    DecisionView { action_type: action_type_name(t), ..bare_decision(path) }
}

/// What `end` comes to: the workflow is done, or, behind a failed step, it
/// ends with the error that the step failed with.
pub open spec fn end_decision(
    failed: bool,
    step_id: Seq<char>,
    err_kind: Option<RuntimeErrorKind>,
) -> RoutedView {
    RoutedView {
        flow: if failed {
            FlowView::Error(
                ErrorView {
                    kind: match err_kind {
                        Some(k) => k,
                        None => RuntimeErrorKind::SuccessCriteriaFailed,
                    },
                    message: "step "@ + step_id + ": workflow ended by onFailure action"@,
                },
            )
        } else {
            FlowView::Done
        },
        trace: action_trace(TraceDecisionPath::Done, ActionType::End),
    }
}

/// What a `goto` to a step of the same workflow comes to.
pub open spec fn goto_step_decision(steps: Seq<Step>, target: Seq<char>, flow: FlowView) -> bool {
    if step_exists(steps, target) {
        flow matches FlowView::Next(i) && is_step_named(steps, target, i as int)
    } else {
        flow == FlowView::Error(
            ErrorView {
                kind: RuntimeErrorKind::GotoTargetNotFound,
                message: "goto: step \""@ + target + "\" not found"@,
            },
        )
    }
}

/// What `goto` comes to: a step of the workflow where the action names one,
/// else a workflow, else an error.
pub open spec fn goto_decision(
    action: OnAction,
    resolved: ResolvedAction,
    steps: Seq<Step>,
    d: RoutedView,
) -> bool {
    if action.step_id@.len() > 0 {
        &&& goto_step_decision(steps, resolved.step_id@, d.flow)
        &&& d.trace == (DecisionView {
            target_step_id: resolved.step_id@,
            ..action_trace(
                if step_exists(steps, resolved.step_id@) {
                    TraceDecisionPath::GotoStep
                } else {
                    TraceDecisionPath::Error
                },
                ActionType::Goto,
            )
        })
    } else if action.workflow_id@.len() > 0 {
        &&& d.flow == (FlowView::GotoWorkflow {
            workflow_id: resolved.workflow_id@,
            inputs: inputs_view(resolved.inputs),
        })
        &&& d.trace == (DecisionView {
            target_workflow_id: resolved.workflow_id@,
            ..action_trace(TraceDecisionPath::GotoWorkflow, ActionType::Goto)
        })
    } else {
        &&& d.flow == FlowView::Error(
            ErrorView {
                kind: RuntimeErrorKind::GotoTargetMissing,
                message: "goto: no stepId or workflowId specified"@,
            },
        )
        &&& d.trace == action_trace(TraceDecisionPath::Error, ActionType::Goto)
    }
}

/// What a retry runs before the step is tried again: the step that the action
/// names, else the workflow, else nothing.
pub open spec fn retry_reference(action: OnAction, resolved: ResolvedAction) -> Option<
    ReferenceView,
> {
    if action.step_id@.len() > 0 {
        Some(ReferenceView::Step { step_id: resolved.step_id@ })
    } else if action.workflow_id@.len() > 0 {
        Some(
            ReferenceView::Workflow {
                workflow_id: resolved.workflow_id@,
                inputs: inputs_view(resolved.inputs),
            },
        )
    } else {
        None
    }
}

/// What a retry that is granted comes to.
pub open spec fn retry_decision(
    action: OnAction,
    resolved: ResolvedAction,
    step_idx: usize,
    site: RetrySite,
    delay_nanos: u128,
) -> RoutedView {
    let reference = retry_reference(action, resolved);
    RoutedView {
        flow: FlowView::Retry {
            step_idx,
            retry_site: site,
            retry_limit: retry_limit_of(action.retry_limit),
            delay_nanos,
            reference,
        },
        trace: DecisionView {
            target_step_id: match reference {
                Some(ReferenceView::Step { step_id }) => step_id,
                _ => Seq::empty(),
            },
            target_workflow_id: match reference {
                Some(ReferenceView::Workflow { workflow_id, inputs }) => workflow_id,
                _ => Seq::empty(),
            },
            retry_after_seconds: Some(action.retry_after),
            retry_limit: action.retry_limit,
            ..action_trace(TraceDecisionPath::Retry, ActionType::Retry)
        },
    }
}

/// What a retry whose budget is used up comes to.
pub open spec fn exhausted_retry(action: OnAction) -> ExhaustedRetry {
    ExhaustedRetry {
        effective_limit: retry_limit_of(action.retry_limit),
        retry_after: action.retry_after,
        configured_limit: action.retry_limit,
    }
}

/// A retry on its way: what it comes to, what the gates report of it, and how
/// long it waits.
#[derive(Debug)]
pub struct PendingRetry {
    pub outcome: ActionExecution,
    pub current: u64,
    pub limit: u64,
    pub delay_nanos: u128,
    pub retry_after: RetryAfter,
    pub retry_limit: Option<u64>,
}

impl PendingRetry {
    /// Whether the retry will run.
    pub open spec fn will_execute(self) -> bool {
        self.current < self.limit
    }

    /// A retry that will not run does not wait.
    pub open spec fn wf(self) -> bool {
        !self.will_execute() ==> self.delay_nanos == 0
    }
}

/// What carrying an action out asks for next.
#[derive(Debug)]
pub enum ActionStep {
    /// Come to the checkpoint where a retry was selected.
    GateSelected(PendingRetry),
    /// Come to the checkpoint before the delay.
    GateDelay(PendingRetry),
    /// Wait for the delay.
    Sleep(PendingRetry),
    /// The action came to this.
    Finished(ActionExecution),
}

/// Whether a step of an action is finished, with this content.
pub open spec fn finished_with(s: ActionStep, v: ExecutionView) -> bool {
    s matches ActionStep::Finished(e) && e@ == v
}

/// What a retry first comes to: refused for its `retryAfter`, or at the checkpoint
/// with its budget and delay.
pub open spec fn retry_begins(
    action: OnAction,
    resolved: ResolvedAction,
    step_idx: usize,
    site: RetrySite,
    current: u64,
    headers: Option<TextMap<String>>,
    s: ActionStep,
) -> bool {
    let limit = retry_limit_of(action.retry_limit);
    if !retry_after_valid(action.retry_after) {
        finished_with(s, ExecutionView::Routed(routed_error(retry_after_invalid_error())))
    } else if current >= limit {
        s matches ActionStep::GateSelected(p) && p.outcome@ == ExecutionView::RetryExhausted(
            exhausted_retry(action),
        ) && p.current == current && p.limit == limit && p.delay_nanos == 0 && p.retry_after
            == action.retry_after && p.retry_limit == action.retry_limit
    } else {
        match retry_delay(action, headers) {
            Err(e) => finished_with(s, ExecutionView::Routed(routed_error(e))),
            Ok(nanos) => s matches ActionStep::GateSelected(p) && p.delay_nanos == nanos
                && p.outcome@ == ExecutionView::Routed(
                retry_decision(action, resolved, step_idx, site, p.delay_nanos),
            ) && p.current == current && p.limit == limit && p.retry_after == action.retry_after
                && p.retry_limit == action.retry_limit,
        }
    }
}

/// What an action first comes to.
pub open spec fn action_begins(
    action: OnAction,
    resolved: ResolvedAction,
    steps: Seq<Step>,
    step_idx: usize,
    branch: ActionBranch,
    err_kind: Option<RuntimeErrorKind>,
    site: RetrySite,
    current: u64,
    headers: Option<TextMap<String>>,
    interrupt: Interrupt,
    s: ActionStep,
) -> bool {
    if interrupt.cancelled {
        finished_with(s, ExecutionView::Routed(interrupted(interrupt)))
    } else {
        match action.type_ {
            ActionType::End => finished_with(
                s,
                ExecutionView::Routed(
                    end_decision(
                        branch == ActionBranch::Failure,
                        steps[step_idx as int].step_id@,
                        err_kind,
                    ),
                ),
            ),
            ActionType::Goto => s matches ActionStep::Finished(e) && (
            e@ matches ExecutionView::Routed(d) && goto_decision(action, resolved, steps, d)),
            ActionType::Retry => retry_begins(
                action,
                resolved,
                step_idx,
                site,
                current,
                headers,
                s,
            ),
        }
    }
}

fn text_is_empty(s: &String) -> (r: bool)
    ensures
        r == (s@.len() == 0),
{
    s.as_str().is_empty()
}

fn execute_end(step_id: &str, branch: ActionBranch, err_kind: Option<RuntimeErrorKind>) -> (r:
    RoutedDecision)
    ensures
        r@ == end_decision(branch == ActionBranch::Failure, step_id@, err_kind),
{
    let mut trace = TraceDecision::with_path(TraceDecisionPath::Done);
    trace.action_type = "end".to_owned();
    let flow = if branch == ActionBranch::Failure {
        let kind = match err_kind {
            Some(k) => k,
            None => RuntimeErrorKind::SuccessCriteriaFailed,
        };
        FlowDecision::Error(
            RuntimeError::new(
                kind,
                concat3("step ", step_id, ": workflow ended by onFailure action"),
            ),
        )
    } else {
        FlowDecision::Done
    };
    RoutedDecision { flow, trace }
}

fn execute_goto(action: &OnAction, resolved: ResolvedAction, steps: &Vec<Step>) -> (r:
    RoutedDecision)
    ensures
        goto_decision(*action, resolved, steps@, r@),
{
    if !text_is_empty(&action.step_id) {
        match step_index(steps, resolved.step_id.as_str()) {
            Some(i) => {
                let mut trace = TraceDecision::with_path(TraceDecisionPath::GotoStep);
                trace.action_type = "goto".to_owned();
                trace.target_step_id = resolved.step_id;
                RoutedDecision { flow: FlowDecision::Next(i), trace }
            },
            None => {
                let message = concat3("goto: step \"", resolved.step_id.as_str(), "\" not found");
                let mut trace = TraceDecision::with_path(TraceDecisionPath::Error);
                trace.action_type = "goto".to_owned();
                trace.target_step_id = resolved.step_id;
                RoutedDecision {
                    flow: FlowDecision::Error(
                        RuntimeError::new(RuntimeErrorKind::GotoTargetNotFound, message),
                    ),
                    trace,
                }
            },
        }
    } else if !text_is_empty(&action.workflow_id) {
        let mut trace = TraceDecision::with_path(TraceDecisionPath::GotoWorkflow);
        trace.action_type = "goto".to_owned();
        trace.target_workflow_id = resolved.workflow_id.clone();
        RoutedDecision {
            flow: FlowDecision::GotoWorkflow {
                workflow_id: resolved.workflow_id,
                inputs: resolved.inputs,
            },
            trace,
        }
    } else {
        let mut trace = TraceDecision::with_path(TraceDecisionPath::Error);
        trace.action_type = "goto".to_owned();
        RoutedDecision {
            flow: FlowDecision::Error(
                RuntimeError::new(
                    RuntimeErrorKind::GotoTargetMissing,
                    "goto: no stepId or workflowId specified".to_owned(),
                ),
            ),
            trace,
        }
    }
}

fn granted_retry(
    action: &OnAction,
    resolved: ResolvedAction,
    step_idx: usize,
    site: RetrySite,
    delay_nanos: u128,
) -> (r: RoutedDecision)
    ensures
        r@ == retry_decision(*action, resolved, step_idx, site, delay_nanos),
{
    let mut trace = TraceDecision::with_path(TraceDecisionPath::Retry);
    trace.action_type = "retry".to_owned();
    trace.retry_after_seconds = Some(action.retry_after);
    trace.retry_limit = action.retry_limit;
    let retry_limit = effective_retry_limit(action.retry_limit);
    let reference = if !text_is_empty(&action.step_id) {
        trace.target_step_id = resolved.step_id.clone();
        Some(RetryReference::Step { step_id: resolved.step_id })
    } else if !text_is_empty(&action.workflow_id) {
        trace.target_workflow_id = resolved.workflow_id.clone();
        Some(
            RetryReference::Workflow {
                workflow_id: resolved.workflow_id,
                inputs: resolved.inputs,
            },
        )
    } else {
        None
    };
    RoutedDecision {
        flow: FlowDecision::Retry { step_idx, retry_site: site, retry_limit, delay_nanos, reference },
        trace,
    }
}

fn execute_retry(
    action: &OnAction,
    resolved: ResolvedAction,
    step_idx: usize,
    site: RetrySite,
    current: u64,
    headers: Option<&TextMap<String>>,
) -> (r: ActionStep)
    ensures
        retry_begins(
            *action,
            resolved,
            step_idx,
            site,
            current,
            match headers {
                Some(m) => Some(*m),
                None => None,
            },
            r,
        ),
{
    let limit = effective_retry_limit(action.retry_limit);
    match validate_retry_after_value(action.retry_after) {
        Ok(_) => {},
        Err(e) => {
            return ActionStep::Finished(ActionExecution::Routed(RoutedDecision::error(e)));
        },
    }
    if current >= limit {
        return ActionStep::GateSelected(
            PendingRetry {
                outcome: ActionExecution::RetryExhausted(
                    ExhaustedRetry {
                        effective_limit: limit,
                        retry_after: action.retry_after,
                        configured_limit: action.retry_limit,
                    },
                ),
                current,
                limit,
                delay_nanos: 0,
                retry_after: action.retry_after,
                retry_limit: action.retry_limit,
            },
        );
    }
    match compute_retry_after_delay(action, headers) {
        Err(e) => ActionStep::Finished(ActionExecution::Routed(RoutedDecision::error(e))),
        Ok(delay_nanos) => ActionStep::GateSelected(
            PendingRetry {
                outcome: ActionExecution::Routed(
                    granted_retry(action, resolved, step_idx, site, delay_nanos),
                ),
                current,
                limit,
                delay_nanos,
                retry_after: action.retry_after,
                retry_limit: action.retry_limit,
            },
        ),
    }
}

/// Begins to carry an action out. `end` and `goto` are done at once; a retry
/// first comes to its gate.
pub fn execute_action(
    action: &OnAction,
    resolved: ResolvedAction,
    steps: &Vec<Step>,
    step_idx: usize,
    branch: ActionBranch,
    err_kind: Option<RuntimeErrorKind>,
    site: RetrySite,
    counts: &RetryCounts,
    headers: Option<&TextMap<String>>,
    interrupt: Interrupt,
) -> (r: ActionStep)
    requires
        step_idx < steps@.len(),
    ensures
        action_begins(
            *action,
            resolved,
            steps@,
            step_idx,
            branch,
            err_kind,
            site,
            counts.count(site),
            match headers {
                Some(m) => Some(*m),
                None => None,
            },
            interrupt,
            r,
        ),
        r is GateSelected || r is Finished,
        r matches ActionStep::GateSelected(p) ==> p.wf(),
{
    if interrupt.cancelled {
        return ActionStep::Finished(ActionExecution::Routed(interrupted_decision(interrupt)));
    }
    match action.type_ {
        ActionType::End => ActionStep::Finished(
            ActionExecution::Routed(
                execute_end(steps[step_idx].step_id.as_str(), branch, err_kind),
            ),
        ),
        ActionType::Goto => ActionStep::Finished(
            ActionExecution::Routed(execute_goto(action, resolved, steps)),
        ),
        ActionType::Retry => {
            let current = counts.get(site);
            execute_retry(action, resolved, step_idx, site, current, headers)
        },
    }
}

/// What a pending retry comes to behind the checkpoint where it was selected.
pub open spec fn selected_passed(
    p: PendingRetry,
    gate: Result<(), RuntimeError>,
    interrupt: Interrupt,
    r: ActionStep,
) -> bool {
    match gate {
        Err(e) => finished_with(r, ExecutionView::Routed(routed_error(e@))),
        Ok(_) => if interrupt.cancelled {
            finished_with(r, ExecutionView::Routed(interrupted(interrupt)))
        } else if p.delay_nanos == 0 {
            finished_with(r, p.outcome@)
        } else {
            r == ActionStep::GateDelay(p)
        },
    }
}

/// What a pending retry comes to behind the checkpoint before its delay.
pub open spec fn delay_passed(
    p: PendingRetry,
    gate: Result<(), RuntimeError>,
    interrupt: Interrupt,
    r: ActionStep,
) -> bool {
    match gate {
        Err(e) => finished_with(r, ExecutionView::Routed(routed_error(e@))),
        Ok(_) => if interrupt.cancelled {
            finished_with(r, ExecutionView::Routed(interrupted(interrupt)))
        } else {
            r == ActionStep::Sleep(p)
        },
    }
}

/// What a pending retry comes to behind its delay.
pub open spec fn sleep_passed(
    p: PendingRetry,
    slept: Result<(), RuntimeError>,
    interrupt: Interrupt,
) -> ExecutionView {
    match slept {
        Err(e) => ExecutionView::Routed(broken_wait(p, e@)),
        Ok(_) => if interrupt.cancelled {
            ExecutionView::Routed(interrupted(interrupt))
        } else {
            p.outcome@
        },
    }
}

/// Goes on behind the checkpoint where a retry was selected. A gate that fails, or
/// a cancellation, ends the workflow; a retry without a delay is done.
pub fn past_selected_gate(
    pending: PendingRetry,
    gate: Result<(), RuntimeError>,
    interrupt: Interrupt,
) -> (r: ActionStep)
    ensures
        match gate {
            Err(e) => finished_with(r, ExecutionView::Routed(routed_error(e@))),
            Ok(_) => if interrupt.cancelled {
                finished_with(r, ExecutionView::Routed(interrupted(interrupt)))
            } else if pending.delay_nanos == 0 {
                finished_with(r, pending.outcome@)
            } else {
                r == ActionStep::GateDelay(pending)
            },
        },
        selected_passed(pending, gate, interrupt, r),
{
    match gate {
        Err(e) => ActionStep::Finished(ActionExecution::Routed(RoutedDecision::error(e))),
        Ok(_) => if interrupt.cancelled {
            ActionStep::Finished(ActionExecution::Routed(interrupted_decision(interrupt)))
        } else if pending.delay_nanos == 0 {
            ActionStep::Finished(pending.outcome)
        } else {
            ActionStep::GateDelay(pending)
        },
    }
}

/// Goes on behind the checkpoint before the delay.
pub fn past_delay_gate(
    pending: PendingRetry,
    gate: Result<(), RuntimeError>,
    interrupt: Interrupt,
) -> (r: ActionStep)
    ensures
        match gate {
            Err(e) => finished_with(r, ExecutionView::Routed(routed_error(e@))),
            Ok(_) => if interrupt.cancelled {
                finished_with(r, ExecutionView::Routed(interrupted(interrupt)))
            } else {
                r == ActionStep::Sleep(pending)
            },
        },
        delay_passed(pending, gate, interrupt, r),
{
    match gate {
        Err(e) => ActionStep::Finished(ActionExecution::Routed(RoutedDecision::error(e))),
        Ok(_) => if interrupt.cancelled {
            ActionStep::Finished(ActionExecution::Routed(interrupted_decision(interrupt)))
        } else {
            ActionStep::Sleep(pending)
        },
    }
}

/// What a wait that was broken off comes to.
pub open spec fn broken_wait(p: PendingRetry, e: ErrorView) -> RoutedView {
    RoutedView {
        flow: FlowView::Error(e),
        trace: DecisionView {
            retry_after_seconds: Some(p.retry_after),
            retry_limit: p.retry_limit,
            ..action_trace(TraceDecisionPath::Error, ActionType::Retry)
        },
    }
}

/// Goes on behind the delay.
pub fn past_sleep(
    pending: PendingRetry,
    slept: Result<(), RuntimeError>,
    interrupt: Interrupt,
) -> (r: ActionExecution)
    ensures
        r@ == (match slept {
            Err(e) => ExecutionView::Routed(broken_wait(pending, e@)),
            Ok(_) => if interrupt.cancelled {
                ExecutionView::Routed(interrupted(interrupt))
            } else {
                pending.outcome@
            },
        }),
        r@ == sleep_passed(pending, slept, interrupt),
{
    match slept {
        Err(e) => {
            let mut trace = TraceDecision::with_path(TraceDecisionPath::Error);
            trace.action_type = "retry".to_owned();
            trace.retry_after_seconds = Some(pending.retry_after);
            trace.retry_limit = pending.retry_limit;
            ActionExecution::Routed(RoutedDecision { flow: FlowDecision::Error(e), trace })
        },
        Ok(_) => if interrupt.cancelled {
            ActionExecution::Routed(interrupted_decision(interrupt))
        } else {
            pending.outcome
        },
    }
}

// ---------------------------------------------------------------------
// Routing a result
// ---------------------------------------------------------------------

/// The decision behind retries whose budget is used up, when nothing else
/// applies.
pub open spec fn limit_exceeded(step_id: Seq<char>, exhausted: ExhaustedRetry) -> RoutedView {
    RoutedView {
        flow: FlowView::Error(
            ErrorView {
                kind: RuntimeErrorKind::RetryLimitExceeded,
                message: "step "@ + step_id + ": max retries ("@ + decimal(
                    exhausted.effective_limit as nat,
                ) + ") exceeded"@,
            },
        ),
        trace: DecisionView {
            retry_after_seconds: Some(exhausted.retry_after),
            retry_limit: exhausted.configured_limit,
            ..action_trace(TraceDecisionPath::Error, ActionType::Retry)
        },
    }
}

/// The decision behind retries whose budget is used up.
pub fn retry_limit_exceeded_decision(step_id: &str, exhausted: ExhaustedRetry) -> (r:
    RoutedDecision)
    ensures
        r@ == limit_exceeded(step_id@, exhausted),
{
    let number = decimal_text(exhausted.effective_limit);
    let message = concat5("step ", step_id, ": max retries (", number.as_str(), ") exceeded");
    let mut trace = TraceDecision::with_path(TraceDecisionPath::Error);
    trace.action_type = "retry".to_owned();
    trace.retry_after_seconds = Some(exhausted.retry_after);
    trace.retry_limit = exhausted.configured_limit;
    RoutedDecision {
        flow: FlowDecision::Error(RuntimeError::new(RuntimeErrorKind::RetryLimitExceeded, message)),
        trace,
    }
}

/// The decision when no action applies: on after a success; after a failure
/// the retries that ran out, else the error of the step.
pub open spec fn no_action(
    step_id: Seq<char>,
    step_idx: int,
    result: StepResult,
    exhausted: Option<ExhaustedRetry>,
) -> RoutedView {
    if result.success {
        RoutedView {
            flow: FlowView::Next((step_idx + 1) as usize),
            trace: bare_decision(TraceDecisionPath::Next),
        }
    } else {
        match exhausted {
            Some(e) => limit_exceeded(step_id, e),
            None => routed_error(result_error(step_id, result)),
        }
    }
}

/// The decision when no action applies.
pub fn route_without_action(
    step_id: &str,
    step_idx: usize,
    result: &StepResult,
    exhausted: Option<ExhaustedRetry>,
) -> (r: RoutedDecision)
    requires
        step_idx < usize::MAX,
    ensures
        r@ == no_action(step_id@, step_idx as int, *result, exhausted),
{
    if result.success {
        RoutedDecision {
            flow: FlowDecision::Next(step_idx + 1),
            trace: TraceDecision::with_path(TraceDecisionPath::Next),
        }
    } else {
        match exhausted {
            Some(e) => retry_limit_exceeded_decision(step_id, e),
            None => RoutedDecision::error(step_result_error(step_id, result)),
        }
    }
}

/// What routing does behind an action.
#[derive(Debug)]
pub enum RoutingStep {
    /// The result is routed.
    Routed(RoutedDecision),
    /// The search goes on from this action.
    SearchFrom { action_index: usize, exhausted: ExhaustedRetry },
}

/// What routing does behind an action.
pub open spec fn action_passed(
    step_id: Seq<char>,
    success: bool,
    action_index: usize,
    execution: ExecutionView,
    interrupt: Interrupt,
    r: RoutingStep,
) -> bool {
    if interrupt.cancelled {
        r matches RoutingStep::Routed(d) && d@ == interrupted(interrupt)
    } else {
        match execution {
            ExecutionView::Routed(v) => r matches RoutingStep::Routed(d) && d@ == v,
            ExecutionView::RetryExhausted(e) => if success {
                r matches RoutingStep::Routed(d) && d@ == limit_exceeded(step_id, e)
            } else {
                r == (RoutingStep::SearchFrom {
                    action_index: if action_index == usize::MAX {
                        usize::MAX
                    } else {
                        (action_index + 1) as usize
                    },
                    exhausted: e,
                })
            },
        }
    }
}

/// Goes on behind an action. A cancellation outranks what the action came to.
/// A retry that ran out ends a success route, and hands a failure route on to
/// the actions behind it.
pub fn route_past_action(
    step_id: &str,
    success: bool,
    action_index: usize,
    execution: ActionExecution,
    interrupt: Interrupt,
) -> (r: RoutingStep)
    ensures
        if interrupt.cancelled {
            r matches RoutingStep::Routed(d) && d@ == interrupted(interrupt)
        } else {
            match execution@ {
                ExecutionView::Routed(v) => r matches RoutingStep::Routed(d) && d@ == v,
                ExecutionView::RetryExhausted(e) => if success {
                    r matches RoutingStep::Routed(d) && d@ == limit_exceeded(step_id@, e)
                } else {
                    r == (RoutingStep::SearchFrom {
                        action_index: if action_index == usize::MAX {
                            usize::MAX
                        } else {
                            (action_index + 1) as usize
                        },
                        exhausted: e,
                    })
                },
            }
        },
        action_passed(step_id@, success, action_index, execution@, interrupt, r),
{
    if interrupt.cancelled {
        return RoutingStep::Routed(interrupted_decision(interrupt));
    }
    match execution {
        ActionExecution::Routed(d) => RoutingStep::Routed(d),
        ActionExecution::RetryExhausted(e) => if success {
            RoutingStep::Routed(retry_limit_exceeded_decision(step_id, e))
        } else {
            RoutingStep::SearchFrom { action_index: action_index.saturating_add(1), exhausted: e }
        },
    }
}

/// How a result is routed from action `i` on, given of each action what it
/// came to, where it applies at all.
pub open spec fn routed_from(
    step_id: Seq<char>,
    step_idx: int,
    result: StepResult,
    answers: Seq<Option<ActionExecution>>,
    i: int,
    exhausted: Option<ExhaustedRetry>,
) -> RoutedView
    decreases answers.len() - i,
{
    if i >= answers.len() {
        no_action(step_id, step_idx, result, exhausted)
    } else {
        match answers[i] {
            None => routed_from(step_id, step_idx, result, answers, i + 1, exhausted),
            Some(execution) => match execution@ {
                ExecutionView::Routed(d) => d,
                ExecutionView::RetryExhausted(e) => if result.success {
                    limit_exceeded(step_id, e)
                } else {
                    routed_from(step_id, step_idx, result, answers, i + 1, Some(e))
                },
            },
        }
    }
}

/// Routes a result, given of each action in turn what it came to, or nothing
/// where its criteria do not hold: the first action that decides does so, and
/// a failure action whose retries ran out leaves it to those behind it.
pub fn handle_step_result(
    step_id: &str,
    step_idx: usize,
    result: &StepResult,
    answers: Vec<Option<ActionExecution>>,
    interrupt: Interrupt,
) -> (r: RoutedDecision)
    requires
        step_idx < usize::MAX,
    ensures
        r@ == (if interrupt.cancelled {
            interrupted(interrupt)
        } else {
            routed_from(step_id@, step_idx as int, *result, answers@, 0, None)
        }),
{
    if interrupt.cancelled {
        return interrupted_decision(interrupt);
    }
    let ghost given = answers@;
    let count: usize = answers.len();
    let mut exhausted: Option<ExhaustedRetry> = None;
    let mut index: usize = 0;
    for answer in it: answers
        invariant
            it.seq() == given,
            index == it.index(),
            !interrupt.cancelled,
            given.len() == count,
            routed_from(step_id@, step_idx as int, *result, given, 0, None) == routed_from(
                step_id@,
                step_idx as int,
                *result,
                given,
                index as int,
                exhausted,
            ),
    {
        match answer {
            None => {},
            Some(execution) => {
                match route_past_action(step_id, result.success, index, execution, interrupt) {
                    RoutingStep::Routed(d) => {
                        return d;
                    },
                    RoutingStep::SearchFrom { action_index: _, exhausted: e } => {
                        exhausted = Some(e);
                    },
                }
            },
        }
        index = index + 1;
    }
    route_without_action(step_id, step_idx, result, exhausted)
}

/// An exhausted retry does not hide the failure actions behind it: they
/// decide as if they stood alone, as far as one of them decides at all.
pub proof fn exhausted_retry_yields(
    step_id: Seq<char>,
    step_idx: int,
    result: StepResult,
    answers: Seq<Option<ActionExecution>>,
    i: int,
    e: Option<ExhaustedRetry>,
    f: Option<ExhaustedRetry>,
)
    requires
        0 <= i,
        exists|k: int|
            i <= k < answers.len() && #[trigger] answers[k] is Some && answers[k]->0@ is Routed,
        !result.success,
    ensures
        routed_from(step_id, step_idx, result, answers, i, e) == routed_from(
            step_id,
            step_idx,
            result,
            answers,
            i,
            f,
        ),
    decreases answers.len() - i,
{
    let k = choose|k: int|
        i <= k < answers.len() && #[trigger] answers[k] is Some && answers[k]->0@ is Routed;
    if i < k {
        assert(answers[k] is Some);
        match answers[i] {
            None => {
                exhausted_retry_yields(step_id, step_idx, result, answers, i + 1, e, f);
            },
            Some(_) => {},
        }
    }
}

} // verus!
