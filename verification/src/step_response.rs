//! What a step comes to once its response is there.

use crate::criteria::{
    criterion_outcome, evaluate_criterion_detailed, evaluate_output_value_detailed, output_outcome,
    ConditionAnswers, CriterionEvaluation, CriterionView,
};
use crate::error::RuntimeErrorKind;
use crate::exchange::{
    build_trace_response, opt_json, opt_view, response_traced, RequestTraceView, ResponseTraceView,
    ResponseView,
};
use crate::http_request::{PreparedRequest, PreparedView};
use crate::json::{view_by_variant, Json, JsonView};
use crate::model::{OutputValue, Step, SuccessCriterion};
use crate::outcome::{Response, StepExecution, StepResult, StepTraceData};
use crate::patterns::RegexCache;
use crate::payload::{
    append_texts, warning_line, warning_views, Answers, Evaluated, ExpressionWarning, WarningView,
};
use crate::text::{concat4, copy_texts, decimal, decimal_text, texts};
use crate::text_map::TextMap;
use crate::trace::{
    copy_hops, json_map_view, text_map_view, ContentType, ContentTypeView, DryRunRequest, HopView,
    TraceCriterionResult, TraceResponse,
};
use vstd::prelude::*;
use vstd::string::*;

verus! {

// ---------------------------------------------------------------------
// Contents
// ---------------------------------------------------------------------

/// The content of a traced criterion.
#[verifier::ext_equal]
pub struct CriterionTraceView {
    pub index: nat,
    pub type_: Seq<char>,
    pub condition: Seq<char>,
    pub context: Seq<char>,
    pub result: bool,
    pub warnings: Seq<Seq<char>>,
}

impl View for TraceCriterionResult {
    type V = CriterionTraceView;

    open spec fn view(&self) -> CriterionTraceView {
        CriterionTraceView {
            index: self.index as nat,
            type_: self.type_@,
            condition: self.condition@,
            context: self.context@,
            result: self.result,
            warnings: texts(self.warnings@),
        }
    }
}

/// The contents of traced criteria.
pub open spec fn criterion_traces(list: Seq<TraceCriterionResult>) -> Seq<CriterionTraceView> {
    list.map_values(|c: TraceCriterionResult| c@)
}

/// A copy of traced criteria.
pub fn copy_criteria(list: &Vec<TraceCriterionResult>) -> (r: Vec<TraceCriterionResult>)
    ensures
        criterion_traces(r@) == criterion_traces(list@),
{
    let mut out: Vec<TraceCriterionResult> = Vec::new();
    let mut i: usize = 0;
    while i < list.len()
        invariant
            i <= list@.len(),
            criterion_traces(out@) == criterion_traces(list@.take(i as int)),
        decreases list@.len() - i,
    {
        let c = &list[i];
        let copied = TraceCriterionResult {
            index: c.index,
            type_: c.type_.clone(),
            condition: c.condition.clone(),
            context: c.context.clone(),
            result: c.result,
            warnings: copy_texts(&c.warnings),
        };
        let ghost before = out@;
        out.push(copied);
        assert(criterion_traces(out@) =~= criterion_traces(before).push(copied@));
        assert(criterion_traces(list@.take(i + 1)) =~= criterion_traces(list@.take(i as int)).push(
            list@[i as int]@,
        ));
        i = i + 1;
    }
    assert(list@.take(i as int) =~= list@);
    out
}

/// The content of a request that a dry run would have sent.
#[verifier::ext_equal]
pub struct DryRunView {
    pub step_id: Seq<char>,
    pub method: Seq<char>,
    pub url: Seq<char>,
    pub headers: Map<Seq<char>, Seq<char>>,
    pub body: Option<JsonView>,
    pub warnings: Seq<Seq<char>>,
}

impl View for DryRunRequest {
    type V = DryRunView;

    open spec fn view(&self) -> DryRunView {
        DryRunView {
            step_id: self.step_id@,
            method: self.method@,
            url: self.url@,
            headers: text_map_view(self.headers),
            body: opt_json(self.body),
            warnings: texts(self.warnings@),
        }
    }
}

/// The content of an attempt at a step.
#[verifier::ext_equal]
pub struct StepRunView {
    pub success: bool,
    pub response: Option<ResponseView>,
    pub err: Option<Seq<char>>,
    pub err_kind: Option<RuntimeErrorKind>,
    pub outputs: Map<Seq<char>, JsonView>,
    pub dry_run_request: Option<DryRunView>,
    pub trace_request: Option<RequestTraceView>,
    pub trace_response: Option<ResponseTraceView>,
    pub criteria: Seq<CriterionTraceView>,
    pub warnings: Seq<Seq<char>>,
}

impl View for StepExecution {
    type V = StepRunView;

    open spec fn view(&self) -> StepRunView {
        StepRunView {
            success: self.result.success,
            response: match self.result.response {
                Some(r) => Some(r@),
                None => None,
            },
            err: opt_view(self.result.err),
            err_kind: self.result.err_kind,
            outputs: json_map_view(self.outputs),
            dry_run_request: match self.dry_run_request {
                Some(d) => Some(d@),
                None => None,
            },
            trace_request: match self.trace.request {
                Some(r) => Some(r@),
                None => None,
            },
            trace_response: match self.trace.response {
                Some(r) => Some(r@),
                None => None,
            },
            criteria: criterion_traces(self.trace.criteria@),
            warnings: texts(self.trace.warnings@),
        }
    }
}

// ---------------------------------------------------------------------
// Criteria
// ---------------------------------------------------------------------

/// What the evaluators said of one criterion: what its context came to, and
/// what holds of its condition there.
#[derive(Debug, PartialEq)]
pub struct CriterionAnswers {
    pub context: Evaluated,
    pub asked: ConditionAnswers,
}

/// What the criteria of a step come to, as far as they were asked about.
pub open spec fn criteria_outcomes(
    list: Seq<SuccessCriterion>,
    answers: Seq<CriterionAnswers>,
    response: Response,
) -> Seq<CriterionView> {
    Seq::new(
        if list.len() <= answers.len() {
            list.len()
        } else {
            answers.len()
        },
        |i: int|
            criterion_outcome(list[i], answers[i].context@, Some(response), answers[i].asked),
    )
}

/// The position of the first criterion, at or after `from`, that is not met.
pub open spec fn first_unmet(outcomes: Seq<CriterionView>, from: int) -> int
    decreases outcomes.len() - from,
{
    if from >= outcomes.len() {
        outcomes.len() as int
    } else if !outcomes[from].matched {
        from
    } else {
        first_unmet(outcomes, from + 1)
    }
}

/// How many criteria are evaluated: up to and with the first that is not met.
pub open spec fn evaluated_count(outcomes: Seq<CriterionView>) -> int {
    let at = first_unmet(outcomes, 0);
    if at < outcomes.len() {
        at + 1
    } else {
        outcomes.len() as int
    }
}

/// What is traced of a criterion.
pub open spec fn criterion_traced(index: nat, v: CriterionView) -> CriterionTraceView {
    CriterionTraceView {
        index,
        type_: v.type_,
        condition: v.condition,
        context: v.context_expr,
        result: v.matched,
        warnings: v.warnings.map_values(|w: WarningView| warning_line(w)),
    }
}

/// What is traced of the first `n` criteria.
pub open spec fn criteria_traced(outcomes: Seq<CriterionView>, n: nat) -> Seq<CriterionTraceView> {
    Seq::new(n, |i: int| criterion_traced(i as nat, outcomes[i]))
}

/// The lines of the warnings about a criterion.
pub open spec fn criterion_lines(index: nat, warnings: Seq<WarningView>) -> Seq<Seq<char>> {
    warnings.map_values(
        |w: WarningView| "successCriteria["@ + decimal(index) + "]: "@ + warning_line(w),
    )
}

/// The lines of the warnings about the first `n` criteria.
pub open spec fn criteria_lines(outcomes: Seq<CriterionView>, n: nat) -> Seq<Seq<char>>
    decreases n,
{
    if n == 0 {
        Seq::empty()
    } else {
        criteria_lines(outcomes, (n - 1) as nat) + criterion_lines(
            (n - 1) as nat,
            outcomes[n - 1].warnings,
        )
    }
}

/// What is traced of a criterion.
pub fn trace_criterion(index: usize, evaluation: &CriterionEvaluation) -> (r: TraceCriterionResult)
    ensures
        r@ == criterion_traced(index as nat, evaluation@),
{
    let mut warnings: Vec<String> = Vec::new();
    let mut i: usize = 0;
    while i < evaluation.warnings.len()
        invariant
            i <= evaluation.warnings@.len(),
            warnings@.len() == i,
            forall|j: int|
                0 <= j < i ==> (#[trigger] warnings@[j])@ == warning_line(
                    evaluation.warnings@[j]@,
                ),
        decreases evaluation.warnings@.len() - i,
    {
        warnings.push(evaluation.warnings[i].line());
        i = i + 1;
    }
    assert(texts(warnings@) =~= evaluation@.warnings.map_values(|w: WarningView| warning_line(w)));
    TraceCriterionResult {
        index,
        type_: evaluation.type_.clone(),
        condition: evaluation.condition.clone(),
        context: evaluation.context_expr.clone(),
        result: evaluation.matched,
        warnings,
    }
}

/// The lines of the warnings about a criterion.
pub fn criterion_warnings(index: usize, evaluation: &CriterionEvaluation) -> (r: Vec<String>)
    ensures
        texts(r@) == criterion_lines(index as nat, evaluation@.warnings),
{
    let number = decimal_text(index as u64);
    let mut out: Vec<String> = Vec::new();
    let mut i: usize = 0;
    while i < evaluation.warnings.len()
        invariant
            i <= evaluation.warnings@.len(),
            number@ == decimal(index as nat),
            out@.len() == i,
            forall|j: int|
                0 <= j < i ==> (#[trigger] out@[j])@ == "successCriteria["@ + decimal(index as nat)
                    + "]: "@ + warning_line(evaluation.warnings@[j]@),
        decreases evaluation.warnings@.len() - i,
    {
        let line = evaluation.warnings[i].line();
        out.push(concat4("successCriteria[", number.as_str(), "]: ", line.as_str()));
        i = i + 1;
    }
    assert(texts(out@) =~= criterion_lines(index as nat, evaluation@.warnings));
    out
}

/// Whether all criteria of a step are met.
pub open spec fn all_met(list: Seq<SuccessCriterion>, outcomes: Seq<CriterionView>) -> bool {
    outcomes.len() == list.len() && first_unmet(outcomes, 0) == outcomes.len()
}

/// The contents of evaluated criteria.
pub open spec fn evaluation_views(list: Seq<CriterionEvaluation>) -> Seq<CriterionView> {
    list.map_values(|e: CriterionEvaluation| e@)
}

/// Evaluates the criteria of a step, up to and with the first that is not met.
/// `answers` holds what the evaluators said of them.
pub fn evaluate_criteria(
    list: &Vec<SuccessCriterion>,
    answers: Vec<CriterionAnswers>,
    response: &Response,
    regex_cache: &mut RegexCache,
) -> (r: Vec<CriterionEvaluation>)
    requires
        old(regex_cache).wf(),
    ensures
        final(regex_cache).wf(),
        ({
            let outcomes = criteria_outcomes(list@, answers@, *response);
            evaluation_views(r@) == outcomes.take(evaluated_count(outcomes))
        }),
{
    let ghost said = answers@;
    let ghost outcomes = criteria_outcomes(list@, said, *response);
    let total: usize = list.len();
    let mut out: Vec<CriterionEvaluation> = Vec::new();
    let mut i: usize = 0;
    assert(evaluation_views(out@) =~= outcomes.take(0));
    for answer in it: answers
        invariant
            it.seq() == said,
            outcomes == criteria_outcomes(list@, said, *response),
            total == list@.len(),
            i == if it.index() <= total {
                it.index() as int
            } else {
                total as int
            },
            evaluation_views(out@) == outcomes.take(i as int),
            first_unmet(outcomes, 0) == first_unmet(outcomes, i as int),
            regex_cache.wf(),
    {
        if i < total {
            let evaluation = evaluate_criterion_detailed(
                &list[i],
                answer.context,
                Some(response),
                &answer.asked,
                regex_cache,
            );
            assert(evaluation@ == outcomes[i as int]);
            let met = evaluation.matched;
            let ghost before = out@;
            let ghost v = evaluation@;
            out.push(evaluation);
            assert(evaluation_views(out@) =~= evaluation_views(before).push(v));
            assert(outcomes.take(i + 1) =~= outcomes.take(i as int).push(v));
            if !met {
                return out;
            }
            i = i + 1;
        }
    }
    assert(i == outcomes.len());
    out
}

/// Evaluating stops at the first criterion that is not met, so what is known
/// of the criteria is known of those that were evaluated.
proof fn evaluated_ones_tell(list: Seq<SuccessCriterion>, outcomes: Seq<CriterionView>)
    requires
        outcomes.len() <= list.len(),
    ensures
        ({
            let count = evaluated_count(outcomes);
            &&& 0 <= count <= outcomes.len()
            &&& all_met(list, outcomes.take(count)) == all_met(list, outcomes)
            &&& criteria_traced(outcomes.take(count), count as nat) == criteria_traced(
                outcomes,
                count as nat,
            )
            &&& criteria_lines(outcomes.take(count), count as nat) == criteria_lines(
                outcomes,
                count as nat,
            )
        }),
{
    let count = evaluated_count(outcomes);
    first_unmet_is(outcomes, 0);
    let kept = outcomes.take(count);
    first_unmet_is(kept, 0);
    assert(criteria_traced(kept, count as nat) =~= criteria_traced(outcomes, count as nat));
    lines_of_kept(outcomes, count, count as nat);
    if first_unmet(outcomes, 0) < outcomes.len() {
        assert(kept[count - 1] == outcomes[count - 1]);
        assert(!kept[count - 1].matched);
    } else {
        assert(kept =~= outcomes);
    }
}

proof fn first_unmet_is(outcomes: Seq<CriterionView>, from: int)
    requires
        0 <= from <= outcomes.len(),
    ensures
        ({
            let at = first_unmet(outcomes, from);
            &&& from <= at <= outcomes.len()
            &&& at < outcomes.len() ==> !outcomes[at].matched
            &&& forall|j: int| from <= j < at ==> (#[trigger] outcomes[j]).matched
        }),
    decreases outcomes.len() - from,
{
    if from < outcomes.len() && outcomes[from].matched {
        first_unmet_is(outcomes, from + 1);
    }
}

proof fn lines_of_kept(outcomes: Seq<CriterionView>, count: int, n: nat)
    requires
        n <= count <= outcomes.len(),
    ensures
        criteria_lines(outcomes.take(count), n) == criteria_lines(outcomes, n),
    decreases n,
{
    if n > 0 {
        lines_of_kept(outcomes, count, (n - 1) as nat);
    }
}

// ---------------------------------------------------------------------
// Outputs
// ---------------------------------------------------------------------

/// The outputs of a step, and the warnings that they leave.
#[verifier::ext_equal]
pub struct OutputsView {
    pub outputs: Map<Seq<char>, JsonView>,
    pub warnings: Seq<Seq<char>>,
}

/// The lines of the warnings about an output.
pub open spec fn output_lines(name: Seq<char>, warnings: Seq<WarningView>) -> Seq<Seq<char>> {
    warnings.map_values(|w: WarningView| "output \""@ + name + "\": "@ + warning_line(w))
}

/// The first `n` outputs, by name.
pub open spec fn outputs_read(
    list: TextMap<OutputValue>,
    a: Answers,
    response: Response,
    n: nat,
) -> OutputsView
    decreases n,
{
    if n == 0 {
        OutputsView { outputs: Map::empty(), warnings: Seq::empty() }
    } else {
        let before = outputs_read(list, a, response, (n - 1) as nat);
        let v = output_outcome(list.values()[n - 1], a, Some(response));
        OutputsView {
            outputs: before.outputs.insert(list.keys()[n - 1], v.value),
            warnings: before.warnings + output_lines(list.keys()[n - 1], v.warnings),
        }
    }
}

fn output_warnings(name: &str, warnings: &Vec<ExpressionWarning>) -> (r: Vec<String>)
    ensures
        texts(r@) == output_lines(name@, warning_views(warnings@)),
{
    let mut out: Vec<String> = Vec::new();
    let mut i: usize = 0;
    while i < warnings.len()
        invariant
            i <= warnings@.len(),
            out@.len() == i,
            forall|j: int|
                0 <= j < i ==> (#[trigger] out@[j])@ == "output \""@ + name@ + "\": "@
                    + warning_line(warnings@[j]@),
        decreases warnings@.len() - i,
    {
        let line = warnings[i].line();
        out.push(concat4("output \"", name, "\": ", line.as_str()));
        i = i + 1;
    }
    assert(texts(out@) =~= output_lines(name@, warning_views(warnings@)));
    out
}

/// Reads the outputs of a step from its response.
pub fn read_outputs(list: &TextMap<OutputValue>, answers: &Answers, response: &Response) -> (r: (
    TextMap<Json>,
    Vec<String>,
))
    ensures
        json_map_view(r.0) == outputs_read(*list, *answers, *response, list.keys().len()).outputs,
        texts(r.1@) == outputs_read(*list, *answers, *response, list.keys().len()).warnings,
{
    let count = list.len();
    let mut outputs: TextMap<Json> = TextMap::new();
    let mut warnings: Vec<String> = Vec::new();
    let mut i: usize = 0;
    assert(json_map_view(outputs) =~= Map::<Seq<char>, JsonView>::empty());
    assert(texts(warnings@) =~= Seq::<Seq<char>>::empty());
    while i < count
        invariant
            i <= count,
            count == list.keys().len(),
            list.wf(),
            ({
                let v = outputs_read(*list, *answers, *response, i as nat);
                json_map_view(outputs) == v.outputs && texts(warnings@) == v.warnings
            }),
        decreases count - i,
    {
        let ghost before = json_map_view(outputs);
        let name = list.key_at(i);
        let (value, noted) = evaluate_output_value_detailed(
            list.value_at(i),
            answers,
            Some(response),
        );
        let ghost v = value@;
        outputs.insert(name.clone(), value);
        assert(json_map_view(outputs) =~= before.insert(name@, v));
        let lines = output_warnings(name.as_str(), &noted);
        append_texts(&mut warnings, lines);
        i = i + 1;
    }
    (outputs, warnings)
}

// ---------------------------------------------------------------------
// The attempt
// ---------------------------------------------------------------------

/// A traced request with the redirects that were followed.
pub open spec fn with_redirects(v: RequestTraceView, redirects: Seq<HopView>) -> RequestTraceView {
    RequestTraceView { redirects, ..v }
}

/// What a step comes to with its response: it fails at the first criterion
/// that is not met, and has outputs only where all are.
pub open spec fn response_evaluated(
    step: Step,
    prep: PreparedView,
    response: Response,
    asked: Seq<CriterionAnswers>,
    a: Answers,
) -> StepRunView {
    let outcomes = criteria_outcomes(step.success_criteria@, asked, response);
    let count = evaluated_count(outcomes) as nat;
    let met = all_met(step.success_criteria@, outcomes);
    let read = outputs_read(step.outputs, a, response, step.outputs.keys().len());
    let noted = prep.warnings + criteria_lines(outcomes, count);
    StepRunView {
        success: met,
        response: Some(response@),
        err: None,
        err_kind: None,
        outputs: if met {
            read.outputs
        } else {
            Map::empty()
        },
        dry_run_request: None,
        trace_request: Some(with_redirects(prep.trace_request, response@.redirects)),
        trace_response: Some(response_traced(response@)),
        criteria: criteria_traced(outcomes, count),
        warnings: if met {
            noted + read.warnings
        } else {
            noted
        },
    }
}

/// What a step comes to with its response, given its criteria as they were
/// evaluated: all of them where each was met, else up to the first that was
/// not.
pub open spec fn response_concluded(
    step: Step,
    prep: PreparedView,
    response: Response,
    outcomes: Seq<CriterionView>,
    a: Answers,
) -> StepRunView {
    let met = all_met(step.success_criteria@, outcomes);
    let read = outputs_read(step.outputs, a, response, step.outputs.keys().len());
    let noted = prep.warnings + criteria_lines(outcomes, outcomes.len());
    StepRunView {
        success: met,
        response: Some(response@),
        err: None,
        err_kind: None,
        outputs: if met {
            read.outputs
        } else {
            Map::empty()
        },
        dry_run_request: None,
        trace_request: Some(with_redirects(prep.trace_request, response@.redirects)),
        trace_response: Some(response_traced(response@)),
        criteria: criteria_traced(outcomes, outcomes.len()),
        warnings: if met {
            noted + read.warnings
        } else {
            noted
        },
    }
}

/// Concludes an attempt from its criteria as they were evaluated. `answers`
/// holds what the expressions of its outputs came to.
pub fn conclude_step_response(
    step: &Step,
    prep: &PreparedRequest,
    response: &Response,
    evaluations: &Vec<CriterionEvaluation>,
    answers: &Answers,
) -> (r: StepExecution)
    ensures
        r@ == response_concluded(
            *step,
            prep@,
            *response,
            evaluation_views(evaluations@),
            *answers,
        ),
{
    let ghost outcomes = evaluation_views(evaluations@);
    let mut warnings = copy_texts(&prep.warnings);
    let mut criteria: Vec<TraceCriterionResult> = Vec::new();
    let mut met = evaluations.len() == step.success_criteria.len();
    let mut i: usize = 0;
    assert(criterion_traces(criteria@) =~= criteria_traced(outcomes, 0));
    assert(texts(warnings@) =~= texts(prep.warnings@) + criteria_lines(outcomes, 0));
    proof {
        first_unmet_is(outcomes, 0);
    }
    while i < evaluations.len()
        invariant
            i <= evaluations@.len(),
            outcomes == evaluation_views(evaluations@),
            criterion_traces(criteria@) == criteria_traced(outcomes, i as nat),
            texts(warnings@) == texts(prep.warnings@) + criteria_lines(outcomes, i as nat),
            met == (outcomes.len() == step.success_criteria@.len() && forall|j: int|
                0 <= j < i ==> (#[trigger] outcomes[j]).matched),
        decreases evaluations@.len() - i,
    {
        let evaluation = &evaluations[i];
        assert(evaluation@ == outcomes[i as int]);
        let ghost noted = texts(warnings@);
        let lines = criterion_warnings(i, evaluation);
        append_texts(&mut warnings, lines);
        assert(texts(warnings@) =~= texts(prep.warnings@) + criteria_lines(
            outcomes,
            (i + 1) as nat,
        ));
        let ghost before = criteria@;
        let record = trace_criterion(i, evaluation);
        let ghost v = record@;
        criteria.push(record);
        assert(criterion_traces(criteria@) =~= criterion_traces(before).push(v));
        assert(criteria_traced(outcomes, (i + 1) as nat) =~= criteria_traced(
            outcomes,
            i as nat,
        ).push(v));
        if !evaluation.matched {
            met = false;
        }
        i = i + 1;
    }
    assert(met == all_met(step.success_criteria@, outcomes));
    let mut trace_request = prep.trace_request.copy();
    trace_request.redirects = copy_hops(&response.redirects);
    assert(trace_request@ =~= with_redirects(prep@.trace_request, response@.redirects));
    let outputs: TextMap<Json> = if met {
        let (outputs, more) = read_outputs(&step.outputs, answers, response);
        append_texts(&mut warnings, more);
        outputs
    } else {
        let none: TextMap<Json> = TextMap::new();
        assert(json_map_view(none) =~= Map::<Seq<char>, JsonView>::empty());
        none
    };
    StepExecution {
        result: StepResult {
            success: met,
            response: Some(response.copy()),
            err: None,
            err_kind: None,
        },
        outputs,
        dry_run_request: None,
        trace: StepTraceData {
            request: Some(trace_request),
            response: Some(build_trace_response(response)),
            criteria,
            warnings,
        },
    }
}

/// Evaluates the response of a step. `asked` holds what the evaluators said of
/// its criteria, and `answers` what the expressions of its outputs came to.
pub fn evaluate_step_response(
    step: &Step,
    prep: &PreparedRequest,
    response: &Response,
    asked: Vec<CriterionAnswers>,
    answers: &Answers,
    regex_cache: &mut RegexCache,
) -> (r: StepExecution)
    requires
        old(regex_cache).wf(),
    ensures
        final(regex_cache).wf(),
        r@ == response_evaluated(*step, prep@, *response, asked@, *answers),
{
    proof {
        evaluated_ones_tell(
            step.success_criteria@,
            criteria_outcomes(step.success_criteria@, asked@, *response),
        );
    }
    let evaluations = evaluate_criteria(&step.success_criteria, asked, response, regex_cache);
    conclude_step_response(step, prep, response, &evaluations, answers)
}

// ---------------------------------------------------------------------
// Dry runs
// ---------------------------------------------------------------------

/// The body of the response that a dry run is given: an empty JSON object.
pub open spec fn empty_object() -> Seq<u8> {
    seq![0x7bu8, 0x7du8]
}

/// The response that a dry run is given.
pub open spec fn is_dry_run_response(r: Response) -> bool {
    &&& r@.status_code == 200
    &&& r@.headers == Map::<Seq<char>, Seq<char>>::empty()
    &&& r@.body == empty_object()
    &&& r@.body_json == Some(JsonView::Object(Seq::empty()))
    &&& r@.content_type is Json
    &&& r@.redirects.len() == 0
}

/// The response that a dry run is given.
pub fn dry_run_response() -> (r: Response)
    ensures
        is_dry_run_response(r),
{
    broadcast use view_by_variant;

    let mut body: Vec<u8> = Vec::new();
    body.push(0x7b);
    body.push(0x7d);
    assert(body@ =~= empty_object());
    let members: Vec<(String, Json)> = Vec::new();
    assert(crate::json::member_views(members@) =~= Seq::empty());
    let headers: TextMap<String> = TextMap::new();
    assert(text_map_view(headers) =~= Map::<Seq<char>, Seq<char>>::empty());
    Response {
        status_code: 200,
        headers,
        body,
        body_json: Some(Json::Object(members)),
        content_type: ContentType::Json,
        redirects: Vec::new(),
    }
}

/// What a step comes to in a dry run: nothing is sent, its outputs are read
/// from a response that holds an empty object, and its request is kept.
pub open spec fn dry_run_evaluated(
    step: Step,
    prep: PreparedView,
    response: Response,
    a: Answers,
) -> StepRunView {
    let read = outputs_read(step.outputs, a, response, step.outputs.keys().len());
    let warnings = prep.warnings + read.warnings;
    StepRunView {
        success: true,
        response: Some(response@),
        err: None,
        err_kind: None,
        outputs: read.outputs,
        dry_run_request: Some(
            DryRunView {
                step_id: step.step_id@,
                method: prep.method,
                url: prep.url_result.url,
                headers: prep.headers,
                body: prep.body_json,
                warnings,
            },
        ),
        trace_request: Some(prep.trace_request),
        trace_response: Some(
            ResponseTraceView {
                status_code: 200,
                content_type: ContentTypeView::Json,
                headers: Map::empty(),
                body_bytes: 2,
                body_preview: Some("{}"@),
                body: Some("{}"@),
                body_lossy: false,
            },
        ),
        criteria: Seq::empty(),
        warnings,
    }
}

/// Runs a step dry. `answers` holds what the expressions of its outputs came
/// to with [`dry_run_response`].
pub fn execute_dry_run_step(step: &Step, prep: PreparedRequest, answers: &Answers) -> (r:
    StepExecution)
    ensures
        exists|response: Response| #[trigger]
            is_dry_run_response(response) && r@ == dry_run_evaluated(
                *step,
                prep@,
                response,
                *answers,
            ),
{
    let response = dry_run_response();
    let ghost p = prep@;
    let (outputs, more) = read_outputs(&step.outputs, answers, &response);
    let mut warnings = prep.warnings;
    append_texts(&mut warnings, more);
    let headers: TextMap<String> = TextMap::new();
    assert(text_map_view(headers) =~= Map::<Seq<char>, Seq<char>>::empty());
    let request = DryRunRequest {
        step_id: step.step_id.clone(),
        method: prep.method,
        url: prep.url_result.url,
        headers: prep.headers,
        body: prep.body_json,
        warnings: copy_texts(&warnings),
    };
    let ghost given = response;
    let trace_response = TraceResponse {
        status_code: 200,
        content_type: ContentType::Json,
        headers,
        body_bytes: 2,
        body_preview: Some("{}".to_owned()),
        body: Some("{}".to_owned()),
        body_lossy: false,
    };
    let criteria: Vec<TraceCriterionResult> = Vec::new();
    assert(criterion_traces(criteria@) =~= Seq::<CriterionTraceView>::empty());
    let r = StepExecution {
        result: StepResult { success: true, response: Some(response), err: None, err_kind: None },
        outputs,
        dry_run_request: Some(request),
        trace: StepTraceData {
            request: Some(prep.trace_request),
            response: Some(trace_response),
            criteria,
            warnings,
        },
    };
    assert(r@ == dry_run_evaluated(*step, p, given, *answers));
    r
}

// ---------------------------------------------------------------------
// Laws
// ---------------------------------------------------------------------

/// A step that fails has no outputs.
pub proof fn failed_step_has_no_outputs(
    step: Step,
    prep: PreparedView,
    response: Response,
    asked: Seq<CriterionAnswers>,
    a: Answers,
)
    ensures
        ({
            let v = response_evaluated(step, prep, response, asked, a);
            !v.success ==> v.outputs == Map::<Seq<char>, JsonView>::empty()
        }),
{
}

/// A step without criteria succeeds.
pub proof fn step_without_criteria_succeeds(
    step: Step,
    prep: PreparedView,
    response: Response,
    asked: Seq<CriterionAnswers>,
    a: Answers,
)
    requires
        step.success_criteria@.len() == 0,
    ensures
        response_evaluated(step, prep, response, asked, a).success,
{
}

/// All criteria before the last one that is traced are met, and no criterion
/// is evaluated behind one that is not.
pub proof fn evaluation_stops_at_the_first_unmet(outcomes: Seq<CriterionView>, from: int, i: int)
    requires
        0 <= from <= i < outcomes.len(),
        i < first_unmet(outcomes, from),
    ensures
        outcomes[i].matched,
    decreases outcomes.len() - from,
{
    if from < i {
        evaluation_stops_at_the_first_unmet(outcomes, from + 1, i);
    }
}

} // verus!
