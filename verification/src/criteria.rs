//! Deciding criteria, and reading outputs.

use crate::json::{view_by_variant, Json, JsonView};
use crate::json_text::{json_text, plain_text, value_to_string};
use crate::model::{selector_type_name, selector_type_version, OutputValue, SuccessCriterion};
use crate::outcome::{lossy, lossy_text, Response};
use crate::patterns::{pattern_match, RegexCache};
use crate::payload::{
    answer_in, extend_warnings, json_path_of, resolve_selector, selector_resolved, to_json_path,
    warning_views, Answers, Evaluated, EvaluatedView, ExpressionWarning, WarningView,
};
use crate::text::{chars_of, concat2, is_blank, blank_text, same_text};
use crate::xpath::{bytes_selection, select_in_text, select_xpath, text_selection, SelectionView};
use vstd::prelude::*;
use vstd::string::*;

verus! {

// ---------------------------------------------------------------------
// Criteria
// ---------------------------------------------------------------------

/// The type of a criterion that declares none.
pub const SIMPLE: &'static str = "simple";

/// The name of the type of a criterion.
pub open spec fn criterion_label(c: SuccessCriterion) -> Seq<char> {
    match c.type_ {
        Some(t) => selector_type_name(t),
        None => SIMPLE@,
    }
}

/// The version that the type of a criterion declares.
pub open spec fn criterion_version(c: SuccessCriterion) -> Option<Seq<char>> {
    match c.type_ {
        Some(t) => selector_type_version(t),
        None => None,
    }
}

/// What a criterion without a context looks at: the JSON body of the
/// response, else the text of its body, else nothing.
pub open spec fn default_context(response: Option<Response>) -> JsonView {
    match response {
        Some(r) => match r.body_json {
            Some(j) => j@,
            None => if r.body@.len() > 0 {
                JsonView::Text(lossy(r.body@))
            } else {
                JsonView::Null
            },
        },
        None => JsonView::Null,
    }
}

/// What a criterion without a context looks at.
pub fn default_criterion_context(response: Option<&Response>) -> (r: Json)
    ensures
        r@ == default_context(
            match response {
                Some(x) => Some(*x),
                None => None,
            },
        ),
{
    broadcast use view_by_variant;

    match response {
        Some(resp) => match &resp.body_json {
            Some(j) => j.copy(),
            None => if resp.body.len() > 0 {
                Json::Text(lossy_text(resp.body.as_slice()))
            } else {
                Json::Null
            },
        },
        None => Json::Null,
    }
}

/// A response that may be missing.
pub open spec fn opt_response(response: Option<&Response>) -> Option<Response> {
    match response {
        Some(x) => Some(*x),
        None => None,
    }
}

/// What a criterion looks at: its context where it has one.
pub open spec fn context_of(
    c: SuccessCriterion,
    evaluated: EvaluatedView,
    response: Option<Response>,
) -> EvaluatedView {
    if is_blank(c.context@) {
        EvaluatedView { value: default_context(response), warnings: Seq::empty() }
    } else {
        evaluated
    }
}

/// What a criterion looks at. `evaluated` is what its context expression came
/// to.
pub fn criterion_context(
    criterion: &SuccessCriterion,
    evaluated: Evaluated,
    response: Option<&Response>,
) -> (r: Evaluated)
    ensures
        r@ == context_of(*criterion, evaluated@, opt_response(response)),
{
    if blank_text(criterion.context.as_str()) {
        let warnings: Vec<ExpressionWarning> = Vec::new();
        assert(warning_views(warnings@) =~= Seq::<WarningView>::empty());
        Evaluated { value: default_criterion_context(response), warnings }
    } else {
        evaluated
    }
}

/// What a criterion came to.
#[derive(Debug, PartialEq)]
pub struct CriterionEvaluation {
    pub type_: String,
    pub type_version: Option<String>,
    pub condition: String,
    pub condition_result: bool,
    pub matched: bool,
    pub context_expr: String,
    pub context_value: Json,
    pub error: Option<String>,
    pub warnings: Vec<ExpressionWarning>,
}

/// The content of what a criterion came to.
#[verifier::ext_equal]
pub struct CriterionView {
    pub type_: Seq<char>,
    pub type_version: Option<Seq<char>>,
    pub condition: Seq<char>,
    pub condition_result: bool,
    pub matched: bool,
    pub context_expr: Seq<char>,
    pub context_value: JsonView,
    pub error: Option<Seq<char>>,
    pub warnings: Seq<WarningView>,
}

/// The content of a text that may be missing.
pub open spec fn owned_text(t: Option<String>) -> Option<Seq<char>> {
    match t {
        Some(s) => Some(s@),
        None => None,
    }
}

impl View for CriterionEvaluation {
    type V = CriterionView;

    open spec fn view(&self) -> CriterionView {
        CriterionView {
            type_: self.type_@,
            type_version: owned_text(self.type_version),
            condition: self.condition@,
            condition_result: self.condition_result,
            matched: self.matched,
            context_expr: self.context_expr@,
            context_value: self.context_value@,
            error: owned_text(self.error),
            warnings: warning_views(self.warnings@),
        }
    }
}

/// What the evaluators said of the condition of a criterion: the nodes that
/// it selects as a JSONPath in the context, or why it fails; and whether it
/// holds as a plain condition.
#[derive(Debug, PartialEq)]
pub struct ConditionAnswers {
    pub nodes: Result<usize, String>,
    pub holds: bool,
    pub warnings: Vec<ExpressionWarning>,
}

/// Whether nodes satisfy a JSONPath condition: any node does, whatever it
/// holds.
pub open spec fn nodes_hold(nodes: Result<usize, String>) -> Result<bool, Seq<char>> {
    match nodes {
        Ok(n) => Ok(n > 0),
        Err(e) => Err(e@),
    }
}

/// Whether nodes satisfy a JSONPath condition.
pub fn jsonpath_condition_holds(nodes: &Result<usize, String>) -> (r: Result<bool, String>)
    ensures
        match r {
            Ok(b) => nodes_hold(*nodes) == Ok::<bool, Seq<char>>(b),
            Err(e) => nodes_hold(*nodes) == Err::<bool, Seq<char>>(e@),
        },
{
    match nodes {
        Ok(n) => Ok(*n > 0),
        Err(e) => Err(e.clone()),
    }
}

/// What deciding a criterion leaves: the decision, the error, the value that
/// was looked at, and the warnings.
#[verifier::ext_equal]
pub struct DecisionView {
    pub result: bool,
    pub error: Option<Seq<char>>,
    pub context: JsonView,
    pub warnings: Seq<WarningView>,
}

pub open spec fn decided(result: bool, context: EvaluatedView) -> DecisionView {
    DecisionView { result, error: None, context: context.value, warnings: context.warnings }
}

pub open spec fn undecided(error: Seq<char>, context: EvaluatedView) -> DecisionView {
    DecisionView {
        result: false,
        error: Some(error),
        context: context.value,
        warnings: context.warnings,
    }
}

/// The text that an XPath criterion reads in a context.
pub open spec fn context_text(v: JsonView) -> Seq<char> {
    match v {
        JsonView::Text(s) => s,
        _ => json_text(v),
    }
}

/// Decides a criterion in its context. A context that is nothing fails
/// JSONPath and XPath criteria.
pub open spec fn decision_in(
    c: SuccessCriterion,
    context: EvaluatedView,
    asked: ConditionAnswers,
) -> DecisionView {
    let name = criterion_label(c);
    if name == "regex"@ {
        match pattern_match(c.condition@, plain_text(context.value)) {
            Ok(found) => decided(found, context),
            Err(e) => undecided("invalid regex: "@ + e, context),
        }
    } else if name == "jsonpath"@ {
        if context.value is Null {
            decided(false, context)
        } else {
            match nodes_hold(asked.nodes) {
                Ok(b) => decided(b, context),
                Err(e) => undecided("unsupported JSONPath: "@ + e, context),
            }
        }
    } else if name == "xpath"@ {
        if context.value is Null {
            decided(false, context)
        } else {
            let text = context_text(context.value);
            let read = EvaluatedView { value: JsonView::Text(text), warnings: context.warnings };
            match text_selection(text, c.condition@) {
                Ok(s) => decided(s.truthy, read),
                Err(e) => undecided(e, read),
            }
        }
    } else {
        DecisionView {
            result: asked.holds,
            error: None,
            context: context.value,
            warnings: context.warnings + warning_views(asked.warnings@),
        }
    }
}

/// What a criterion comes to.
pub open spec fn criterion_outcome(
    c: SuccessCriterion,
    evaluated: EvaluatedView,
    response: Option<Response>,
    asked: ConditionAnswers,
) -> CriterionView {
    let d = decision_in(c, context_of(c, evaluated, response), asked);
    CriterionView {
        type_: criterion_label(c),
        type_version: criterion_version(c),
        condition: c.condition@,
        condition_result: d.result,
        matched: d.result,
        context_expr: c.context@,
        context_value: d.context,
        error: d.error,
        warnings: d.warnings,
    }
}

/// Evaluates a criterion. `evaluated` is what its context expression came to,
/// and `asked` what the evaluators said of its condition in that context.
pub fn evaluate_criterion_detailed(
    criterion: &SuccessCriterion,
    evaluated: Evaluated,
    response: Option<&Response>,
    asked: &ConditionAnswers,
    regex_cache: &mut RegexCache,
) -> (r: CriterionEvaluation)
    requires
        old(regex_cache).wf(),
    ensures
        final(regex_cache).wf(),
        r@ == criterion_outcome(*criterion, evaluated@, opt_response(response), *asked),
{
    broadcast use view_by_variant;

    let (name, version): (&str, Option<String>) = match &criterion.type_ {
        Some(t) => (
            t.resolved_name(),
            match t.declared_version() {
                Some(v) => Some(v.to_owned()),
                None => None,
            },
        ),
        None => (SIMPLE, None),
    };
    let context = criterion_context(criterion, evaluated, response);
    let ghost looked_at = context@;
    let mut context_value = context.value;
    let mut warnings = context.warnings;
    let mut error: Option<String> = None;
    let is_null = match &context_value {
        Json::Null => true,
        _ => false,
    };
    let condition_result = if same_text(name, "regex") {
        let text = value_to_string(&context_value);
        match regex_cache.is_match(criterion.condition.as_str(), text.as_str()) {
            Ok(found) => found,
            Err(e) => {
                error = Some(concat2("invalid regex: ", e.as_str()));
                false
            },
        }
    } else if same_text(name, "jsonpath") {
        if is_null {
            false
        } else {
            match jsonpath_condition_holds(&asked.nodes) {
                Ok(b) => b,
                Err(e) => {
                    error = Some(concat2("unsupported JSONPath: ", e.as_str()));
                    false
                },
            }
        }
    } else if same_text(name, "xpath") {
        if is_null {
            false
        } else {
            let xml = match &context_value {
                Json::Text(t) => t.clone(),
                other => other.text(),
            };
            assert(xml@ == context_text(looked_at.value));
            let selected = select_in_text(xml.as_str(), criterion.condition.as_str());
            context_value = Json::Text(xml);
            match selected {
                Ok(s) => s.truthy,
                Err(e) => {
                    error = Some(e);
                    false
                },
            }
        }
    } else {
        extend_warnings(&mut warnings, &asked.warnings);
        asked.holds
    };
    CriterionEvaluation {
        type_: name.to_owned(),
        type_version: version,
        condition: criterion.condition.clone(),
        condition_result,
        matched: condition_result,
        context_expr: criterion.context.clone(),
        context_value,
        error,
        warnings,
    }
}

/// Whether a criterion is met.
pub fn evaluate_criterion(
    criterion: &SuccessCriterion,
    evaluated: Evaluated,
    response: Option<&Response>,
    asked: &ConditionAnswers,
    regex_cache: &mut RegexCache,
) -> (r: bool)
    requires
        old(regex_cache).wf(),
    ensures
        final(regex_cache).wf(),
        r == criterion_outcome(*criterion, evaluated@, opt_response(response), *asked).matched,
{
    evaluate_criterion_detailed(criterion, evaluated, response, asked, regex_cache).matched
}

/// A criterion that looks at nothing with JSONPath or XPath is not met.
pub proof fn empty_context_is_not_met(
    c: SuccessCriterion,
    context: EvaluatedView,
    asked: ConditionAnswers,
)
    requires
        criterion_label(c) == "jsonpath"@ || criterion_label(c) == "xpath"@,
        context.value is Null,
    ensures
        !decision_in(c, context, asked).result,
{
    reveal_strlit("regex");
    reveal_strlit("jsonpath");
    reveal_strlit("xpath");
    assert("regex"@.len() == 5 && "jsonpath"@.len() == 8);
    assert("regex"@[0] == 'r' && "xpath"@[0] == 'x');
}

/// A criterion that could not be decided is not met.
pub proof fn an_error_is_not_a_match(
    c: SuccessCriterion,
    evaluated: EvaluatedView,
    response: Option<Response>,
    asked: ConditionAnswers,
)
    ensures
        criterion_outcome(c, evaluated, response, asked).error is Some ==> !criterion_outcome(
            c,
            evaluated,
            response,
            asked,
        ).matched,
{
}

// ---------------------------------------------------------------------
// Outputs
// ---------------------------------------------------------------------

pub open spec fn with_note(value: JsonView, expr: Seq<char>, message: Seq<char>) -> EvaluatedView {
    EvaluatedView { value, warnings: seq![WarningView { expression: expr, message }] }
}

/// What an XPath output comes to in a response.
pub open spec fn xpath_output(
    expr: Seq<char>,
    selected: Result<SelectionView, Seq<char>>,
) -> EvaluatedView {
    match selected {
        Ok(s) => match s.value {
            Ok(v) => if s.match_count > 0 {
                EvaluatedView { value: v, warnings: Seq::empty() }
            } else {
                with_note(v, expr, "XPath matched no values"@)
            },
            Err(e) => with_note(JsonView::Null, expr, e),
        },
        Err(e) => with_note(JsonView::Null, expr, e),
    }
}

/// The expression that an output which is no XPath asks for: itself, or a
/// path in the body of the response.
pub open spec fn output_question(expr: Seq<char>) -> Seq<char> {
    if expr.len() > 0 && expr[0] == '$' {
        expr
    } else {
        "$response.body."@ + json_path_of(expr)
    }
}

/// The expression that an output which is no XPath asks for.
pub fn output_expression(expr: &str) -> (r: String)
    ensures
        r@ == output_question(expr@),
{
    let chars = chars_of(expr);
    if chars.len() > 0 && chars[0] == '$' {
        expr.to_owned()
    } else {
        let path = to_json_path(expr);
        concat2("$response.body.", path.as_str())
    }
}

/// What an output expression comes to.
pub open spec fn output_value(
    expr: Seq<char>,
    a: Answers,
    response: Option<Response>,
) -> EvaluatedView {
    if expr.len() > 0 && expr[0] == '/' {
        match response {
            Some(r) => xpath_output(expr, bytes_selection(r.body@, expr, Some("xpath-10"@))),
            None => with_note(JsonView::Null, expr, "XPath output has no response context"@),
        }
    } else {
        answer_in(a.contexts, output_question(expr))
    }
}

fn noted(value: Json, expr: &str, message: String) -> (r: (Json, Vec<ExpressionWarning>))
    ensures
        r.0@ == value@,
        warning_views(r.1@) == with_note(value@, expr@, message@).warnings,
{
    let mut warnings: Vec<ExpressionWarning> = Vec::new();
    let w = ExpressionWarning { expression: expr.to_owned(), message };
    let ghost v = w@;
    warnings.push(w);
    assert(warning_views(warnings@) =~= seq![v]);
    (value, warnings)
}

/// What an output expression comes to, given the answers.
pub fn evaluate_output_expression_detailed(
    expr: &str,
    answers: &Answers,
    response: Option<&Response>,
) -> (r: (Json, Vec<ExpressionWarning>))
    ensures
        ({
            let v = output_value(expr@, *answers, opt_response(response));
            r.0@ == v.value && warning_views(r.1@) == v.warnings
        }),
{
    broadcast use view_by_variant;

    let chars = chars_of(expr);
    let none: Vec<ExpressionWarning> = Vec::new();
    assert(warning_views(none@) =~= Seq::<WarningView>::empty());
    if chars.len() > 0 && chars[0] == '/' {
        return match response {
            Some(resp) => match select_xpath(resp.body.as_slice(), expr, Some("xpath-10")) {
                Ok(s) => match s.value {
                    Ok(v) => if s.match_count > 0 {
                        (v, none)
                    } else {
                        noted(v, expr, "XPath matched no values".to_owned())
                    },
                    Err(e) => noted(Json::Null, expr, e),
                },
                Err(e) => noted(Json::Null, expr, e),
            },
            None => noted(Json::Null, expr, "XPath output has no response context".to_owned()),
        };
    }
    let question = output_expression(expr);
    match answers.contexts.get(question.as_str()) {
        Some(e) => {
            let mut warnings = none;
            extend_warnings(&mut warnings, &e.warnings);
            assert(Seq::<WarningView>::empty() + warning_views(e.warnings@) =~= warning_views(
                e.warnings@,
            ));
            (e.value.copy(), warnings)
        },
        None => (Json::Null, none),
    }
}

/// The value of an output expression.
pub fn evaluate_output_expression(
    expr: &str,
    answers: &Answers,
    response: Option<&Response>,
) -> (r: Json)
    ensures
        r@ == output_value(expr@, *answers, opt_response(response)).value,
{
    evaluate_output_expression_detailed(expr, answers, response).0
}

/// What an output comes to.
pub open spec fn output_outcome(
    output: OutputValue,
    a: Answers,
    response: Option<Response>,
) -> EvaluatedView {
    match output {
        OutputValue::RuntimeExpression(e) => output_value(e@, a, response),
        OutputValue::Selector(s) => EvaluatedView {
            value: selector_resolved(s, a).value,
            warnings: selector_resolved(s, a).warnings,
        },
    }
}

/// What an output comes to, given the answers.
pub fn evaluate_output_value_detailed(
    output: &OutputValue,
    answers: &Answers,
    response: Option<&Response>,
) -> (r: (Json, Vec<ExpressionWarning>))
    ensures
        ({
            let v = output_outcome(*output, *answers, opt_response(response));
            r.0@ == v.value && warning_views(r.1@) == v.warnings
        }),
{
    match output {
        OutputValue::RuntimeExpression(e) => evaluate_output_expression_detailed(
            e.as_str(),
            answers,
            response,
        ),
        OutputValue::Selector(s) => resolve_selector(s, answers),
    }
}

} // verus!
