//! What holds of criteria, of the success of a step and of its outputs.

use crate::criteria::{criterion_outcome, ConditionAnswers};
use crate::json::JsonView;
use crate::json_text::json_text;
use crate::model::{OutputValue, SelectorType, Step, SuccessCriterion};
use crate::outcome::{lossy, Response};
use crate::patterns::{pattern_found, pattern_problem};
use crate::payload::{selector_resolved, Answers, EvaluatedView};
use crate::step_response::{
    criteria_outcomes, evaluated_count, first_unmet, outputs_read, response_evaluated,
    CriterionAnswers,
};
use crate::http_request::PreparedView;
use crate::text::{is_blank, is_space, space_end, space_start, trimmed};
use crate::text_map::{entries_are_pairs, TextMap};
use crate::xpath::text_selection;
use vstd::prelude::*;
use vstd::string::*;

verus! {

// ---------------------------------------------------------------------
// White space
// ---------------------------------------------------------------------

/// Whether a text is white space alone.
pub open spec fn all_space(s: Seq<char>) -> bool {
    forall|i: int| 0 <= i < s.len() ==> is_space(#[trigger] s[i])
}

proof fn space_ends(s: Seq<char>, from: int)
    requires
        0 <= from <= s.len(),
    ensures
        from <= space_end(s, from) <= s.len(),
        forall|i: int| from <= i < space_end(s, from) ==> is_space(#[trigger] s[i]),
        space_end(s, from) < s.len() ==> !is_space(s[space_end(s, from)]),
    decreases s.len() - from,
{
    if from < s.len() && is_space(s[from]) {
        space_ends(s, from + 1);
    }
}

proof fn space_starts(s: Seq<char>, to: int)
    requires
        0 <= to <= s.len(),
    ensures
        0 <= space_start(s, to) <= to,
        forall|i: int| space_start(s, to) <= i < to ==> is_space(#[trigger] s[i]),
        space_start(s, to) > 0 ==> !is_space(s[space_start(s, to) - 1]),
    decreases to,
{
    if to > 0 && is_space(s[to - 1]) {
        space_starts(s, to - 1);
    }
}

/// A text is blank exactly where it is white space alone, and otherwise
/// trimming leaves what stands from the first character that is none to the
/// last.
pub proof fn trimming_takes_white_space(s: Seq<char>, a: int, b: int)
    ensures
        is_blank(s) == all_space(s),
        0 <= a < b <= s.len() && !is_space(s[a]) && !is_space(s[b - 1]) && all_space(s.take(a))
            && all_space(s.skip(b)) ==> trimmed(s) == s.subrange(a, b),
{
    space_ends(s, 0);
    space_starts(s, s.len() as int);
    let f = space_end(s, 0);
    let l = space_start(s, s.len() as int);
    if !all_space(s) {
        let i = choose|i: int| 0 <= i < s.len() && !is_space(#[trigger] s[i]);
        assert(f <= i);
        assert(i < l);
    }
    if all_space(s) {
        if f < s.len() {
            assert(is_space(s[f]));
        }
    }
    if 0 <= a < b <= s.len() && !is_space(s[a]) && !is_space(s[b - 1]) && all_space(s.take(a))
        && all_space(s.skip(b)) {
        if f < a {
            assert(s.take(a)[f] == s[f]);
        }
        if l > b {
            assert(s.skip(b)[l - 1 - b] == s[l - 1]);
        }
        assert(f == a);
        assert(l == b);
    }
}

// ---------------------------------------------------------------------
// Criteria
// ---------------------------------------------------------------------

/// Whether a criterion is of a type by this name.
pub open spec fn is_of_type(c: SuccessCriterion, name: Seq<char>) -> bool {
    match c.type_ {
        Some(SelectorType::Name(n)) => n@ == name,
        Some(SelectorType::ExpressionType { type_, version }) => type_@ == name,
        None => name == "simple"@,
    }
}

/// The body of a response as criteria look at it: as JSON where it is JSON,
/// else as text, and `null` where there is none.
pub open spec fn body_value(response: Option<Response>) -> JsonView {
    match response {
        Some(r) => match r.body_json {
            Some(j) => j@,
            None => if r.body@.len() == 0 {
                JsonView::Null
            } else {
                JsonView::Text(lossy(r.body@))
            },
        },
        None => JsonView::Null,
    }
}

/// What a criterion looks at: what its context came to, and the body of the
/// response where it has no context.
pub open spec fn looked_at(
    c: SuccessCriterion,
    evaluated: EvaluatedView,
    response: Option<Response>,
) -> JsonView {
    if all_space(c.context@) {
        body_value(response)
    } else {
        evaluated.value
    }
}

/// A value as the text that a pattern is searched in.
pub open spec fn searched_text(v: JsonView) -> Seq<char> {
    if v is Text {
        v->Text_0
    } else if v is Null {
        Seq::empty()
    } else {
        json_text(v)
    }
}

proof fn names_differ()
    ensures
        "regex"@ != "jsonpath"@,
        "regex"@ != "xpath"@,
        "regex"@ != "simple"@,
        "jsonpath"@ != "xpath"@,
        "jsonpath"@ != "simple"@,
        "xpath"@ != "simple"@,
{
    reveal_strlit("regex");
    reveal_strlit("jsonpath");
    reveal_strlit("xpath");
    reveal_strlit("simple");
    assert("regex"@[0] != "xpath"@[0]);
    assert("regex"@.len() == 5);
    assert("jsonpath"@.len() == 8);
    assert("simple"@.len() == 6);
}

/// A `regex` criterion is met exactly where the pattern is found in the text of
/// what it looks at, whatever that is: a text as it is, an object or a list in
/// its JSON text. A pattern that is none is never met, and reported.
pub proof fn a_regex_is_searched_in_the_text(
    c: SuccessCriterion,
    evaluated: EvaluatedView,
    response: Option<Response>,
    asked: ConditionAnswers,
)
    requires
        is_of_type(c, "regex"@),
    ensures
        ({
            let r = criterion_outcome(c, evaluated, response, asked);
            let text = searched_text(looked_at(c, evaluated, response));
            &&& r.matched == (pattern_problem(c.condition@) is None && pattern_found(
                c.condition@,
                text,
            ))
            &&& r.error is Some == pattern_problem(c.condition@) is Some
            &&& r.context_value == looked_at(c, evaluated, response)
        }),
{
    names_differ();
    trimming_takes_white_space(c.context@, 0, 0);
    reveal_strlit("");
    assert(""@ =~= Seq::<char>::empty());
}

/// A `jsonpath` criterion is met exactly where its query selects a node of what
/// it looks at; a query that fails is never met, and reported.
pub proof fn a_query_has_to_select_something(
    c: SuccessCriterion,
    evaluated: EvaluatedView,
    response: Option<Response>,
    asked: ConditionAnswers,
)
    requires
        is_of_type(c, "jsonpath"@),
    ensures
        ({
            let r = criterion_outcome(c, evaluated, response, asked);
            let v = looked_at(c, evaluated, response);
            &&& r.matched == (!(v is Null) && (asked.nodes matches Ok(n) && n >= 1))
            &&& r.error is Some == (!(v is Null) && asked.nodes is Err)
            &&& r.context_value == v
        }),
{
    names_differ();
    trimming_takes_white_space(c.context@, 0, 0);
}

/// An `xpath` criterion is met exactly where its expression is true of the text
/// of what it looks at.
pub proof fn an_xpath_has_to_be_true(
    c: SuccessCriterion,
    evaluated: EvaluatedView,
    response: Option<Response>,
    asked: ConditionAnswers,
)
    requires
        is_of_type(c, "xpath"@),
    ensures
        ({
            let r = criterion_outcome(c, evaluated, response, asked);
            let v = looked_at(c, evaluated, response);
            let text = searched_text(v);
            &&& r.matched == (!(v is Null) && (text_selection(text, c.condition@) matches Ok(s)
                && s.truthy))
            &&& r.error is Some == (!(v is Null) && text_selection(text, c.condition@) is Err)
        }),
{
    names_differ();
    trimming_takes_white_space(c.context@, 0, 0);
}

/// Any other criterion is met exactly where its condition holds.
pub proof fn a_condition_has_to_hold(
    c: SuccessCriterion,
    evaluated: EvaluatedView,
    response: Option<Response>,
    asked: ConditionAnswers,
)
    requires
        !is_of_type(c, "regex"@),
        !is_of_type(c, "jsonpath"@),
        !is_of_type(c, "xpath"@),
    ensures
        criterion_outcome(c, evaluated, response, asked).matched == asked.holds,
        criterion_outcome(c, evaluated, response, asked).error is None,
        criterion_outcome(c, evaluated, response, asked).context_value == looked_at(
            c,
            evaluated,
            response,
        ),
{
    names_differ();
    trimming_takes_white_space(c.context@, 0, 0);
}

/// What is reported of a criterion is the criterion that was evaluated, and the
/// result that counts.
pub proof fn a_criterion_is_reported_as_declared(
    c: SuccessCriterion,
    evaluated: EvaluatedView,
    response: Option<Response>,
    asked: ConditionAnswers,
    name: Seq<char>,
)
    requires
        is_of_type(c, name),
    ensures
        ({
            let r = criterion_outcome(c, evaluated, response, asked);
            &&& r.type_ == name
            &&& r.condition == c.condition@
            &&& r.context_expr == c.context@
            &&& r.condition_result == r.matched
            &&& c.type_ matches Some(SelectorType::ExpressionType { type_, version }) ==> (
            version@.len() > 0 ==> r.type_version == Some(version@))
            &&& !(c.type_ matches Some(SelectorType::ExpressionType { type_, version }))
                ==> r.type_version is None
        }),
{
}

// ---------------------------------------------------------------------
// Success
// ---------------------------------------------------------------------

proof fn unmet_is_found(
    step: Step,
    answers: Seq<CriterionAnswers>,
    response: Response,
    from: int,
)
    requires
        0 <= from <= criteria_outcomes(step.success_criteria@, answers, response).len(),
    ensures
        ({
            let outcomes = criteria_outcomes(step.success_criteria@, answers, response);
            let at = first_unmet(outcomes, from);
            &&& from <= at <= outcomes.len()
            &&& forall|i: int| from <= i < at ==> (#[trigger] outcomes[i]).matched
            &&& at < outcomes.len() ==> !outcomes[at].matched
        }),
    decreases criteria_outcomes(step.success_criteria@, answers, response).len() - from,
{
    let outcomes = criteria_outcomes(step.success_criteria@, answers, response);
    if from < outcomes.len() && outcomes[from].matched {
        unmet_is_found(step, answers, response, from + 1);
    }
}

/// A step succeeds exactly where every one of its criteria is met.
pub proof fn a_step_succeeds_where_all_criteria_are_met(
    step: Step,
    prep: PreparedView,
    response: Response,
    asked: Seq<CriterionAnswers>,
    a: Answers,
)
    requires
        asked.len() == step.success_criteria@.len(),
    ensures
        response_evaluated(step, prep, response, asked, a).success == forall|i: int|
            0 <= i < step.success_criteria@.len() ==> criterion_outcome(
                #[trigger] step.success_criteria@[i],
                asked[i].context@,
                Some(response),
                asked[i].asked,
            ).matched,
{
    let outcomes = criteria_outcomes(step.success_criteria@, asked, response);
    unmet_is_found(step, asked, response, 0);
    let at = first_unmet(outcomes, 0);
    if at < outcomes.len() {
        assert(outcomes[at] == criterion_outcome(
            step.success_criteria@[at],
            asked[at].context@,
            Some(response),
            asked[at].asked,
        ));
    } else {
        assert forall|i: int| 0 <= i < step.success_criteria@.len() implies criterion_outcome(
            #[trigger] step.success_criteria@[i],
            asked[i].context@,
            Some(response),
            asked[i].asked,
        ).matched by {
            assert(outcomes[i].matched);
        }
    }
}

/// The trace of a step holds its criteria in order, each with its result, up to
/// and with the first that is not met.
pub proof fn criteria_are_traced_up_to_the_first_unmet(
    step: Step,
    prep: PreparedView,
    response: Response,
    asked: Seq<CriterionAnswers>,
    a: Answers,
    i: int,
)
    requires
        asked.len() == step.success_criteria@.len(),
    ensures
        ({
            let v = response_evaluated(step, prep, response, asked, a);
            let n = v.criteria.len();
            &&& n <= step.success_criteria@.len()
            &&& v.success ==> n == step.success_criteria@.len()
            &&& step.success_criteria@.len() > 0 ==> n > 0
            &&& 0 <= i < n ==> {
                &&& v.criteria[i].index == i
                &&& v.criteria[i].condition == step.success_criteria@[i].condition@
                &&& v.criteria[i].context == step.success_criteria@[i].context@
                &&& v.criteria[i].result == criterion_outcome(
                    step.success_criteria@[i],
                    asked[i].context@,
                    Some(response),
                    asked[i].asked,
                ).matched
                &&& v.criteria[i].result == (v.success || i < n - 1)
            }
        }),
{
    let outcomes = criteria_outcomes(step.success_criteria@, asked, response);
    unmet_is_found(step, asked, response, 0);
    if 0 <= i < evaluated_count(outcomes) {
        assert(outcomes[i] == criterion_outcome(
            step.success_criteria@[i],
            asked[i].context@,
            Some(response),
            asked[i].asked,
        ));
    }
}

// ---------------------------------------------------------------------
// Outputs
// ---------------------------------------------------------------------

proof fn outputs_are_read(
    list: TextMap<OutputValue>,
    a: Answers,
    response: Response,
    n: nat,
    i: int,
)
    requires
        list.wf(),
        n <= list.keys().len(),
        0 <= i < list.keys().len(),
    ensures
        outputs_read(list, a, response, n).outputs.contains_key(list.keys()[i]) == (i < n),
        i < n ==> outputs_read(list, a, response, n).outputs[list.keys()[i]]
            == crate::criteria::output_outcome(list.values()[i], a, Some(response)).value,
    decreases n,
{
    if n > 0 {
        outputs_are_read(list, a, response, (n - 1) as nat, i);
        if i != n - 1 {
            entries_are_pairs(list, i);
            entries_are_pairs(list, n - 1);
            crate::trace::keys_are_distinct(list);
            assert(list.keys()[i] != list.keys()[n - 1]);
        }
    }
}

/// A successful step has every output that it declares, and each holds what its
/// expression came to.
pub proof fn outputs_hold_what_they_declare(
    step: Step,
    prep: PreparedView,
    response: Response,
    asked: Seq<CriterionAnswers>,
    a: Answers,
    name: Seq<char>,
)
    requires
        step.outputs.wf(),
        step.outputs@.contains_key(name),
        response_evaluated(step, prep, response, asked, a).success,
    ensures
        ({
            let v = response_evaluated(step, prep, response, asked, a);
            &&& v.outputs.contains_key(name)
            &&& match step.outputs@[name] {
                OutputValue::RuntimeExpression(e) => e@.len() > 0 && e@[0] == '$'
                    && a.contexts@.contains_key(e@) ==> v.outputs[name]
                    == a.contexts@[e@].value@,
                OutputValue::Selector(s) => v.outputs[name] == selector_resolved(s, a).value,
            }
        }),
{
    let i = step.outputs.keys().index_of(name);
    assert(step.outputs.keys().contains(name));
    outputs_are_read(step.outputs, a, response, step.outputs.keys().len(), i);
    entries_are_pairs(step.outputs, i);
}

/// A step whose criteria were evaluated one by one succeeds exactly where all
/// of them were evaluated and met, and only then it has outputs.
pub proof fn a_concluded_step_succeeds_where_all_are_met(
    step: Step,
    prep: PreparedView,
    response: Response,
    outcomes: Seq<crate::criteria::CriterionView>,
    a: Answers,
    from: int,
)
    requires
        0 <= from <= outcomes.len(),
        forall|i: int| 0 <= i < from ==> (#[trigger] outcomes[i]).matched,
    ensures
        ({
            let v = crate::step_response::response_concluded(step, prep, response, outcomes, a);
            &&& v.success == (outcomes.len() == step.success_criteria@.len() && forall|i: int|
                0 <= i < outcomes.len() ==> (#[trigger] outcomes[i]).matched)
            &&& !v.success ==> v.outputs == Map::<Seq<char>, JsonView>::empty()
            &&& v.success ==> v.outputs == outputs_read(
                step.outputs,
                a,
                response,
                step.outputs.keys().len(),
            ).outputs
            &&& v.response == Some(response@)
        }),
        first_unmet(outcomes, 0) == first_unmet(outcomes, from),
    decreases outcomes.len() - from,
{
    if from > 0 {
        skip_met(outcomes, 0, from);
    }
    if from < outcomes.len() && outcomes[from].matched {
        a_concluded_step_succeeds_where_all_are_met(step, prep, response, outcomes, a, from + 1);
    } else if from < outcomes.len() {
        assert(first_unmet(outcomes, from) == from);
    }
}

proof fn skip_met(outcomes: Seq<crate::criteria::CriterionView>, at: int, from: int)
    requires
        0 <= at <= from <= outcomes.len(),
        forall|i: int| 0 <= i < from ==> (#[trigger] outcomes[i]).matched,
    ensures
        first_unmet(outcomes, at) == first_unmet(outcomes, from),
    decreases from - at,
{
    if at < from {
        assert(outcomes[at].matched);
        skip_met(outcomes, at + 1, from);
    }
}

/// A dry run shows the request that would be sent, succeeds, and evaluates no
/// criteria.
pub proof fn a_dry_run_shows_the_request(
    step: Step,
    prep: PreparedView,
    response: Response,
    a: Answers,
)
    ensures
        ({
            let v = crate::step_response::dry_run_evaluated(step, prep, response, a);
            &&& v.success
            &&& v.err is None
            &&& v.criteria.len() == 0
            &&& v.dry_run_request matches Some(d) && {
                &&& d.step_id == step.step_id@
                &&& d.method == prep.method
                &&& d.url == prep.url_result.url
                &&& d.headers == prep.headers
                &&& d.body == prep.body_json
            }
            &&& v.trace_request == Some(prep.trace_request)
        }),
{
}

/// A called workflow meets the criteria of its step exactly where every one of
/// them is met without a response.
pub proof fn a_call_succeeds_where_all_criteria_are_met(
    list: Seq<SuccessCriterion>,
    answers: Seq<CriterionAnswers>,
    i: int,
)
    requires
        answers.len() == list.len(),
    ensures
        crate::subworkflows::call_criteria_met(list, answers, list.len()) == forall|k: int|
            0 <= k < list.len() ==> criterion_outcome(
                #[trigger] list[k],
                answers[k].context@,
                None,
                answers[k].asked,
            ).matched,
{
    if crate::subworkflows::call_criteria_met(list, answers, list.len()) {
        assert forall|k: int| 0 <= k < list.len() implies criterion_outcome(
            #[trigger] list[k],
            answers[k].context@,
            None,
            answers[k].asked,
        ).matched by {
            let c = criterion_outcome(list[k], answers[k].context@, None, answers[k].asked);
        }
    }
}

} // verus!
