//! Which steps a step refers to: `$steps.<id>.` in the texts of a document.

use crate::model::{
    Literal, OnAction, OutputValue, Parameter, Step, StepTarget, SuccessCriterion, ValueSource,
    Workflow,
};
use crate::text::{
    alpha_char, chars_of, digit_char, find_char, first_of, is_alnum, is_alpha, stands_at,
    stands_here, text_of, texts,
};
use crate::text_map::{ascending, TextMap};
use vstd::prelude::*;

verus! {

/// A set of names.
pub type NameSet = TextMap<()>;

// ---------------------------------------------------------------------
// References in a text
// ---------------------------------------------------------------------

pub open spec fn name_start(c: char) -> bool {
    is_alpha(c) || c == '_'
}

pub open spec fn name_part(c: char) -> bool {
    is_alnum(c) || c == '_' || c == '-'
}

/// Whether `name` is an identifier: a letter or an underscore, then letters,
/// digits, underscores and hyphens.
pub open spec fn is_name(name: Seq<char>) -> bool {
    name.len() > 0 && name_start(name[0]) && forall|i: int|
        0 <= i < name.len() ==> name_part(#[trigger] name[i])
}

/// Whether `$steps.`, the name and a dot stand in `text` at `at`.
pub open spec fn refers_at(text: Seq<char>, at: int, name: Seq<char>) -> bool {
    &&& stands_at(text, at, "$steps."@)
    &&& is_name(name)
    &&& stands_at(text, at + 7, name)
    &&& at + 7 + name.len() < text.len()
    &&& text[at + 7 + name.len()] == '.'
}

/// The step names that `text` refers to.
pub open spec fn refs_in(text: Seq<char>) -> Set<Seq<char>> {
    Set::new(|name: Seq<char>| exists|at: int| #[trigger] refers_at(text, at, name))
}

/// The names that the first `n` positions of a text refer to.
spec fn refs_before(text: Seq<char>, n: int) -> Set<Seq<char>> {
    Set::new(|name: Seq<char>| exists|at: int| at < n && #[trigger] refers_at(text, at, name))
}

/// The name that a reference at one position can have is one only.
proof fn one_name_at(text: Seq<char>, at: int, a: Seq<char>, end: int)
    requires
        refers_at(text, at, a),
        at + 7 <= end <= text.len(),
        forall|i: int| at + 7 <= i < end ==> name_part(#[trigger] text[i]),
        end < text.len() ==> !name_part(text[end]),
    ensures
        end == at + 7 + a.len(),
        a == text.subrange(at + 7, end),
{
    let e = at + 7 + a.len();
    assert(!name_part('.'));
    if e < end {
        assert(name_part(text[e]));
    }
    if end < e {
        assert(a[end - at - 7] == text.subrange(at + 7, e)[end - at - 7]);
        assert(name_part(a[end - at - 7]));
    }
}

/// Adds the step names that `text` refers to.
pub fn scan_step_refs(text: &str, refs: &mut NameSet)
    ensures
        final(refs)@.dom() == old(refs)@.dom().union(refs_in(text@)),
{
    let chars = chars_of(text);
    let marker = chars_of("$steps.");
    proof {
        reveal_strlit("$steps.");
    }
    let ghost t = text@;
    let ghost known = refs@.dom();
    let mut at: usize = 0;
    assert(refs@.dom() =~= known.union(refs_before(t, 0)));
    while at < chars.len()
        invariant
            at <= chars@.len(),
            chars@ == t,
            t == text@,
            marker@ == "$steps."@,
            marker@.len() == 7,
            refs@.dom() == known.union(refs_before(t, at as int)),
        decreases chars@.len() - at,
    {
        let ghost seen = refs@.dom();
        if stands_here(&chars, at, &marker) {
            let from: usize = at + 7;
            let mut end: usize = from;
            while end < chars.len() && (alpha_char(chars[end]) || digit_char(chars[end])
                || chars[end] == '_' || chars[end] == '-')
                invariant
                    from <= end <= chars@.len(),
                    chars@ == t,
                    forall|i: int| from <= i < end ==> name_part(#[trigger] t[i]),
                decreases chars@.len() - end,
            {
                end = end + 1;
            }
            if from < end && (alpha_char(chars[from]) || chars[from] == '_') && end < chars.len()
                && chars[end] == '.' {
                let name = text_of(&chars, from, end);
                let ghost n = name@;
                proof {
                    assert forall|i: int| 0 <= i < n.len() implies name_part(#[trigger] n[i]) by {
                        assert(n[i] == t[from + i]);
                    }
                    assert(n[0] == t[from as int]);
                    assert(refers_at(t, at as int, n));
                    assert forall|x: Seq<char>|
                        #![auto]
                        refs_before(t, at + 1).contains(x) == (refs_before(t, at as int).contains(x)
                            || x == n) by {
                        if refs_before(t, at + 1).contains(x) {
                            let p = choose|p: int| p < at + 1 && #[trigger] refers_at(t, p, x);
                            if p == at {
                                one_name_at(t, at as int, x, end as int);
                            }
                        }
                    }
                }
                refs.insert(name, ());
                assert(refs@.dom() =~= known.union(refs_before(t, at + 1)));
            } else {
                assert forall|x: Seq<char>| #![auto] !refers_at(t, at as int, x) by {
                    if refers_at(t, at as int, x) {
                        one_name_at(t, at as int, x, end as int);
                        assert(x[0] == t[from as int]);
                    }
                }
                assert(refs_before(t, at + 1) =~= refs_before(t, at as int));
            }
        } else {
            assert(refs_before(t, at + 1) =~= refs_before(t, at as int));
        }
        at = at + 1;
    }
    assert(refs_before(t, at as int) =~= refs_in(t)) by {
        assert forall|x: Seq<char>| refs_in(t).contains(x) implies refs_before(t, at as int).contains(
            x,
        ) by {
            let p = choose|p: int| #[trigger] refers_at(t, p, x);
            assert(p < at);
        }
    }
}

// ---------------------------------------------------------------------
// References in values
// ---------------------------------------------------------------------

/// Whether an embedded expression that begins at `at`, behind its brace,
/// refers to the step `name`.
pub open spec fn embedded_ref(text: Seq<char>, at: int, name: Seq<char>) -> bool {
    let end = first_of(text, at + 1, seq!['}']);
    stands_at(text, at, "{$"@) && end < text.len() && refs_in(
        text.subrange(at + 1, end),
    ).contains(name)
}

/// The steps that a literal text refers to: in the whole of it when it is an
/// expression, else in the expressions between braces.
pub open spec fn literal_refs(text: Seq<char>) -> Set<Seq<char>> {
    if text.len() > 0 && text[0] == '$' {
        refs_in(text)
    } else {
        Set::new(|name: Seq<char>| exists|at: int| #[trigger] embedded_ref(text, at, name))
    }
}

spec fn embedded_before(text: Seq<char>, n: int) -> Set<Seq<char>> {
    Set::new(|name: Seq<char>| exists|at: int| at < n && #[trigger] embedded_ref(text, at, name))
}

fn scan_literal_text(text: &str, refs: &mut NameSet)
    ensures
        final(refs)@.dom() == old(refs)@.dom().union(literal_refs(text@)),
{
    let chars = chars_of(text);
    if chars.len() > 0 && chars[0] == '$' {
        scan_step_refs(text, refs);
        return ;
    }
    let opening = chars_of("{$");
    let ghost t = text@;
    let ghost known = refs@.dom();
    proof {
        reveal_strlit("{$");
    }
    let mut at: usize = 0;
    assert(refs@.dom() =~= known.union(embedded_before(t, 0)));
    while at < chars.len()
        invariant
            at <= chars@.len(),
            chars@ == t,
            t == text@,
            opening@ == "{$"@,
            opening@.len() == 2,
            refs@.dom() == known.union(embedded_before(t, at as int)),
        decreases chars@.len() - at,
    {
        let ghost seen = refs@.dom();
        if stands_here(&chars, at, &opening) {
            let end = find_char(&chars, at + 1, '}');
            if end < chars.len() {
                let inner = text_of(&chars, at + 1, end);
                scan_step_refs(inner.as_str(), refs);
                assert forall|x: Seq<char>|
                    #![auto]
                    embedded_before(t, at + 1).contains(x) == (embedded_before(
                        t,
                        at as int,
                    ).contains(x) || refs_in(inner@).contains(x)) by {
                    if embedded_before(t, at + 1).contains(x) {
                        let p = choose|p: int| p < at + 1 && #[trigger] embedded_ref(t, p, x);
                        assert(p == at || p < at);
                    }
                    if refs_in(inner@).contains(x) {
                        assert(embedded_ref(t, at as int, x));
                    }
                }
                assert(refs@.dom() =~= known.union(embedded_before(t, at + 1)));
            } else {
                assert(embedded_before(t, at + 1) =~= embedded_before(t, at as int));
            }
        } else {
            assert(embedded_before(t, at + 1) =~= embedded_before(t, at as int));
        }
        at = at + 1;
    }
    assert(embedded_before(t, at as int) =~= literal_refs(t)) by {
        assert forall|x: Seq<char>| literal_refs(t).contains(x) implies embedded_before(
            t,
            at as int,
        ).contains(x) by {
            let p = choose|p: int| #[trigger] embedded_ref(t, p, x);
            assert(p < at);
        }
    }
}

/// The steps that a value refers to.
pub open spec fn value_refs(v: ValueSource) -> Set<Seq<char>>
    decreases v, 1int, 0int,
{
    match v {
        ValueSource::Selector(selector) => refs_in(selector.context@),
        ValueSource::Literal(Literal::Text(s)) => literal_refs(s@),
        ValueSource::Literal(Literal::Sequence(items)) => part_refs(v, items@.len()),
        ValueSource::Literal(Literal::Mapping(members)) => part_refs(v, members@.len()),
        _ => Set::empty(),
    }
}

/// The steps that the first `n` items or members of a value refer to.
pub open spec fn part_refs(v: ValueSource, n: nat) -> Set<Seq<char>>
    decreases v, 0int, n,
{
    if n == 0 {
        Set::empty()
    } else {
        let i = n - 1;
        part_refs(v, i as nat).union(
            match v {
                ValueSource::Literal(Literal::Sequence(items)) => if i < items@.len() {
                    value_refs(items@[i])
                } else {
                    Set::empty()
                },
                ValueSource::Literal(Literal::Mapping(members)) => if i < members@.len() {
                    value_refs(members@[i].1)
                } else {
                    Set::empty()
                },
                _ => Set::empty(),
            },
        )
    }
}

/// Adds the steps that a value refers to.
pub fn scan_value_source_refs(value: &ValueSource, refs: &mut NameSet)
    ensures
        final(refs)@.dom() == old(refs)@.dom().union(value_refs(*value)),
    decreases value,
{
    let ghost known = refs@.dom();
    match value {
        ValueSource::Selector(selector) => {
            scan_step_refs(selector.context.as_str(), refs);
        },
        ValueSource::Literal(literal) => {
            scan_literal_refs(literal, refs);
        },
    }
}

/// Adds the steps that a literal refers to.
pub fn scan_literal_refs(value: &Literal, refs: &mut NameSet)
    ensures
        final(refs)@.dom() == old(refs)@.dom().union(value_refs(ValueSource::Literal(*value))),
    decreases value,
{
    let ghost known = refs@.dom();
    match value {
        Literal::Text(s) => {
            scan_literal_text(s.as_str(), refs);
        },
        Literal::Sequence(items) => {
            scan_items(items, refs);
        },
        Literal::Mapping(members) => {
            scan_members(members, refs);
        },
        _ => {
            assert(refs@.dom() =~= known.union(Set::empty()));
        },
    }
}

fn scan_items(items: &Vec<ValueSource>, refs: &mut NameSet)
    ensures
        final(refs)@.dom() == old(refs)@.dom().union(
            part_refs(ValueSource::Literal(Literal::Sequence(*items)), items@.len()),
        ),
    decreases items,
{
    let ghost v = ValueSource::Literal(Literal::Sequence(*items));
    let ghost known = refs@.dom();
    let mut i: usize = 0;
    assert(refs@.dom() =~= known.union(part_refs(v, 0)));
    while i < items.len()
        invariant
            i <= items@.len(),
            v == ValueSource::Literal(Literal::Sequence(*items)),
            refs@.dom() == known.union(part_refs(v, i as nat)),
        decreases items@.len() - i,
    {
        assert(decreases_to!(items => items[i as int]));
        scan_value_source_refs(&items[i], refs);
        assert(refs@.dom() =~= known.union(part_refs(v, (i + 1) as nat)));
        i = i + 1;
    }
}

fn scan_members(members: &Vec<(Option<String>, ValueSource)>, refs: &mut NameSet)
    ensures
        final(refs)@.dom() == old(refs)@.dom().union(
            part_refs(ValueSource::Literal(Literal::Mapping(*members)), members@.len()),
        ),
    decreases members,
{
    let ghost v = ValueSource::Literal(Literal::Mapping(*members));
    let ghost known = refs@.dom();
    let mut i: usize = 0;
    assert(refs@.dom() =~= known.union(part_refs(v, 0)));
    while i < members.len()
        invariant
            i <= members@.len(),
            v == ValueSource::Literal(Literal::Mapping(*members)),
            refs@.dom() == known.union(part_refs(v, i as nat)),
        decreases members@.len() - i,
    {
        assert(decreases_to!(members => members[i as int]));
        scan_value_source_refs(&members[i].1, refs);
        assert(refs@.dom() =~= known.union(part_refs(v, (i + 1) as nat)));
        i = i + 1;
    }
}

// ---------------------------------------------------------------------
// References of a step
// ---------------------------------------------------------------------

/// Whether a `dependsOn` entry names a step of the same workflow.
pub open spec fn names_local_step(dependency: Seq<char>) -> bool {
    dependency.len() > 0 && dependency[0] != '$'
}

/// The steps that a target refers to.
pub open spec fn target_refs(target: Option<StepTarget>) -> Set<Seq<char>> {
    match target {
        Some(StepTarget::OperationPath(p)) => refs_in(p@),
        Some(StepTarget::OperationId(id)) => refs_in(id@),
        _ => Set::empty(),
    }
}

/// The steps that an output refers to.
pub open spec fn output_refs(output: OutputValue) -> Set<Seq<char>> {
    match output {
        OutputValue::RuntimeExpression(e) => refs_in(e@),
        OutputValue::Selector(selector) => refs_in(selector.context@),
    }
}

/// Whether a step refers to the step `name` in what it reads while it runs:
/// `dependsOn`, its target, parameters, request body, success criteria and
/// outputs.
pub open spec fn reads_step(step: Step, name: Seq<char>) -> bool {
    ||| exists|i: int|
        0 <= i < step.depends_on@.len() && (#[trigger] step.depends_on@[i])@ == name
            && names_local_step(name)
    ||| target_refs(step.target).contains(name)
    ||| exists|i: int|
        0 <= i < step.parameters@.len() && value_refs(
            (#[trigger] step.parameters@[i]).value,
        ).contains(name)
    ||| (step.request_body matches Some(body) && {
        ||| (body.payload matches Some(payload) && value_refs(payload).contains(name))
        ||| exists|i: int|
            0 <= i < body.replacements@.len() && value_refs(
                (#[trigger] body.replacements@[i]).value,
            ).contains(name)
    })
    ||| exists|i: int|
        0 <= i < step.success_criteria@.len() && criterion_reads(
            #[trigger] step.success_criteria@[i],
            name,
        )
    ||| exists|i: int|
        0 <= i < step.outputs.values().len() && output_refs(
            #[trigger] step.outputs.values()[i],
        ).contains(name)
}

/// Whether a criterion refers to the step `name`, in its condition or its
/// context.
pub open spec fn criterion_reads(c: SuccessCriterion, name: Seq<char>) -> bool {
    refs_in(c.condition@).contains(name) || refs_in(c.context@).contains(name)
}

/// Whether one of the criteria refers to the step `name`.
pub open spec fn criteria_read(criteria: Seq<SuccessCriterion>, name: Seq<char>) -> bool {
    exists|i: int| 0 <= i < criteria.len() && criterion_reads(#[trigger] criteria[i], name)
}

/// Whether the condition of one of the criteria refers to the step `name`.
pub open spec fn conditions_read(criteria: Seq<SuccessCriterion>, name: Seq<char>) -> bool {
    exists|i: int|
        0 <= i < criteria.len() && refs_in((#[trigger] criteria[i]).condition@).contains(name)
}

/// Whether the criteria of one of the actions refer to the step `name`.
pub open spec fn actions_read(actions: Seq<OnAction>, name: Seq<char>) -> bool {
    exists|i: int| 0 <= i < actions.len() && criteria_read((#[trigger] actions[i]).criteria@, name)
}

/// Whether the conditions of one of the actions refer to the step `name`.
pub open spec fn action_conditions_read(actions: Seq<OnAction>, name: Seq<char>) -> bool {
    exists|i: int|
        0 <= i < actions.len() && conditions_read((#[trigger] actions[i]).criteria@, name)
}

/// The actions that a result is routed through: those of the step where it
/// declares any, else those of the workflow.
pub open spec fn applicable(step_actions: Seq<OnAction>, workflow_actions: Seq<OnAction>) -> Seq<
    OnAction,
> {
    if step_actions.len() == 0 {
        workflow_actions
    } else {
        step_actions
    }
}

/// The actions that a result is routed through.
pub fn applicable_actions<'a>(
    step_actions: &'a Vec<OnAction>,
    workflow_actions: &'a Vec<OnAction>,
) -> (r: &'a Vec<OnAction>)
    ensures
        r@ == applicable(step_actions@, workflow_actions@),
{
    if step_actions.len() == 0 {
        workflow_actions
    } else {
        step_actions
    }
}

/// Whether the routing of a step's result refers to another step `name`.
pub open spec fn routing_reads(workflow: Workflow, step: Step, name: Seq<char>) -> bool {
    &&& name != step.step_id@
    &&& {
        ||| actions_read(applicable(step.on_success@, workflow.success_actions@), name)
        ||| actions_read(applicable(step.on_failure@, workflow.failure_actions@), name)
    }
}

/// Whether a step refers to the step `name` at all: in what it reads while it
/// runs, or in the conditions of its own actions.
pub open spec fn declares_ref(step: Step, name: Seq<char>) -> bool {
    ||| reads_step(step, name)
    ||| action_conditions_read(step.on_success@, name)
    ||| action_conditions_read(step.on_failure@, name)
}

fn scan_criteria(criteria: &Vec<SuccessCriterion>, refs: &mut NameSet)
    ensures
        forall|n: Seq<char>| #[trigger]
            final(refs)@.dom().contains(n) == (old(refs)@.dom().contains(n) || criteria_read(
                criteria@,
                n,
            )),
{
    let ghost known = refs@.dom();
    let mut i: usize = 0;
    while i < criteria.len()
        invariant
            i <= criteria@.len(),
            forall|n: Seq<char>| #[trigger]
                refs@.dom().contains(n) == (known.contains(n) || criteria_read(
                    criteria@.take(i as int),
                    n,
                )),
        decreases criteria@.len() - i,
    {
        let ghost before = refs@.dom();
        scan_step_refs(criteria[i].condition.as_str(), refs);
        scan_step_refs(criteria[i].context.as_str(), refs);
        i = i + 1;
        assert forall|n: Seq<char>| #[trigger] refs@.dom().contains(n) == (known.contains(n)
            || criteria_read(criteria@.take(i as int), n)) by {
            let now = criteria@.take(i as int);
            let then = criteria@.take(i - 1);
            assert(before.contains(n) == (known.contains(n) || criteria_read(then, n)));
            if criteria_read(then, n) {
                let j = choose|j: int| 0 <= j < then.len() && criterion_reads(#[trigger] then[j], n);
                assert(criterion_reads(now[j], n));
            }
            if criterion_reads(criteria@[i - 1], n) {
                assert(criterion_reads(now[i - 1], n));
            }
            if criteria_read(now, n) {
                let j = choose|j: int| 0 <= j < now.len() && criterion_reads(#[trigger] now[j], n);
                if j < i - 1 {
                    assert(criterion_reads(then[j], n));
                }
            }
        }
    }
    assert(criteria@.take(i as int) =~= criteria@);
}

fn scan_conditions(criteria: &Vec<SuccessCriterion>, refs: &mut NameSet)
    ensures
        forall|n: Seq<char>| #[trigger]
            final(refs)@.dom().contains(n) == (old(refs)@.dom().contains(n) || conditions_read(
                criteria@,
                n,
            )),
{
    let ghost known = refs@.dom();
    let mut i: usize = 0;
    while i < criteria.len()
        invariant
            i <= criteria@.len(),
            forall|n: Seq<char>| #[trigger]
                refs@.dom().contains(n) == (known.contains(n) || conditions_read(
                    criteria@.take(i as int),
                    n,
                )),
        decreases criteria@.len() - i,
    {
        let ghost before = refs@.dom();
        scan_step_refs(criteria[i].condition.as_str(), refs);
        i = i + 1;
        assert forall|n: Seq<char>| #[trigger] refs@.dom().contains(n) == (known.contains(n)
            || conditions_read(criteria@.take(i as int), n)) by {
            let now = criteria@.take(i as int);
            let then = criteria@.take(i - 1);
            assert(before.contains(n) == (known.contains(n) || conditions_read(then, n)));
            if conditions_read(then, n) {
                let j = choose|j: int|
                    0 <= j < then.len() && refs_in((#[trigger] then[j]).condition@).contains(n);
                assert(refs_in(now[j].condition@).contains(n));
            }
            if refs_in(criteria@[i - 1].condition@).contains(n) {
                assert(refs_in(now[i - 1].condition@).contains(n));
            }
            if conditions_read(now, n) {
                let j = choose|j: int|
                    0 <= j < now.len() && refs_in((#[trigger] now[j]).condition@).contains(n);
                if j < i - 1 {
                    assert(refs_in(then[j].condition@).contains(n));
                }
            }
        }
    }
    assert(criteria@.take(i as int) =~= criteria@);
}

fn scan_action_criteria(actions: &Vec<OnAction>, refs: &mut NameSet)
    ensures
        forall|n: Seq<char>| #[trigger]
            final(refs)@.dom().contains(n) == (old(refs)@.dom().contains(n) || actions_read(
                actions@,
                n,
            )),
{
    let ghost known = refs@.dom();
    let mut i: usize = 0;
    while i < actions.len()
        invariant
            i <= actions@.len(),
            forall|n: Seq<char>| #[trigger]
                refs@.dom().contains(n) == (known.contains(n) || actions_read(
                    actions@.take(i as int),
                    n,
                )),
        decreases actions@.len() - i,
    {
        let ghost before = refs@.dom();
        scan_criteria(&actions[i].criteria, refs);
        i = i + 1;
        assert forall|n: Seq<char>| #[trigger] refs@.dom().contains(n) == (known.contains(n)
            || actions_read(actions@.take(i as int), n)) by {
            let now = actions@.take(i as int);
            let then = actions@.take(i - 1);
            assert(before.contains(n) == (known.contains(n) || actions_read(then, n)));
            if actions_read(then, n) {
                let j = choose|j: int|
                    0 <= j < then.len() && criteria_read((#[trigger] then[j]).criteria@, n);
                assert(criteria_read(now[j].criteria@, n));
            }
            if criteria_read(actions@[i - 1].criteria@, n) {
                assert(criteria_read(now[i - 1].criteria@, n));
            }
            if actions_read(now, n) {
                let j = choose|j: int|
                    0 <= j < now.len() && criteria_read((#[trigger] now[j]).criteria@, n);
                if j < i - 1 {
                    assert(criteria_read(then[j].criteria@, n));
                }
            }
        }
    }
    assert(actions@.take(i as int) =~= actions@);
}

fn scan_action_conditions(actions: &Vec<OnAction>, refs: &mut NameSet)
    ensures
        forall|n: Seq<char>| #[trigger]
            final(refs)@.dom().contains(n) == (old(refs)@.dom().contains(n)
                || action_conditions_read(actions@, n)),
{
    let ghost known = refs@.dom();
    let mut i: usize = 0;
    while i < actions.len()
        invariant
            i <= actions@.len(),
            forall|n: Seq<char>| #[trigger]
                refs@.dom().contains(n) == (known.contains(n) || action_conditions_read(
                    actions@.take(i as int),
                    n,
                )),
        decreases actions@.len() - i,
    {
        let ghost before = refs@.dom();
        scan_conditions(&actions[i].criteria, refs);
        i = i + 1;
        assert forall|n: Seq<char>| #[trigger] refs@.dom().contains(n) == (known.contains(n)
            || action_conditions_read(actions@.take(i as int), n)) by {
            let now = actions@.take(i as int);
            let then = actions@.take(i - 1);
            assert(before.contains(n) == (known.contains(n) || action_conditions_read(then, n)));
            if action_conditions_read(then, n) {
                let j = choose|j: int|
                    0 <= j < then.len() && conditions_read((#[trigger] then[j]).criteria@, n);
                assert(conditions_read(now[j].criteria@, n));
            }
            if conditions_read(actions@[i - 1].criteria@, n) {
                assert(conditions_read(now[i - 1].criteria@, n));
            }
            if action_conditions_read(now, n) {
                let j = choose|j: int|
                    0 <= j < now.len() && conditions_read((#[trigger] now[j]).criteria@, n);
                if j < i - 1 {
                    assert(conditions_read(then[j].criteria@, n));
                }
            }
        }
    }
    assert(actions@.take(i as int) =~= actions@);
}

fn scan_parameters(parameters: &Vec<Parameter>, refs: &mut NameSet)
    ensures
        forall|n: Seq<char>| #[trigger]
            final(refs)@.dom().contains(n) == (old(refs)@.dom().contains(n) || exists|i: int|
                0 <= i < parameters@.len() && value_refs(
                    (#[trigger] parameters@[i]).value,
                ).contains(n)),
{
    let ghost known = refs@.dom();
    let mut i: usize = 0;
    while i < parameters.len()
        invariant
            i <= parameters@.len(),
            forall|n: Seq<char>| #[trigger]
                refs@.dom().contains(n) == (known.contains(n) || exists|j: int|
                    0 <= j < i && value_refs((#[trigger] parameters@[j]).value).contains(n)),
        decreases parameters@.len() - i,
    {
        let ghost before = refs@.dom();
        scan_value_source_refs(&parameters[i].value, refs);
        i = i + 1;
        assert forall|n: Seq<char>| #[trigger] refs@.dom().contains(n) == (known.contains(n)
            || exists|j: int|
            0 <= j < i && value_refs((#[trigger] parameters@[j]).value).contains(n)) by {
            assert(before.contains(n) == (known.contains(n) || exists|j: int|
                0 <= j < i - 1 && value_refs((#[trigger] parameters@[j]).value).contains(n)));
            assert(value_refs(parameters@[i - 1].value).contains(n) ==> exists|j: int|
                0 <= j < i && value_refs((#[trigger] parameters@[j]).value).contains(n));
        }
    }
}

fn scan_outputs(outputs: &TextMap<OutputValue>, refs: &mut NameSet)
    ensures
        forall|n: Seq<char>| #[trigger]
            final(refs)@.dom().contains(n) == (old(refs)@.dom().contains(n) || exists|i: int|
                0 <= i < outputs.values().len() && output_refs(
                    #[trigger] outputs.values()[i],
                ).contains(n)),
{
    let ghost known = refs@.dom();
    let count = outputs.len();
    let mut i: usize = 0;
    while i < count
        invariant
            i <= count,
            count == outputs.keys().len(),
            count == outputs.values().len(),
            forall|n: Seq<char>| #[trigger]
                refs@.dom().contains(n) == (known.contains(n) || exists|j: int|
                    0 <= j < i && output_refs(#[trigger] outputs.values()[j]).contains(n)),
        decreases count - i,
    {
        let ghost before = refs@.dom();
        match outputs.value_at(i) {
            OutputValue::RuntimeExpression(e) => {
                scan_step_refs(e.as_str(), refs);
            },
            OutputValue::Selector(selector) => {
                scan_step_refs(selector.context.as_str(), refs);
            },
        }
        i = i + 1;
        assert forall|n: Seq<char>| #[trigger] refs@.dom().contains(n) == (known.contains(n)
            || exists|j: int|
            0 <= j < i && output_refs(#[trigger] outputs.values()[j]).contains(n)) by {
            assert(before.contains(n) == (known.contains(n) || exists|j: int|
                0 <= j < i - 1 && output_refs(#[trigger] outputs.values()[j]).contains(n)));
            assert(output_refs(outputs.values()[i - 1]).contains(n) ==> exists|j: int|
                0 <= j < i && output_refs(#[trigger] outputs.values()[j]).contains(n));
        }
    }
}

/// The steps that a step reads while it runs.
pub fn execution_refs(step: &Step) -> (r: NameSet)
    ensures
        forall|n: Seq<char>| #[trigger] r@.dom().contains(n) == reads_step(*step, n),
{
    let mut refs: NameSet = TextMap::new();
    let mut i: usize = 0;
    while i < step.depends_on.len()
        invariant
            i <= step.depends_on@.len(),
            forall|n: Seq<char>| #[trigger]
                refs@.dom().contains(n) == (exists|j: int|
                    0 <= j < i && (#[trigger] step.depends_on@[j])@ == n && names_local_step(n)),
        decreases step.depends_on@.len() - i,
    {
        let ghost before = refs@.dom();
        let chars = chars_of(step.depends_on[i].as_str());
        if chars.len() > 0 && chars[0] != '$' {
            refs.insert(step.depends_on[i].clone(), ());
        }
        i = i + 1;
        assert forall|n: Seq<char>| #[trigger] refs@.dom().contains(n) == (exists|j: int|
            0 <= j < i && (#[trigger] step.depends_on@[j])@ == n && names_local_step(n)) by {
            assert(before.contains(n) == (exists|j: int|
                0 <= j < i - 1 && (#[trigger] step.depends_on@[j])@ == n && names_local_step(n)));
            if step.depends_on@[i - 1]@ == n && names_local_step(n) {
                assert(0 <= i - 1 < i && step.depends_on@[i - 1]@ == n);
            }
        }
    }
    match &step.target {
        Some(StepTarget::OperationPath(p)) => {
            scan_step_refs(p.as_str(), &mut refs);
        },
        Some(StepTarget::OperationId(id)) => {
            scan_step_refs(id.as_str(), &mut refs);
        },
        _ => {},
    }
    scan_parameters(&step.parameters, &mut refs);
    match &step.request_body {
        Some(body) => {
            match &body.payload {
                Some(payload) => {
                    scan_value_source_refs(payload, &mut refs);
                },
                None => {},
            }
            let ghost known = refs@.dom();
            let mut k: usize = 0;
            while k < body.replacements.len()
                invariant
                    k <= body.replacements@.len(),
                    forall|n: Seq<char>| #[trigger]
                        refs@.dom().contains(n) == (known.contains(n) || exists|j: int|
                            0 <= j < k && value_refs(
                                (#[trigger] body.replacements@[j]).value,
                            ).contains(n)),
                decreases body.replacements@.len() - k,
            {
                let ghost before = refs@.dom();
                scan_value_source_refs(&body.replacements[k].value, &mut refs);
                k = k + 1;
                assert forall|n: Seq<char>| #[trigger] refs@.dom().contains(n) == (known.contains(n)
                    || exists|j: int|
                    0 <= j < k && value_refs((#[trigger] body.replacements@[j]).value).contains(
                        n,
                    )) by {
                    assert(before.contains(n) == (known.contains(n) || exists|j: int|
                        0 <= j < k - 1 && value_refs(
                            (#[trigger] body.replacements@[j]).value,
                        ).contains(n)));
                    assert(value_refs(body.replacements@[k - 1].value).contains(n) ==> exists|
                        j: int,
                    |
                        0 <= j < k && value_refs((#[trigger] body.replacements@[j]).value).contains(
                            n,
                        ));
                }
            }
        },
        None => {},
    }
    scan_criteria(&step.success_criteria, &mut refs);
    scan_outputs(&step.outputs, &mut refs);
    refs
}

/// The steps that the routing of a step's result reads, without the step
/// itself: a failed attempt leaves no outputs of its own.
pub fn routing_refs(workflow: &Workflow, step: &Step) -> (r: NameSet)
    ensures
        forall|n: Seq<char>| #[trigger] r@.dom().contains(n) == routing_reads(*workflow, *step, n),
{
    let mut refs: NameSet = TextMap::new();
    let successes = applicable_actions(&step.on_success, &workflow.success_actions);
    scan_action_criteria(successes, &mut refs);
    let failures = applicable_actions(&step.on_failure, &workflow.failure_actions);
    scan_action_criteria(failures, &mut refs);
    refs.remove(step.step_id.as_str());
    refs
}

/// The steps that a step refers to, as a set.
pub fn declared_refs(step: &Step) -> (r: NameSet)
    ensures
        forall|n: Seq<char>| #[trigger] r@.dom().contains(n) == declares_ref(*step, n),
{
    let mut refs = execution_refs(step);
    scan_action_conditions(&step.on_success, &mut refs);
    scan_action_conditions(&step.on_failure, &mut refs);
    refs
}

/// The names of a set, in order.
pub fn names_of(set: &NameSet) -> (r: Vec<String>)
    ensures
        texts(r@) == set.keys(),
        set.wf(),
{
    let count = set.len();
    let mut out: Vec<String> = Vec::new();
    let mut i: usize = 0;
    while i < count
        invariant
            i <= count,
            count == set.keys().len(),
            out@.len() == i,
            forall|j: int| 0 <= j < i ==> (#[trigger] out@[j])@ == set.keys()[j],
        decreases count - i,
    {
        out.push(set.key_at(i).clone());
        i = i + 1;
    }
    assert(texts(out@) =~= set.keys());
    out
}

/// Every step that a step refers to, in the order of the names.
pub fn extract_step_refs(step: &Step) -> (r: Vec<String>)
    ensures
        ascending(texts(r@)),
        forall|n: Seq<char>| #[trigger] texts(r@).contains(n) == declares_ref(*step, n),
{
    let refs = declared_refs(step);
    let out = names_of(&refs);
    assert forall|n: Seq<char>| #[trigger] texts(out@).contains(n) == declares_ref(*step, n) by {
        assert(refs@.dom().contains(n) == refs.keys().contains(n));
    }
    out
}

} // verus!
