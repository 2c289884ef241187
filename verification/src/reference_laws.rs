//! What holds of the order of steps, in terms of the texts of a document.

use crate::deps::{
    closed_under_refs, edge, in_level, is_step_named, level_needs, level_ok, levels_ok, needed_by,
    placed_before, plain_retry, refers_to, stuck, steps_blocker, step_blocker, workflow_blocker,
    workflow_graph, first_blocking, SequentialFallbackReason,
};
use crate::actions::ActionBranch;
use crate::model::{
    ActionType, Literal, OnAction, OutputValue, Step, StepTarget, SuccessCriterion, ValueSource,
    Workflow,
};
use crate::step_refs::{
    action_conditions_read, actions_read, applicable, conditions_read, criteria_read, criterion_reads, declares_ref,
    embedded_ref, is_name, literal_refs, name_part, name_start, output_refs, part_refs, reads_step,
    refers_at, refs_in, routing_reads, target_refs, value_refs,
};
use crate::text::{first_of, first_of_is_least, occurs_in, stands_at};
use vstd::prelude::*;
use vstd::string::*;

verus! {

// ---------------------------------------------------------------------
// Mentions
// ---------------------------------------------------------------------

/// Whether a text is an id that expressions can name: a letter or an
/// underscore, then letters, digits, underscores and hyphens.
pub open spec fn plain_id(id: Seq<char>) -> bool {
    &&& id.len() > 0
    &&& ('a' <= id[0] && id[0] <= 'z') || ('A' <= id[0] && id[0] <= 'Z') || id[0] == '_'
    &&& forall|i: int|
        0 <= i < id.len() ==> ('a' <= #[trigger] id[i] && id[i] <= 'z') || ('A' <= id[i] && id[i]
            <= 'Z') || ('0' <= id[i] && id[i] <= '9') || id[i] == '_' || id[i] == '-'
}

/// What a reference to a step looks like.
pub open spec fn reference_to(id: Seq<char>) -> Seq<char> {
    "$steps."@ + id + "."@
}

/// Whether an expression mentions a step.
pub open spec fn mentions(expression: Seq<char>, id: Seq<char>) -> bool {
    plain_id(id) && occurs_in(expression, reference_to(id))
}

/// Whether an expression stands in braces from `a` to `e`.
pub open spec fn braced(text: Seq<char>, a: int, e: int) -> bool {
    &&& 0 <= a < e < text.len()
    &&& text[a] == '{' && text[a + 1] == '$' && text[e] == '}'
    &&& forall|j: int| a < j < e ==> text[j] != '}'
}

/// Whether a text of a value mentions a step: as an expression, or in an
/// expression in braces.
pub open spec fn text_mentions(text: Seq<char>, id: Seq<char>) -> bool {
    if text.len() > 0 && text[0] == '$' {
        mentions(text, id)
    } else {
        exists|a: int, e: int| #[trigger]
            braced(text, a, e) && mentions(text.subrange(a + 1, e), id)
    }
}

/// The part of a value that a path of positions leads to.
pub open spec fn part_at(v: ValueSource, path: Seq<int>) -> Option<ValueSource>
    decreases path.len(),
{
    if path.len() == 0 {
        Some(v)
    } else {
        match v {
            ValueSource::Literal(Literal::Sequence(items)) => if 0 <= path[0] < items@.len() {
                part_at(items@[path[0]], path.skip(1))
            } else {
                None
            },
            ValueSource::Literal(Literal::Mapping(members)) => if 0 <= path[0] < members@.len() {
                part_at(members@[path[0]].1, path.skip(1))
            } else {
                None
            },
            _ => None,
        }
    }
}

/// Whether a part of a value mentions a step itself: a text, or the context of
/// a selector.
pub open spec fn part_mentions(part: ValueSource, id: Seq<char>) -> bool {
    match part {
        ValueSource::Literal(Literal::Text(s)) => text_mentions(s@, id),
        ValueSource::Selector(s) => mentions(s.context@, id),
        _ => false,
    }
}

/// Whether a value mentions a step, at any depth.
pub open spec fn value_mentions(v: ValueSource, id: Seq<char>) -> bool {
    exists|path: Seq<int>|
        (#[trigger] part_at(v, path)) matches Some(part) && part_mentions(part, id)
}

proof fn mention_is_reference(text: Seq<char>, id: Seq<char>)
    ensures
        mentions(text, id) == refs_in(text).contains(id),
{
    reveal_strlit("$steps.");
    reveal_strlit(".");
    let r = reference_to(id);
    if mentions(text, id) {
        let at = choose|at: int| #[trigger] stands_at(text, at, r);
        let cut = text.subrange(at, at + r.len());
        assert(text.subrange(at, at + 7) =~= "$steps."@) by {
            assert forall|k: int| 0 <= k < 7 implies text[at + k] == "$steps."@[k] by {
                assert(cut[k] == r[k]);
            }
        }
        assert(text.subrange(at + 7, at + 7 + id.len()) =~= id) by {
            assert forall|k: int| 0 <= k < id.len() implies text[at + 7 + k] == id[k] by {
                assert(cut[7 + k] == r[7 + k]);
            }
        }
        assert(cut[7int + id.len()] == r[7int + id.len()]);
        assert(is_name(id)) by {
            assert(name_start(id[0]));
            assert forall|i: int| 0 <= i < id.len() implies name_part(#[trigger] id[i]) by {}
        }
        assert(refers_at(text, at, id));
    }
    if refs_in(text).contains(id) {
        let at = choose|at: int| #[trigger] refers_at(text, at, id);
        let cut = text.subrange(at, at + r.len());
        assert(cut =~= r) by {
            assert forall|k: int| 0 <= k < r.len() implies cut[k] == r[k] by {
                if k < 7 {
                    assert(text.subrange(at, at + 7)[k] == "$steps."@[k]);
                } else if k < 7 + id.len() {
                    assert(text.subrange(at + 7, at + 7 + id.len())[k - 7] == id[k - 7]);
                }
            }
        }
        assert(stands_at(text, at, r));
        assert forall|i: int| 0 <= i < id.len() implies ('a' <= #[trigger] id[i] && id[i] <= 'z')
            || ('A' <= id[i] && id[i] <= 'Z') || ('0' <= id[i] && id[i] <= '9') || id[i] == '_'
            || id[i] == '-' by {
            assert(name_part(id[i]));
        }
    }
}

proof fn text_mention_is_reference(text: Seq<char>, id: Seq<char>)
    ensures
        text_mentions(text, id) == literal_refs(text).contains(id),
{
    if text.len() > 0 && text[0] == '$' {
        mention_is_reference(text, id);
    } else {
        reveal_strlit("{$");
        if text_mentions(text, id) {
            let (a, e) = choose|a: int, e: int| #[trigger]
                braced(text, a, e) && mentions(text.subrange(a + 1, e), id);
            mention_is_reference(text.subrange(a + 1, e), id);
            first_of_is_least(text, a + 1, seq!['}']);
            let f = first_of(text, a + 1, seq!['}']);
            assert(seq!['}'][0] == '}');
            if f < e {
                assert(text[f] == '}');
            }
            if f > e {
                assert(!seq!['}'].contains(text[e]));
            }
            assert(text.subrange(a, a + 2) =~= "{$"@);
            assert(embedded_ref(text, a, id));
        }
        if literal_refs(text).contains(id) {
            let a = choose|a: int| #[trigger] embedded_ref(text, a, id);
            let e = first_of(text, a + 1, seq!['}']);
            first_of_is_least(text, a + 1, seq!['}']);
            assert(text.subrange(a, a + 2)[0] == "{$"@[0]);
            assert(text.subrange(a, a + 2)[1] == "{$"@[1]);
            assert forall|j: int| a < j < e implies text[j] != '}' by {
                assert(seq!['}'][0] == '}');
                assert(!seq!['}'].contains(text[j]));
            }
            if e == a + 1 {
                assert(text[a + 1] == '$');
                assert(seq!['}'].contains(text[e]));
            }
            assert(braced(text, a, e));
            mention_is_reference(text.subrange(a + 1, e), id);
        }
    }
}

proof fn part_refs_hold(v: ValueSource, n: nat, i: int, id: Seq<char>)
    requires
        0 <= i < n,
        match v {
            ValueSource::Literal(Literal::Sequence(items)) => n <= items@.len() && value_refs(
                items@[i],
            ).contains(id),
            ValueSource::Literal(Literal::Mapping(members)) => n <= members@.len() && value_refs(
                members@[i].1,
            ).contains(id),
            _ => false,
        },
    ensures
        part_refs(v, n).contains(id),
    decreases n,
{
    if i < n - 1 {
        part_refs_hold(v, (n - 1) as nat, i, id);
    }
}

proof fn part_refs_come_from(v: ValueSource, n: nat, id: Seq<char>) -> (i: int)
    requires
        part_refs(v, n).contains(id),
        match v {
            ValueSource::Literal(Literal::Sequence(items)) => n <= items@.len(),
            ValueSource::Literal(Literal::Mapping(members)) => n <= members@.len(),
            _ => false,
        },
    ensures
        0 <= i < n,
        match v {
            ValueSource::Literal(Literal::Sequence(items)) => value_refs(items@[i]).contains(id),
            ValueSource::Literal(Literal::Mapping(members)) => value_refs(
                members@[i].1,
            ).contains(id),
            _ => false,
        },
    decreases n,
{
    if part_refs(v, (n - 1) as nat).contains(id) {
        part_refs_come_from(v, (n - 1) as nat, id)
    } else {
        n - 1
    }
}

proof fn mention_inside_is_reference(v: ValueSource, path: Seq<int>, id: Seq<char>)
    requires
        part_at(v, path) matches Some(part) && part_mentions(part, id),
    ensures
        value_refs(v).contains(id),
    decreases path.len(),
{
    if path.len() == 0 {
        match v {
            ValueSource::Literal(Literal::Text(s)) => {
                text_mention_is_reference(s@, id);
            },
            ValueSource::Selector(s) => {
                mention_is_reference(s.context@, id);
            },
            _ => {},
        }
    } else {
        match v {
            ValueSource::Literal(Literal::Sequence(items)) => {
                mention_inside_is_reference(items@[path[0]], path.skip(1), id);
                part_refs_hold(v, items@.len(), path[0], id);
            },
            ValueSource::Literal(Literal::Mapping(members)) => {
                mention_inside_is_reference(members@[path[0]].1, path.skip(1), id);
                part_refs_hold(v, members@.len(), path[0], id);
            },
            _ => {},
        }
    }
}

proof fn reference_is_mention_inside(v: ValueSource, id: Seq<char>) -> (path: Seq<int>)
    requires
        value_refs(v).contains(id),
    ensures
        part_at(v, path) matches Some(part) && part_mentions(part, id),
    decreases v,
{
    match v {
        ValueSource::Literal(Literal::Text(s)) => {
            text_mention_is_reference(s@, id);
            Seq::empty()
        },
        ValueSource::Selector(s) => {
            mention_is_reference(s.context@, id);
            Seq::empty()
        },
        ValueSource::Literal(Literal::Sequence(items)) => {
            let i = part_refs_come_from(v, items@.len(), id);
            assert(decreases_to!(v => items));
            assert(decreases_to!(items => items@[i]));
            let rest = reference_is_mention_inside(items@[i], id);
            let path = seq![i] + rest;
            assert(path.skip(1) =~= rest);
            path
        },
        ValueSource::Literal(Literal::Mapping(members)) => {
            let i = part_refs_come_from(v, members@.len(), id);
            assert(decreases_to!(v => members));
            assert(decreases_to!(members => members@[i]));
            let rest = reference_is_mention_inside(members@[i].1, id);
            let path = seq![i] + rest;
            assert(path.skip(1) =~= rest);
            path
        },
        _ => Seq::empty(),
    }
}

proof fn value_mention_is_reference(v: ValueSource, id: Seq<char>)
    ensures
        value_mentions(v, id) == value_refs(v).contains(id),
{
    if value_mentions(v, id) {
        let path = choose|path: Seq<int>|
            (#[trigger] part_at(v, path)) matches Some(part) && part_mentions(part, id);
        mention_inside_is_reference(v, path, id);
    }
    if value_refs(v).contains(id) {
        let path = reference_is_mention_inside(v, id);
        assert(part_at(v, path) is Some);
    }
}

// ---------------------------------------------------------------------
// Places
// ---------------------------------------------------------------------

/// Whether criteria mention a step, in a condition or a context.
pub open spec fn criteria_mention(list: Seq<SuccessCriterion>, id: Seq<char>) -> bool {
    exists|i: int|
        0 <= i < list.len() && (mentions((#[trigger] list[i]).condition@, id) || mentions(
            list[i].context@,
            id,
        ))
}

/// Whether the criteria of actions mention a step.
pub open spec fn actions_mention(list: Seq<OnAction>, id: Seq<char>) -> bool {
    exists|i: int| 0 <= i < list.len() && criteria_mention((#[trigger] list[i]).criteria@, id)
}

/// Whether the request body of a step mentions a step, in its payload or in a
/// replacement.
pub open spec fn body_mentions(step: Step, id: Seq<char>) -> bool {
    step.request_body matches Some(body) && {
        ||| (body.payload matches Some(payload) && value_mentions(payload, id))
        ||| exists|i: int|
            0 <= i < body.replacements@.len() && value_mentions(
                (#[trigger] body.replacements@[i]).value,
                id,
            )
    }
}

/// Whether the target of a step mentions a step.
pub open spec fn target_mentions(step: Step, id: Seq<char>) -> bool {
    match step.target {
        Some(StepTarget::OperationPath(p)) => mentions(p@, id),
        Some(StepTarget::OperationId(p)) => mentions(p@, id),
        _ => false,
    }
}

/// Whether an output of a step mentions a step.
pub open spec fn outputs_mention(step: Step, id: Seq<char>) -> bool {
    exists|i: int|
        0 <= i < step.outputs.values().len() && match #[trigger] step.outputs.values()[i] {
            OutputValue::RuntimeExpression(e) => mentions(e@, id),
            OutputValue::Selector(s) => mentions(s.context@, id),
        }
}

/// Whether a step depends on a step by name.
pub open spec fn depends_by_name(step: Step, id: Seq<char>) -> bool {
    exists|i: int|
        0 <= i < step.depends_on@.len() && (#[trigger] step.depends_on@[i])@ == id && id.len() > 0
            && id[0] != '$'
}

/// Whether a step mentions a step in what it reads while it runs.
pub open spec fn step_mentions(step: Step, id: Seq<char>) -> bool {
    ||| depends_by_name(step, id)
    ||| target_mentions(step, id)
    ||| exists|i: int|
        0 <= i < step.parameters@.len() && value_mentions(
            (#[trigger] step.parameters@[i]).value,
            id,
        )
    ||| body_mentions(step, id)
    ||| criteria_mention(step.success_criteria@, id)
    ||| outputs_mention(step, id)
}

/// Whether the actions that a result is routed through mention another step.
pub open spec fn routing_mentions(w: Workflow, step: Step, id: Seq<char>) -> bool {
    let successes = if step.on_success@.len() > 0 {
        step.on_success@
    } else {
        w.success_actions@
    };
    let failures = if step.on_failure@.len() > 0 {
        step.on_failure@
    } else {
        w.failure_actions@
    };
    id != step.step_id@ && (actions_mention(successes, id) || actions_mention(failures, id))
}

proof fn criteria_mentions_are_references(list: Seq<SuccessCriterion>, id: Seq<char>)
    ensures
        criteria_mention(list, id) == criteria_read(list, id),
{
    assert forall|i: int| 0 <= i < list.len() implies criterion_reads(#[trigger] list[i], id) == (
    mentions(list[i].condition@, id) || mentions(list[i].context@, id)) by {
        mention_is_reference(list[i].condition@, id);
        mention_is_reference(list[i].context@, id);
    }
    if criteria_mention(list, id) {
        let i = choose|i: int|
            0 <= i < list.len() && (mentions((#[trigger] list[i]).condition@, id) || mentions(
                list[i].context@,
                id,
            ));
        assert(criterion_reads(list[i], id));
    }
    if criteria_read(list, id) {
        let i = choose|i: int| 0 <= i < list.len() && criterion_reads(#[trigger] list[i], id);
        assert(criterion_reads(list[i], id));
    }
}

proof fn action_mentions_are_references(list: Seq<OnAction>, id: Seq<char>)
    ensures
        actions_mention(list, id) == actions_read(list, id),
{
    assert forall|i: int| 0 <= i < list.len() implies criteria_mention(
        (#[trigger] list[i]).criteria@,
        id,
    ) == criteria_read(list[i].criteria@, id) by {
        criteria_mentions_are_references(list[i].criteria@, id);
    }
    if actions_mention(list, id) {
        let i = choose|i: int|
            0 <= i < list.len() && criteria_mention((#[trigger] list[i]).criteria@, id);
        assert(criteria_read(list[i].criteria@, id));
    }
    if actions_read(list, id) {
        let i = choose|i: int|
            0 <= i < list.len() && criteria_read((#[trigger] list[i]).criteria@, id);
        assert(criteria_mention(list[i].criteria@, id));
    }
}

/// A step reads a step while it runs exactly where one of its texts mentions
/// it.
pub proof fn mentions_are_what_a_step_reads(step: Step, id: Seq<char>)
    ensures
        reads_step(step, id) == step_mentions(step, id),
{
    match step.target {
        Some(StepTarget::OperationPath(p)) => {
            mention_is_reference(p@, id);
        },
        Some(StepTarget::OperationId(p)) => {
            mention_is_reference(p@, id);
        },
        _ => {},
    }
    assert(target_mentions(step, id) == target_refs(step.target).contains(id));
    assert forall|i: int| 0 <= i < step.parameters@.len() implies value_mentions(
        (#[trigger] step.parameters@[i]).value,
        id,
    ) == value_refs(step.parameters@[i].value).contains(id) by {
        value_mention_is_reference(step.parameters@[i].value, id);
    }
    if let Some(body) = step.request_body {
        if let Some(payload) = body.payload {
            value_mention_is_reference(payload, id);
        }
        assert forall|i: int| 0 <= i < body.replacements@.len() implies value_mentions(
            (#[trigger] body.replacements@[i]).value,
            id,
        ) == value_refs(body.replacements@[i].value).contains(id) by {
            value_mention_is_reference(body.replacements@[i].value, id);
        }
    }
    criteria_mentions_are_references(step.success_criteria@, id);
    assert forall|i: int| 0 <= i < step.outputs.values().len() implies (
    match #[trigger] step.outputs.values()[i] {
        OutputValue::RuntimeExpression(e) => mentions(e@, id),
        OutputValue::Selector(s) => mentions(s.context@, id),
    }) == output_refs(step.outputs.values()[i]).contains(id) by {
        match step.outputs.values()[i] {
            OutputValue::RuntimeExpression(e) => {
                mention_is_reference(e@, id);
            },
            OutputValue::Selector(s) => {
                mention_is_reference(s.context@, id);
            },
        }
    }
    assert(criteria_read(step.success_criteria@, id) == exists|i: int|
        0 <= i < step.success_criteria@.len() && criterion_reads(
            #[trigger] step.success_criteria@[i],
            id,
        ));
    assert(outputs_mention(step, id) == exists|i: int|
        0 <= i < step.outputs.values().len() && output_refs(
            #[trigger] step.outputs.values()[i],
        ).contains(id));
}

/// Routing reads another step exactly where a criterion of the actions that
/// apply mentions it.
pub proof fn mentions_are_what_routing_reads(w: Workflow, step: Step, id: Seq<char>)
    ensures
        routing_reads(w, step, id) == routing_mentions(w, step, id),
{
    action_mentions_are_references(applicable(step.on_success@, w.success_actions@), id);
    action_mentions_are_references(applicable(step.on_failure@, w.failure_actions@), id);
}

// ---------------------------------------------------------------------
// Levels
// ---------------------------------------------------------------------

/// Whether level `k` holds step `i`.
pub open spec fn stands_in(levels: Seq<Vec<usize>>, k: int, i: int) -> bool {
    0 <= k < levels.len() && exists|p: int| 0 <= p < levels[k]@.len() && levels[k]@[p] == i
}

proof fn standing_is_in_level(levels: Seq<Vec<usize>>, k: int, i: int)
    requires
        stands_in(levels, k, i),
    ensures
        in_level(levels, k, i),
{
    let p = choose|p: int| 0 <= p < levels[k]@.len() && levels[k]@[p] == i;
    assert(levels[k]@[p] == i as usize);
    assert(levels[k]@.contains(i as usize));
}

/// A step stands behind every step that it mentions: where the texts of step
/// `i`, or the criteria that its result is routed by, mention the id of step
/// `j`, every level that holds `i` comes after every level that holds `j`. So
/// where two steps mention each other there are no levels.
pub proof fn a_step_waits_for_what_it_mentions(
    w: Workflow,
    levels: Seq<Vec<usize>>,
    i: int,
    j: int,
    k: int,
    l: int,
)
    requires
        levels_ok(workflow_graph(w), levels),
        0 <= i < w.steps@.len(),
        0 <= j < w.steps@.len(),
        forall|m: int| j < m < w.steps@.len() ==> (#[trigger] w.steps@[m]).step_id@
            != w.steps@[j].step_id@,
        step_mentions(w.steps@[i], w.steps@[j].step_id@) || routing_mentions(
            w,
            w.steps@[i],
            w.steps@[j].step_id@,
        ),
        stands_in(levels, k, i),
        stands_in(levels, l, j),
    ensures
        l < k,
{
    let id = w.steps@[j].step_id@;
    mentions_are_what_a_step_reads(w.steps@[i], id);
    mentions_are_what_routing_reads(w, w.steps@[i], id);
    assert(is_step_named(w.steps@, id, j));
    assert(level_needs(w, i, j));
    assert(edge(workflow_graph(w), i, j));
    standing_is_in_level(levels, k, i);
    standing_is_in_level(levels, l, j);
    assert(level_ok(workflow_graph(w), levels, k));
    assert(placed_before(levels, k, j));
    let m = choose|m: int| m < k && #[trigger] in_level(levels, m, j);
    if l >= k {
        assert(level_ok(workflow_graph(w), levels, l));
        assert(placed_before(levels, l, j));
    }
}

/// A step whose texts mention no other step, nor the criteria that its result
/// is routed by, runs with the first.
pub proof fn an_independent_step_comes_first(
    w: Workflow,
    levels: Seq<Vec<usize>>,
    i: int,
    k: int,
)
    requires
        levels_ok(workflow_graph(w), levels),
        0 <= i < w.steps@.len(),
        forall|j: int|
            0 <= j < w.steps@.len() ==> !step_mentions(
                w.steps@[i],
                (#[trigger] w.steps@[j]).step_id@,
            ) && !routing_mentions(w, w.steps@[i], w.steps@[j].step_id@),
        stands_in(levels, k, i),
    ensures
        k == 0,
{
    standing_is_in_level(levels, k, i);
    assert(level_ok(workflow_graph(w), levels, k));
    if k > 0 {
        let j = choose|j: int| edge(workflow_graph(w), i, j) && #[trigger] in_level(
            levels,
            k - 1,
            j,
        );
        assert(level_needs(w, i, j));
        let id = w.steps@[j].step_id@;
        mentions_are_what_a_step_reads(w.steps@[i], id);
        mentions_are_what_routing_reads(w, w.steps@[i], id);
    }
}

/// A step runs right behind what it mentions: a step in any level but the
/// first mentions a step of the level before.
pub proof fn a_step_waits_for_nothing_else(w: Workflow, levels: Seq<Vec<usize>>, i: int, k: int)
    requires
        levels_ok(workflow_graph(w), levels),
        stands_in(levels, k, i),
        k > 0,
    ensures
        exists|j: int|
            0 <= j < w.steps@.len() && #[trigger] stands_in(levels, k - 1, j) && (step_mentions(
                w.steps@[i],
                w.steps@[j].step_id@,
            ) || routing_mentions(w, w.steps@[i], w.steps@[j].step_id@)),
{
    standing_is_in_level(levels, k, i);
    assert(level_ok(workflow_graph(w), levels, k));
    let j = choose|j: int| edge(workflow_graph(w), i, j) && #[trigger] in_level(levels, k - 1, j);
    assert(level_needs(w, i, j));
    let id = w.steps@[j].step_id@;
    mentions_are_what_a_step_reads(w.steps@[i], id);
    mentions_are_what_routing_reads(w, w.steps@[i], id);
    let p = levels[k - 1]@.index_of(j as usize);
    assert(levels[k - 1]@[p] == j);
    assert(stands_in(levels, k - 1, j));
}

/// Every step stands in exactly one level.
pub proof fn every_step_stands_in_one_level(w: Workflow, levels: Seq<Vec<usize>>, i: int)
    requires
        levels_ok(workflow_graph(w), levels),
        0 <= i < w.steps@.len(),
    ensures
        exists|k: int| #[trigger] stands_in(levels, k, i),
        forall|k: int, l: int| #[trigger]
            stands_in(levels, k, i) && #[trigger] stands_in(levels, l, i) ==> k == l,
{
    assert(placed_before(levels, levels.len() as int, i));
    let k = choose|k: int| k < levels.len() && #[trigger] in_level(levels, k, i);
    let p = levels[k]@.index_of(i as usize);
    assert(levels[k]@[p] == i);
    assert(stands_in(levels, k, i));
    assert forall|k: int, l: int| #[trigger]
        stands_in(levels, k, i) && #[trigger] stands_in(levels, l, i) implies k == l by {
        standing_is_in_level(levels, k, i);
        standing_is_in_level(levels, l, i);
        assert(level_ok(workflow_graph(w), levels, k));
        assert(level_ok(workflow_graph(w), levels, l));
        if k < l {
            assert(placed_before(levels, l, i));
        }
        if l < k {
            assert(placed_before(levels, k, i));
        }
    }
}

// ---------------------------------------------------------------------
// What a step needs
// ---------------------------------------------------------------------

/// A step needs every step that its texts mention, and whatever those need in
/// turn.
pub proof fn a_step_needs_what_it_mentions(
    w: Workflow,
    target: int,
    s: Set<usize>,
    i: int,
    j: int,
)
    requires
        needed_by(w, target, s),
        i == target || s.contains(i as usize),
        0 <= i < w.steps@.len() <= usize::MAX,
        0 <= j < w.steps@.len(),
        j != target,
        forall|m: int| j < m < w.steps@.len() ==> (#[trigger] w.steps@[m]).step_id@
            != w.steps@[j].step_id@,
        step_mentions(w.steps@[i], w.steps@[j].step_id@),
    ensures
        s.contains(j as usize),
{
    let id = w.steps@[j].step_id@;
    mentions_are_what_a_step_reads(w.steps@[i], id);
    assert(is_step_named(w.steps@, id, j));
    assert(declares_ref(w.steps@[i], id));
    assert(refers_to(w, i, j));
}

/// A step that mentions no other step needs none.
pub proof fn an_independent_step_needs_nothing(w: Workflow, target: int, s: Set<usize>)
    requires
        needed_by(w, target, s),
        0 <= target < w.steps@.len(),
        w.steps@[target].on_success@.len() == 0,
        w.steps@[target].on_failure@.len() == 0,
        forall|j: int|
            0 <= j < w.steps@.len() ==> !step_mentions(
                w.steps@[target],
                (#[trigger] w.steps@[j]).step_id@,
            ),
    ensures
        s == Set::<usize>::empty(),
{
    let none = Set::<usize>::empty();
    assert(closed_under_refs(w, target, none)) by {
        assert forall|i: int, j: int|
            #![trigger refers_to(w, i, j)]
            refers_to(w, i, j) && (i == target || none.contains(i as usize)) && j
                != target implies none.contains(j as usize) by {
            let id = w.steps@[j].step_id@;
            mentions_are_what_a_step_reads(w.steps@[target], id);
            assert(!action_conditions_read(w.steps@[target].on_success@, id));
            assert(!action_conditions_read(w.steps@[target].on_failure@, id));
        }
    }
    assert(s.subset_of(none));
    assert(s =~= none);
}

// ---------------------------------------------------------------------
// What keeps a workflow out of levels
// ---------------------------------------------------------------------

/// Whether an action only runs its own step again.
pub open spec fn only_retries(action: OnAction) -> bool {
    action.type_ == ActionType::Retry && action.step_id@ == Seq::<char>::empty()
        && action.workflow_id@ == Seq::<char>::empty()
}

/// Whether a step leaves the order of the others alone.
pub open spec fn keeps_order(step: Step) -> bool {
    &&& !(step.target matches Some(StepTarget::WorkflowId(_)))
    &&& step.on_success@.len() == 0
    &&& forall|i: int| 0 <= i < step.on_failure@.len() ==> only_retries(#[trigger] step.on_failure@[i])
}

proof fn failures_block(list: Seq<OnAction>, from: int)
    requires
        0 <= from <= list.len(),
    ensures
        from <= first_blocking(list, ActionBranch::Failure, from) <= list.len(),
        (first_blocking(list, ActionBranch::Failure, from) == list.len()) == (forall|i: int|
            from <= i < list.len() ==> only_retries(#[trigger] list[i])),
    decreases list.len() - from,
{
    assert forall|i: int| 0 <= i < list.len() implies plain_retry(#[trigger] list[i])
        == only_retries(list[i]) by {
        if plain_retry(list[i]) {
            assert(list[i].step_id@ =~= Seq::<char>::empty());
            assert(list[i].workflow_id@ =~= Seq::<char>::empty());
        }
    }
    if from < list.len() {
        failures_block(list, from + 1);
        if plain_retry(list[from]) {
            assert((forall|i: int| from <= i < list.len() ==> only_retries(#[trigger] list[i])) == (
            forall|i: int| from + 1 <= i < list.len() ==> only_retries(#[trigger] list[i]))) by {
                if forall|i: int| from + 1 <= i < list.len() ==> only_retries(#[trigger] list[i]) {
                    assert forall|i: int| from <= i < list.len() implies only_retries(
                        #[trigger] list[i],
                    ) by {
                        if i > from {
                            assert(from + 1 <= i);
                        }
                    }
                }
            }
        } else {
            assert(!only_retries(list[from]));
        }
    }
}

proof fn step_blocks(step: Step)
    ensures
        step_blocker(step) is None == keeps_order(step),
{
    failures_block(step.on_failure@, 0);
}

proof fn steps_block(steps: Seq<Step>, from: int)
    requires
        0 <= from <= steps.len(),
    ensures
        steps_blocker(steps, from) is None == (forall|i: int|
            from <= i < steps.len() ==> keeps_order(#[trigger] steps[i])),
    decreases steps.len() - from,
{
    if from < steps.len() {
        step_blocks(steps[from]);
        steps_block(steps, from + 1);
        if keeps_order(steps[from]) {
            if forall|i: int| from + 1 <= i < steps.len() ==> keeps_order(#[trigger] steps[i]) {
                assert forall|i: int| from <= i < steps.len() implies keeps_order(
                    #[trigger] steps[i],
                ) by {
                    if i > from {
                        assert(from + 1 <= i);
                    }
                }
            }
        }
    }
}

/// A workflow runs in levels exactly where nothing in it redirects control
/// flow: no step calls a workflow, there are no success actions, and failure
/// actions only retry their own step.
pub proof fn levels_are_for_workflows_without_jumps(w: Workflow)
    ensures
        workflow_blocker(w) is None == {
            &&& forall|i: int| 0 <= i < w.steps@.len() ==> keeps_order(#[trigger] w.steps@[i])
            &&& w.success_actions@.len() == 0
            &&& forall|i: int|
                0 <= i < w.failure_actions@.len() ==> only_retries(
                    #[trigger] w.failure_actions@[i],
                )
        },
{
    steps_block(w.steps@, 0);
    failures_block(w.failure_actions@, 0);
}

/// What keeps a workflow out of levels is reported of the first step that does
/// so: a call of a workflow before its actions.
pub proof fn the_first_jump_is_reported(w: Workflow, i: int, from: int)
    requires
        0 <= from <= i < w.steps@.len(),
        forall|j: int| from <= j < i ==> keeps_order(#[trigger] w.steps@[j]),
        !keeps_order(w.steps@[i]),
    ensures
        steps_blocker(w.steps@, from) matches Some(b) && {
            &&& b.step_id == w.steps@[i].step_id@
            &&& (w.steps@[i].target matches Some(StepTarget::WorkflowId(_))) ==> b.reason
                == SequentialFallbackReason::SubWorkflowStep
            &&& b.reason == SequentialFallbackReason::SubWorkflowStep
                ==> (w.steps@[i].target matches Some(StepTarget::WorkflowId(_)))
        },
        from == 0 ==> workflow_blocker(w) == steps_blocker(w.steps@, 0),
    decreases i - from,
{
    step_blocks(w.steps@[from]);
    if from < i {
        assert(keeps_order(w.steps@[from]));
        the_first_jump_is_reported(w, i, from + 1);
    } else {
        failures_block(w.steps@[i].on_failure@, 0);
    }
}

/// Every level holds some steps, in the order of the workflow.
pub proof fn levels_are_in_order(w: Workflow, levels: Seq<Vec<usize>>, k: int, a: int, b: int)
    requires
        levels_ok(workflow_graph(w), levels),
        0 <= k < levels.len(),
    ensures
        levels[k]@.len() > 0,
        0 <= a < levels[k]@.len() ==> levels[k]@[a] < w.steps@.len(),
        0 <= a < b < levels[k]@.len() ==> levels[k]@[a] < levels[k]@[b],
{
    assert(level_ok(workflow_graph(w), levels, k));
    if 0 <= a < levels[k]@.len() {
        assert(levels[k]@.contains(levels[k]@[a]));
        assert(in_level(levels, k, levels[k]@[a] as int));
    }
}

/// Where a workflow has no levels, some of its steps wait for each other: each
/// of them mentions one of them.
pub proof fn steps_that_wait_mention_each_other(w: Workflow, s: Set<int>, i: int)
    requires
        stuck(workflow_graph(w), s),
        s.contains(i),
    ensures
        0 <= i < w.steps@.len(),
        exists|j: int| #[trigger]
            s.contains(j) && (step_mentions(w.steps@[i], w.steps@[j].step_id@) || routing_mentions(
                w,
                w.steps@[i],
                w.steps@[j].step_id@,
            )),
{
    let j = choose|j: int| #[trigger] s.contains(j) && edge(workflow_graph(w), i, j);
    assert(s.contains(j) && edge(workflow_graph(w), i, j));
    assert(level_needs(w, i, j));
    mentions_are_what_a_step_reads(w.steps@[i], w.steps@[j].step_id@);
    mentions_are_what_routing_reads(w, w.steps@[i], w.steps@[j].step_id@);
}

/// Whether the conditions of a step's own actions mention a step.
pub open spec fn own_conditions_mention(list: Seq<OnAction>, id: Seq<char>) -> bool {
    exists|i: int, k: int|
        0 <= i < list.len() && 0 <= k < list[i].criteria@.len() && mentions(
            (#[trigger] list[i].criteria@[k]).condition@,
            id,
        )
}

proof fn conditions_are_references(list: Seq<OnAction>, id: Seq<char>)
    ensures
        action_conditions_read(list, id) == own_conditions_mention(list, id),
{
    if action_conditions_read(list, id) {
        let i = choose|i: int|
            0 <= i < list.len() && conditions_read((#[trigger] list[i]).criteria@, id);
        let k = choose|k: int|
            0 <= k < list[i].criteria@.len() && refs_in(
                (#[trigger] list[i].criteria@[k]).condition@,
            ).contains(id);
        mention_is_reference(list[i].criteria@[k].condition@, id);
        assert(mentions(list[i].criteria@[k].condition@, id));
    }
    if own_conditions_mention(list, id) {
        let (i, k) = choose|i: int, k: int|
            0 <= i < list.len() && 0 <= k < list[i].criteria@.len() && mentions(
                (#[trigger] list[i].criteria@[k]).condition@,
                id,
            );
        mention_is_reference(list[i].criteria@[k].condition@, id);
        assert(refs_in(list[i].criteria@[k].condition@).contains(id));
        assert(conditions_read(list[i].criteria@, id));
    }
}

/// A step needs no step that neither it nor one it needs mentions.
pub proof fn a_step_needs_nothing_unmentioned(w: Workflow, target: int, s: Set<usize>, j: usize)
    requires
        needed_by(w, target, s),
        s.contains(j),
        w.steps@.len() <= usize::MAX,
    ensures
        j < w.steps@.len(),
        j != target,
        exists|i: int|
            0 <= i < w.steps@.len() && (i == target || s.contains(i as usize)) && {
                let id = w.steps@[j as int].step_id@;
                ||| step_mentions(#[trigger] w.steps@[i], id)
                ||| own_conditions_mention(w.steps@[i].on_success@, id)
                ||| own_conditions_mention(w.steps@[i].on_failure@, id)
            },
{
    let less = s.remove(j);
    let id = w.steps@[j as int].step_id@;
    if !(exists|i: int|
        0 <= i < w.steps@.len() && (i == target || s.contains(i as usize)) && {
            ||| step_mentions(#[trigger] w.steps@[i], id)
            ||| own_conditions_mention(w.steps@[i].on_success@, id)
            ||| own_conditions_mention(w.steps@[i].on_failure@, id)
        }) {
        assert(closed_under_refs(w, target, less)) by {
            assert forall|i: int, k: int|
                #![trigger refers_to(w, i, k)]
                refers_to(w, i, k) && (i == target || less.contains(i as usize)) && k
                    != target implies less.contains(k as usize) by {
                assert(s.contains(k as usize));
                if k as usize == j {
                    mentions_are_what_a_step_reads(w.steps@[i], id);
                    conditions_are_references(w.steps@[i].on_success@, id);
                    conditions_are_references(w.steps@[i].on_failure@, id);
                    let b = step_mentions(w.steps@[i], id);
                }
            }
        }
        assert(s.subset_of(less));
    }
}

} // verus!
