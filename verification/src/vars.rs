//! What a workflow knows while it runs: its inputs, the outputs of its steps,
//! and the workflows that it has called.

use crate::exchange::opt_json;
use crate::json::{view_by_variant, Json, JsonView};
use crate::outcome::Response;
use crate::text_map::{entries_are_pairs, TextMap};
use crate::trace::{copy_json_map, json_map_view, keys_are_distinct, same_entries};
use crate::xpath::utf8_text;
use vstd::prelude::*;
use vstd::string::*;
use vstd::utf8::{decode_utf8, encode_utf8_decode_utf8, encode_utf8_valid_utf8, valid_utf8};

verus! {

/// The inputs and the outputs of a workflow that was called.
#[derive(Debug, PartialEq)]
pub struct WorkflowState {
    pub inputs: TextMap<Json>,
    pub outputs: TextMap<Json>,
}

/// The content of a workflow's state.
#[verifier::ext_equal]
pub struct StateView {
    pub inputs: Map<Seq<char>, JsonView>,
    pub outputs: Map<Seq<char>, JsonView>,
}

impl View for WorkflowState {
    type V = StateView;

    open spec fn view(&self) -> StateView {
        StateView { inputs: json_map_view(self.inputs), outputs: json_map_view(self.outputs) }
    }
}

/// What a workflow knows while it runs.
#[derive(Debug, PartialEq)]
pub struct VarStore {
    pub inputs: TextMap<Json>,
    pub steps: TextMap<TextMap<Json>>,
    pub workflow_states: TextMap<WorkflowState>,
}

/// The content of what a workflow knows.
#[verifier::ext_equal]
pub struct VarsView {
    pub inputs: Map<Seq<char>, JsonView>,
    pub steps: Map<Seq<char>, Map<Seq<char>, JsonView>>,
    pub workflows: Map<Seq<char>, StateView>,
}

/// The content of the outputs of steps.
pub open spec fn step_map_view(m: TextMap<TextMap<Json>>) -> Map<
    Seq<char>,
    Map<Seq<char>, JsonView>,
> {
    m@.map_values(|o: TextMap<Json>| json_map_view(o))
}

/// A copy of the outputs of steps.
pub fn copy_step_map(m: &TextMap<TextMap<Json>>) -> (r: TextMap<TextMap<Json>>)
    ensures
        step_map_view(r) == step_map_view(*m),
{
    let count = m.len();
    let mut out: TextMap<TextMap<Json>> = TextMap::new();
    let mut i: usize = 0;
    while i < count
        invariant
            i <= count,
            count == m.keys().len(),
            m.wf(),
            forall|k: Seq<char>|
                #![trigger out@.contains_key(k)]
                out@.contains_key(k) == (exists|j: int| 0 <= j < i && #[trigger] m.keys()[j] == k),
            forall|j: int|
                0 <= j < i ==> out@.contains_key(#[trigger] m.keys()[j]) && json_map_view(
                    out@[m.keys()[j]],
                ) == json_map_view(m.values()[j]),
        decreases count - i,
    {
        let key = m.key_at(i).clone();
        let value = copy_json_map(m.value_at(i));
        proof {
            keys_are_distinct(*m);
        }
        let ghost before = out@;
        out.insert(key, value);
        assert forall|k: Seq<char>| #![trigger out@.contains_key(k)]
            out@.contains_key(k) == (exists|j: int|
                0 <= j < i + 1 && #[trigger] m.keys()[j] == k) by {
            assert(before.contains_key(k) == (exists|j: int|
                0 <= j < i && #[trigger] m.keys()[j] == k));
            assert(m.keys()[i as int] == key@);
        }
        i = i + 1;
    }
    proof {
        same_entries(*m, out@);
        assert(step_map_view(out) =~= step_map_view(*m)) by {
            assert forall|k: Seq<char>| #[trigger] m@.contains_key(k) implies json_map_view(
                    out@[k],
                ) == json_map_view(m@[k]) by {
                let j = m.keys().index_of(k);
                assert(m.keys()[j] == k);
                entries_are_pairs(*m, j);
            }
        }
    }
    out
}

/// The content of the states of workflows.
pub open spec fn state_map_view(m: TextMap<WorkflowState>) -> Map<Seq<char>, StateView> {
    m@.map_values(|s: WorkflowState| s@)
}

impl WorkflowState {
    /// A copy of a state.
    pub fn copy(&self) -> (r: WorkflowState)
        ensures
            r@ == self@,
    {
        WorkflowState { inputs: copy_json_map(&self.inputs), outputs: copy_json_map(&self.outputs) }
    }
}

/// A copy of the states of workflows.
pub fn copy_states(m: &TextMap<WorkflowState>) -> (r: TextMap<WorkflowState>)
    ensures
        state_map_view(r) == state_map_view(*m),
{
    let count = m.len();
    let mut out: TextMap<WorkflowState> = TextMap::new();
    let mut i: usize = 0;
    while i < count
        invariant
            i <= count,
            count == m.keys().len(),
            m.wf(),
            forall|k: Seq<char>|
                #![trigger out@.contains_key(k)]
                out@.contains_key(k) == (exists|j: int| 0 <= j < i && #[trigger] m.keys()[j] == k),
            forall|j: int|
                0 <= j < i ==> out@.contains_key(#[trigger] m.keys()[j]) && out@[m.keys()[j]]@ == m.values()[j]@,
        decreases count - i,
    {
        let key = m.key_at(i).clone();
        let value = m.value_at(i).copy();
        proof {
            keys_are_distinct(*m);
        }
        let ghost before = out@;
        out.insert(key, value);
        assert forall|k: Seq<char>| #![trigger out@.contains_key(k)]
            out@.contains_key(k) == (exists|j: int|
                0 <= j < i + 1 && #[trigger] m.keys()[j] == k) by {
            assert(before.contains_key(k) == (exists|j: int|
                0 <= j < i && #[trigger] m.keys()[j] == k));
            assert(m.keys()[i as int] == key@);
        }
        i = i + 1;
    }
    proof {
        same_entries(*m, out@);
        assert(state_map_view(out) =~= state_map_view(*m)) by {
            assert forall|k: Seq<char>| #[trigger] m@.contains_key(k) implies out@[k]@ == m@[k]@ by {
                let j = m.keys().index_of(k);
                assert(m.keys()[j] == k);
                entries_are_pairs(*m, j);
            }
        }
    }
    out
}

impl View for VarStore {
    type V = VarsView;

    open spec fn view(&self) -> VarsView {
        VarsView {
            inputs: json_map_view(self.inputs),
            steps: step_map_view(self.steps),
            workflows: state_map_view(self.workflow_states),
        }
    }
}

/// The outputs of a step; none where it has not run.
pub open spec fn outputs_of(v: VarsView, step_id: Seq<char>) -> Map<Seq<char>, JsonView> {
    if v.steps.contains_key(step_id) {
        v.steps[step_id]
    } else {
        Map::empty()
    }
}

/// What is known with one more output of a step.
pub open spec fn with_output(
    v: VarsView,
    step_id: Seq<char>,
    name: Seq<char>,
    value: JsonView,
) -> VarsView {
    VarsView { steps: v.steps.insert(step_id, outputs_of(v, step_id).insert(name, value)), ..v }
}

/// What is known with the first `n` of some outputs of a step.
pub open spec fn with_outputs(
    v: VarsView,
    step_id: Seq<char>,
    outputs: TextMap<Json>,
    n: nat,
) -> VarsView
    decreases n,
{
    if n == 0 {
        v
    } else {
        with_output(
            with_outputs(v, step_id, outputs, (n - 1) as nat),
            step_id,
            outputs.keys()[n - 1],
            outputs.values()[n - 1]@,
        )
    }
}

impl Default for VarStore {
    fn default() -> (r: VarStore)
        ensures
            r@ == (VarsView {
                inputs: Map::empty(),
                steps: Map::empty(),
                workflows: Map::empty(),
            }),
    {
        let r = VarStore {
            inputs: TextMap::new(),
            steps: TextMap::new(),
            workflow_states: TextMap::new(),
        };
        assert(r@ =~= (VarsView {
            inputs: Map::empty(),
            steps: Map::empty(),
            workflows: Map::empty(),
        }));
        r
    }
}

impl VarStore {
    /// A copy of what is known.
    pub fn copy(&self) -> (r: VarStore)
        ensures
            r@ == self@,
    {
        VarStore {
            inputs: copy_json_map(&self.inputs),
            steps: copy_step_map(&self.steps),
            workflow_states: copy_states(&self.workflow_states),
        }
    }

    /// Sets an input.
    pub fn set_input(&mut self, name: &str, value: Json)
        ensures
            final(self)@ == (VarsView {
                inputs: old(self)@.inputs.insert(name@, value@),
                ..old(self)@
            }),
    {
        let ghost before = self@;
        let ghost v = value@;
        self.inputs.insert(name.to_owned(), value);
        assert(json_map_view(self.inputs) =~= before.inputs.insert(name@, v));
    }

    /// The outputs of a step.
    pub fn step_outputs(&self, step_id: &str) -> (r: TextMap<Json>)
        ensures
            json_map_view(r) == outputs_of(self@, step_id@),
    {
        match self.steps.get(step_id) {
            Some(m) => copy_json_map(m),
            None => {
                let m: TextMap<Json> = TextMap::new();
                assert(json_map_view(m) =~= Map::<Seq<char>, JsonView>::empty());
                m
            },
        }
    }

    /// Sets an output of a step; its other outputs stay.
    pub fn set_step_output(&mut self, step_id: &str, name: &str, value: Json)
        ensures
            final(self)@ == with_output(old(self)@, step_id@, name@, value@),
    {
        let ghost before = self@;
        let ghost v = value@;
        let mut outputs = self.step_outputs(step_id);
        let ghost known = json_map_view(outputs);
        outputs.insert(name.to_owned(), value);
        assert(json_map_view(outputs) =~= known.insert(name@, v));
        let ghost now = json_map_view(outputs);
        self.steps.insert(step_id.to_owned(), outputs);
        assert(step_map_view(self.steps) =~= before.steps.insert(step_id@, now));
        assert(self@ =~= with_output(before, step_id@, name@, v));
    }

    /// Sets outputs of a step; its other outputs stay.
    pub fn set_step_outputs(&mut self, step_id: &str, outputs: &TextMap<Json>)
        ensures
            final(self)@ == with_outputs(old(self)@, step_id@, *outputs, outputs.keys().len()),
    {
        let ghost start = self@;
        let count = outputs.len();
        let mut i: usize = 0;
        while i < count
            invariant
                i <= count,
                count == outputs.keys().len(),
                outputs.wf(),
                self@ == with_outputs(start, step_id@, *outputs, i as nat),
            decreases count - i,
        {
            let value = outputs.value_at(i).copy();
            self.set_step_output(step_id, outputs.key_at(i).as_str(), value);
            i = i + 1;
        }
    }

    /// Remembers a workflow that was called.
    pub fn register_workflow_state(
        &mut self,
        workflow_id: &str,
        inputs: TextMap<Json>,
        outputs: TextMap<Json>,
    )
        ensures
            final(self)@ == (VarsView {
                workflows: old(self)@.workflows.insert(
                    workflow_id@,
                    StateView { inputs: json_map_view(inputs), outputs: json_map_view(outputs) },
                ),
                ..old(self)@
            }),
    {
        let ghost before = self@;
        let state = WorkflowState { inputs, outputs };
        let ghost s = state@;
        self.workflow_states.insert(workflow_id.to_owned(), state);
        assert(self@.workflows =~= before.workflows.insert(workflow_id@, s));
    }
}

/// The body of a response as expressions see it: its JSON, else its text where
/// it is UTF-8.
pub open spec fn body_value(r: Response) -> Option<JsonView> {
    match r.body_json {
        Some(j) => Some(j@),
        None => if valid_utf8(r.body@) {
            Some(JsonView::Text(decode_utf8(r.body@)))
        } else {
            None
        },
    }
}

/// The body of a response as expressions see it.
pub fn response_body_value(response: &Response) -> (r: Option<Json>)
    ensures
        opt_json(r) == body_value(*response),
{
    broadcast use view_by_variant;

    match &response.body_json {
        Some(j) => Some(j.copy()),
        None => match utf8_text(response.body.as_slice()) {
            Ok(text) => {
                proof {
                    encode_utf8_valid_utf8(text@);
                    encode_utf8_decode_utf8(text@);
                }
                Some(Json::Text(text))
            },
            Err(_) => None,
        },
    }
}

/// Setting an output of one step leaves the outputs of the others, and the
/// other outputs of that step.
pub proof fn outputs_are_apart(
    v: VarsView,
    step_id: Seq<char>,
    name: Seq<char>,
    value: JsonView,
    other_step: Seq<char>,
    other_name: Seq<char>,
)
    ensures
        outputs_of(with_output(v, step_id, name, value), step_id)[name] == value,
        other_step != step_id ==> outputs_of(with_output(v, step_id, name, value), other_step)
            == outputs_of(v, other_step),
        other_name != name && outputs_of(v, step_id).contains_key(other_name) ==> outputs_of(
            with_output(v, step_id, name, value),
            step_id,
        )[other_name] == outputs_of(v, step_id)[other_name],
        with_output(v, step_id, name, value).inputs == v.inputs,
        with_output(v, step_id, name, value).workflows == v.workflows,
{
}

} // verus!
