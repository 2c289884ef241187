//! What an execution reports of itself: requests, responses, decisions and
//! events.

use crate::error::RuntimeError;
use crate::json::{Json, JsonView};
use crate::levels::SequentialFallback;
use crate::model::{RetryAfter, Step, StepTarget};
use crate::text_map::TextMap;
use crate::transport::TransportWarning;
use vstd::prelude::*;

verus! {

/// What kind of body a response has.
#[derive(Debug, PartialEq, Eq)]
pub enum ContentType {
    Json,
    Xml,
    Other(String),
}

/// The content of a content type.
#[verifier::ext_equal]
pub enum ContentTypeView {
    Json,
    Xml,
    Other(Seq<char>),
}

impl View for ContentType {
    type V = ContentTypeView;

    open spec fn view(&self) -> ContentTypeView {
        match *self {
            ContentType::Json => ContentTypeView::Json,
            ContentType::Xml => ContentTypeView::Xml,
            ContentType::Other(s) => ContentTypeView::Other(s@),
        }
    }
}

/// The text of a content type.
pub open spec fn content_type_text(c: ContentTypeView) -> Seq<char> {
    match c {
        ContentTypeView::Json => "json"@,
        ContentTypeView::Xml => "xml"@,
        ContentTypeView::Other(s) => s,
    }
}

impl ContentType {
    /// The text of the content type.
    pub fn text(&self) -> (r: String)
        ensures
            r@ == content_type_text(self@),
    {
        match self {
            ContentType::Json => "json".to_owned(),
            ContentType::Xml => "xml".to_owned(),
            ContentType::Other(s) => s.clone(),
        }
    }

    /// The same content type.
    pub fn copy(&self) -> (r: ContentType)
        ensures
            r@ == self@,
    {
        match self {
            ContentType::Json => ContentType::Json,
            ContentType::Xml => ContentType::Xml,
            ContentType::Other(s) => ContentType::Other(s.clone()),
        }
    }
}

/// One redirect that was followed.
#[derive(Debug, PartialEq)]
pub struct TraceRedirectHop {
    pub status_code: i64,
    pub from: String,
    pub to: String,
}

/// The content of a redirect hop.
#[verifier::ext_equal]
pub struct HopView {
    pub status_code: i64,
    pub from: Seq<char>,
    pub to: Seq<char>,
}

impl View for TraceRedirectHop {
    type V = HopView;

    open spec fn view(&self) -> HopView {
        HopView { status_code: self.status_code, from: self.from@, to: self.to@ }
    }
}

/// The contents of a list of hops.
pub open spec fn hop_views(hops: Seq<TraceRedirectHop>) -> Seq<HopView> {
    hops.map_values(|h: TraceRedirectHop| h@)
}

/// The same hops.
pub fn copy_hops(hops: &Vec<TraceRedirectHop>) -> (r: Vec<TraceRedirectHop>)
    ensures
        hop_views(r@) == hop_views(hops@),
{
    let mut out: Vec<TraceRedirectHop> = Vec::new();
    let mut i: usize = 0;
    while i < hops.len()
        invariant
            i <= hops@.len(),
            out@.len() == i,
            forall|j: int| 0 <= j < i ==> (#[trigger] out@[j])@ == hops@[j]@,
        decreases hops@.len() - i,
    {
        let h = TraceRedirectHop {
            status_code: hops[i].status_code,
            from: hops[i].from.clone(),
            to: hops[i].to.clone(),
        };
        out.push(h);
        i = i + 1;
    }
    assert(hop_views(out@) =~= hop_views(hops@));
    out
}

/// A map from names to texts, by its contents.
pub open spec fn text_map_view(m: TextMap<String>) -> Map<Seq<char>, Seq<char>> {
    m@.map_values(|s: String| s@)
}

/// A map from names to JSON values, by its contents.
pub open spec fn json_map_view(m: TextMap<Json>) -> Map<Seq<char>, JsonView> {
    m@.map_values(|v: Json| v@)
}

/// A map with the same texts.
pub fn copy_text_map(m: &TextMap<String>) -> (r: TextMap<String>)
    ensures
        text_map_view(r) == text_map_view(*m),
{
    let count = m.len();
    let mut out: TextMap<String> = TextMap::new();
    let mut i: usize = 0;
    while i < count
        invariant
            i <= count,
            count == m.keys().len(),
            m.wf(),
            forall|k: Seq<char>|
                #![trigger out@.contains_key(k)]
                out@.contains_key(k) == (exists|j: int| 0 <= j < i && #[trigger] m.keys()[j] == k),
            forall|j: int|
                0 <= j < i ==> out@.contains_key(#[trigger] m.keys()[j]) && out@[m.keys()[j]]@
                    == m.values()[j]@,
        decreases count - i,
    {
        let key = m.key_at(i).clone();
        let value = m.value_at(i).clone();
        proof {
            keys_are_distinct(*m);
        }
        let ghost before = out@;
        out.insert(key, value);
        assert forall|k: Seq<char>| #![trigger out@.contains_key(k)]
            out@.contains_key(k) == (exists|j: int|
                0 <= j < i + 1 && #[trigger] m.keys()[j] == k) by {
            assert(before.contains_key(k) == (exists|j: int|
                0 <= j < i && #[trigger] m.keys()[j] == k));
            assert(m.keys()[i as int] == key@);
        }
        i = i + 1;
    }
    proof {
        same_entries(*m, out@);
        assert(text_map_view(out) =~= text_map_view(*m)) by {
            assert forall|k: Seq<char>| #[trigger] m@.contains_key(k) implies out@[k]@ == m@[k]@ by {
                let j = m.keys().index_of(k);
                assert(m.keys()[j] == k);
                crate::text_map::entries_are_pairs(*m, j);
            }
        }
    }
    out
}

/// The keys of a map are distinct.
pub proof fn keys_are_distinct<V>(m: TextMap<V>)
    requires
        m.wf(),
    ensures
        forall|i: int, j: int|
            0 <= i < m.keys().len() && 0 <= j < m.keys().len() && i != j ==> (#[trigger] m.keys()[i])
                != (#[trigger] m.keys()[j]),
{
    assert forall|i: int, j: int|
        0 <= i < m.keys().len() && 0 <= j < m.keys().len() && i != j implies (
    #[trigger] m.keys()[i]) != (#[trigger] m.keys()[j]) by {
        crate::text_map::text_before_irreflexive(m.keys()[i]);
    }
}

/// A map that has an entry for every position of another one has the same
/// keys.
pub proof fn same_entries<V, W>(m: TextMap<V>, out: Map<Seq<char>, W>)
    requires
        m.wf(),
        forall|k: Seq<char>|
            #![trigger out.contains_key(k)]
            out.contains_key(k) == (exists|j: int|
                0 <= j < m.keys().len() && #[trigger] m.keys()[j] == k),
    ensures
        out.dom() == m@.dom(),
{
    assert forall|k: Seq<char>| out.dom().contains(k) == m@.dom().contains(k) by {
        assert(m@.dom().contains(k) == m.keys().contains(k));
        assert(out.contains_key(k) == (exists|j: int|
            0 <= j < m.keys().len() && #[trigger] m.keys()[j] == k));
    }
    assert(out.dom() =~= m@.dom());
}

/// A map with the same JSON values.
pub fn copy_json_map(m: &TextMap<Json>) -> (r: TextMap<Json>)
    ensures
        json_map_view(r) == json_map_view(*m),
{
    let count = m.len();
    let mut out: TextMap<Json> = TextMap::new();
    let mut i: usize = 0;
    while i < count
        invariant
            i <= count,
            count == m.keys().len(),
            m.wf(),
            forall|k: Seq<char>|
                #![trigger out@.contains_key(k)]
                out@.contains_key(k) == (exists|j: int| 0 <= j < i && #[trigger] m.keys()[j] == k),
            forall|j: int|
                0 <= j < i ==> out@.contains_key(#[trigger] m.keys()[j]) && out@[m.keys()[j]]@
                    == m.values()[j]@,
        decreases count - i,
    {
        let key = m.key_at(i).clone();
        let value = m.value_at(i).copy();
        proof {
            keys_are_distinct(*m);
        }
        let ghost before = out@;
        out.insert(key, value);
        assert forall|k: Seq<char>| #![trigger out@.contains_key(k)]
            out@.contains_key(k) == (exists|j: int|
                0 <= j < i + 1 && #[trigger] m.keys()[j] == k) by {
            assert(before.contains_key(k) == (exists|j: int|
                0 <= j < i && #[trigger] m.keys()[j] == k));
            assert(m.keys()[i as int] == key@);
        }
        i = i + 1;
    }
    proof {
        same_entries(*m, out@);
        assert(json_map_view(out) =~= json_map_view(*m)) by {
            assert forall|k: Seq<char>| #[trigger] m@.contains_key(k) implies out@[k]@ == m@[k]@ by {
                let j = m.keys().index_of(k);
                assert(m.keys()[j] == k);
                crate::text_map::entries_are_pairs(*m, j);
            }
        }
    }
    out
}

/// Where execution goes after an attempt, as traced.
#[derive(Debug, Clone, Copy, PartialEq, Eq, Structural)]
#[non_exhaustive]
pub enum TraceDecisionPath {
    Next,
    Done,
    GotoStep,
    GotoWorkflow,
    Retry,
    Error,
}

/// The decision after an attempt, as traced.
#[derive(Debug, PartialEq)]
pub struct TraceDecision {
    pub path: TraceDecisionPath,
    pub action_type: String,
    pub target_step_id: String,
    pub target_workflow_id: String,
    pub retry_after_seconds: Option<RetryAfter>,
    pub retry_limit: Option<u64>,
}

/// The content of a traced decision.
#[verifier::ext_equal]
pub struct DecisionView {
    pub path: TraceDecisionPath,
    pub action_type: Seq<char>,
    pub target_step_id: Seq<char>,
    pub target_workflow_id: Seq<char>,
    pub retry_after_seconds: Option<RetryAfter>,
    pub retry_limit: Option<u64>,
}

impl View for TraceDecision {
    type V = DecisionView;

    open spec fn view(&self) -> DecisionView {
        DecisionView {
            path: self.path,
            action_type: self.action_type@,
            target_step_id: self.target_step_id@,
            target_workflow_id: self.target_workflow_id@,
            retry_after_seconds: self.retry_after_seconds,
            retry_limit: self.retry_limit,
        }
    }
}

/// A decision of which only the path is known.
pub open spec fn bare_decision(path: TraceDecisionPath) -> DecisionView {
    DecisionView {
        path,
        action_type: Seq::empty(),
        target_step_id: Seq::empty(),
        target_workflow_id: Seq::empty(),
        retry_after_seconds: None,
        retry_limit: None,
    }
}

impl TraceDecision {
    /// A decision of which only the path is known.
    pub fn with_path(path: TraceDecisionPath) -> (r: TraceDecision)
        ensures
            r@ == bare_decision(path),
    {
        TraceDecision {
            path,
            action_type: String::new(),
            target_step_id: String::new(),
            target_workflow_id: String::new(),
            retry_after_seconds: None,
            retry_limit: None,
        }
    }

    /// A copy of a decision.
    pub fn copy(&self) -> (r: TraceDecision)
        ensures
            r@ == self@,
    {
        TraceDecision {
            path: self.path,
            action_type: self.action_type.clone(),
            target_step_id: self.target_step_id.clone(),
            target_workflow_id: self.target_workflow_id.clone(),
            retry_after_seconds: self.retry_after_seconds,
            retry_limit: self.retry_limit,
        }
    }
}

/// The request of an attempt, as traced.
#[derive(Debug, PartialEq)]
pub struct TraceRequest {
    pub method: String,
    pub url: String,
    pub headers: TextMap<String>,
    pub body: Option<Json>,
    pub redirects: Vec<TraceRedirectHop>,
}

/// The response of an attempt, as traced.
#[derive(Debug, PartialEq)]
pub struct TraceResponse {
    pub status_code: i64,
    pub content_type: ContentType,
    pub headers: TextMap<String>,
    pub body_bytes: u64,
    pub body_preview: Option<String>,
    pub body: Option<String>,
    /// Whether the body was no valid UTF-8, so that its text is approximate.
    pub body_lossy: bool,
}

/// One criterion, as traced.
#[derive(Debug, PartialEq)]
pub struct TraceCriterionResult {
    pub index: usize,
    pub type_: String,
    pub condition: String,
    pub context: String,
    pub result: bool,
    pub warnings: Vec<String>,
}

/// One attempt, as traced.
#[derive(Debug, PartialEq)]
pub struct TraceStepRecord {
    pub seq: u64,
    pub workflow_id: String,
    pub step_id: String,
    pub attempt: u32,
    pub kind: String,
    pub operation_path: String,
    pub workflow_id_ref: String,
    pub duration_ms: u64,
    pub request: Option<TraceRequest>,
    pub response: Option<TraceResponse>,
    pub criteria: Vec<TraceCriterionResult>,
    pub warnings: Vec<String>,
    pub decision: TraceDecision,
    pub outputs: TextMap<Json>,
    pub error: Option<String>,
}

/// A request that a dry run would have sent.
#[derive(Debug, PartialEq)]
pub struct DryRunRequest {
    pub step_id: String,
    pub method: String,
    pub url: String,
    pub headers: TextMap<String>,
    pub body: Option<Json>,
    pub warnings: Vec<String>,
}

/// What a trace hook learns of a step. The duration is in nanoseconds.
#[derive(Debug, PartialEq)]
pub struct StepEvent {
    pub workflow_id: String,
    pub step_id: String,
    pub operation_path: String,
    pub workflow_id_ref: String,
    pub status_code: i64,
    pub outputs: TextMap<Json>,
    pub err: Option<String>,
    pub duration_ns: u64,
}

/// Whether an event comes before or after its step.
#[derive(Debug, Clone, Copy, PartialEq, Eq, Structural)]
#[non_exhaustive]
pub enum ExecutionEventKind {
    BeforeStep,
    AfterStep,
}

/// One step event of an execution.
#[derive(Debug, PartialEq)]
pub struct ExecutionEvent {
    pub seq: u64,
    pub kind: ExecutionEventKind,
    pub workflow_id: String,
    pub step_id: String,
    pub operation_path: String,
    pub workflow_id_ref: String,
    pub status_code: i64,
    pub outputs: TextMap<Json>,
    pub err: Option<String>,
    pub duration_ns: u64,
}

/// What an observer learns of an execution. Durations are in nanoseconds.
#[derive(Debug, PartialEq)]
#[non_exhaustive]
pub enum ObserverEvent {
    StepStarted {
        workflow_id: String,
        step_id: String,
        operation_path: String,
        workflow_id_ref: String,
    },
    RequestPrepared {
        workflow_id: String,
        step_id: String,
        method: String,
        url: String,
        headers: TextMap<String>,
        has_body: bool,
    },
    RequestSent { workflow_id: String, step_id: String, method: String, url: String },
    CriterionEvaluated {
        workflow_id: String,
        step_id: String,
        index: usize,
        condition: String,
        passed: bool,
    },
    RetryScheduled {
        workflow_id: String,
        step_id: String,
        attempt: u64,
        max_attempts: u64,
        delay_nanos: u128,
    },
    StepCompleted {
        workflow_id: String,
        step_id: String,
        status_code: i64,
        duration_ns: u64,
        outputs: TextMap<Json>,
        error: Option<String>,
        criteria_passed: bool,
    },
    SubWorkflowStarted {
        parent_workflow_id: String,
        parent_step_id: String,
        child_workflow_id: String,
        depth: usize,
    },
    WorkflowCompleted {
        workflow_id: String,
        outputs: TextMap<Json>,
        duration_ns: u64,
        error: Option<String>,
    },
}

/// An event of the engine's stream.
#[derive(Debug, PartialEq)]
#[non_exhaustive]
pub enum EngineEvent {
    TraceStep(TraceStepRecord),
    DryRunRequest(DryRunRequest),
    Execution(ExecutionEvent),
    Observer(ObserverEvent),
    SequentialFallback(SequentialFallback),
    TransportWarning(TransportWarning),
}

/// A hook that is called before and after each step.
pub trait TraceHook {
    fn before_step(&self, event: &StepEvent);

    fn after_step(&self, event: &StepEvent);
}

/// An observer of every event.
pub trait ExecutionObserver {
    fn on_event(&self, event: &ObserverEvent);
}

/// What an execution came to: its outputs or its error, and its events in
/// order.
#[derive(Debug)]
pub struct ExecutionResult {
    pub outputs: Result<TextMap<Json>, RuntimeError>,
    pub events: Vec<EngineEvent>,
}

/// The trace records of a stream, in order.
pub open spec fn trace_records(events: Seq<EngineEvent>) -> Seq<TraceStepRecord>
    decreases events.len(),
{
    if events.len() == 0 {
        Seq::empty()
    } else {
        let before = trace_records(events.drop_last());
        match events.last() {
            EngineEvent::TraceStep(r) => before.push(r),
            _ => before,
        }
    }
}

/// The dry-run requests of a stream, in order.
pub open spec fn dry_runs(events: Seq<EngineEvent>) -> Seq<DryRunRequest>
    decreases events.len(),
{
    if events.len() == 0 {
        Seq::empty()
    } else {
        let before = dry_runs(events.drop_last());
        match events.last() {
            EngineEvent::DryRunRequest(r) => before.push(r),
            _ => before,
        }
    }
}

/// The step events of a stream, in order.
pub open spec fn step_events(events: Seq<EngineEvent>) -> Seq<ExecutionEvent>
    decreases events.len(),
{
    if events.len() == 0 {
        Seq::empty()
    } else {
        let before = step_events(events.drop_last());
        match events.last() {
            EngineEvent::Execution(r) => before.push(r),
            _ => before,
        }
    }
}

impl ExecutionResult {
    /// The trace records of the execution, in order.
    pub fn trace_steps(&self) -> (r: Vec<&TraceStepRecord>)
        ensures
            r@.len() == trace_records(self.events@).len(),
            forall|i: int| 0 <= i < r@.len() ==> *(#[trigger] r@[i]) == trace_records(self.events@)[i],
    {
        let mut out: Vec<&TraceStepRecord> = Vec::new();
        let mut i: usize = 0;
        while i < self.events.len()
            invariant
                i <= self.events@.len(),
                out@.len() == trace_records(self.events@.take(i as int)).len(),
                forall|j: int|
                    0 <= j < out@.len() ==> *(#[trigger] out@[j]) == trace_records(
                        self.events@.take(i as int),
                    )[j],
            decreases self.events@.len() - i,
        {
            assert(self.events@.take(i + 1).drop_last() =~= self.events@.take(i as int));
            match &self.events[i] {
                EngineEvent::TraceStep(r) => {
                    out.push(r);
                },
                _ => {},
            }
            i = i + 1;
        }
        assert(self.events@.take(i as int) =~= self.events@);
        out
    }

    /// The dry-run requests of the execution, in order.
    pub fn dry_run_requests(&self) -> (r: Vec<&DryRunRequest>)
        ensures
            r@.len() == dry_runs(self.events@).len(),
            forall|i: int| 0 <= i < r@.len() ==> *(#[trigger] r@[i]) == dry_runs(self.events@)[i],
    {
        let mut out: Vec<&DryRunRequest> = Vec::new();
        let mut i: usize = 0;
        while i < self.events.len()
            invariant
                i <= self.events@.len(),
                out@.len() == dry_runs(self.events@.take(i as int)).len(),
                forall|j: int|
                    0 <= j < out@.len() ==> *(#[trigger] out@[j]) == dry_runs(
                        self.events@.take(i as int),
                    )[j],
            decreases self.events@.len() - i,
        {
            assert(self.events@.take(i + 1).drop_last() =~= self.events@.take(i as int));
            match &self.events[i] {
                EngineEvent::DryRunRequest(r) => {
                    out.push(r);
                },
                _ => {},
            }
            i = i + 1;
        }
        assert(self.events@.take(i as int) =~= self.events@);
        out
    }

    /// The step events of the execution, in order.
    pub fn execution_events(&self) -> (r: Vec<&ExecutionEvent>)
        ensures
            r@.len() == step_events(self.events@).len(),
            forall|i: int| 0 <= i < r@.len() ==> *(#[trigger] r@[i]) == step_events(self.events@)[i],
    {
        let mut out: Vec<&ExecutionEvent> = Vec::new();
        let mut i: usize = 0;
        while i < self.events.len()
            invariant
                i <= self.events@.len(),
                out@.len() == step_events(self.events@.take(i as int)).len(),
                forall|j: int|
                    0 <= j < out@.len() ==> *(#[trigger] out@[j]) == step_events(
                        self.events@.take(i as int),
                    )[j],
            decreases self.events@.len() - i,
        {
            assert(self.events@.take(i + 1).drop_last() =~= self.events@.take(i as int));
            match &self.events[i] {
                EngineEvent::Execution(r) => {
                    out.push(r);
                },
                _ => {},
            }
            i = i + 1;
        }
        assert(self.events@.take(i as int) =~= self.events@);
        out
    }
}

// ---------------------------------------------------------------------
// Parts of a record
// ---------------------------------------------------------------------

/// Whole milliseconds of a duration in nanoseconds, as far as 64 bits hold
/// them.
pub fn duration_ms_u64(nanos: u128) -> (r: u64)
    ensures
        r == (if nanos / 1_000_000 > u64::MAX {
            u64::MAX
        } else {
            (nanos / 1_000_000) as u64
        }),
{
    let millis: u128 = nanos / 1_000_000;
    if millis > u64::MAX as u128 {
        u64::MAX
    } else {
        millis as u64
    }
}

/// Nanoseconds of a duration, as far as 64 bits hold them.
pub fn duration_ns_u64(nanos: u128) -> (r: u64)
    ensures
        r == (if nanos > u64::MAX {
            u64::MAX
        } else {
            nanos as u64
        }),
{
    if nanos > u64::MAX as u128 {
        u64::MAX
    } else {
        nanos as u64
    }
}

/// Whether a step calls a workflow.
pub open spec fn calls_workflow(step: Step) -> bool {
    step.target matches Some(t) && t is WorkflowId
}

/// `workflow` for a step that calls a workflow, `http` for every other one.
pub fn step_kind(step: &Step) -> (r: String)
    ensures
        r@ == (if calls_workflow(*step) {
            "workflow"@
        } else {
            "http"@
        }),
{
    match &step.target {
        Some(StepTarget::WorkflowId(_)) => "workflow".to_owned(),
        _ => "http".to_owned(),
    }
}

/// The operation that a step names, by path or by id.
pub open spec fn operation_path_of(step: Step) -> Seq<char> {
    match step.target {
        Some(StepTarget::OperationPath(p)) => p@,
        Some(StepTarget::OperationId(id)) => id@,
        _ => Seq::empty(),
    }
}

/// The operation that a step names, by path or by id.
pub fn step_operation_path(step: &Step) -> (r: String)
    ensures
        r@ == operation_path_of(*step),
{
    match &step.target {
        Some(StepTarget::OperationPath(p)) => p.clone(),
        Some(StepTarget::OperationId(id)) => id.clone(),
        _ => String::new(),
    }
}

/// The workflow that a step calls.
pub open spec fn workflow_ref_of(step: Step) -> Seq<char> {
    match step.target {
        Some(StepTarget::WorkflowId(id)) => id@,
        _ => Seq::empty(),
    }
}

/// The workflow that a step calls.
pub fn step_workflow_id_ref(step: &Step) -> (r: String)
    ensures
        r@ == workflow_ref_of(*step),
{
    match &step.target {
        Some(StepTarget::WorkflowId(id)) => id.clone(),
        _ => String::new(),
    }
}

} // verus!
