//! The parts of an Arazzo document that the runtime reads.

use crate::json::{Json, JsonNumber};
use crate::text_map::TextMap;
use vstd::prelude::*;

verus! {

/// What a success or failure action does.
#[derive(Debug, Clone, Copy, PartialEq, Eq, Structural)]
pub enum ActionType {
    End,
    Goto,
    Retry,
}

/// The name of an action type in a document.
pub open spec fn action_type_name(t: ActionType) -> Seq<char> {
    match t {
        ActionType::End => "end"@,
        ActionType::Goto => "goto"@,
        ActionType::Retry => "retry"@,
    }
}

impl ActionType {
    /// The name of the action type in a document.
    pub fn name(self) -> (r: &'static str)
        ensures
            r@ == action_type_name(self),
    {
        match self {
            ActionType::End => "end",
            ActionType::Goto => "goto",
            ActionType::Retry => "retry",
        }
    }
}

/// A declared `retryAfter`: the bits of the double, and the whole nanoseconds
/// of the delay it stands for where a delay can be made of it.
#[derive(Debug, Clone, Copy, PartialEq, Eq, Structural)]
pub struct RetryAfter {
    pub bits: u64,
    pub nanos: Option<u128>,
}

/// The type of a criterion or a selector: a plain name, or a name with a
/// version.
#[derive(Debug, PartialEq)]
pub enum SelectorType {
    Name(String),
    ExpressionType { type_: String, version: String },
}

/// The name a selector type goes by.
pub open spec fn selector_type_name(t: SelectorType) -> Seq<char> {
    match t {
        SelectorType::Name(n) => n@,
        SelectorType::ExpressionType { type_, version } => type_@,
    }
}

/// The version a selector type declares.
pub open spec fn selector_type_version(t: SelectorType) -> Option<Seq<char>> {
    match t {
        SelectorType::Name(_) => None,
        SelectorType::ExpressionType { type_, version } => if version@.len() == 0 {
            None
        } else {
            Some(version@)
        },
    }
}

impl SelectorType {
    /// The name the type goes by.
    pub fn resolved_name(&self) -> (r: &str)
        ensures
            r@ == selector_type_name(*self),
    {
        match self {
            SelectorType::Name(n) => n.as_str(),
            SelectorType::ExpressionType { type_, version: _ } => type_.as_str(),
        }
    }

    /// The version the type declares; an empty one declares none.
    pub fn declared_version(&self) -> (r: Option<&str>)
        ensures
            match r {
                Some(v) => selector_type_version(*self) == Some(v@),
                None => selector_type_version(*self) is None,
            },
    {
        match self {
            SelectorType::Name(_) => None,
            SelectorType::ExpressionType { type_: _, version } => if version.as_str().is_empty() {
                None
            } else {
                Some(version.as_str())
            },
        }
    }
}

/// One criterion of a step or an action.
#[derive(Debug, PartialEq)]
pub struct SuccessCriterion {
    pub type_: Option<SelectorType>,
    pub context: String,
    pub condition: String,
}

/// Selects a value: an expression for the context, and a selector in it.
#[derive(Debug, PartialEq)]
pub struct SelectorObject {
    pub context: String,
    pub selector: String,
    pub type_: SelectorType,
}

/// A value in a document: written out, or selected.
#[derive(Debug, PartialEq)]
pub enum ValueSource {
    Literal(Literal),
    Selector(SelectorObject),
}

/// A value as a document writes it out. The items of a list and the members
/// of a mapping are value sources themselves; a key that is no text is
/// `None`; `Other` is what JSON has no form for.
#[derive(Debug, PartialEq)]
pub enum Literal {
    Null,
    Bool(bool),
    Number(JsonNumber),
    Text(String),
    Sequence(Vec<ValueSource>),
    Mapping(Vec<(Option<String>, ValueSource)>),
    Other,
}

/// Where a parameter goes in a request.
#[derive(Debug, Clone, Copy, PartialEq, Eq, Structural)]
pub enum ParamLocation {
    Path,
    Query,
    Querystring,
    Header,
    Cookie,
}

/// A parameter of a step, a workflow or an action.
#[derive(Debug, PartialEq)]
pub struct Parameter {
    pub name: String,
    pub in_: Option<ParamLocation>,
    pub value: ValueSource,
}

/// A success or failure action.
#[derive(Debug, PartialEq)]
pub struct OnAction {
    pub name: String,
    pub type_: ActionType,
    pub step_id: String,
    pub workflow_id: String,
    pub retry_after: RetryAfter,
    pub retry_limit: Option<u64>,
    pub criteria: Vec<SuccessCriterion>,
    pub parameters: Vec<Parameter>,
}

/// One replacement in a request body.
#[derive(Debug, PartialEq)]
pub struct Replacement {
    pub target: String,
    pub target_selector_type: Option<SelectorType>,
    pub value: ValueSource,
}

/// The request body of a step.
#[derive(Debug, PartialEq)]
pub struct RequestBody {
    pub content_type: String,
    pub payload: Option<ValueSource>,
    pub replacements: Vec<Replacement>,
}

/// What a step runs.
#[derive(Debug, PartialEq)]
pub enum StepTarget {
    OperationPath(String),
    OperationId(String),
    WorkflowId(String),
    ChannelPath(String),
}

/// What an output holds.
#[derive(Debug, PartialEq)]
pub enum OutputValue {
    RuntimeExpression(String),
    Selector(SelectorObject),
}

/// One step of a workflow.
#[derive(Debug, PartialEq)]
pub struct Step {
    pub step_id: String,
    pub target: Option<StepTarget>,
    /// Whether the step declares an AsyncAPI action.
    pub has_async_action: bool,
    pub depends_on: Vec<String>,
    pub parameters: Vec<Parameter>,
    pub request_body: Option<RequestBody>,
    pub success_criteria: Vec<SuccessCriterion>,
    pub on_success: Vec<OnAction>,
    pub on_failure: Vec<OnAction>,
    pub outputs: TextMap<OutputValue>,
}

/// One workflow of a document.
#[derive(Debug, PartialEq)]
pub struct Workflow {
    pub workflow_id: String,
    pub depends_on: Vec<String>,
    pub inputs: Option<SchemaObject>,
    pub parameters: Vec<Parameter>,
    pub steps: Vec<Step>,
    pub success_actions: Vec<OnAction>,
    pub failure_actions: Vec<OnAction>,
    pub outputs: TextMap<OutputValue>,
}

/// The type of a declared input.
#[derive(Debug, Clone, Copy, PartialEq, Eq, Structural)]
pub enum JsonSchemaType {
    String,
    Integer,
    Number,
    Boolean,
    Array,
    Object,
}

/// What a schema says under `enum`: a list, each item as JSON where it has a
/// JSON form, or something that is no list.
#[derive(Debug, PartialEq)]
pub enum EnumKeyword {
    List(Vec<Option<Json>>),
    NotAList,
}

/// One declared input.
#[derive(Debug, PartialEq)]
pub struct PropertyDef {
    pub type_: Option<JsonSchemaType>,
    /// The declared default as JSON, or why it has no JSON form.
    pub default: Option<Result<Json, String>>,
    pub enum_: Option<EnumKeyword>,
}

/// The declared inputs of a workflow.
#[derive(Debug, PartialEq)]
pub struct SchemaObject {
    pub properties: TextMap<PropertyDef>,
    pub required: Vec<String>,
}

/// The kind of document that a source description names.
#[derive(Debug, Clone, Copy, PartialEq, Eq, Structural)]
pub enum SourceType {
    OpenApi,
    Arazzo,
    AsyncApi,
}

/// The name of a source type in a document.
pub open spec fn source_type_name(t: SourceType) -> Seq<char> {
    match t {
        SourceType::OpenApi => "openapi"@,
        SourceType::Arazzo => "arazzo"@,
        SourceType::AsyncApi => "asyncapi"@,
    }
}

impl SourceType {
    /// The name of the source type in a document.
    pub fn name(self) -> (r: &'static str)
        ensures
            r@ == source_type_name(self),
    {
        match self {
            SourceType::OpenApi => "openapi",
            SourceType::Arazzo => "arazzo",
            SourceType::AsyncApi => "asyncapi",
        }
    }
}

/// One source description of a document.
#[derive(Debug, PartialEq)]
pub struct SourceDescription {
    pub name: String,
    pub url: String,
    pub type_: SourceType,
}

impl Default for SuccessCriterion {
    fn default() -> (r: SuccessCriterion)
        ensures
            r.type_ is None,
            r.context@ == Seq::<char>::empty(),
            r.condition@ == Seq::<char>::empty(),
    {
        SuccessCriterion { type_: None, context: String::new(), condition: String::new() }
    }
}

impl Default for OnAction {
    fn default() -> (r: OnAction)
        ensures
            r.name@ == Seq::<char>::empty(),
            r.type_ == ActionType::End,
            r.step_id@ == Seq::<char>::empty(),
            r.workflow_id@ == Seq::<char>::empty(),
            r.retry_after == (RetryAfter { bits: 0, nanos: Some(0) }),
            r.retry_limit is None,
            r.criteria@.len() == 0,
            r.parameters@.len() == 0,
    {
        OnAction {
            name: String::new(),
            type_: ActionType::End,
            step_id: String::new(),
            workflow_id: String::new(),
            retry_after: RetryAfter { bits: 0, nanos: Some(0) },
            retry_limit: None,
            criteria: Vec::new(),
            parameters: Vec::new(),
        }
    }
}

impl Default for RequestBody {
    fn default() -> (r: RequestBody)
        ensures
            r.content_type@ == Seq::<char>::empty(),
            r.payload is None,
            r.replacements@.len() == 0,
    {
        RequestBody { content_type: String::new(), payload: None, replacements: Vec::new() }
    }
}

impl Default for Step {
    fn default() -> (r: Step)
        ensures
            r.step_id@ == Seq::<char>::empty(),
            r.target is None,
            !r.has_async_action,
            r.depends_on@.len() == 0,
            r.parameters@.len() == 0,
            r.request_body is None,
            r.success_criteria@.len() == 0,
            r.on_success@.len() == 0,
            r.on_failure@.len() == 0,
            r.outputs@ == Map::<Seq<char>, OutputValue>::empty(),
    {
        Step {
            step_id: String::new(),
            target: None,
            has_async_action: false,
            depends_on: Vec::new(),
            parameters: Vec::new(),
            request_body: None,
            success_criteria: Vec::new(),
            on_success: Vec::new(),
            on_failure: Vec::new(),
            outputs: TextMap::new(),
        }
    }
}

impl Default for Workflow {
    fn default() -> (r: Workflow)
        ensures
            r.workflow_id@ == Seq::<char>::empty(),
            r.depends_on@.len() == 0,
            r.inputs is None,
            r.parameters@.len() == 0,
            r.steps@.len() == 0,
            r.success_actions@.len() == 0,
            r.failure_actions@.len() == 0,
            r.outputs@ == Map::<Seq<char>, OutputValue>::empty(),
    {
        Workflow {
            workflow_id: String::new(),
            depends_on: Vec::new(),
            inputs: None,
            parameters: Vec::new(),
            steps: Vec::new(),
            success_actions: Vec::new(),
            failure_actions: Vec::new(),
            outputs: TextMap::new(),
        }
    }
}

} // verus!
