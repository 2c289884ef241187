//! Runtime errors: a kind with a stable code, and a message.

use crate::text::copy_text;
use vstd::prelude::*;

verus! {

/// What went wrong.
#[derive(Debug, Clone, Copy, PartialEq, Eq, Structural)]
#[non_exhaustive]
pub enum RuntimeErrorKind {
    Unspecified,
    ExecutionTimeout,
    ExecutionCancelled,
    WorkflowNotFound,
    StepNotFound,
    OperationIdNotFound,
    OperationIdAmbiguous,
    UnsupportedOperationIdForm,
    UnsupportedOperationPathForm,
    UnsupportedAsyncApiTransport,
    UnsupportedSourceDescriptionType,
    MaxCallDepthExceeded,
    RetryLimitExceeded,
    RetryReferenceFailed,
    DependencyCycle,
    WorkflowDependencyUnsatisfied,
    GotoTargetNotFound,
    GotoTargetMissing,
    InvalidHttpMethod,
    InvalidParameterValue,
    HttpClientBuild,
    HttpRequest,
    HttpResponseRead,
    RedirectDowngradeRefused,
    RedirectLimitExceeded,
    RateLimiterLockPoisoned,
    ParallelThreadPanic,
    JsonParse,
    SourceDescriptionLoad,
    SourceDescriptionParse,
    SourceDescriptionNotFound,
    SubWorkflowFailed,
    SuccessCriteriaFailed,
    DebugController,
    StepMissingDependency,
    InputValidation,
    InternalError,
    ResponseTooLarge,
    ReplayTraceExhausted,
    ReplayRequestMismatch,
    ReplayResponseMissing,
    IterationLimitExceeded,
}

/// The stable code of a kind.
pub open spec fn kind_code(kind: RuntimeErrorKind) -> Seq<char> {
    match kind {
        RuntimeErrorKind::Unspecified => "RUNTIME_UNSPECIFIED"@,
        RuntimeErrorKind::ExecutionTimeout => "RUNTIME_EXECUTION_TIMEOUT"@,
        RuntimeErrorKind::ExecutionCancelled => "RUNTIME_EXECUTION_CANCELLED"@,
        RuntimeErrorKind::WorkflowNotFound => "RUNTIME_WORKFLOW_NOT_FOUND"@,
        RuntimeErrorKind::StepNotFound => "RUNTIME_STEP_NOT_FOUND"@,
        RuntimeErrorKind::OperationIdNotFound => "RUNTIME_OPERATION_ID_NOT_FOUND"@,
        RuntimeErrorKind::OperationIdAmbiguous => "RUNTIME_OPERATION_ID_AMBIGUOUS"@,
        RuntimeErrorKind::UnsupportedOperationIdForm => "RUNTIME_UNSUPPORTED_OPERATION_ID_FORM"@,
        RuntimeErrorKind::UnsupportedOperationPathForm => "RUNTIME_UNSUPPORTED_OPERATION_PATH_FORM"@,
        RuntimeErrorKind::UnsupportedAsyncApiTransport => "RUNTIME_UNSUPPORTED_ASYNCAPI_TRANSPORT"@,
        RuntimeErrorKind::UnsupportedSourceDescriptionType => "RUNTIME_UNSUPPORTED_SOURCE_DESCRIPTION_TYPE"@,
        RuntimeErrorKind::MaxCallDepthExceeded => "RUNTIME_MAX_CALL_DEPTH_EXCEEDED"@,
        RuntimeErrorKind::RetryLimitExceeded => "RUNTIME_RETRY_LIMIT_EXCEEDED"@,
        RuntimeErrorKind::RetryReferenceFailed => "RUNTIME_RETRY_REFERENCE_FAILED"@,
        RuntimeErrorKind::DependencyCycle => "RUNTIME_DEPENDENCY_CYCLE"@,
        RuntimeErrorKind::WorkflowDependencyUnsatisfied => "RUNTIME_WORKFLOW_DEPENDENCY_UNSATISFIED"@,
        RuntimeErrorKind::GotoTargetNotFound => "RUNTIME_GOTO_TARGET_NOT_FOUND"@,
        RuntimeErrorKind::GotoTargetMissing => "RUNTIME_GOTO_TARGET_MISSING"@,
        RuntimeErrorKind::InvalidHttpMethod => "RUNTIME_INVALID_HTTP_METHOD"@,
        RuntimeErrorKind::InvalidParameterValue => "RUNTIME_INVALID_PARAMETER_VALUE"@,
        RuntimeErrorKind::HttpClientBuild => "RUNTIME_HTTP_CLIENT_BUILD"@,
        RuntimeErrorKind::HttpRequest => "RUNTIME_HTTP_REQUEST"@,
        RuntimeErrorKind::HttpResponseRead => "RUNTIME_HTTP_RESPONSE_READ"@,
        RuntimeErrorKind::RedirectDowngradeRefused => "RUNTIME_REDIRECT_DOWNGRADE_REFUSED"@,
        RuntimeErrorKind::RedirectLimitExceeded => "RUNTIME_REDIRECT_LIMIT_EXCEEDED"@,
        RuntimeErrorKind::RateLimiterLockPoisoned => "RUNTIME_RATE_LIMITER_LOCK_POISONED"@,
        RuntimeErrorKind::ParallelThreadPanic => "RUNTIME_PARALLEL_THREAD_PANIC"@,
        RuntimeErrorKind::JsonParse => "RUNTIME_JSON_PARSE"@,
        RuntimeErrorKind::SourceDescriptionLoad => "RUNTIME_SOURCE_DESCRIPTION_LOAD"@,
        RuntimeErrorKind::SourceDescriptionParse => "RUNTIME_SOURCE_DESCRIPTION_PARSE"@,
        RuntimeErrorKind::SourceDescriptionNotFound => "RUNTIME_SOURCE_DESCRIPTION_NOT_FOUND"@,
        RuntimeErrorKind::SubWorkflowFailed => "RUNTIME_SUB_WORKFLOW_FAILED"@,
        RuntimeErrorKind::SuccessCriteriaFailed => "RUNTIME_SUCCESS_CRITERIA_FAILED"@,
        RuntimeErrorKind::DebugController => "RUNTIME_DEBUG_CONTROLLER"@,
        RuntimeErrorKind::StepMissingDependency => "STEP_MISSING_DEPENDENCY"@,
        RuntimeErrorKind::InputValidation => "RUNTIME_INPUT_VALIDATION"@,
        RuntimeErrorKind::InternalError => "RUNTIME_INTERNAL_ERROR"@,
        RuntimeErrorKind::ResponseTooLarge => "RUNTIME_RESPONSE_TOO_LARGE"@,
        RuntimeErrorKind::ReplayTraceExhausted => "RUNTIME_REPLAY_TRACE_EXHAUSTED"@,
        RuntimeErrorKind::ReplayRequestMismatch => "RUNTIME_REPLAY_REQUEST_MISMATCH"@,
        RuntimeErrorKind::ReplayResponseMissing => "RUNTIME_REPLAY_RESPONSE_MISSING"@,
        RuntimeErrorKind::IterationLimitExceeded => "RUNTIME_ITERATION_LIMIT_EXCEEDED"@,
    }
}

/// Whether an error of this kind ends the whole execution from outside: its
/// time ran out, or it was called off.
pub open spec fn ends_execution(kind: RuntimeErrorKind) -> bool {
    kind is ExecutionTimeout || kind is ExecutionCancelled
}

impl RuntimeErrorKind {
    /// The stable code of the kind.
    pub fn code(self) -> (r: &'static str)
        ensures
            r@ == kind_code(self),
    {
        match self {
            RuntimeErrorKind::Unspecified => "RUNTIME_UNSPECIFIED",
            RuntimeErrorKind::ExecutionTimeout => "RUNTIME_EXECUTION_TIMEOUT",
            RuntimeErrorKind::ExecutionCancelled => "RUNTIME_EXECUTION_CANCELLED",
            RuntimeErrorKind::WorkflowNotFound => "RUNTIME_WORKFLOW_NOT_FOUND",
            RuntimeErrorKind::StepNotFound => "RUNTIME_STEP_NOT_FOUND",
            RuntimeErrorKind::OperationIdNotFound => "RUNTIME_OPERATION_ID_NOT_FOUND",
            RuntimeErrorKind::OperationIdAmbiguous => "RUNTIME_OPERATION_ID_AMBIGUOUS",
            RuntimeErrorKind::UnsupportedOperationIdForm => "RUNTIME_UNSUPPORTED_OPERATION_ID_FORM",
            RuntimeErrorKind::UnsupportedOperationPathForm => "RUNTIME_UNSUPPORTED_OPERATION_PATH_FORM",
            RuntimeErrorKind::UnsupportedAsyncApiTransport => "RUNTIME_UNSUPPORTED_ASYNCAPI_TRANSPORT",
            RuntimeErrorKind::UnsupportedSourceDescriptionType => "RUNTIME_UNSUPPORTED_SOURCE_DESCRIPTION_TYPE",
            RuntimeErrorKind::MaxCallDepthExceeded => "RUNTIME_MAX_CALL_DEPTH_EXCEEDED",
            RuntimeErrorKind::RetryLimitExceeded => "RUNTIME_RETRY_LIMIT_EXCEEDED",
            RuntimeErrorKind::RetryReferenceFailed => "RUNTIME_RETRY_REFERENCE_FAILED",
            RuntimeErrorKind::DependencyCycle => "RUNTIME_DEPENDENCY_CYCLE",
            RuntimeErrorKind::WorkflowDependencyUnsatisfied => "RUNTIME_WORKFLOW_DEPENDENCY_UNSATISFIED",
            RuntimeErrorKind::GotoTargetNotFound => "RUNTIME_GOTO_TARGET_NOT_FOUND",
            RuntimeErrorKind::GotoTargetMissing => "RUNTIME_GOTO_TARGET_MISSING",
            RuntimeErrorKind::InvalidHttpMethod => "RUNTIME_INVALID_HTTP_METHOD",
            RuntimeErrorKind::InvalidParameterValue => "RUNTIME_INVALID_PARAMETER_VALUE",
            RuntimeErrorKind::HttpClientBuild => "RUNTIME_HTTP_CLIENT_BUILD",
            RuntimeErrorKind::HttpRequest => "RUNTIME_HTTP_REQUEST",
            RuntimeErrorKind::HttpResponseRead => "RUNTIME_HTTP_RESPONSE_READ",
            RuntimeErrorKind::RedirectDowngradeRefused => "RUNTIME_REDIRECT_DOWNGRADE_REFUSED",
            RuntimeErrorKind::RedirectLimitExceeded => "RUNTIME_REDIRECT_LIMIT_EXCEEDED",
            RuntimeErrorKind::RateLimiterLockPoisoned => "RUNTIME_RATE_LIMITER_LOCK_POISONED",
            RuntimeErrorKind::ParallelThreadPanic => "RUNTIME_PARALLEL_THREAD_PANIC",
            RuntimeErrorKind::JsonParse => "RUNTIME_JSON_PARSE",
            RuntimeErrorKind::SourceDescriptionLoad => "RUNTIME_SOURCE_DESCRIPTION_LOAD",
            RuntimeErrorKind::SourceDescriptionParse => "RUNTIME_SOURCE_DESCRIPTION_PARSE",
            RuntimeErrorKind::SourceDescriptionNotFound => "RUNTIME_SOURCE_DESCRIPTION_NOT_FOUND",
            RuntimeErrorKind::SubWorkflowFailed => "RUNTIME_SUB_WORKFLOW_FAILED",
            RuntimeErrorKind::SuccessCriteriaFailed => "RUNTIME_SUCCESS_CRITERIA_FAILED",
            RuntimeErrorKind::DebugController => "RUNTIME_DEBUG_CONTROLLER",
            RuntimeErrorKind::StepMissingDependency => "STEP_MISSING_DEPENDENCY",
            RuntimeErrorKind::InputValidation => "RUNTIME_INPUT_VALIDATION",
            RuntimeErrorKind::InternalError => "RUNTIME_INTERNAL_ERROR",
            RuntimeErrorKind::ResponseTooLarge => "RUNTIME_RESPONSE_TOO_LARGE",
            RuntimeErrorKind::ReplayTraceExhausted => "RUNTIME_REPLAY_TRACE_EXHAUSTED",
            RuntimeErrorKind::ReplayRequestMismatch => "RUNTIME_REPLAY_REQUEST_MISMATCH",
            RuntimeErrorKind::ReplayResponseMissing => "RUNTIME_REPLAY_RESPONSE_MISSING",
            RuntimeErrorKind::IterationLimitExceeded => "RUNTIME_ITERATION_LIMIT_EXCEEDED",
        }
    }

    /// Whether the execution ran out of time or was called off.
    pub fn is_cancellation(self) -> (r: bool)
        ensures
            r == ends_execution(self),
    {
        match self {
            RuntimeErrorKind::ExecutionTimeout => true,
            RuntimeErrorKind::ExecutionCancelled => true,
            _ => false,
        }
    }
}

/// The kind and the message of an error. Its cause is apart: it decides
/// nothing, and is stated where an error is given one.
#[verifier::ext_equal]
pub struct ErrorView {
    pub kind: RuntimeErrorKind,
    pub message: Seq<char>,
}

/// An error of the runtime, with the text of its cause where it has one.
#[derive(Debug)]
pub struct RuntimeError {
    pub kind: RuntimeErrorKind,
    pub message: String,
    pub source: Option<String>,
}

impl View for RuntimeError {
    type V = ErrorView;

    open spec fn view(&self) -> ErrorView {
        ErrorView { kind: self.kind, message: self.message@ }
    }
}

/// The error of an execution that was called off or ran out of time.
pub open spec fn cancellation(timed_out: bool) -> ErrorView {
    if timed_out {
        ErrorView {
            kind: RuntimeErrorKind::ExecutionTimeout,
            message: "execution timeout exceeded"@,
        }
    } else {
        ErrorView {
            kind: RuntimeErrorKind::ExecutionCancelled,
            message: "execution cancelled"@,
        }
    }
}

impl RuntimeError {
    /// An error without a cause.
    pub fn new(kind: RuntimeErrorKind, message: String) -> (r: RuntimeError)
        ensures
            r.kind == kind,
            r.message == message,
            r.source is None,
    {
        RuntimeError { kind, message, source: None }
    }

    /// An error with the text of its cause.
    pub fn with_source(kind: RuntimeErrorKind, message: String, source: String) -> (r: RuntimeError)
        ensures
            r.kind == kind,
            r.message == message,
            r.source == Some(source),
    {
        RuntimeError { kind, message, source: Some(source) }
    }

    /// An error of no particular kind.
    pub fn unspecified(message: String) -> (r: RuntimeError)
        ensures
            r.kind == RuntimeErrorKind::Unspecified,
            r.message == message,
            r.source is None,
    {
        RuntimeError::new(RuntimeErrorKind::Unspecified, message)
    }

    /// The same error.
    pub fn copy(&self) -> (r: RuntimeError)
        ensures
            r@ == self@,
            r.source == self.source,
    {
        RuntimeError {
            kind: self.kind,
            message: self.message.clone(),
            source: copy_text(&self.source),
        }
    }

    /// The stable code of the error's kind.
    pub fn code(&self) -> (r: &'static str)
        ensures
            r@ == kind_code(self.kind),
    {
        self.kind.code()
    }
}

/// The error of an execution that was called off, or whose time ran out.
pub fn cancellation_error(timed_out: bool) -> (r: RuntimeError)
    ensures
        r@ == cancellation(timed_out),
        r.source is None,
{
    if timed_out {
        RuntimeError::new(
            RuntimeErrorKind::ExecutionTimeout,
            "execution timeout exceeded".to_owned(),
        )
    } else {
        RuntimeError::new(RuntimeErrorKind::ExecutionCancelled, "execution cancelled".to_owned())
    }
}

/// The length of a code and two of its characters, which tell every two codes
/// apart.
spec fn code_mark(code: Seq<char>) -> (nat, char, char) {
    (
        code.len(),
        code[8],
        if code.len() > 23 {
            code[23]
        } else {
            ' '
        },
    )
}

spec fn kind_mark(kind: RuntimeErrorKind) -> (nat, char, char) {
    match kind {
        RuntimeErrorKind::Unspecified => (19, 'U', ' '),
        RuntimeErrorKind::ExecutionTimeout => (25, 'E', 'U'),
        RuntimeErrorKind::ExecutionCancelled => (27, 'E', 'L'),
        RuntimeErrorKind::WorkflowNotFound => (26, 'W', 'U'),
        RuntimeErrorKind::StepNotFound => (22, 'S', ' '),
        RuntimeErrorKind::OperationIdNotFound => (30, 'O', 'T'),
        RuntimeErrorKind::OperationIdAmbiguous => (30, 'O', 'B'),
        RuntimeErrorKind::UnsupportedOperationIdForm => (37, 'U', 'R'),
        RuntimeErrorKind::UnsupportedOperationPathForm => (39, 'U', 'R'),
        RuntimeErrorKind::UnsupportedAsyncApiTransport => (38, 'U', 'N'),
        RuntimeErrorKind::UnsupportedSourceDescriptionType => (43, 'U', 'R'),
        RuntimeErrorKind::MaxCallDepthExceeded => (31, 'M', 'E'),
        RuntimeErrorKind::RetryLimitExceeded => (28, 'R', 'E'),
        RuntimeErrorKind::RetryReferenceFailed => (30, 'R', '_'),
        RuntimeErrorKind::DependencyCycle => (24, 'D', 'E'),
        RuntimeErrorKind::WorkflowDependencyUnsatisfied => (39, 'W', 'E'),
        RuntimeErrorKind::GotoTargetNotFound => (29, 'G', '_'),
        RuntimeErrorKind::GotoTargetMissing => (27, 'G', 'S'),
        RuntimeErrorKind::InvalidHttpMethod => (27, 'I', 'T'),
        RuntimeErrorKind::InvalidParameterValue => (31, 'I', 'E'),
        RuntimeErrorKind::HttpClientBuild => (25, 'H', 'L'),
        RuntimeErrorKind::HttpRequest => (20, 'H', ' '),
        RuntimeErrorKind::HttpResponseRead => (26, 'H', 'E'),
        RuntimeErrorKind::RedirectDowngradeRefused => (34, 'R', 'A'),
        RuntimeErrorKind::RedirectLimitExceeded => (31, 'R', 'E'),
        RuntimeErrorKind::RateLimiterLockPoisoned => (34, 'R', 'C'),
        RuntimeErrorKind::ParallelThreadPanic => (29, 'P', '_'),
        RuntimeErrorKind::JsonParse => (18, 'J', ' '),
        RuntimeErrorKind::SourceDescriptionLoad => (31, 'S', 'I'),
        RuntimeErrorKind::SourceDescriptionParse => (32, 'S', 'I'),
        RuntimeErrorKind::SourceDescriptionNotFound => (36, 'S', 'I'),
        RuntimeErrorKind::SubWorkflowFailed => (27, 'S', 'I'),
        RuntimeErrorKind::SuccessCriteriaFailed => (31, 'S', 'A'),
        RuntimeErrorKind::DebugController => (24, 'D', 'R'),
        RuntimeErrorKind::StepMissingDependency => (23, 'S', ' '),
        RuntimeErrorKind::InputValidation => (24, 'I', 'N'),
        RuntimeErrorKind::InternalError => (22, 'I', ' '),
        RuntimeErrorKind::ResponseTooLarge => (26, 'R', 'R'),
        RuntimeErrorKind::ReplayTraceExhausted => (30, 'R', 'H'),
        RuntimeErrorKind::ReplayRequestMismatch => (31, 'R', 'M'),
        RuntimeErrorKind::ReplayResponseMissing => (31, 'R', '_'),
        RuntimeErrorKind::IterationLimitExceeded => (32, 'I', '_'),
    }
}

/// Whether the characters of a code from `from` on are capital letters and
/// underscores.
spec fn capitals_from(code: Seq<char>, from: nat) -> bool
    decreases code.len() - from,
{
    from >= code.len() || (is_code_char(code[from as int]) && capitals_from(code, from + 1))
}

proof fn capital_found(code: Seq<char>, from: nat, i: int)
    requires
        capitals_from(code, from),
        from <= i < code.len(),
    ensures
        is_code_char(code[i]),
    decreases i - from,
{
    if from < i {
        capital_found(code, from + 1, i);
    }
}

proof fn code_has_mark(kind: RuntimeErrorKind)
    ensures
        code_mark(kind_code(kind)) == kind_mark(kind),
        capitals_from(kind_code(kind), 0),
{
    reveal_with_fuel(capitals_from, 50);
    match kind {
        RuntimeErrorKind::Unspecified => {
            reveal_strlit("RUNTIME_UNSPECIFIED");
        },
        RuntimeErrorKind::ExecutionTimeout => {
            reveal_strlit("RUNTIME_EXECUTION_TIMEOUT");
        },
        RuntimeErrorKind::ExecutionCancelled => {
            reveal_strlit("RUNTIME_EXECUTION_CANCELLED");
        },
        RuntimeErrorKind::WorkflowNotFound => {
            reveal_strlit("RUNTIME_WORKFLOW_NOT_FOUND");
        },
        RuntimeErrorKind::StepNotFound => {
            reveal_strlit("RUNTIME_STEP_NOT_FOUND");
        },
        RuntimeErrorKind::OperationIdNotFound => {
            reveal_strlit("RUNTIME_OPERATION_ID_NOT_FOUND");
        },
        RuntimeErrorKind::OperationIdAmbiguous => {
            reveal_strlit("RUNTIME_OPERATION_ID_AMBIGUOUS");
        },
        RuntimeErrorKind::UnsupportedOperationIdForm => {
            reveal_strlit("RUNTIME_UNSUPPORTED_OPERATION_ID_FORM");
        },
        RuntimeErrorKind::UnsupportedOperationPathForm => {
            reveal_strlit("RUNTIME_UNSUPPORTED_OPERATION_PATH_FORM");
        },
        RuntimeErrorKind::UnsupportedAsyncApiTransport => {
            reveal_strlit("RUNTIME_UNSUPPORTED_ASYNCAPI_TRANSPORT");
        },
        RuntimeErrorKind::UnsupportedSourceDescriptionType => {
            reveal_strlit("RUNTIME_UNSUPPORTED_SOURCE_DESCRIPTION_TYPE");
        },
        RuntimeErrorKind::MaxCallDepthExceeded => {
            reveal_strlit("RUNTIME_MAX_CALL_DEPTH_EXCEEDED");
        },
        RuntimeErrorKind::RetryLimitExceeded => {
            reveal_strlit("RUNTIME_RETRY_LIMIT_EXCEEDED");
        },
        RuntimeErrorKind::RetryReferenceFailed => {
            reveal_strlit("RUNTIME_RETRY_REFERENCE_FAILED");
        },
        RuntimeErrorKind::DependencyCycle => {
            reveal_strlit("RUNTIME_DEPENDENCY_CYCLE");
        },
        RuntimeErrorKind::WorkflowDependencyUnsatisfied => {
            reveal_strlit("RUNTIME_WORKFLOW_DEPENDENCY_UNSATISFIED");
        },
        RuntimeErrorKind::GotoTargetNotFound => {
            reveal_strlit("RUNTIME_GOTO_TARGET_NOT_FOUND");
        },
        RuntimeErrorKind::GotoTargetMissing => {
            reveal_strlit("RUNTIME_GOTO_TARGET_MISSING");
        },
        RuntimeErrorKind::InvalidHttpMethod => {
            reveal_strlit("RUNTIME_INVALID_HTTP_METHOD");
        },
        RuntimeErrorKind::InvalidParameterValue => {
            reveal_strlit("RUNTIME_INVALID_PARAMETER_VALUE");
        },
        RuntimeErrorKind::HttpClientBuild => {
            reveal_strlit("RUNTIME_HTTP_CLIENT_BUILD");
        },
        RuntimeErrorKind::HttpRequest => {
            reveal_strlit("RUNTIME_HTTP_REQUEST");
        },
        RuntimeErrorKind::HttpResponseRead => {
            reveal_strlit("RUNTIME_HTTP_RESPONSE_READ");
        },
        RuntimeErrorKind::RedirectDowngradeRefused => {
            reveal_strlit("RUNTIME_REDIRECT_DOWNGRADE_REFUSED");
        },
        RuntimeErrorKind::RedirectLimitExceeded => {
            reveal_strlit("RUNTIME_REDIRECT_LIMIT_EXCEEDED");
        },
        RuntimeErrorKind::RateLimiterLockPoisoned => {
            reveal_strlit("RUNTIME_RATE_LIMITER_LOCK_POISONED");
        },
        RuntimeErrorKind::ParallelThreadPanic => {
            reveal_strlit("RUNTIME_PARALLEL_THREAD_PANIC");
        },
        RuntimeErrorKind::JsonParse => {
            reveal_strlit("RUNTIME_JSON_PARSE");
        },
        RuntimeErrorKind::SourceDescriptionLoad => {
            reveal_strlit("RUNTIME_SOURCE_DESCRIPTION_LOAD");
        },
        RuntimeErrorKind::SourceDescriptionParse => {
            reveal_strlit("RUNTIME_SOURCE_DESCRIPTION_PARSE");
        },
        RuntimeErrorKind::SourceDescriptionNotFound => {
            reveal_strlit("RUNTIME_SOURCE_DESCRIPTION_NOT_FOUND");
        },
        RuntimeErrorKind::SubWorkflowFailed => {
            reveal_strlit("RUNTIME_SUB_WORKFLOW_FAILED");
        },
        RuntimeErrorKind::SuccessCriteriaFailed => {
            reveal_strlit("RUNTIME_SUCCESS_CRITERIA_FAILED");
        },
        RuntimeErrorKind::DebugController => {
            reveal_strlit("RUNTIME_DEBUG_CONTROLLER");
        },
        RuntimeErrorKind::StepMissingDependency => {
            reveal_strlit("STEP_MISSING_DEPENDENCY");
        },
        RuntimeErrorKind::InputValidation => {
            reveal_strlit("RUNTIME_INPUT_VALIDATION");
        },
        RuntimeErrorKind::InternalError => {
            reveal_strlit("RUNTIME_INTERNAL_ERROR");
        },
        RuntimeErrorKind::ResponseTooLarge => {
            reveal_strlit("RUNTIME_RESPONSE_TOO_LARGE");
        },
        RuntimeErrorKind::ReplayTraceExhausted => {
            reveal_strlit("RUNTIME_REPLAY_TRACE_EXHAUSTED");
        },
        RuntimeErrorKind::ReplayRequestMismatch => {
            reveal_strlit("RUNTIME_REPLAY_REQUEST_MISMATCH");
        },
        RuntimeErrorKind::ReplayResponseMissing => {
            reveal_strlit("RUNTIME_REPLAY_RESPONSE_MISSING");
        },
        RuntimeErrorKind::IterationLimitExceeded => {
            reveal_strlit("RUNTIME_ITERATION_LIMIT_EXCEEDED");
        },
    }
}

/// No two kinds share a code.
pub proof fn codes_are_distinct(a: RuntimeErrorKind, b: RuntimeErrorKind)
    requires
        kind_code(a) == kind_code(b),
    ensures
        a == b,
{
    code_has_mark(a);
    code_has_mark(b);
}

/// Whether a character may stand in a code: a capital letter or an underscore.
pub open spec fn is_code_char(c: char) -> bool {
    ('A' <= c && c <= 'Z') || c == '_'
}

/// A code is made of capital letters and underscores.
pub proof fn codes_are_capitals(kind: RuntimeErrorKind, i: int)
    requires
        0 <= i < kind_code(kind).len(),
    ensures
        is_code_char(kind_code(kind)[i]),
{
    code_has_mark(kind);
    capital_found(kind_code(kind), 0, i);
}

} // verus!
