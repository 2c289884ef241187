//! What a step came to: its response, its result, and the error that a
//! result stands for.

use crate::error::{ErrorView, RuntimeError, RuntimeErrorKind};
use crate::json::Json;
use crate::json_text::{integer_text, signed_text};
use crate::text::{chars_of, concat3, concat5, text_of};
use crate::text_map::TextMap;
use crate::trace::{
    ContentType, DryRunRequest, TraceCriterionResult, TraceRedirectHop, TraceRequest, TraceResponse,
};
use vstd::prelude::*;
use vstd::string::*;
use vstd::utf8::{decode_utf8, valid_utf8};

verus! {

/// A response of the runtime's client.
#[derive(Debug, PartialEq)]
pub struct Response {
    pub status_code: i64,
    pub headers: TextMap<String>,
    pub body: Vec<u8>,
    pub body_json: Option<Json>,
    pub content_type: ContentType,
    /// The redirects that were followed, oldest first.
    pub redirects: Vec<TraceRedirectHop>,
}

/// Whether a step succeeded, and what is known of it.
#[derive(Debug, PartialEq)]
pub struct StepResult {
    pub success: bool,
    pub response: Option<Response>,
    pub err: Option<String>,
    /// The kind of the runtime error that the step failed with.
    pub err_kind: Option<RuntimeErrorKind>,
}

/// What is traced of an attempt.
#[derive(Debug, PartialEq)]
pub struct StepTraceData {
    pub request: Option<TraceRequest>,
    pub response: Option<TraceResponse>,
    pub criteria: Vec<TraceCriterionResult>,
    pub warnings: Vec<String>,
}

/// One attempt at a step, as it ran.
#[derive(Debug, PartialEq)]
pub struct StepExecution {
    pub result: StepResult,
    pub outputs: TextMap<Json>,
    pub dry_run_request: Option<DryRunRequest>,
    pub trace: StepTraceData,
}

// ---------------------------------------------------------------------
// Bodies as text
// ---------------------------------------------------------------------

/// The text of bytes that are no UTF-8, with what is invalid replaced.
pub uninterp spec fn patched(bytes: Seq<u8>) -> Seq<char>;

/// The text of some bytes, with what is no UTF-8 replaced.
pub open spec fn lossy(bytes: Seq<u8>) -> Seq<char> {
    if valid_utf8(bytes) {
        decode_utf8(bytes)
    } else {
        patched(bytes)
    }
}

/// `String::from_utf8_lossy`: the text of the bytes, with every invalid part
/// replaced by U+FFFD; valid UTF-8 is taken as it is. How much one replacement
/// stands for is left unsaid.
#[verifier::external_body]
pub(crate) fn lossy_text(bytes: &[u8]) -> (r: String)
    ensures
        r@ == if valid_utf8(bytes@) {
            decode_utf8(bytes@)
        } else {
            patched(bytes@)
        },
{
    String::from_utf8_lossy(bytes).into_owned()
}

/// The bytes that a character takes in UTF-8.
pub open spec fn utf8_width(c: char) -> nat {
    if c as u32 <= 0x7f {
        1
    } else if c as u32 <= 0x7ff {
        2
    } else if c as u32 <= 0xffff {
        3
    } else {
        4
    }
}

/// The bytes that a text takes in UTF-8.
pub open spec fn utf8_size(s: Seq<char>) -> nat
    decreases s.len(),
{
    if s.len() == 0 {
        0
    } else {
        utf8_size(s.drop_last()) + utf8_width(s.last())
    }
}

/// How many characters of `s`, from its beginning, take at most `limit`
/// bytes.
pub open spec fn fitting(s: Seq<char>, limit: nat) -> nat
    decreases s.len(),
{
    if s.len() == 0 {
        0
    } else if utf8_size(s) <= limit {
        s.len()
    } else {
        fitting(s.drop_last(), limit)
    }
}

/// `s`, cut after at most `limit` bytes and marked with dots where it is
/// longer.
pub open spec fn shortened(s: Seq<char>, limit: nat) -> Seq<char> {
    if utf8_size(s) > limit {
        s.take(fitting(s, limit) as int) + "..."@
    } else {
        s
    }
}

fn char_width(c: char) -> (r: usize)
    ensures
        r == utf8_width(c),
        1 <= r <= 4,
{
    let code: u32 = c as u32;
    if code <= 0x7f {
        1
    } else if code <= 0x7ff {
        2
    } else if code <= 0xffff {
        3
    } else {
        4
    }
}

proof fn utf8_size_grows(s: Seq<char>, n: int)
    requires
        0 <= n <= s.len(),
    ensures
        utf8_size(s.take(n)) <= utf8_size(s),
    decreases s.len() - n,
{
    if n < s.len() {
        utf8_size_grows(s, n + 1);
        assert(s.take(n + 1).drop_last() =~= s.take(n));
    } else {
        assert(s.take(n) =~= s);
    }
}

proof fn fitting_is(s: Seq<char>, n: int, limit: nat)
    requires
        0 <= n < s.len(),
        utf8_size(s.take(n)) <= limit,
        utf8_size(s.take(n + 1)) > limit,
    ensures
        utf8_size(s) > limit,
        fitting(s, limit) == n,
    decreases s.len(),
{
    utf8_size_grows(s, n + 1);
    let t = s.drop_last();
    if n == t.len() {
        assert(s.take(n) =~= t);
        assert(fitting(t, limit) == n);
    } else {
        assert(t.take(n) =~= s.take(n));
        assert(t.take(n + 1) =~= s.take(n + 1));
        fitting_is(t, n, limit);
    }
}

/// `s`, cut after at most `limit` bytes and marked with dots where it is
/// longer.
pub fn shorten(s: &str, limit: usize) -> (r: String)
    ensures
        r@ == shortened(s@, limit as nat),
{
    let chars = chars_of(s);
    let mut size: usize = 0;
    let mut i: usize = 0;
    while i < chars.len()
        invariant
            i <= chars@.len(),
            chars@ == s@,
            size == utf8_size(s@.take(i as int)),
            size <= limit,
        decreases chars@.len() - i,
    {
        let width = char_width(chars[i]);
        assert(s@.take(i + 1).drop_last() =~= s@.take(i as int));
        if width > limit - size {
            proof {
                fitting_is(s@, i as int, limit as nat);
            }
            let mut out = text_of(&chars, 0, i);
            out.append("...");
            assert(s@.subrange(0, i as int) =~= s@.take(i as int));
            return out;
        }
        size = size + width;
        i = i + 1;
    }
    assert(s@.take(i as int) =~= s@);
    s.to_owned()
}

// ---------------------------------------------------------------------
// The error of a failed step
// ---------------------------------------------------------------------

/// The longest part of a body that an error quotes, in bytes.
pub const ERROR_BODY_MAX_BYTES: usize = 500;

/// The error that a failed result stands for: the error it failed with, else
/// the response that did not meet the criteria, else the criteria alone.
pub open spec fn result_error(step_id: Seq<char>, result: StepResult) -> ErrorView {
    match result.err {
        Some(err) => ErrorView {
            kind: match result.err_kind {
                Some(kind) => kind,
                None => RuntimeErrorKind::SuccessCriteriaFailed,
            },
            message: "step "@ + step_id + ": "@ + err@,
        },
        None => ErrorView {
            kind: RuntimeErrorKind::SuccessCriteriaFailed,
            message: match result.response {
                Some(response) => "step "@ + step_id + ": success criteria not met (status="@
                    + integer_text(response.status_code as int) + ", body="@ + shortened(
                    lossy(response.body@),
                    ERROR_BODY_MAX_BYTES as nat,
                ) + ")"@,
                None => "step "@ + step_id + ": success criteria not met"@,
            },
        },
    }
}

/// The error that a failed result stands for.
pub fn step_result_error(step_id: &str, result: &StepResult) -> (r: RuntimeError)
    ensures
        r@ == result_error(step_id@, *result),
        r.source is None,
{
    match &result.err {
        Some(err) => {
            let kind = match result.err_kind {
                Some(kind) => kind,
                None => RuntimeErrorKind::SuccessCriteriaFailed,
            };
            let mut message = concat3("step ", step_id, ": ");
            message.append(err.as_str());
            RuntimeError::new(kind, message)
        },
        None => match &result.response {
            Some(response) => {
                let text = lossy_text(response.body.as_slice());
                let preview = shorten(text.as_str(), ERROR_BODY_MAX_BYTES);
                let status = signed_text(response.status_code);
                let mut message = concat5(
                    "step ",
                    step_id,
                    ": success criteria not met (status=",
                    status.as_str(),
                    ", body=",
                );
                message.append(preview.as_str());
                message.append(")");
                RuntimeError::new(RuntimeErrorKind::SuccessCriteriaFailed, message)
            },
            None => RuntimeError::new(
                RuntimeErrorKind::SuccessCriteriaFailed,
                concat3("step ", step_id, ": success criteria not met"),
            ),
        },
    }
}

// ---------------------------------------------------------------------
// Settling
// ---------------------------------------------------------------------

/// Whether an attempt is what a runtime error settles into: a failed result
/// that carries the error, and nothing else.
pub open spec fn failed_with(e: StepExecution, err: RuntimeError) -> bool {
    &&& !e.result.success
    &&& e.result.response is None
    &&& e.result.err == Some(err.message)
    &&& e.result.err_kind == Some(err.kind)
    &&& e.outputs@ == Map::<Seq<char>, Json>::empty()
    &&& e.dry_run_request is None
    &&& e.trace.request is None
    &&& e.trace.response is None
    &&& e.trace.criteria@.len() == 0
    &&& e.trace.warnings@.len() == 0
}

/// Settles a run into the attempt that is recorded: a runtime error becomes a
/// failed result, to be routed like any other failure.
pub fn settle(run: Result<StepExecution, RuntimeError>) -> (r: StepExecution)
    ensures
        match run {
            Ok(execution) => r == execution,
            Err(err) => failed_with(r, err),
        },
{
    match run {
        Ok(execution) => execution,
        Err(err) => StepExecution {
            result: StepResult {
                success: false,
                response: None,
                err: Some(err.message),
                err_kind: Some(err.kind),
            },
            outputs: TextMap::new(),
            dry_run_request: None,
            trace: StepTraceData {
                request: None,
                response: None,
                criteria: Vec::new(),
                warnings: Vec::new(),
            },
        },
    }
}

} // verus!
