//! Answering requests from a recorded trace.

use crate::error::{ErrorView, RuntimeError, RuntimeErrorKind};
use crate::exchange::{
    opt_json, opt_view, response_traced, RequestTraceView, ResponseTraceView, ResponseView,
};
use crate::json::{view_by_variant, Json, JsonView};
use crate::json_equal::{same_json, same_values};
use crate::json_text::{parse_json, parsed_json};
use crate::outcome::Response;
use crate::text::{
    concat5, copy_text, decimal, decimal_text, eq_ignore_case, join_texts, joined,
    same_ignoring_case, same_text, texts,
};
use crate::text_map::TextMap;
use crate::trace::{
    copy_hops, text_map_view, ContentType, ContentTypeView, HopView, TraceRequest, TraceResponse,
    TraceStepRecord,
};
use crate::xpath::{debug_quote, debug_quoted, utf8_text};
use vstd::prelude::*;
use vstd::string::*;
use vstd::utf8::{
    decode_utf8_encode_utf8, encode_utf8, encode_utf8_decode_utf8, encode_utf8_valid_utf8,
    valid_utf8,
};

verus! {

/// One request to be sent.
#[derive(Debug, PartialEq)]
pub struct RequestConfig {
    pub workflow_id: String,
    pub step_id: String,
    pub method: String,
    pub url: String,
    pub headers: TextMap<String>,
    pub body: Option<Vec<u8>>,
}

/// One recorded request of a step.
#[derive(Debug, PartialEq)]
pub struct ReplayRecord {
    pub workflow_id: String,
    pub step_id: String,
    pub seq: u64,
    pub attempt: u32,
    pub request: TraceRequest,
    pub response: Option<TraceResponse>,
    pub error: Option<String>,
    /// Whether it has been handed out.
    pub used: bool,
}

/// The content of a recorded request. Whether it has been handed out is apart.
#[verifier::ext_equal]
pub struct RecordView {
    pub workflow_id: Seq<char>,
    pub step_id: Seq<char>,
    pub seq: u64,
    pub attempt: u32,
    pub request: RequestTraceView,
    pub response: Option<ResponseTraceView>,
    pub error: Option<Seq<char>>,
}

impl View for ReplayRecord {
    type V = RecordView;

    open spec fn view(&self) -> RecordView {
        RecordView {
            workflow_id: self.workflow_id@,
            step_id: self.step_id@,
            seq: self.seq,
            attempt: self.attempt,
            request: self.request@,
            response: opt_response_trace(self.response),
            error: opt_view(self.error),
        }
    }
}

/// The content of a traced response that may be missing.
pub open spec fn opt_response_trace(r: Option<TraceResponse>) -> Option<ResponseTraceView> {
    match r {
        Some(t) => Some(t@),
        None => None,
    }
}

/// The recorded requests, in their order, those of each step being handed out
/// one after the other.
#[derive(Debug, PartialEq)]
pub struct ReplayState {
    pub records: Vec<ReplayRecord>,
}

/// The content of the recorded requests.
pub open spec fn record_views(list: Seq<ReplayRecord>) -> Seq<RecordView> {
    list.map_values(|r: ReplayRecord| r@)
}

/// The requests that a trace recorded.
pub open spec fn recorded(steps: Seq<TraceStepRecord>) -> Seq<RecordView>
    decreases steps.len(),
{
    if steps.len() == 0 {
        Seq::empty()
    } else {
        let before = recorded(steps.drop_last());
        let s = steps.last();
        match s.request {
            Some(request) => before.push(
                RecordView {
                    workflow_id: s.workflow_id@,
                    step_id: s.step_id@,
                    seq: s.seq,
                    attempt: s.attempt,
                    request: request@,
                    response: opt_response_trace(s.response),
                    error: opt_view(s.error),
                },
            ),
            None => before,
        }
    }
}

impl ReplayState {
    /// Whether nothing has been handed out.
    pub open spec fn is_fresh(self) -> bool {
        forall|i: int| 0 <= i < self.records@.len() ==> !(#[trigger] self.records@[i]).used
    }

    /// The requests that a trace recorded, none of them handed out.
    pub fn from_trace_steps(steps: &Vec<TraceStepRecord>) -> (r: ReplayState)
        ensures
            record_views(r.records@) == recorded(steps@),
            r.is_fresh(),
    {
        let mut records: Vec<ReplayRecord> = Vec::new();
        let mut i: usize = 0;
        assert(record_views(records@) =~= recorded(steps@.take(0)));
        while i < steps.len()
            invariant
                i <= steps@.len(),
                record_views(records@) == recorded(steps@.take(i as int)),
                forall|j: int| 0 <= j < records@.len() ==> !(#[trigger] records@[j]).used,
            decreases steps@.len() - i,
        {
            assert(steps@.take(i + 1).drop_last() =~= steps@.take(i as int));
            let ghost before = records@;
            let step = &steps[i];
            match &step.request {
                Some(request) => {
                    let record = ReplayRecord {
                        workflow_id: step.workflow_id.clone(),
                        step_id: step.step_id.clone(),
                        seq: step.seq,
                        attempt: step.attempt,
                        request: request.copy(),
                        response: match &step.response {
                            Some(t) => Some(t.copy()),
                            None => None,
                        },
                        error: copy_text(&step.error),
                        used: false,
                    };
                    let ghost v = record@;
                    records.push(record);
                    assert(record_views(records@) =~= record_views(before).push(v));
                },
                None => {},
            }
            i = i + 1;
        }
        assert(steps@.take(i as int) =~= steps@);
        ReplayState { records }
    }
}

// ---------------------------------------------------------------------
// Comparing requests
// ---------------------------------------------------------------------

fn holds_entries(a: &TextMap<String>, b: &TextMap<String>) -> (r: bool)
    ensures
        r == (forall|k: Seq<char>|
            text_map_view(*a).contains_key(k) ==> #[trigger] text_map_view(*b).contains_key(k)
                && text_map_view(*b)[k] == text_map_view(*a)[k]),
{
    let count = a.len();
    let mut i: usize = 0;
    while i < count
        invariant
            i <= count,
            count == a.keys().len(),
            a.wf(),
            forall|j: int|
                0 <= j < i ==> b@.contains_key(#[trigger] a.keys()[j]) && b@[a.keys()[j]]@
                    == a.values()[j]@,
        decreases count - i,
    {
        let key = a.key_at(i);
        let value = a.value_at(i);
        proof {
            crate::text_map::entries_are_pairs(*a, i as int);
            assert(a@.dom().contains(a.keys()[i as int]));
        }
        let same = match b.get(key.as_str()) {
            Some(v) => same_text(v.as_str(), value.as_str()),
            None => false,
        };
        if !same {
            assert(text_map_view(*a).contains_key(key@));
            assert(text_map_view(*b).contains_key(key@) ==> text_map_view(*b)[key@]
                != text_map_view(*a)[key@]);
            return false;
        }
        i = i + 1;
    }
    assert forall|k: Seq<char>| text_map_view(*a).contains_key(k) implies #[trigger] text_map_view(
        *b,
    ).contains_key(k) && text_map_view(*b)[k] == text_map_view(*a)[k] by {
        assert(a.keys().contains(k));
        let j = a.keys().index_of(k);
        assert(a.keys()[j] == k);
        crate::text_map::entries_are_pairs(*a, j);
    }
    true
}

/// Whether two maps hold the same texts.
pub fn same_text_map(a: &TextMap<String>, b: &TextMap<String>) -> (r: bool)
    ensures
        r == (text_map_view(*a) == text_map_view(*b)),
{
    let r = holds_entries(a, b) && holds_entries(b, a);
    proof {
        let x = text_map_view(*a);
        let y = text_map_view(*b);
        if r {
            assert forall|k: Seq<char>| x.contains_key(k) == y.contains_key(k) by {
                assert(text_map_view(*b).contains_key(k) || !text_map_view(*b).contains_key(k));
            }
            assert(x =~= y);
        }
    }
    r
}

/// The members of a map of texts, as they are shown for debugging.
pub open spec fn shown_members(m: TextMap<String>) -> Seq<Seq<char>> {
    Seq::new(
        m.keys().len(),
        |i: int| debug_quoted(m.keys()[i]) + ": "@ + debug_quoted(m.values()[i]@),
    )
}

/// A map of texts, as it is shown for debugging.
pub open spec fn shown_map(m: TextMap<String>) -> Seq<char> {
    "{"@ + joined(shown_members(m), ", "@) + "}"@
}

fn show_map(m: &TextMap<String>) -> (r: String)
    ensures
        r@ == shown_map(*m),
{
    let count = m.len();
    let mut members: Vec<String> = Vec::new();
    let mut i: usize = 0;
    while i < count
        invariant
            i <= count,
            count == m.keys().len(),
            m.wf(),
            members@.len() == i,
            forall|j: int|
                0 <= j < i ==> (#[trigger] members@[j])@ == debug_quoted(m.keys()[j]) + ": "@
                    + debug_quoted(m.values()[j]@),
        decreases count - i,
    {
        let key = debug_quote(m.key_at(i).as_str());
        let value = debug_quote(m.value_at(i).as_str());
        members.push(crate::text::concat3(key.as_str(), ": ", value.as_str()));
        i = i + 1;
    }
    assert(texts(members@) =~= shown_members(*m));
    let inner = join_texts(&members, ", ");
    crate::text::concat3("{", inner.as_str(), "}")
}

/// Whether a body is the one that was recorded: as JSON where it is JSON,
/// else as text.
pub open spec fn body_matches(expected: Option<JsonView>, actual: Option<Seq<u8>>) -> bool {
    match (expected, actual) {
        (None, None) => true,
        (Some(e), Some(bytes)) => match parsed_json(bytes) {
            Some(p) => same_values(p, e),
            None => match e {
                JsonView::Text(s) => bytes == encode_utf8(s),
                _ => false,
            },
        },
        _ => false,
    }
}

/// The content of bytes that may be missing.
pub open spec fn opt_bytes(b: Option<Vec<u8>>) -> Option<Seq<u8>> {
    match b {
        Some(v) => Some(v@),
        None => None,
    }
}

/// Whether a body is the one that was recorded.
pub fn replay_body_matches(expected: &Option<Json>, actual: &Option<Vec<u8>>) -> (r: bool)
    ensures
        r == body_matches(opt_json(*expected), opt_bytes(*actual)),
{
    broadcast use view_by_variant;

    match (expected, actual) {
        (None, None) => true,
        (Some(e), Some(bytes)) => match parse_json(bytes.as_slice()) {
            Some(p) => same_json(&p, e),
            None => match e {
                Json::Text(s) => match utf8_text(bytes.as_slice()) {
                    Ok(text) => {
                        proof {
                            encode_utf8_decode_utf8(text@);
                            encode_utf8_decode_utf8(s@);
                        }
                        same_text(text.as_str(), s.as_str())
                    },
                    Err(_) => {
                        proof {
                            encode_utf8_valid_utf8(s@);
                        }
                        false
                    },
                },
                _ => false,
            },
        },
        _ => false,
    }
}

/// The beginning of a message about a request that is not the recorded one.
pub open spec fn drift(seq: u64, attempt: u32) -> Seq<char> {
    "replay request drift at seq "@ + decimal(seq as nat) + " attempt "@ + decimal(attempt as nat)
}

pub open spec fn mismatch(message: Seq<char>) -> ErrorView {
    ErrorView { kind: RuntimeErrorKind::ReplayRequestMismatch, message }
}

/// How a request differs from the recorded one, in the order in which the
/// parts are compared.
pub open spec fn request_drift(
    expected: TraceRequest,
    actual: RequestConfig,
    seq: u64,
    attempt: u32,
) -> Option<ErrorView> {
    let opening = drift(seq, attempt);
    if !same_ignoring_case(expected.method@, actual.method@) {
        Some(
            mismatch(
                opening + ": method expected \""@ + expected.method@ + "\" got \""@ + actual.method@
                    + "\""@,
            ),
        )
    } else if expected.url@ != actual.url@ {
        Some(
            mismatch(
                opening + ": url expected \""@ + expected.url@ + "\" got \""@ + actual.url@ + "\""@,
            ),
        )
    } else if text_map_view(expected.headers) != text_map_view(actual.headers) {
        Some(
            mismatch(
                opening + ": headers expected "@ + shown_map(expected.headers) + " got "@
                    + shown_map(actual.headers),
            ),
        )
    } else if !body_matches(opt_json(expected.body), opt_bytes(actual.body)) {
        Some(mismatch(opening + ": request body mismatch"@))
    } else {
        None
    }
}

fn drift_text(seq: u64, attempt: u32) -> (r: String)
    ensures
        r@ == drift(seq, attempt),
{
    let s = decimal_text(seq);
    let a = decimal_text(attempt as u64);
    let mut text = "replay request drift at seq ".to_owned();
    text.append(s.as_str());
    text.append(" attempt ");
    text.append(a.as_str());
    text
}

/// Checks that a request is the recorded one.
pub fn validate_replay_request(
    expected: &TraceRequest,
    actual: &RequestConfig,
    seq: u64,
    attempt: u32,
) -> (r: Result<(), RuntimeError>)
    ensures
        match request_drift(*expected, *actual, seq, attempt) {
            None => r is Ok,
            Some(e) => r matches Err(x) && x@ == e,
        },
{
    let mut message = drift_text(seq, attempt);
    if !eq_ignore_case(expected.method.as_str(), actual.method.as_str()) {
        message.append(": method expected \"");
        message.append(expected.method.as_str());
        message.append("\" got \"");
        message.append(actual.method.as_str());
        message.append("\"");
        return Err(RuntimeError::new(RuntimeErrorKind::ReplayRequestMismatch, message));
    }
    if !same_text(expected.url.as_str(), actual.url.as_str()) {
        message.append(": url expected \"");
        message.append(expected.url.as_str());
        message.append("\" got \"");
        message.append(actual.url.as_str());
        message.append("\"");
        return Err(RuntimeError::new(RuntimeErrorKind::ReplayRequestMismatch, message));
    }
    if !same_text_map(&expected.headers, &actual.headers) {
        let wanted = show_map(&expected.headers);
        let given = show_map(&actual.headers);
        message.append(": headers expected ");
        message.append(wanted.as_str());
        message.append(" got ");
        message.append(given.as_str());
        return Err(RuntimeError::new(RuntimeErrorKind::ReplayRequestMismatch, message));
    }
    if !replay_body_matches(&expected.body, &actual.body) {
        message.append(": request body mismatch");
        return Err(RuntimeError::new(RuntimeErrorKind::ReplayRequestMismatch, message));
    }
    Ok(())
}

// ---------------------------------------------------------------------
// Answering
// ---------------------------------------------------------------------

/// Whether a record is of a step.
pub open spec fn is_of(r: ReplayRecord, workflow: Seq<char>, step: Seq<char>) -> bool {
    r.workflow_id@ == workflow && r.step_id@ == step
}

/// The position of the first record of a step, at or after `from`, that has
/// not been handed out.
pub open spec fn next_record(
    list: Seq<ReplayRecord>,
    workflow: Seq<char>,
    step: Seq<char>,
    from: int,
) -> int
    decreases list.len() - from,
{
    if from >= list.len() {
        list.len() as int
    } else if is_of(list[from], workflow, step) && !list[from].used {
        from
    } else {
        next_record(list, workflow, step, from + 1)
    }
}

/// Whether a step has records at all.
pub open spec fn has_records(
    list: Seq<ReplayRecord>,
    workflow: Seq<char>,
    step: Seq<char>,
) -> bool {
    exists|i: int| 0 <= i < list.len() && is_of(#[trigger] list[i], workflow, step)
}

/// The refusal of a step without records, or without any left.
pub open spec fn exhausted(
    list: Seq<ReplayRecord>,
    workflow: Seq<char>,
    step: Seq<char>,
) -> ErrorView {
    ErrorView {
        kind: RuntimeErrorKind::ReplayTraceExhausted,
        message: if has_records(list, workflow, step) {
            "recorded replay requests exhausted for workflow \""@ + workflow + "\" step \""@ + step
                + "\""@
        } else {
            "no recorded replay request for workflow \""@ + workflow + "\" step \""@ + step + "\""@
        },
    }
}

/// The response that a traced one stands for.
pub open spec fn replayed(t: ResponseTraceView, redirects: Seq<HopView>) -> ResponseView {
    let body = match t.body {
        Some(b) => encode_utf8(b),
        None => match t.body_preview {
            Some(p) => encode_utf8(p),
            None => encode_utf8(Seq::empty()),
        },
    };
    ResponseView {
        status_code: t.status_code,
        headers: t.headers,
        body,
        body_json: match t.content_type {
            ContentTypeView::Json => parsed_json(body),
            _ => None,
        },
        content_type: t.content_type,
        redirects,
    }
}

/// The answer to a request from its record.
pub open spec fn record_answer(record: ReplayRecord, cfg: RequestConfig) -> Result<
    ResponseView,
    ErrorView,
> {
    match request_drift(record.request, cfg, record.seq, record.attempt) {
        Some(e) => Err(e),
        None => match record.response {
            Some(t) => Ok(replayed(t@, record.request@.redirects)),
            None => match record.error {
                Some(error) => Err(
                    ErrorView {
                        kind: RuntimeErrorKind::HttpRequest,
                        message: "replay trace request failed at seq "@ + decimal(
                            record.seq as nat,
                        ) + " (attempt "@ + decimal(record.attempt as nat) + "): "@ + error@,
                    },
                ),
                None => Err(
                    ErrorView {
                        kind: RuntimeErrorKind::ReplayResponseMissing,
                        message: "replay trace missing response for workflow \""@ + cfg.workflow_id@
                            + "\" step \""@ + cfg.step_id@ + "\" (seq "@ + decimal(
                            record.seq as nat,
                        ) + ")"@,
                    },
                ),
            },
        },
    }
}

/// Whether a request was answered from the records, which it left like this.
pub open spec fn answered_from(
    before: Seq<ReplayRecord>,
    after: Seq<ReplayRecord>,
    cfg: RequestConfig,
    answer: Result<ResponseView, ErrorView>,
) -> bool {
    let at = next_record(before, cfg.workflow_id@, cfg.step_id@, 0);
    if at < before.len() {
        &&& answer == record_answer(before[at], cfg)
        &&& after.len() == before.len()
        &&& after[at]@ == before[at]@
        &&& after[at].used
        &&& forall|i: int| 0 <= i < before.len() && i != at ==> after[i] == before[i]
    } else {
        &&& answer == Err::<ResponseView, ErrorView>(
            exhausted(before, cfg.workflow_id@, cfg.step_id@),
        )
        &&& after == before
    }
}

/// The content of an attempt to answer.
pub open spec fn answer_view(r: Result<Response, RuntimeError>) -> Result<ResponseView, ErrorView> {
    match r {
        Ok(x) => Ok(x@),
        Err(e) => Err(e@),
    }
}

/// The response that a traced one stands for.
fn replay_response(t: &TraceResponse, request: &TraceRequest) -> (r: Response)
    ensures
        r@ == replayed(t@, request@.redirects),
{
    let text: &str = match &t.body {
        Some(b) => b.as_str(),
        None => match &t.body_preview {
            Some(p) => p.as_str(),
            None => "",
        },
    };
    proof {
        reveal_strlit("");
        assert(""@ =~= Seq::<char>::empty());
    }
    let body = text.as_bytes_vec();
    let body_json = match &t.content_type {
        ContentType::Json => parse_json(body.as_slice()),
        _ => None,
    };
    Response {
        status_code: t.status_code,
        headers: crate::trace::copy_text_map(&t.headers),
        body,
        body_json,
        content_type: t.content_type.copy(),
        redirects: copy_hops(&request.redirects),
    }
}

impl ReplayState {
    /// The position of the next record of a step, or the refusal.
    fn find_next(&self, workflow: &str, step: &str) -> (r: Result<usize, RuntimeError>)
        ensures
            ({
                let at = next_record(self.records@, workflow@, step@, 0);
                match r {
                    Ok(i) => i == at && at < self.records@.len(),
                    Err(e) => at >= self.records@.len() && e@ == exhausted(
                        self.records@,
                        workflow@,
                        step@,
                    ),
                }
            }),
    {
        let mut known = false;
        let mut i: usize = 0;
        while i < self.records.len()
            invariant
                i <= self.records@.len(),
                next_record(self.records@, workflow@, step@, 0) == next_record(
                    self.records@,
                    workflow@,
                    step@,
                    i as int,
                ),
                known == (exists|j: int|
                    0 <= j < i && is_of(#[trigger] self.records@[j], workflow@, step@)),
            decreases self.records@.len() - i,
        {
            let record = &self.records[i];
            if same_text(record.workflow_id.as_str(), workflow) && same_text(
                record.step_id.as_str(),
                step,
            ) {
                assert(is_of(self.records@[i as int], workflow@, step@));
                if !record.used {
                    return Ok(i);
                }
                known = true;
            }
            i = i + 1;
        }
        let message = if known {
            concat5(
                "recorded replay requests exhausted for workflow \"",
                workflow,
                "\" step \"",
                step,
                "\"",
            )
        } else {
            concat5(
                "no recorded replay request for workflow \"",
                workflow,
                "\" step \"",
                step,
                "\"",
            )
        };
        Err(RuntimeError::new(RuntimeErrorKind::ReplayTraceExhausted, message))
    }

    /// Answers a request with the next record of its step, which is then used
    /// up, whether the request is the recorded one or not.
    pub fn replay_request(&mut self, cfg: &RequestConfig) -> (r: Result<Response, RuntimeError>)
        ensures
            answered_from(old(self).records@, final(self).records@, *cfg, answer_view(r)),
            ({
                let before = old(self).records@;
                let at = next_record(before, cfg.workflow_id@, cfg.step_id@, 0);
                if at < before.len() {
                    &&& answer_view(r) == record_answer(before[at], *cfg)
                    &&& final(self).records@.len() == before.len()
                    &&& final(self).records@[at]@ == before[at]@
                    &&& final(self).records@[at].used
                    &&& forall|i: int|
                        0 <= i < before.len() && i != at ==> final(self).records@[i] == before[i]
                } else {
                    &&& r matches Err(e) && e@ == exhausted(
                        before,
                        cfg.workflow_id@,
                        cfg.step_id@,
                    )
                    &&& final(self).records@ == before
                }
            }),
    {
        let ghost before = self.records@;
        let at = match self.find_next(cfg.workflow_id.as_str(), cfg.step_id.as_str()) {
            Ok(i) => i,
            Err(e) => {
                return Err(e);
            },
        };
        let record = &self.records[at];
        let r = match validate_replay_request(
            &record.request,
            cfg,
            record.seq,
            record.attempt,
        ) {
            Err(e) => Err(e),
            Ok(_) => match &record.response {
                Some(t) => Ok(replay_response(t, &record.request)),
                None => match &record.error {
                    Some(error) => {
                        let s = decimal_text(record.seq);
                        let a = decimal_text(record.attempt as u64);
                        let mut message = "replay trace request failed at seq ".to_owned();
                        message.append(s.as_str());
                        message.append(" (attempt ");
                        message.append(a.as_str());
                        message.append("): ");
                        message.append(error.as_str());
                        Err(RuntimeError::new(RuntimeErrorKind::HttpRequest, message))
                    },
                    None => {
                        let s = decimal_text(record.seq);
                        let mut message = "replay trace missing response for workflow \"".to_owned();
                        message.append(cfg.workflow_id.as_str());
                        message.append("\" step \"");
                        message.append(cfg.step_id.as_str());
                        message.append("\" (seq ");
                        message.append(s.as_str());
                        message.append(")");
                        Err(RuntimeError::new(RuntimeErrorKind::ReplayResponseMissing, message))
                    },
                },
            },
        };
        self.records[at].used = true;
        r
    }
}

/// What a step is answered with is taken from its records in their order: no
/// earlier record of the step is left over.
pub proof fn records_are_used_in_order(
    list: Seq<ReplayRecord>,
    workflow: Seq<char>,
    step: Seq<char>,
    from: int,
    i: int,
)
    requires
        0 <= from <= i < next_record(list, workflow, step, from),
        i < list.len(),
        is_of(list[i], workflow, step),
    ensures
        list[i].used,
    decreases list.len() - from,
{
    if from < i {
        records_are_used_in_order(list, workflow, step, from + 1, i);
    }
}

/// A response that was traced is replayed as it was, where its body is UTF-8;
/// its JSON is read from its body again.
pub proof fn traced_response_is_replayed(v: ResponseView)
    requires
        valid_utf8(v.body),
    ensures
        ({
            let again = replayed(response_traced(v), v.redirects);
            &&& again.status_code == v.status_code
            &&& again.headers == v.headers
            &&& again.body == v.body
            &&& again.content_type == v.content_type
            &&& again.redirects == v.redirects
            &&& again.body_json == match v.content_type {
                ContentTypeView::Json => parsed_json(v.body),
                _ => None,
            }
        }),
{
    if v.body.len() == 0 {
        assert(encode_utf8(Seq::empty()) =~= v.body);
    } else {
        decode_utf8_encode_utf8(v.body);
    }
}

} // verus!
