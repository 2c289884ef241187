//! Requests and responses, and how they are traced.

use crate::json::{Json, JsonView};
use crate::outcome::{lossy, lossy_text, Response};
use crate::text::{concat2, copy_text};
use crate::trace::{
    copy_hops, copy_text_map, hop_views, text_map_view, ContentTypeView, HopView, TraceRequest,
    TraceResponse,
};
use crate::xpath::utf8_text;
use vstd::prelude::*;
use vstd::string::*;
use vstd::utf8::{encode_utf8_valid_utf8, valid_utf8};

verus! {

/// The content of a JSON value that may be missing.
pub open spec fn opt_json(v: Option<Json>) -> Option<JsonView> {
    match v {
        Some(j) => Some(j@),
        None => None,
    }
}

/// The content of a text that may be missing.
pub open spec fn opt_view(t: Option<String>) -> Option<Seq<char>> {
    match t {
        Some(s) => Some(s@),
        None => None,
    }
}

/// A JSON value that may be missing.
pub fn copy_json(v: &Option<Json>) -> (r: Option<Json>)
    ensures
        opt_json(r) == opt_json(*v),
{
    match v {
        Some(j) => Some(j.copy()),
        None => None,
    }
}

/// The content of a traced request.
#[verifier::ext_equal]
pub struct RequestTraceView {
    pub method: Seq<char>,
    pub url: Seq<char>,
    pub headers: Map<Seq<char>, Seq<char>>,
    pub body: Option<JsonView>,
    pub redirects: Seq<HopView>,
}

impl View for TraceRequest {
    type V = RequestTraceView;

    open spec fn view(&self) -> RequestTraceView {
        RequestTraceView {
            method: self.method@,
            url: self.url@,
            headers: text_map_view(self.headers),
            body: opt_json(self.body),
            redirects: hop_views(self.redirects@),
        }
    }
}

impl TraceRequest {
    /// The same request.
    pub fn copy(&self) -> (r: TraceRequest)
        ensures
            r@ == self@,
    {
        TraceRequest {
            method: self.method.clone(),
            url: self.url.clone(),
            headers: copy_text_map(&self.headers),
            body: copy_json(&self.body),
            redirects: copy_hops(&self.redirects),
        }
    }
}

/// The content of a traced response.
#[verifier::ext_equal]
pub struct ResponseTraceView {
    pub status_code: i64,
    pub content_type: ContentTypeView,
    pub headers: Map<Seq<char>, Seq<char>>,
    pub body_bytes: u64,
    pub body_preview: Option<Seq<char>>,
    pub body: Option<Seq<char>>,
    pub body_lossy: bool,
}

impl View for TraceResponse {
    type V = ResponseTraceView;

    open spec fn view(&self) -> ResponseTraceView {
        ResponseTraceView {
            status_code: self.status_code,
            content_type: self.content_type@,
            headers: text_map_view(self.headers),
            body_bytes: self.body_bytes,
            body_preview: opt_view(self.body_preview),
            body: opt_view(self.body),
            body_lossy: self.body_lossy,
        }
    }
}

impl TraceResponse {
    /// The same response.
    pub fn copy(&self) -> (r: TraceResponse)
        ensures
            r@ == self@,
    {
        TraceResponse {
            status_code: self.status_code,
            content_type: self.content_type.copy(),
            headers: copy_text_map(&self.headers),
            body_bytes: self.body_bytes,
            body_preview: copy_text(&self.body_preview),
            body: copy_text(&self.body),
            body_lossy: self.body_lossy,
        }
    }
}

/// The content of a response.
#[verifier::ext_equal]
pub struct ResponseView {
    pub status_code: i64,
    pub headers: Map<Seq<char>, Seq<char>>,
    pub body: Seq<u8>,
    pub body_json: Option<JsonView>,
    pub content_type: ContentTypeView,
    pub redirects: Seq<HopView>,
}

impl View for Response {
    type V = ResponseView;

    open spec fn view(&self) -> ResponseView {
        ResponseView {
            status_code: self.status_code,
            headers: text_map_view(self.headers),
            body: self.body@,
            body_json: opt_json(self.body_json),
            content_type: self.content_type@,
            redirects: hop_views(self.redirects@),
        }
    }
}

/// The same bytes.
pub fn copy_bytes(bytes: &Vec<u8>) -> (r: Vec<u8>)
    ensures
        r@ == bytes@,
{
    let mut out: Vec<u8> = Vec::new();
    let mut i: usize = 0;
    while i < bytes.len()
        invariant
            i <= bytes@.len(),
            out@ == bytes@.take(i as int),
        decreases bytes@.len() - i,
    {
        out.push(bytes[i]);
        assert(bytes@.take(i + 1) =~= bytes@.take(i as int).push(bytes@[i as int]));
        i = i + 1;
    }
    assert(bytes@.take(i as int) =~= bytes@);
    out
}

impl Response {
    /// The same response.
    pub fn copy(&self) -> (r: Response)
        ensures
            r@ == self@,
    {
        Response {
            status_code: self.status_code,
            headers: copy_text_map(&self.headers),
            body: copy_bytes(&self.body),
            body_json: copy_json(&self.body_json),
            content_type: self.content_type.copy(),
            redirects: copy_hops(&self.redirects),
        }
    }
}

// ---------------------------------------------------------------------
// Tracing a response
// ---------------------------------------------------------------------

/// The longest part of a body that a trace previews, in bytes.
pub const TRACE_BODY_PREVIEW_MAX_BYTES: usize = 2048;

/// The preview of a body: the text of its start, marked with dots where there
/// is more.
pub open spec fn preview(body: Seq<u8>) -> Seq<char> {
    if body.len() > TRACE_BODY_PREVIEW_MAX_BYTES {
        lossy(body.take(TRACE_BODY_PREVIEW_MAX_BYTES as int)) + "..."@
    } else {
        lossy(body)
    }
}

/// The preview of a body.
pub fn body_preview(body: &Vec<u8>) -> (r: String)
    ensures
        r@ == preview(body@),
{
    if body.len() > TRACE_BODY_PREVIEW_MAX_BYTES {
        let mut head: Vec<u8> = Vec::new();
        let mut i: usize = 0;
        while i < TRACE_BODY_PREVIEW_MAX_BYTES
            invariant
                i <= TRACE_BODY_PREVIEW_MAX_BYTES,
                TRACE_BODY_PREVIEW_MAX_BYTES < body@.len(),
                head@ == body@.take(i as int),
            decreases TRACE_BODY_PREVIEW_MAX_BYTES - i,
        {
            head.push(body[i]);
            assert(body@.take(i + 1) =~= body@.take(i as int).push(body@[i as int]));
            i = i + 1;
        }
        let text = lossy_text(head.as_slice());
        concat2(text.as_str(), "...")
    } else {
        lossy_text(body.as_slice())
    }
}

/// What is traced of a response. The text of a body that is no valid UTF-8 is
/// approximate, and marked so.
pub open spec fn response_traced(v: ResponseView) -> ResponseTraceView {
    ResponseTraceView {
        status_code: v.status_code,
        content_type: v.content_type,
        headers: v.headers,
        body_bytes: v.body.len() as u64,
        body_preview: if v.body.len() == 0 {
            None
        } else {
            Some(preview(v.body))
        },
        body: if v.body.len() == 0 {
            None
        } else {
            Some(lossy(v.body))
        },
        body_lossy: !valid_utf8(v.body),
    }
}

/// What is traced of a response.
pub fn build_trace_response(response: &Response) -> (r: TraceResponse)
    ensures
        r@ == response_traced(response@),
{
    let body_lossy = match utf8_text(response.body.as_slice()) {
        Ok(s) => {
            proof {
                encode_utf8_valid_utf8(s@);
            }
            false
        },
        Err(_) => true,
    };
    let (preview_text, body) = if response.body.len() == 0 {
        (None, None)
    } else {
        (Some(body_preview(&response.body)), Some(lossy_text(response.body.as_slice())))
    };
    TraceResponse {
        status_code: response.status_code,
        content_type: response.content_type.copy(),
        headers: copy_text_map(&response.headers),
        body_bytes: response.body.len() as u64,
        body_preview: preview_text,
        body,
        body_lossy,
    }
}

} // verus!
