//! Decision logic of an Arazzo workflow runtime.

pub mod action_laws;
pub mod actions;
pub mod attempts;
pub mod breakpoints;
pub mod builder;
pub mod contexts;
pub mod controller;
pub mod criteria;
pub mod criterion_laws;
pub mod deps;
pub mod document_laws;
pub mod documents;
pub mod encoding_laws;
pub mod error;
pub mod exchange;
pub mod flow_laws;
pub mod hosts;
pub mod http_request;
pub mod http_url;
pub mod input_laws;
pub mod input_validation;
pub mod json;
pub mod json_equal;
pub mod json_laws;
pub mod json_pointer;
pub mod json_text;
pub mod levels;
pub mod local_laws;
pub mod locals;
pub mod model;
pub mod openapi;
pub mod operation_laws;
pub mod operations;
pub mod outcome;
pub mod patterns;
pub mod payload;
pub mod payload_laws;
pub mod recording;
pub mod redaction;
pub mod redaction_laws;
pub mod redirects;
pub mod reference_laws;
pub mod replay;
pub mod request_laws;
pub mod retries;
pub mod routing;
pub mod run_laws;
pub mod scheduler;
pub mod step_refs;
pub mod step_response;
pub mod subworkflows;
pub mod text;
pub mod text_map;
pub mod trace;
pub mod trace_laws;
pub mod transport;
pub mod transport_laws;
pub mod url_path;
pub mod vars;
pub mod view_laws;
pub mod web_url;
pub mod workflow_run;
pub mod xml_limits;
pub mod xpath;
pub mod xpath_arguments;
pub mod xpath_calls;
pub mod xpath_laws;
pub mod yaml;

use vstd::prelude::*;

verus! {

/// The version of the interface.
pub const INTERNAL_RUNTIME_API_VERSION: &'static str = "v1";

} // verus!
