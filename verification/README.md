# arazzo_runtime

Decision logic of a runtime for Arazzo workflows, verified with Verus.

- `src/` is the library. It decides what a workflow does next, what a request
  looks like, whether a response is a success, where execution goes after a
  step, what is recorded and replayed. Every function has a contract over
  mathematical models of its data; the laws that tie functions together are
  public proof functions.
- `app/` is the engine around it. It sends requests, waits, reads files and
  streams events.
- `tests/` runs the library on concrete values.

The expression language is handed to the engine (`app/evaluator.rs`). The
library takes what expressions came to as plain values and decides from them.

| Area | Modules |
| --- | --- |
| Values | `text`, `text_map`, `json`, `json_text`, `json_equal`, `json_pointer` |
| Documents | `model`, `yaml`, `openapi`, `operations`, `documents`, `builder`, `routing` |
| Requests | `url_path`, `web_url`, `http_url`, `payload`, `xml_limits`, `xpath_calls`, `xpath_arguments`, `xpath`, `http_request` |
| Sending | `hosts`, `transport`, `redirects`, `exchange`, `replay` |
| Results | `patterns`, `criteria`, `step_response`, `outcome` |
| Control flow | `retries`, `actions`, `scheduler`, `levels`, `subworkflows`, `workflow_run`, `step_refs`, `deps` |
| What is known | `vars`, `contexts`, `locals`, `input_validation` |
| Debugging | `breakpoints`, `controller` |
| Reporting | `trace`, `attempts`, `recording`, `redaction`, `error` |
