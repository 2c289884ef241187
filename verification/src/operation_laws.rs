//! What holds of operations that steps name by their ids, of what expressions
//! can see, and of breakpoints.

use crate::breakpoints::{stops_at, StepBreakpoint, StepCheckpoint};
use crate::contexts::{document_context, request_context, sources_seen, ContextView};
use crate::criterion_laws::{all_space, trimming_takes_white_space};
use crate::error::{ErrorView, RuntimeErrorKind};
use crate::http_request::PreparedView;
use crate::json::JsonView;
use crate::model::{SourceDescription, SourceType};
use crate::operations::{defined, of_source, unqualified, EntryView, OriginView, ServerView};
use crate::outcome::Response;
use crate::routing::{
    operation_named, operation_sources, source_from, OperationIdTarget, RequestIndex,
};
use crate::trace::text_map_view;
use crate::vars::VarsView;
use vstd::prelude::*;
use vstd::string::*;
use vstd::utf8::{decode_utf8, valid_utf8};

verus! {

// ---------------------------------------------------------------------
// Operations
// ---------------------------------------------------------------------

/// Whether definition `i` of a list is of a source.
pub open spec fn is_from(list: Seq<EntryView>, i: int, source: Option<Seq<char>>) -> bool {
    0 <= i < list.len() && match list[i].origin {
        OriginView::Source { name, path } => source == Some(name),
        OriginView::ExplicitSpec { ordinal } => source is None,
    }
}

proof fn of_source_is_empty(list: Seq<EntryView>, source: Option<Seq<char>>)
    requires
        forall|j: int| !is_from(list, j, source),
    ensures
        of_source(list, source).len() == 0,
    decreases list.len(),
{
    if list.len() > 0 {
        assert(!is_from(list, list.len() - 1, source));
        assert forall|j: int| !is_from(list.drop_last(), j, source) by {
            if 0 <= j < list.len() - 1 {
                assert(!is_from(list, j, source));
            }
        }
        of_source_is_empty(list.drop_last(), source);
    }
}

proof fn of_source_is_one(list: Seq<EntryView>, i: int, source: Option<Seq<char>>)
    requires
        is_from(list, i, source),
        forall|j: int| j != i ==> !is_from(list, j, source),
    ensures
        of_source(list, source) == seq![list[i]],
    decreases list.len(),
{
    let rest = list.drop_last();
    if i == list.len() - 1 {
        assert forall|j: int| !is_from(rest, j, source) by {
            if 0 <= j < rest.len() {
                assert(!is_from(list, j, source));
            }
        }
        of_source_is_empty(rest, source);
        assert(of_source(list, source) =~= seq![list[i]]);
    } else {
        assert(!is_from(list, list.len() - 1, source));
        assert(is_from(rest, i, source));
        assert forall|j: int| j != i implies !is_from(rest, j, source) by {
            if 0 <= j < rest.len() {
                assert(!is_from(list, j, source));
            }
        }
        of_source_is_one(rest, i, source);
    }
}

proof fn of_source_is_many(list: Seq<EntryView>, i: int, k: int, source: Option<Seq<char>>)
    requires
        i < k,
        is_from(list, i, source),
        is_from(list, k, source),
    ensures
        of_source(list, source).len() >= 2,
    decreases list.len(),
{
    let rest = list.drop_last();
    if k == list.len() - 1 {
        assert(is_from(rest, i, source));
        of_source_is_some(rest, i, source);
    } else {
        assert(is_from(rest, i, source));
        assert(is_from(rest, k, source));
        of_source_is_many(rest, i, k, source);
    }
}

proof fn of_source_is_some(list: Seq<EntryView>, i: int, source: Option<Seq<char>>)
    requires
        is_from(list, i, source),
    ensures
        of_source(list, source).len() >= 1,
    decreases list.len(),
{
    if i < list.len() - 1 {
        assert(is_from(list.drop_last(), i, source));
        of_source_is_some(list.drop_last(), i, source);
    }
}

proof fn source_is_found(list: Seq<SourceDescription>, name: Seq<char>, from: int)
    requires
        0 <= from <= list.len(),
    ensures
        from <= source_from(list, name, from) <= list.len(),
        source_from(list, name, from) < list.len() ==> list[source_from(list, name, from)].name@
            == name,
        forall|j: int|
            from <= j < source_from(list, name, from) ==> (#[trigger] list[j]).name@ != name,
    decreases list.len() - from,
{
    if from < list.len() && list[from].name@ != name {
        source_is_found(list, name, from + 1);
    }
}

/// An operation that is named with its source is the one that the document of
/// this source defines, at the server that it declares, else at the base of the
/// source. Definitions in other documents do not matter.
pub proof fn a_qualified_operation_is_found_in_its_source(
    index: RequestIndex,
    operations: Map<Seq<char>, Seq<EntryView>>,
    text: Seq<char>,
    form: OperationIdTarget,
    s: int,
    i: int,
)
    requires
        form matches OperationIdTarget::SourceQualified { source_name, operation_id } && {
            &&& 0 <= s < index.source_descriptions@.len()
            &&& index.source_descriptions@[s].name@ == source_name@
            &&& index.source_descriptions@[s].type_ is OpenApi
            &&& forall|j: int|
                0 <= j < s ==> (#[trigger] index.source_descriptions@[j]).name@ != source_name@
            &&& index.source_bases@.contains_key(source_name@)
            &&& operations.contains_key(operation_id@)
            &&& is_from(operations[operation_id@], i, Some(source_name@))
            &&& forall|j: int| j != i ==> !is_from(operations[operation_id@], j, Some(source_name@))
            &&& !(operations[operation_id@][i].server is Unusable)
        },
    ensures
        operation_named(
            index,
            Ok::<Map<Seq<char>, Seq<EntryView>>, ErrorView>(operations),
            text,
            form,
        ) matches Ok(r) && {
            let e = operations[form->SourceQualified_operation_id@][i];
            &&& r.method == e.method
            &&& r.path == e.path
            &&& e.server matches ServerView::Declared(b) ==> r.base == Some(b)
            &&& e.server is Inherited ==> r.base == Some(
                index.source_bases@[form->SourceQualified_source_name@]@,
            )
        },
{
    if let OperationIdTarget::SourceQualified { source_name, operation_id } = form {
        source_is_found(index.source_descriptions@, source_name@, 0);
        let at = source_from(index.source_descriptions@, source_name@, 0);
        if at < s {
            assert(index.source_descriptions@[at].name@ != source_name@);
        }
        if at > s {
            assert(index.source_descriptions@[s].name@ != source_name@);
        }
        of_source_is_one(operations[operation_id@], i, Some(source_name@));
    }
}

/// An operation that is named with its source is refused where there is no such
/// source, where the source is no OpenAPI document, and where its document does
/// not define the operation, or defines it more than once.
pub proof fn a_qualified_operation_is_refused_otherwise(
    index: RequestIndex,
    operations: Map<Seq<char>, Seq<EntryView>>,
    text: Seq<char>,
    form: OperationIdTarget,
    s: int,
    i: int,
    k: int,
)
    requires
        form is SourceQualified,
    ensures
        ({
            let name = form->SourceQualified_source_name@;
            let id = form->SourceQualified_operation_id@;
            let list = index.source_descriptions@;
            let r = operation_named(
                index,
                Ok::<Map<Seq<char>, Seq<EntryView>>, ErrorView>(operations),
                text,
                form,
            );
            let found = 0 <= s < list.len() && list[s].name@ == name && forall|j: int|
                0 <= j < s ==> (#[trigger] list[j]).name@ != name;
            &&& (forall|j: int| 0 <= j < list.len() ==> (#[trigger] list[j]).name@ != name) ==> (
            r matches Err(e) && e.kind == RuntimeErrorKind::SourceDescriptionNotFound)
            &&& found && !(list[s].type_ is OpenApi) ==> (r matches Err(e) && e.kind
                == RuntimeErrorKind::UnsupportedSourceDescriptionType)
            &&& found && list[s].type_ is OpenApi && index.source_bases@.contains_key(name) && (
            forall|j: int| !is_from(defined(operations, id), j, Some(name))) ==> (r matches Err(e)
                && e.kind == RuntimeErrorKind::OperationIdNotFound)
            &&& found && list[s].type_ is OpenApi && index.source_bases@.contains_key(name) && i < k
                && is_from(defined(operations, id), i, Some(name)) && is_from(
                defined(operations, id),
                k,
                Some(name),
            ) ==> (r matches Err(e) && e.kind == RuntimeErrorKind::OperationIdAmbiguous)
        }),
{
    let name = form->SourceQualified_source_name@;
    let id = form->SourceQualified_operation_id@;
    let list = index.source_descriptions@;
    source_is_found(list, name, 0);
    let at = source_from(list, name, 0);
    if 0 <= s < list.len() && list[s].name@ == name && forall|j: int|
        0 <= j < s ==> (#[trigger] list[j]).name@ != name {
        if at < s {
            assert(list[at].name@ != name);
        }
        if at > s {
            assert(list[s].name@ != name);
        }
    }
    if forall|j: int| !is_from(defined(operations, id), j, Some(name)) {
        of_source_is_empty(defined(operations, id), Some(name));
    }
    if i < k && is_from(defined(operations, id), i, Some(name)) && is_from(
        defined(operations, id),
        k,
        Some(name),
    ) {
        of_source_is_many(defined(operations, id), i, k, Some(name));
    }
}

proof fn one_source_at_most(list: Seq<SourceDescription>, k: int)
    requires
        forall|j: int|
            0 <= j < list.len() && j != k ==> (#[trigger] list[j]).type_ == SourceType::Arazzo,
    ensures
        operation_sources(list).len() <= 1,
        !(0 <= k < list.len()) ==> operation_sources(list).len() == 0,
    decreases list.len(),
{
    if list.len() > 0 {
        one_source_at_most(list.drop_last(), k);
        if k == list.len() - 1 {
            one_source_at_most(list.drop_last(), -1);
        } else {
            assert(list[list.len() - 1].type_ == SourceType::Arazzo);
        }
    }
}

/// An operation that is named by its id alone is the only one of that id, where
/// at most one source can define any. One that was provided by itself belongs to
/// no source, so it has no base of its own.
pub proof fn a_bare_operation_is_the_only_one(
    index: RequestIndex,
    operations: Map<Seq<char>, Seq<EntryView>>,
    text: Seq<char>,
    form: OperationIdTarget,
    k: int,
)
    requires
        form matches OperationIdTarget::Bare(id) && operations.contains_key(id@)
            && operations[id@].len() == 1 && !(operations[id@][0].server is Unusable),
        forall|j: int|
            0 <= j < index.source_descriptions@.len() && j != k ==> (
            #[trigger] index.source_descriptions@[j]).type_ == SourceType::Arazzo,
    ensures
        operation_named(
            index,
            Ok::<Map<Seq<char>, Seq<EntryView>>, ErrorView>(operations),
            text,
            form,
        ) matches Ok(r) && {
            let e = operations[form->Bare_0@][0];
            &&& r.method == e.method
            &&& r.path == e.path
            &&& e.origin is ExplicitSpec ==> r.base is None
            &&& e.origin matches OriginView::Source { name, path } ==> index.source_bases@.contains_key(
                name,
            ) ==> {
                &&& e.server matches ServerView::Declared(b) ==> r.base == Some(b)
                &&& e.server is Inherited ==> r.base == Some(index.source_bases@[name]@)
            }
        },
{
    if let OperationIdTarget::Bare(id) = form {
        one_source_at_most(index.source_descriptions@, k);
        let list = operations[id@];
        if list[0].origin is ExplicitSpec {
            of_source_is_one(list, 0, None);
        } else {
            assert forall|j: int| !is_from(list, j, None) by {}
            of_source_is_empty(list, None);
        }
    }
}

/// An operation that was provided by itself outranks those of a source.
pub proof fn a_provided_operation_outranks_the_others(list: Seq<EntryView>, i: int)
    requires
        is_from(list, i, None),
        forall|j: int| j != i ==> !is_from(list, j, None),
    ensures
        unqualified(list) == seq![list[i]],
{
    of_source_is_one(list, i, None);
}

/// An id that nothing defines names no operation, and a malformed one none
/// either.
pub proof fn an_unknown_operation_is_refused(
    index: RequestIndex,
    operations: Map<Seq<char>, Seq<EntryView>>,
    text: Seq<char>,
    form: OperationIdTarget,
)
    ensures
        form is Malformed ==> (operation_named(
            index,
            Ok::<Map<Seq<char>, Seq<EntryView>>, ErrorView>(operations),
            text,
            form,
        ) matches Err(e) && e.kind == RuntimeErrorKind::UnsupportedOperationIdForm),
        (form matches OperationIdTarget::Bare(id) && !operations.contains_key(id@)) ==> operation_named(
            index,
            Ok::<Map<Seq<char>, Seq<EntryView>>, ErrorView>(operations),
            text,
            form,
        ) is Err,
{
    if let OperationIdTarget::Bare(id) = form {
        if !operations.contains_key(id@) {
            assert(of_source(Seq::<EntryView>::empty(), None).len() == 0);
        }
    }
}

// ---------------------------------------------------------------------
// What expressions see
// ---------------------------------------------------------------------

proof fn last_source_is_seen(list: Seq<SourceDescription>, n: nat, i: int, name: Seq<char>)
    requires
        n <= list.len(),
        -1 <= i < n,
        0 <= i ==> list[i].name@ == name,
        forall|j: int| i < j < n ==> (#[trigger] list[j]).name@ != name,
    ensures
        sources_seen(list, n).contains_key(name) == (0 <= i),
        0 <= i ==> sources_seen(list, n)[name].url == list[i].url@,
        0 <= i ==> sources_seen(list, n)[name].type_ == (match list[i].type_ {
            SourceType::OpenApi => "openapi"@,
            SourceType::Arazzo => "arazzo"@,
            SourceType::AsyncApi => "asyncapi"@,
        }),
    decreases n,
{
    if n > 0 && i < n - 1 {
        assert(list[n - 1].name@ != name);
        last_source_is_seen(list, (n - 1) as nat, i, name);
    }
}

/// An expression sees what there is: the inputs, the outputs of every step and
/// the called workflows, and of a response the status, the headers and the
/// body, as JSON where it is JSON and else as text. Without a response it sees
/// none of it.
pub proof fn expressions_see_what_there_is(
    v: VarsView,
    response: Option<Response>,
    self_uri: Option<Seq<char>>,
    sources: Seq<SourceDescription>,
)
    ensures
        ({
            let c = document_context(v, response, self_uri, sources);
            &&& c.inputs == v.inputs
            &&& c.steps == v.steps
            &&& c.workflows == v.workflows
            &&& c.self_uri == self_uri
            &&& response is None ==> c.status_code is None && c.response_body is None
                && c.response_headers == Map::<Seq<char>, Seq<char>>::empty()
            &&& response matches Some(r) ==> {
                &&& c.status_code == Some(r.status_code)
                &&& c.response_headers == text_map_view(r.headers)
                &&& r.body_json matches Some(j) ==> c.response_body == Some(j@)
                &&& r.body_json is None && valid_utf8(r.body@) ==> c.response_body == Some(
                    JsonView::Text(decode_utf8(r.body@)),
                )
                &&& r.body_json is None && !valid_utf8(r.body@) ==> c.response_body is None
            }
            &&& c.method is None && c.url is None && c.request_body is None
        }),
{
}

/// An expression sees every source under its name, the last of a name, and no
/// other.
pub proof fn expressions_see_the_sources(
    v: VarsView,
    response: Option<Response>,
    self_uri: Option<Seq<char>>,
    sources: Seq<SourceDescription>,
    i: int,
    name: Seq<char>,
)
    requires
        -1 <= i < sources.len(),
        0 <= i ==> sources[i].name@ == name,
        forall|j: int| i < j < sources.len() ==> (#[trigger] sources[j]).name@ != name,
    ensures
        ({
            let m = document_context(v, response, self_uri, sources).source_descriptions;
            &&& m.contains_key(name) == (0 <= i)
            &&& 0 <= i ==> m[name].url == sources[i].url@
            &&& 0 <= i ==> m[name].type_ == (match sources[i].type_ {
                SourceType::OpenApi => "openapi"@,
                SourceType::Arazzo => "arazzo"@,
                SourceType::AsyncApi => "asyncapi"@,
            })
        }),
{
    last_source_is_seen(sources, sources.len(), i, name);
}

/// Behind a request an expression also sees the request as it was sent, and
/// everything that it saw before.
pub proof fn expressions_see_the_request(c: ContextView, prep: PreparedView)
    ensures
        ({
            let d = request_context(c, prep);
            &&& d.method == Some(prep.method)
            &&& d.url == Some(prep.url_result.url)
            &&& d.request_headers == prep.headers
            &&& d.request_query == prep.url_result.query_params
            &&& d.request_path == prep.url_result.path_params
            &&& d.request_body == prep.body_json
            &&& d.inputs == c.inputs
            &&& d.steps == c.steps
            &&& d.workflows == c.workflows
            &&& d.status_code == c.status_code
            &&& d.response_headers == c.response_headers
            &&& d.response_body == c.response_body
            &&& d.source_descriptions == c.source_descriptions
        }),
{
}

// ---------------------------------------------------------------------
// Breakpoints
// ---------------------------------------------------------------------

/// A breakpoint stops exactly at its own workflow, step and checkpoint, and
/// there where its condition holds, or it has none but white space.
pub proof fn a_breakpoint_stops_at_its_place(
    list: Seq<StepBreakpoint>,
    holds: Seq<bool>,
    i: int,
    workflow_id: Seq<char>,
    step_id: Seq<char>,
    checkpoint: StepCheckpoint,
)
    requires
        0 <= i < list.len(),
        holds.len() == list.len(),
    ensures
        stops_at(list, holds, i, workflow_id, step_id, checkpoint) == {
            &&& list[i].workflow_id@ == workflow_id
            &&& list[i].step_id@ == step_id
            &&& match (list[i].checkpoint, checkpoint) {
                (StepCheckpoint::Output { name: x }, StepCheckpoint::Output { name: y }) => x@
                    == y@,
                (x, y) => x == y,
            }
            &&& match list[i].condition {
                Some(c) => all_space(c@) || holds[i],
                None => true,
            }
        },
{
    if let Some(c) = list[i].condition {
        trimming_takes_white_space(c@, 0, 0);
    }
}

proof fn two_sources_at_least(list: Seq<SourceDescription>, i: int, k: int)
    requires
        0 <= i < k < list.len(),
        list[i].type_ != SourceType::Arazzo,
        list[k].type_ != SourceType::Arazzo,
    ensures
        operation_sources(list).len() >= 2,
    decreases list.len(),
{
    let rest = list.drop_last();
    if k == list.len() - 1 {
        one_source_at_least(rest, i);
    } else {
        assert(rest[i] == list[i] && rest[k] == list[k]);
        two_sources_at_least(rest, i, k);
    }
}

proof fn one_source_at_least(list: Seq<SourceDescription>, i: int)
    requires
        0 <= i < list.len(),
        list[i].type_ != SourceType::Arazzo,
    ensures
        operation_sources(list).len() >= 1,
    decreases list.len(),
{
    if i < list.len() - 1 {
        assert(list.drop_last()[i] == list[i]);
        one_source_at_least(list.drop_last(), i);
    }
}

/// An id alone is refused where two sources could define it, of whatever type
/// but Arazzo they are, even where only one does.
pub proof fn a_bare_operation_is_refused_among_sources(
    index: RequestIndex,
    operations: Result<Map<Seq<char>, Seq<EntryView>>, ErrorView>,
    text: Seq<char>,
    form: OperationIdTarget,
    i: int,
    k: int,
)
    requires
        form is Bare,
        0 <= i < k < index.source_descriptions@.len(),
        index.source_descriptions@[i].type_ != SourceType::Arazzo,
        index.source_descriptions@[k].type_ != SourceType::Arazzo,
    ensures
        operation_named(index, operations, text, form) matches Err(e) && e.kind
            == RuntimeErrorKind::OperationIdAmbiguous,
{
    two_sources_at_least(index.source_descriptions@, i, k);
}

/// An operation whose server cannot be used is refused.
pub proof fn an_unusable_server_is_refused(text: Seq<char>, e: EntryView, base: Seq<char>)
    ensures
        e.server is Unusable ==> (crate::routing::entry_request(text, e, base) matches Err(x)
            && x.kind == RuntimeErrorKind::SourceDescriptionParse),
        e.server is Inherited ==> (crate::routing::entry_request(text, e, base) matches Ok(o)
            && o.base == Some(base) && o.method == e.method && o.path == e.path),
        e.server matches ServerView::Declared(b) ==> (crate::routing::entry_request(
            text,
            e,
            base,
        ) matches Ok(o) && o.base == Some(b) && o.method == e.method && o.path == e.path),
{
}

} // verus!
