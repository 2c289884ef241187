//! Reading OpenAPI documents: their operations and their servers.

use crate::error::{ErrorView, RuntimeError, RuntimeErrorKind};
use crate::operations::{
    defined, with_definition, EntryView, IssueView, OperationEntry, OperationIndex,
    OperationOrigin, OperationServer, OriginView, ServerIssue, ServerLevel, ServerView,
    UnusableServer,
};
use crate::text::{
    concat2, concat3, decimal, decimal_text, end_stripped, eq_ignore_case, replace_text,
    replaced_from, same_ignoring_case, stands_at, starts_with, strip_end, texts,
};
use crate::web_url::{is_relative_reference, relative_reference};
use crate::yaml::{
    as_items, as_pairs, as_text, get_member, get_text, items_in, member, member_text,
    pair_contents, pairs_in, read_yaml, text_in, yaml_content, yaml_contents, yaml_parsed, YamlView,
};
use vstd::prelude::*;
use vstd::string::*;

verus! {

// ---------------------------------------------------------------------
// Servers
// ---------------------------------------------------------------------

/// A server URL with the defaults of the first `n` variables filled in.
pub open spec fn variables_filled(
    url: Seq<char>,
    variables: Seq<(YamlView, YamlView)>,
    n: nat,
) -> Seq<char>
    decreases n,
{
    if n == 0 {
        url
    } else {
        let before = variables_filled(url, variables, (n - 1) as nat);
        match (text_in(variables[n - 1].0), member_text(variables[n - 1].1, "default"@)) {
            (Some(name), Some(default)) => replaced_from(
                before,
                0,
                "{"@ + name + "}"@,
                default,
            ),
            _ => before,
        }
    }
}

/// The URL of a server object, the defaults of its variables filled in; empty
/// where it has none.
pub open spec fn server_url(server: YamlView) -> Seq<char> {
    match member_text(server, "url"@) {
        Some(url) => match member(server, "variables"@) {
            Some(v) => match pairs_in(v) {
                Some(pairs) => if url.len() == 0 {
                    url
                } else {
                    variables_filled(url, pairs, pairs.len())
                },
                None => url,
            },
            None => url,
        },
        None => Seq::empty(),
    }
}

/// Whether a server object has a URL.
pub open spec fn has_server_url(server: YamlView) -> bool {
    member_text(server, "url"@) matches Some(url) && url.len() > 0
}

/// The URL of a server object, or nothing where it has none.
fn read_server_url(server: &serde_yaml_ng::Value) -> (r: Option<String>)
    ensures
        match r {
            Some(u) => has_server_url(yaml_content(*server)) && u@ == server_url(
                yaml_content(*server),
            ),
            None => !has_server_url(yaml_content(*server)),
        },
{
    let url = match get_text(server, "url") {
        Some(u) => u,
        None => {
            return None;
        },
    };
    if url.is_empty() {
        return None;
    }
    let ghost given = url@;
    let mut url = url.to_owned();
    match get_member(server, "variables") {
        Some(v) => match as_pairs(v) {
            Some(pairs) => {
                let ghost list = pair_contents(pairs@);
                let mut i: usize = 0;
                while i < pairs.len()
                    invariant
                        i <= pairs@.len(),
                        list == pair_contents(pairs@),
                        url@ == variables_filled(given, list, i as nat),
                    decreases pairs@.len() - i,
                {
                    let (key, variable) = pairs[i];
                    assert(list[i as int] == (yaml_content(*key), yaml_content(*variable)));
                    match (as_text(key), get_text(variable, "default")) {
                        (Some(name), Some(default)) => {
                            let template = concat3("{", name, "}");
                            proof {
                                reveal_strlit("{");
                            }
                            url = replace_text(url.as_str(), template.as_str(), default);
                        },
                        _ => {},
                    }
                    i = i + 1;
                }
                assert(list.len() == pairs@.len());
            },
            None => {},
        },
        None => {},
    }
    Some(url)
}

/// What the servers that an object declares come to: nothing where it
/// declares none or an empty list, else the base of the first or an issue.
pub open spec fn level_server(holder: YamlView) -> Option<Result<Seq<char>, IssueView>> {
    match member(holder, "servers"@) {
        None => None,
        Some(servers) => match items_in(servers) {
            None => Some(Err(IssueView::NotAnArray)),
            Some(items) => if items.len() == 0 {
                None
            } else if !has_server_url(items[0]) {
                Some(Err(IssueView::MissingUrl))
            } else if is_relative_reference(server_url(items[0])) {
                Some(Err(IssueView::Relative(server_url(items[0]))))
            } else {
                Some(Ok(end_stripped(server_url(items[0]), '/')))
            },
        },
    }
}

fn read_level_server(holder: &serde_yaml_ng::Value) -> (r: Option<Result<String, ServerIssue>>)
    ensures
        match r {
            None => level_server(yaml_content(*holder)) is None,
            Some(Ok(b)) => level_server(yaml_content(*holder)) == Some(
                Ok::<Seq<char>, IssueView>(b@),
            ),
            Some(Err(i)) => level_server(yaml_content(*holder)) == Some(
                Err::<Seq<char>, IssueView>(i@),
            ),
        },
{
    let servers = match get_member(holder, "servers") {
        Some(s) => s,
        None => {
            return None;
        },
    };
    match as_items(servers) {
        None => Some(Err(ServerIssue::NotAnArray)),
        Some(items) => {
            let ghost list = yaml_contents(items@);
            assert(list.len() == items@.len());
            if items.len() == 0 {
                return None;
            }
            assert(list[0] == yaml_content(items@[0]));
            match read_server_url(&items[0]) {
                None => Some(Err(ServerIssue::MissingUrl)),
                Some(url) => if relative_reference(url.as_str()) {
                    Some(Err(ServerIssue::Relative(url)))
                } else {
                    Some(Ok(strip_end(url.as_str(), '/')))
                },
            }
        },
    }
}

/// The server of an operation: that of the lowest level that declares one.
/// A document that was provided by itself has its servers read at no level.
pub open spec fn operation_server(
    item: YamlView,
    operation: YamlView,
    origin: OriginView,
) -> ServerView {
    if origin is ExplicitSpec {
        ServerView::Inherited
    } else {
        match level_server(operation) {
            Some(Ok(b)) => ServerView::Declared(b),
            Some(Err(i)) => ServerView::Unusable(ServerLevel::Operation, i),
            None => match level_server(item) {
                Some(Ok(b)) => ServerView::Declared(b),
                Some(Err(i)) => ServerView::Unusable(ServerLevel::PathItem, i),
                None => ServerView::Inherited,
            },
        }
    }
}

fn read_operation_server(
    item: &serde_yaml_ng::Value,
    operation: &serde_yaml_ng::Value,
    origin: &OperationOrigin,
) -> (r: OperationServer)
    ensures
        r@ == operation_server(yaml_content(*item), yaml_content(*operation), origin@),
{
    match origin {
        OperationOrigin::ExplicitSpec { ordinal: _ } => {
            return OperationServer::Inherited;
        },
        OperationOrigin::Source { name: _, path: _ } => {},
    }
    match read_level_server(operation) {
        Some(Ok(b)) => OperationServer::Declared(b),
        Some(Err(issue)) => OperationServer::Unusable(
            UnusableServer { level: ServerLevel::Operation, issue },
        ),
        None => match read_level_server(item) {
            Some(Ok(b)) => OperationServer::Declared(b),
            Some(Err(issue)) => OperationServer::Unusable(
                UnusableServer { level: ServerLevel::PathItem, issue },
            ),
            None => OperationServer::Inherited,
        },
    }
}

/// An error about the document of a source description.
pub open spec fn document_error(message: Seq<char>) -> ErrorView {
    ErrorView { kind: RuntimeErrorKind::SourceDescriptionParse, message }
}

/// The request base that a document declares for itself: the first of its
/// servers, which has to be absolute.
pub open spec fn servers_base(root: YamlView, source: Seq<char>, path: Seq<char>) -> Result<
    Seq<char>,
    ErrorView,
> {
    let none = Err(
        document_error(
            "sourceDescription \""@ + source + "\": OpenAPI document \""@ + path
                + "\" declares no servers[0].url; an absolute server URL is required to derive the request base"@,
        ),
    );
    match member(root, "servers"@) {
        None => none,
        Some(servers) => match items_in(servers) {
            None => none,
            Some(items) => if items.len() == 0 || !has_server_url(items[0]) {
                none
            } else {
                let url = server_url(items[0]);
                if stands_at(url, 0, "/"@) {
                    Err(
                        document_error(
                            "sourceDescription \""@ + source + "\": server URL \""@ + url
                                + "\" in OpenAPI document \""@ + path
                                + "\" is relative; an absolute URL is required to derive the request base"@,
                        ),
                    )
                } else {
                    Ok(end_stripped(url, '/'))
                }
            },
        },
    }
}

/// The content of an attempt to find a request base.
pub open spec fn base_view(r: Result<String, RuntimeError>) -> Result<Seq<char>, ErrorView> {
    match r {
        Ok(b) => Ok(b@),
        Err(e) => Err(e@),
    }
}

fn no_servers(source: &str, path: &str) -> (r: RuntimeError)
    ensures
        r@ == document_error(
            "sourceDescription \""@ + source@ + "\": OpenAPI document \""@ + path@
                + "\" declares no servers[0].url; an absolute server URL is required to derive the request base"@,
        ),
{
    let mut message = "sourceDescription \"".to_owned();
    message.append(source);
    message.append("\": OpenAPI document \"");
    message.append(path);
    message.append(
        "\" declares no servers[0].url; an absolute server URL is required to derive the request base",
    );
    RuntimeError::new(RuntimeErrorKind::SourceDescriptionParse, message)
}

/// The request base that a document declares for itself.
fn derive_servers_base(root: &serde_yaml_ng::Value, source: &str, path: &str) -> (r: Result<
    String,
    RuntimeError,
>)
    ensures
        base_view(r) == servers_base(yaml_content(*root), source@, path@),
{
    let servers = match get_member(root, "servers") {
        Some(s) => s,
        None => {
            return Err(no_servers(source, path));
        },
    };
    let items = match as_items(servers) {
        Some(i) => i,
        None => {
            return Err(no_servers(source, path));
        },
    };
    let ghost list = yaml_contents(items@);
    assert(list.len() == items@.len());
    if items.len() == 0 {
        return Err(no_servers(source, path));
    }
    assert(list[0] == yaml_content(items@[0]));
    let url = match read_server_url(&items[0]) {
        Some(u) => u,
        None => {
            return Err(no_servers(source, path));
        },
    };
    if starts_with(url.as_str(), "/") {
        let mut message = "sourceDescription \"".to_owned();
        message.append(source);
        message.append("\": server URL \"");
        message.append(url.as_str());
        message.append("\" in OpenAPI document \"");
        message.append(path);
        message.append(
            "\" is relative; an absolute URL is required to derive the request base",
        );
        return Err(RuntimeError::new(RuntimeErrorKind::SourceDescriptionParse, message));
    }
    Ok(strip_end(url.as_str(), '/'))
}

// ---------------------------------------------------------------------
// Operations
// ---------------------------------------------------------------------

/// The method that a key of a path item stands for.
pub open spec fn method_named(key: Seq<char>) -> Option<Seq<char>> {
    if same_ignoring_case(key, "get"@) {
        Some("GET"@)
    } else if same_ignoring_case(key, "post"@) {
        Some("POST"@)
    } else if same_ignoring_case(key, "put"@) {
        Some("PUT"@)
    } else if same_ignoring_case(key, "patch"@) {
        Some("PATCH"@)
    } else if same_ignoring_case(key, "delete"@) {
        Some("DELETE"@)
    } else if same_ignoring_case(key, "head"@) {
        Some("HEAD"@)
    } else if same_ignoring_case(key, "options"@) {
        Some("OPTIONS"@)
    } else if same_ignoring_case(key, "trace"@) {
        Some("TRACE"@)
    } else {
        None
    }
}

/// The method that a key of a path item stands for.
pub fn operation_method(key: &str) -> (r: Option<&'static str>)
    ensures
        match r {
            Some(m) => method_named(key@) == Some(m@),
            None => method_named(key@) is None,
        },
{
    if eq_ignore_case(key, "get") {
        Some("GET")
    } else if eq_ignore_case(key, "post") {
        Some("POST")
    } else if eq_ignore_case(key, "put") {
        Some("PUT")
    } else if eq_ignore_case(key, "patch") {
        Some("PATCH")
    } else if eq_ignore_case(key, "delete") {
        Some("DELETE")
    } else if eq_ignore_case(key, "head") {
        Some("HEAD")
    } else if eq_ignore_case(key, "options") {
        Some("OPTIONS")
    } else if eq_ignore_case(key, "trace") {
        Some("TRACE")
    } else {
        None
    }
}

/// The operation that one member of a path item defines: one that has a
/// method for its key and an `operationId`.
pub open spec fn operation_in(
    path: Seq<char>,
    item: YamlView,
    key: YamlView,
    value: YamlView,
    origin: OriginView,
) -> Option<(Seq<char>, EntryView)> {
    match text_in(key) {
        Some(k) => match method_named(k) {
            Some(method) => match member_text(value, "operationId"@) {
                Some(id) => if pairs_in(value) is Some && id.len() > 0 {
                    Some(
                        (
                            id,
                            EntryView {
                                method,
                                path,
                                origin,
                                server: operation_server(item, value, origin),
                            },
                        ),
                    )
                } else {
                    None
                },
                None => None,
            },
            None => None,
        },
        None => None,
    }
}

/// The operations of the first `n` members of a path item.
pub open spec fn item_operations(
    path: Seq<char>,
    item: YamlView,
    pairs: Seq<(YamlView, YamlView)>,
    origin: OriginView,
    n: nat,
) -> Seq<(Seq<char>, EntryView)>
    decreases n,
{
    if n == 0 {
        Seq::empty()
    } else {
        let before = item_operations(path, item, pairs, origin, (n - 1) as nat);
        match operation_in(path, item, pairs[n - 1].0, pairs[n - 1].1, origin) {
            Some(op) => before.push(op),
            None => before,
        }
    }
}

/// The operations of the first `n` paths.
pub open spec fn path_operations(
    paths: Seq<(YamlView, YamlView)>,
    origin: OriginView,
    n: nat,
) -> Seq<(Seq<char>, EntryView)>
    decreases n,
{
    if n == 0 {
        Seq::empty()
    } else {
        let before = path_operations(paths, origin, (n - 1) as nat);
        match (text_in(paths[n - 1].0), pairs_in(paths[n - 1].1)) {
            (Some(path), Some(pairs)) => before + item_operations(
                path,
                paths[n - 1].1,
                pairs,
                origin,
                pairs.len(),
            ),
            _ => before,
        }
    }
}

/// The operations of a document, each with its id, in their order.
pub open spec fn document_operations(root: YamlView, origin: OriginView) -> Seq<
    (Seq<char>, EntryView),
> {
    match member(root, "paths"@) {
        Some(paths) => match pairs_in(paths) {
            Some(pairs) => path_operations(pairs, origin, pairs.len()),
            None => Seq::empty(),
        },
        None => Seq::empty(),
    }
}

/// The contents of operations with their ids.
pub open spec fn named_views(list: Seq<(String, OperationEntry)>) -> Seq<(Seq<char>, EntryView)> {
    list.map_values(|p: (String, OperationEntry)| (p.0@, p.1@))
}

fn read_operation(
    path: &str,
    item: &serde_yaml_ng::Value,
    key: &serde_yaml_ng::Value,
    value: &serde_yaml_ng::Value,
    origin: &OperationOrigin,
) -> (r: Option<(String, OperationEntry)>)
    ensures
        match r {
            Some(op) => operation_in(
                path@,
                yaml_content(*item),
                yaml_content(*key),
                yaml_content(*value),
                origin@,
            ) == Some((op.0@, op.1@)),
            None => operation_in(
                path@,
                yaml_content(*item),
                yaml_content(*key),
                yaml_content(*value),
                origin@,
            ) is None,
        },
{
    let name = match as_text(key) {
        Some(k) => k,
        None => {
            return None;
        },
    };
    let method = match operation_method(name) {
        Some(m) => m,
        None => {
            return None;
        },
    };
    if as_pairs(value).is_none() {
        return None;
    }
    let id = match get_text(value, "operationId") {
        Some(i) => i,
        None => {
            return None;
        },
    };
    if id.is_empty() {
        return None;
    }
    Some(
        (
            id.to_owned(),
            OperationEntry {
                method: method.to_owned(),
                path: path.to_owned(),
                origin: origin.copy(),
                server: read_operation_server(item, value, origin),
            },
        ),
    )
}

/// Adds the operations of one path.
fn read_item(
    path: &str,
    item: &serde_yaml_ng::Value,
    pairs: &Vec<(&serde_yaml_ng::Value, &serde_yaml_ng::Value)>,
    origin: &OperationOrigin,
    found: &mut Vec<(String, OperationEntry)>,
)
    ensures
        named_views(final(found)@) == named_views(old(found)@) + item_operations(
            path@,
            yaml_content(*item),
            pair_contents(pairs@),
            origin@,
            pairs@.len(),
        ),
{
    let ghost given = named_views(found@);
    let ghost list = pair_contents(pairs@);
    let ghost it = yaml_content(*item);
    let mut i: usize = 0;
    assert(named_views(found@) =~= given + item_operations(path@, it, list, origin@, 0));
    while i < pairs.len()
        invariant
            i <= pairs@.len(),
            list == pair_contents(pairs@),
            it == yaml_content(*item),
            named_views(found@) == given + item_operations(path@, it, list, origin@, i as nat),
        decreases pairs@.len() - i,
    {
        let (key, value) = pairs[i];
        assert(list[i as int] == (yaml_content(*key), yaml_content(*value)));
        let ghost before = found@;
        match read_operation(path, item, key, value, origin) {
            Some(op) => {
                let ghost added = (op.0@, op.1@);
                found.push(op);
                assert(named_views(found@) =~= named_views(before).push(added));
                assert((given + item_operations(path@, it, list, origin@, i as nat)).push(added)
                    =~= given + item_operations(path@, it, list, origin@, (i + 1) as nat));
            },
            None => {},
        }
        i = i + 1;
    }
}

/// The operations of a document.
fn read_operations(root: &serde_yaml_ng::Value, origin: &OperationOrigin) -> (r: Vec<
    (String, OperationEntry),
>)
    ensures
        named_views(r@) == document_operations(yaml_content(*root), origin@),
{
    let mut found: Vec<(String, OperationEntry)> = Vec::new();
    assert(named_views(found@) =~= Seq::<(Seq<char>, EntryView)>::empty());
    let paths = match get_member(root, "paths") {
        Some(p) => p,
        None => {
            return found;
        },
    };
    let pairs = match as_pairs(paths) {
        Some(p) => p,
        None => {
            return found;
        },
    };
    let ghost list = pair_contents(pairs@);
    let mut i: usize = 0;
    while i < pairs.len()
        invariant
            i <= pairs@.len(),
            list == pair_contents(pairs@),
            named_views(found@) == path_operations(list, origin@, i as nat),
        decreases pairs@.len() - i,
    {
        let (key, item) = pairs[i];
        assert(list[i as int] == (yaml_content(*key), yaml_content(*item)));
        match (as_text(key), as_pairs(item)) {
            (Some(path), Some(members)) => {
                assert(pair_contents(members@).len() == members@.len());
                read_item(path, item, &members, origin, &mut found);
            },
            _ => {},
        }
        i = i + 1;
    }
    assert(list.len() == pairs@.len());
    found
}

// ---------------------------------------------------------------------
// Indexing
// ---------------------------------------------------------------------

/// The warning that a definition of a document that was provided by itself
/// outranks that of a source description.
pub open spec fn override_note(
    id: Seq<char>,
    earlier: Seq<EntryView>,
    new: OriginView,
) -> Option<Seq<char>> {
    if earlier.len() == 0 {
        None
    } else {
        match (earlier.last().origin, new) {
            (OriginView::Source { name, path }, OriginView::ExplicitSpec { ordinal }) => Some(
                "operationId \""@ + id + "\" from sourceDescription \""@ + name + "\" ("@ + path
                    + ") is overridden by explicitly provided OpenAPI spec #"@ + decimal(
                    ordinal as nat,
                ),
            ),
            _ => None,
        }
    }
}

fn source_override(id: &str, previous: Option<&OperationOrigin>, new: &OperationOrigin) -> (r:
    Option<String>)
    ensures
        ({
            let note = match (previous, new@) {
                (
                    Some(OperationOrigin::Source { name, path }),
                    OriginView::ExplicitSpec { ordinal },
                ) => Some(
                    "operationId \""@ + id@ + "\" from sourceDescription \""@ + name@ + "\" ("@
                        + path@ + ") is overridden by explicitly provided OpenAPI spec #"@
                        + decimal(ordinal as nat),
                ),
                _ => None,
            };
            match r {
                Some(t) => note == Some(t@),
                None => note is None,
            }
        }),
{
    match (previous, new) {
        (
            Some(OperationOrigin::Source { name, path }),
            OperationOrigin::ExplicitSpec { ordinal },
        ) => {
            let mut note = "operationId \"".to_owned();
            note.append(id);
            note.append("\" from sourceDescription \"");
            note.append(name.as_str());
            note.append("\" (");
            note.append(path.as_str());
            note.append(") is overridden by explicitly provided OpenAPI spec #");
            let number = decimal_text(*ordinal as u64);
            note.append(number.as_str());
            Some(note)
        },
        _ => None,
    }
}

/// An index, and the warnings that building it left.
#[verifier::ext_equal]
pub struct IndexView {
    pub operations: Map<Seq<char>, Seq<EntryView>>,
    pub warnings: Seq<Seq<char>>,
}

/// An index with one more operation.
pub open spec fn operation_added(v: IndexView, op: (Seq<char>, EntryView)) -> IndexView {
    IndexView {
        operations: with_definition(v.operations, op.0, op.1),
        warnings: match override_note(op.0, defined(v.operations, op.0), op.1.origin) {
            Some(note) => v.warnings.push(note),
            None => v.warnings,
        },
    }
}

/// An index with the first `n` operations of a list.
pub open spec fn operations_added(
    v: IndexView,
    ops: Seq<(Seq<char>, EntryView)>,
    n: nat,
) -> IndexView
    decreases n,
{
    if n == 0 {
        v
    } else {
        operation_added(operations_added(v, ops, (n - 1) as nat), ops[n - 1])
    }
}

/// An index with the operations of a document.
pub open spec fn document_indexed(v: IndexView, root: YamlView, origin: OriginView) -> IndexView {
    let ops = document_operations(root, origin);
    operations_added(v, ops, ops.len())
}

/// Adds the operations of a document to an index, and says which definitions
/// of source descriptions they outrank.
fn index_operations(
    root: &serde_yaml_ng::Value,
    origin: &OperationOrigin,
    index: &mut OperationIndex,
    warnings: &mut Vec<String>,
)
    ensures
        ({
            let after = document_indexed(
                IndexView { operations: old(index)@, warnings: texts(old(warnings)@) },
                yaml_content(*root),
                origin@,
            );
            final(index)@ == after.operations && texts(final(warnings)@) == after.warnings
        }),
{
    let ghost start = IndexView { operations: index@, warnings: texts(warnings@) };
    let found = read_operations(root, origin);
    let ghost ops = named_views(found@);
    let ghost list = found@;
    for op in it: found
        invariant
            it.seq() == list,
            ops == named_views(list),
            ({
                let after = operations_added(start, ops, it.index() as nat);
                index@ == after.operations && texts(warnings@) == after.warnings
            }),
    {
        let ghost i = it.index() as int;
        assert(ops[i] == (op.0@, op.1@));
        let ghost before = warnings@;
        let note = source_override(
            op.0.as_str(),
            index.last_origin(op.0.as_str()),
            &op.1.origin,
        );
        match note {
            Some(text) => {
                let ghost t = text@;
                warnings.push(text);
                assert(texts(warnings@) =~= texts(before).push(t));
            },
            None => {},
        }
        index.push(op.0, op.1);
    }
    assert(ops.len() == list.len());
}

/// Adds the operations of an OpenAPI document to an index.
pub fn parse_openapi_into_index(
    data: &[u8],
    origin: &OperationOrigin,
    index: &mut OperationIndex,
    warnings: &mut Vec<String>,
) -> (r: Result<(), RuntimeError>)
    ensures
        match yaml_parsed(data@) {
            Ok(root) => {
                let after = document_indexed(
                    IndexView { operations: old(index)@, warnings: texts(old(warnings)@) },
                    root,
                    origin@,
                );
                r is Ok && final(index)@ == after.operations && texts(final(warnings)@)
                    == after.warnings
            },
            Err(e) => r matches Err(err) && err@ == document_error("parsing OpenAPI spec: "@ + e)
                && final(index)@ == old(index)@ && texts(final(warnings)@) == texts(old(warnings)@),
        },
{
    let root = match read_yaml(data) {
        Ok(root) => root,
        Err(e) => {
            return Err(
                RuntimeError::new(
                    RuntimeErrorKind::SourceDescriptionParse,
                    concat2("parsing OpenAPI spec: ", e.as_str()),
                ),
            );
        },
    };
    index_operations(&root, origin, index, warnings);
    Ok(())
}

/// The origin of the operations of a source description.
pub open spec fn source_origin(source: Seq<char>, path: Seq<char>) -> OriginView {
    OriginView::Source { name: source, path }
}

/// Reads the document of a source description: adds its operations to an
/// index and gives its request base.
pub fn load_source_document(
    source: &str,
    path: &str,
    data: &[u8],
    index: &mut OperationIndex,
    warnings: &mut Vec<String>,
) -> (r: Result<String, RuntimeError>)
    ensures
        match yaml_parsed(data@) {
            Ok(root) => {
                let after = document_indexed(
                    IndexView { operations: old(index)@, warnings: texts(old(warnings)@) },
                    root,
                    source_origin(source@, path@),
                );
                base_view(r) == servers_base(root, source@, path@) && final(index)@
                    == after.operations && texts(final(warnings)@) == after.warnings
            },
            Err(e) => r matches Err(err) && err@ == document_error(
                "sourceDescription \""@ + source@ + "\": parsing OpenAPI document \""@ + path@
                    + "\": "@ + e,
            ) && final(index)@ == old(index)@ && texts(final(warnings)@) == texts(old(warnings)@),
        },
{
    let root = match read_yaml(data) {
        Ok(root) => root,
        Err(e) => {
            let mut message = "sourceDescription \"".to_owned();
            message.append(source);
            message.append("\": parsing OpenAPI document \"");
            message.append(path);
            message.append("\": ");
            message.append(e.as_str());
            return Err(RuntimeError::new(RuntimeErrorKind::SourceDescriptionParse, message));
        },
    };
    let origin = OperationOrigin::Source { name: source.to_owned(), path: path.to_owned() };
    index_operations(&root, &origin, index, warnings);
    derive_servers_base(&root, source, path)
}

/// Every operation that a document defines comes from that document.
pub proof fn operations_keep_their_origin(root: YamlView, origin: OriginView)
    ensures
        forall|i: int|
            0 <= i < document_operations(root, origin).len() ==> (#[trigger] document_operations(
                root,
                origin,
            )[i]).1.origin == origin,
{
    assert forall|i: int| 0 <= i < document_operations(root, origin).len() implies (
    #[trigger] document_operations(root, origin)[i]).1.origin == origin by {
        let pairs = pairs_in(member(root, "paths"@)->0)->0;
        path_operations_keep_origin(pairs, origin, pairs.len(), i);
    }
}

proof fn path_operations_keep_origin(
    paths: Seq<(YamlView, YamlView)>,
    origin: OriginView,
    n: nat,
    i: int,
)
    requires
        0 <= i < path_operations(paths, origin, n).len(),
    ensures
        path_operations(paths, origin, n)[i].1.origin == origin,
    decreases n,
{
    let before = path_operations(paths, origin, (n - 1) as nat);
    if i < before.len() {
        path_operations_keep_origin(paths, origin, (n - 1) as nat, i);
    } else {
        let path = text_in(paths[n - 1].0)->0;
        let pairs = pairs_in(paths[n - 1].1)->0;
        item_operations_keep_origin(
            path,
            paths[n - 1].1,
            pairs,
            origin,
            pairs.len(),
            i - before.len(),
        );
    }
}

proof fn item_operations_keep_origin(
    path: Seq<char>,
    item: YamlView,
    pairs: Seq<(YamlView, YamlView)>,
    origin: OriginView,
    n: nat,
    i: int,
)
    requires
        0 <= i < item_operations(path, item, pairs, origin, n).len(),
    ensures
        item_operations(path, item, pairs, origin, n)[i].1.origin == origin,
    decreases n,
{
    if i < item_operations(path, item, pairs, origin, (n - 1) as nat).len() {
        item_operations_keep_origin(path, item, pairs, origin, (n - 1) as nat, i);
    }
}

} // verus!
