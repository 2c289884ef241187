//! What holds of the documents that sources name, and of what is found in them.

use crate::builder::{document_loaded, read_at, sources_loaded, workflow_at, SourceRead};
use crate::documents::{
    answering_from, binding, identity, names_file, own_text, path_joined, source_files, source_uri, source_uris,
    without_dots, BindingView, DocumentSet, PartView, SetMember,
};
use crate::error::RuntimeErrorKind;
use crate::model::{SourceDescription, Workflow};
use crate::openapi::{
    document_indexed, document_operations, item_operations, level_server, method_named,
    operation_in, operation_server, operations_added, path_operations, servers_base,
    variables_filled, IndexView,
};
use crate::operations::{defined, EntryView, OriginView, ServerView};
use crate::routing::specs_indexed;
use crate::text::{end_stripped, lower_text, replaced_from, stands_at};
use crate::web_url::{is_relative_reference, url_parsed, url_scheme};
use crate::yaml::{items_in, member, member_text, pairs_in, text_in, yaml_parsed, YamlView};
use vstd::prelude::*;
use vstd::string::*;

verus! {

// ---------------------------------------------------------------------
// Operations of a document
// ---------------------------------------------------------------------

/// The method that a member of a path item stands for: one of eight, however
/// its name is cased.
pub open spec fn method_by_name(lower: Seq<char>) -> Option<Seq<char>> {
    if lower == "get"@ {
        Some("GET"@)
    } else if lower == "put"@ {
        Some("PUT"@)
    } else if lower == "post"@ {
        Some("POST"@)
    } else if lower == "delete"@ {
        Some("DELETE"@)
    } else if lower == "options"@ {
        Some("OPTIONS"@)
    } else if lower == "head"@ {
        Some("HEAD"@)
    } else if lower == "patch"@ {
        Some("PATCH"@)
    } else if lower == "trace"@ {
        Some("TRACE"@)
    } else {
        None
    }
}

proof fn method_names()
    ensures
        lower_text("get"@) == "get"@,
        lower_text("put"@) == "put"@,
        lower_text("post"@) == "post"@,
        lower_text("delete"@) == "delete"@,
        lower_text("options"@) == "options"@,
        lower_text("head"@) == "head"@,
        lower_text("patch"@) == "patch"@,
        lower_text("trace"@) == "trace"@,
        "get"@ != "put"@,
        "post"@ != "head"@,
        "patch"@ != "trace"@,
        "get"@.len() == 3,
        "put"@.len() == 3,
        "post"@.len() == 4,
        "head"@.len() == 4,
        "patch"@.len() == 5,
        "trace"@.len() == 5,
        "delete"@.len() == 6,
        "options"@.len() == 7,
{
    reveal_strlit("get");
    reveal_strlit("put");
    reveal_strlit("post");
    reveal_strlit("delete");
    reveal_strlit("options");
    reveal_strlit("head");
    reveal_strlit("patch");
    reveal_strlit("trace");
    assert(lower_text("get"@) =~= "get"@);
    assert(lower_text("put"@) =~= "put"@);
    assert(lower_text("post"@) =~= "post"@);
    assert(lower_text("delete"@) =~= "delete"@);
    assert(lower_text("options"@) =~= "options"@);
    assert(lower_text("head"@) =~= "head"@);
    assert(lower_text("patch"@) =~= "patch"@);
    assert(lower_text("trace"@) =~= "trace"@);
    assert("get"@[0] != "put"@[0]);
    assert("post"@[0] != "head"@[0]);
    assert("patch"@[0] != "trace"@[0]);
}

/// A member of a path item is an operation exactly where its name is that of a
/// method.
pub proof fn methods_go_by_their_names(key: Seq<char>)
    ensures
        method_named(key) == method_by_name(lower_text(key)),
{
    method_names();
}

proof fn item_operation_is_found(
    path: Seq<char>,
    item: YamlView,
    pairs: Seq<(YamlView, YamlView)>,
    origin: OriginView,
    n: nat,
    j: int,
    op: (Seq<char>, EntryView),
)
    requires
        0 <= j < n <= pairs.len(),
        operation_in(path, item, pairs[j].0, pairs[j].1, origin) == Some(op),
    ensures
        item_operations(path, item, pairs, origin, n).contains(op),
    decreases n,
{
    let now = item_operations(path, item, pairs, origin, n);
    if j == n - 1 {
        assert(now[now.len() - 1] == op);
    } else {
        item_operation_is_found(path, item, pairs, origin, (n - 1) as nat, j, op);
        let before = item_operations(path, item, pairs, origin, (n - 1) as nat);
        assert(now[before.index_of(op)] == op);
    }
}

proof fn path_operation_is_found(
    paths: Seq<(YamlView, YamlView)>,
    origin: OriginView,
    n: nat,
    i: int,
    op: (Seq<char>, EntryView),
)
    requires
        0 <= i < n <= paths.len(),
        text_in(paths[i].0) is Some,
        pairs_in(paths[i].1) is Some,
        item_operations(
            text_in(paths[i].0)->0,
            paths[i].1,
            pairs_in(paths[i].1)->0,
            origin,
            (pairs_in(paths[i].1)->0).len(),
        ).contains(op),
    ensures
        path_operations(paths, origin, n).contains(op),
    decreases n,
{
    let now = path_operations(paths, origin, n);
    let before = path_operations(paths, origin, (n - 1) as nat);
    if i == n - 1 {
        let own = item_operations(
            text_in(paths[i].0)->0,
            paths[i].1,
            pairs_in(paths[i].1)->0,
            origin,
            (pairs_in(paths[i].1)->0).len(),
        );
        assert(now[before.len() + own.index_of(op)] == op);
    } else {
        path_operation_is_found(paths, origin, (n - 1) as nat, i, op);
        assert(now[before.index_of(op)] == op);
    }
}

proof fn added_operations(v: IndexView, ops: Seq<(Seq<char>, EntryView)>, n: nat, id: Seq<char>, e: EntryView)
    requires
        n <= ops.len(),
    ensures
        defined(operations_added(v, ops, n).operations, id).contains(e) == (defined(
            v.operations,
            id,
        ).contains(e) || exists|k: int| 0 <= k < n && #[trigger] ops[k] == (id, e)),
    decreases n,
{
    if n > 0 {
        added_operations(v, ops, (n - 1) as nat, id, e);
        let before = operations_added(v, ops, (n - 1) as nat).operations;
        let now = operations_added(v, ops, n).operations;
        let last = ops[n - 1];
        if last.0 == id {
            let a = defined(before, id);
            let b = defined(now, id);
            assert(b == a.push(last.1));
            if a.contains(e) {
                assert(b[a.index_of(e)] == e);
            }
            if b.contains(e) {
                let at = b.index_of(e);
                if at < a.len() {
                    assert(a[at] == e);
                } else {
                    assert(ops[n - 1] == (id, e));
                }
            }
            if last.1 == e {
                assert(b[b.len() - 1] == e);
            }
        } else {
            assert(defined(now, id) == defined(before, id));
        }
    }
}

/// Every operation of a document is found under its id: with its method, its
/// path and the document that it stands in. What was known before is kept.
pub proof fn operations_are_found_by_their_ids(
    v: IndexView,
    root: YamlView,
    origin: OriginView,
    paths: Seq<(YamlView, YamlView)>,
    i: int,
    j: int,
    path: Seq<char>,
    key: Seq<char>,
    id: Seq<char>,
    known: EntryView,
)
    requires
        member(root, "paths"@) is Some,
        pairs_in(member(root, "paths"@)->0) == Some(paths),
        0 <= i < paths.len(),
        text_in(paths[i].0) == Some(path),
        pairs_in(paths[i].1) is Some,
        0 <= j < (pairs_in(paths[i].1)->0).len(),
        text_in((pairs_in(paths[i].1)->0)[j].0) == Some(key),
        pairs_in((pairs_in(paths[i].1)->0)[j].1) is Some,
        member_text((pairs_in(paths[i].1)->0)[j].1, "operationId"@) == Some(id),
        id.len() > 0,
        method_by_name(lower_text(key)) is Some,
    ensures
        ({
            let after = document_indexed(v, root, origin).operations;
            let e = EntryView {
                method: method_by_name(lower_text(key))->0,
                path,
                origin,
                server: operation_server(paths[i].1, (pairs_in(paths[i].1)->0)[j].1, origin),
            };
            &&& defined(after, id).contains(e)
            &&& defined(v.operations, id).contains(known) ==> defined(after, id).contains(known)
        }),
{
    let item = paths[i].1;
    let pairs = pairs_in(item)->0;
    methods_go_by_their_names(key);
    let e = EntryView {
        method: method_by_name(lower_text(key))->0,
        path,
        origin,
        server: operation_server(item, pairs[j].1, origin),
    };
    let op = (id, e);
    item_operation_is_found(path, item, pairs, origin, pairs.len(), j, op);
    path_operation_is_found(paths, origin, paths.len(), i, op);
    let ops = document_operations(root, origin);
    added_operations(v, ops, ops.len(), id, e);
    added_operations(v, ops, ops.len(), id, known);
    assert(ops[ops.index_of(op)] == (id, e));
}

/// An operation is sent to the server that it declares itself, else to the one
/// of its path, else to that of its document; one that was provided by itself
/// declares none.
pub proof fn the_nearest_server_counts(item: YamlView, operation: YamlView, origin: OriginView)
    ensures
        origin is ExplicitSpec ==> operation_server(item, operation, origin) is Inherited,
        origin is Source ==> {
            &&& level_server(operation) matches Some(Ok(b)) ==> operation_server(
                item,
                operation,
                origin,
            ) == ServerView::Declared(b)
            &&& level_server(operation) is None ==> (level_server(item) matches Some(Ok(b))
                ==> operation_server(item, operation, origin) == ServerView::Declared(b))
            &&& level_server(operation) is None && level_server(item) is None ==> operation_server(
                item,
                operation,
                origin,
            ) is Inherited
            &&& level_server(operation) matches Some(Err(_)) ==> operation_server(
                item,
                operation,
                origin,
            ) is Unusable
        },
{
}

/// The server that counts is the first that is declared, without the slashes at
/// the end of its URL.
pub proof fn the_first_server_counts(
    holder: YamlView,
    servers: YamlView,
    items: Seq<YamlView>,
    url: Seq<char>,
    source: Seq<char>,
    path: Seq<char>,
)
    requires
        member(holder, "servers"@) == Some(servers),
        items_in(servers) == Some(items),
        items.len() > 0,
        member_text(items[0], "url"@) == Some(url),
        member(items[0], "variables"@) is None,
        url.len() > 0,
    ensures
        !is_relative_reference(url) ==> level_server(holder) == Some(
            Ok::<Seq<char>, crate::operations::IssueView>(end_stripped(url, '/')),
        ),
        url[0] != '/' ==> servers_base(holder, source, path) == Ok::<
            Seq<char>,
            crate::error::ErrorView,
        >(end_stripped(url, '/')),
        url[0] == '/' ==> (servers_base(holder, source, path) matches Err(e) && e.kind
            == RuntimeErrorKind::SourceDescriptionParse),
{
    reveal_strlit("/");
    if url[0] == '/' {
        assert(url.subrange(0, 1) =~= "/"@);
    } else if stands_at(url, 0, "/"@) {
        assert(url.subrange(0, 1)[0] == '/');
    }
}

/// A document without a server has no base.
pub proof fn a_base_has_to_be_declared(root: YamlView, source: Seq<char>, path: Seq<char>)
    requires
        member(root, "servers"@) is None,
    ensures
        servers_base(root, source, path) matches Err(e) && e.kind
            == RuntimeErrorKind::SourceDescriptionParse,
{
}

proof fn replaced_once(s: Seq<char>, from: int, part: Seq<char>, with: Seq<char>, at: int)
    requires
        0 <= from <= at,
        part.len() > 0,
        stands_at(s, at, part),
        forall|k: int| from <= k && k != at ==> !(#[trigger] stands_at(s, k, part)),
    ensures
        replaced_from(s, from, part, with) == s.subrange(from, at) + with + s.subrange(
            at + part.len(),
            s.len() as int,
        ),
    decreases at - from,
{
    if from < at {
        assert(!stands_at(s, from, part));
        replaced_once(s, from + 1, part, with, at);
        assert(s.subrange(from, at) =~= seq![s[from]] + s.subrange(from + 1, at));
        assert(replaced_from(s, from, part, with) =~= s.subrange(from, at) + with + s.subrange(
            at + part.len(),
            s.len() as int,
        ));
    } else {
        replaced_nowhere(s, at + part.len(), part, with);
        assert(s.subrange(from, at) =~= Seq::<char>::empty());
        assert(replaced_from(s, from, part, with) =~= s.subrange(from, at) + with + s.subrange(
            at + part.len(),
            s.len() as int,
        ));
    }
}

proof fn replaced_nowhere(s: Seq<char>, from: int, part: Seq<char>, with: Seq<char>)
    requires
        0 <= from <= s.len(),
        part.len() > 0,
        forall|k: int| from <= k ==> !(#[trigger] stands_at(s, k, part)),
    ensures
        replaced_from(s, from, part, with) == s.subrange(from, s.len() as int),
    decreases s.len() - from,
{
    if from < s.len() {
        assert(!stands_at(s, from, part));
        replaced_nowhere(s, from + 1, part, with);
        assert(s.subrange(from, s.len() as int) =~= seq![s[from]] + s.subrange(
            from + 1,
            s.len() as int,
        ));
    }
    assert(replaced_from(s, from, part, with) =~= s.subrange(from, s.len() as int));
}

/// A variable of a server is filled in with its default where the URL names it.
pub proof fn server_variables_have_their_defaults(
    before: Seq<char>,
    name: Seq<char>,
    rest: Seq<char>,
    variable: (YamlView, YamlView),
    default: Seq<char>,
)
    requires
        text_in(variable.0) == Some(name),
        member_text(variable.1, "default"@) == Some(default),
        forall|j: int| 0 <= j < before.len() ==> before[j] != '{',
        forall|j: int| 0 <= j < name.len() ==> name[j] != '{',
        forall|j: int| 0 <= j < rest.len() ==> rest[j] != '{',
    ensures
        variables_filled(before + "{"@ + name + "}"@ + rest, seq![variable], 1) == before + default
            + rest,
{
    reveal_strlit("{");
    reveal_strlit("}");
    let url = before + "{"@ + name + "}"@ + rest;
    let part = "{"@ + name + "}"@;
    let at = before.len() as int;
    assert(url.subrange(at, at + part.len()) =~= part);
    assert(part[0] == '{');
    assert forall|k: int| 0 <= k && k != at implies !(#[trigger] stands_at(url, k, part)) by {
        if stands_at(url, k, part) {
            assert(url.subrange(k, k + part.len())[0] == '{');
            assert(url[k] == '{');
            if k < at {
                assert(url[k] == before[k]);
            } else if k <= at + name.len() {
                assert(url[k] == name[k - at - 1]);
            } else if k > at + name.len() + 1 {
                assert(url[k] == rest[k - at - name.len() - 2]);
            }
        }
    }
    replaced_once(url, 0, part, default, at);
    reveal_with_fuel(variables_filled, 2);
    assert(url.subrange(0, at) =~= before);
    assert(url.subrange(at + part.len(), url.len() as int) =~= rest);
}

// ---------------------------------------------------------------------
// Sources
// ---------------------------------------------------------------------

/// The base of a source: its URL, and where that names a file the server that
/// the document declares.
pub open spec fn base_declared(sd: SourceDescription, read: SourceRead) -> Option<Seq<char>> {
    if !names_file(sd) {
        Some(sd.url@)
    } else {
        match read {
            SourceRead::Read { path, data } => match yaml_parsed(data@) {
                Ok(root) => match servers_base(root, sd.name@, path@) {
                    Ok(b) => Some(b),
                    Err(_) => None,
                },
                Err(_) => None,
            },
            _ => None,
        }
    }
}

/// Sources are loaded only where each of them has a base. Each then has its
/// own, the last of its name, and the base of the first is that of the whole.
pub proof fn sources_have_their_bases(
    list: Seq<SourceDescription>,
    reads: Seq<SourceRead>,
    n: nat,
    i: int,
)
    requires
        0 <= i < n <= list.len(),
        reads.len() == list.len(),
    ensures
        base_declared(list[i], reads[i]) is None ==> sources_loaded(list, reads, n) is Err,
        sources_loaded(list, reads, n) matches Ok(v) ==> {
            &&& (forall|j: int| i < j < n ==> (#[trigger] list[j]).name@ != list[i].name@)
                ==> v.bases.contains_key(list[i].name@) && Some(v.bases[list[i].name@])
                == base_declared(list[i], reads[i])
            &&& Some(v.first) == base_declared(list[0], reads[0])
        },
    decreases n,
{
    let last = n - 1;
    let sd = list[last];
    assert(read_at(reads, last) == reads[last]);
    if n > 1 {
        sources_have_their_bases(list, reads, (n - 1) as nat, 0);
    }
    if i < last {
        sources_have_their_bases(list, reads, (n - 1) as nat, i);
        if forall|j: int| i < j < n ==> (#[trigger] list[j]).name@ != list[i].name@ {
            assert(list[last].name@ != list[i].name@);
        }
    }
}

/// A file that cannot be read, or that there is no directory for, is reported
/// as one that was not loaded.
pub proof fn unread_sources_are_reported(sd: SourceDescription, read: SourceRead, v: IndexView)
    requires
        read is NoDirectory || read is Unreadable,
    ensures
        document_loaded(sd, read, v).0 matches Err(e) && e.kind
            == RuntimeErrorKind::SourceDescriptionLoad,
        document_loaded(sd, read, v).1 == v,
{
}

/// A workflow is looked up by its id: the last that has it.
pub proof fn the_last_workflow_of_an_id_is_found(list: Seq<Workflow>, id: Seq<char>, n: nat)
    requires
        n <= list.len(),
    ensures
        ({
            let at = workflow_at(list, id, n);
            &&& -1 <= at < n
            &&& 0 <= at ==> list[at].workflow_id@ == id
            &&& forall|j: int| at < j < n ==> (#[trigger] list[j]).workflow_id@ != id
        }),
    decreases n,
{
    if n > 0 && list[n - 1].workflow_id@ != id {
        the_last_workflow_of_an_id_is_found(list, id, (n - 1) as nat);
    }
}

proof fn answer_is_found(members: Seq<SetMember>, uri: Seq<char>, from: int)
    requires
        0 <= from <= members.len(),
    ensures
        ({
            let at = answering_from(members, uri, from);
            &&& from <= at <= members.len()
            &&& at < members.len() ==> own_text(members[at].identity) == Some(uri)
            &&& forall|j: int|
                from <= j < at ==> own_text((#[trigger] members[j]).identity) != Some(uri)
        }),
    decreases members.len() - from,
{
    if from < members.len() && own_text(members[from].identity) != Some(uri) {
        answer_is_found(members, uri, from + 1);
    }
}

/// A source is bound to the document that answers to its URI, however it was
/// provided; else to the file of its URI, and one that is no file and was not
/// relative stands for its URL. One that is no OpenAPI document always does.
pub proof fn sources_are_bound_by_identity(set: DocumentSet, sd: SourceDescription, at: int)
    ensures
        !(sd.type_ is OpenApi) ==> (binding(set, sd) matches Ok(BindingView::BaseUrl)),
        sd.type_ is OpenApi && sd.url@.len() > 0 ==> (source_uri(set, sd) matches Ok(Some(uri)) ==> {
            &&& 0 <= at < set.members@.len() && own_text(set.members@[at].identity) == Some(
                identity(uri),
            ) && (forall|j: int|
                0 <= j < at ==> own_text((#[trigger] set.members@[j]).identity) != Some(
                    identity(uri),
                )) ==> binding(set, sd) == Ok::<BindingView, crate::error::ErrorView>(
                BindingView::Provided(at),
            )
            &&& (forall|j: int|
                0 <= j < set.members@.len() ==> own_text((#[trigger] set.members@[j]).identity)
                    != Some(identity(uri))) ==> {
                &&& url_scheme(uri) == "file"@ ==> binding(set, sd) == Ok::<
                    BindingView,
                    crate::error::ErrorView,
                >(BindingView::File(uri))
                &&& url_scheme(uri) != "file"@ && !is_relative_reference(sd.url@) ==> (
                binding(set, sd) matches Ok(BindingView::BaseUrl))
                &&& url_scheme(uri) != "file"@ && is_relative_reference(sd.url@) ==> (binding(
                    set,
                    sd,
                ) matches Err(e) && e.kind == RuntimeErrorKind::SourceDescriptionNotFound)
            }
        }),
        sd.type_ is OpenApi && sd.url@.len() > 0 ==> (url_parsed(sd.url@) matches Ok(u)
            ==> source_uri(set, sd) == Ok::<Option<Seq<char>>, crate::error::ErrorView>(Some(u))),
{
    if let Ok(Some(uri)) = source_uri(set, sd) {
        answer_is_found(set.members@, identity(uri), 0);
        let f = answering_from(set.members@, identity(uri), 0);
        if 0 <= at < set.members@.len() && own_text(set.members@[at].identity) == Some(
            identity(uri),
        ) && (forall|j: int|
            0 <= j < at ==> own_text((#[trigger] set.members@[j]).identity) != Some(
                identity(uri),
            )) {
            if f < at {
                assert(own_text(set.members@[f].identity) != Some(identity(uri)));
            }
            if f > at {
                assert(own_text(set.members@[at].identity) != Some(identity(uri)));
            }
        }
    }
}

/// A step up takes back the name before it, and a step to where one is changes
/// nothing.
pub proof fn dots_lead_up_and_nowhere(path: Seq<PartView>, name: Seq<char>)
    ensures
        without_dots(path.push(PartView::Normal(name)).push(PartView::Parent)) == without_dots(
            path,
        ),
        without_dots(path.push(PartView::Current)) == without_dots(path),
        without_dots(path.push(PartView::Normal(name))) == without_dots(path).push(
            PartView::Normal(name),
        ),
{
    let one = path.push(PartView::Normal(name));
    assert(one.drop_last() =~= path);
    assert(one.push(PartView::Parent).drop_last() =~= one);
    assert(path.push(PartView::Current).drop_last() =~= path);
    reveal_with_fuel(without_dots, 3);
    assert(without_dots(path).push(PartView::Normal(name)).drop_last() =~= without_dots(path));
}

/// A relative path goes behind its directory, with one slash between them; an
/// absolute one stands for itself.
pub proof fn paths_go_behind_their_directory(dir: Seq<char>, path: Seq<char>)
    requires
        dir.len() > 0,
        path.len() > 0,
    ensures
        path[0] == '/' ==> path_joined(dir, path) == path,
        path[0] != '/' && dir.last() != '/' ==> path_joined(dir, path) == dir + "/"@ + path,
        path[0] != '/' && dir.last() == '/' ==> path_joined(dir, path) == dir + path,
{
    reveal_strlit("/");
    if path[0] == '/' {
        assert(path.subrange(0, 1) =~= "/"@);
    } else if stands_at(path, 0, "/"@) {
        assert(path.subrange(0, 1)[0] == '/');
    }
}

proof fn item_operation_comes_from(
    path: Seq<char>,
    item: YamlView,
    pairs: Seq<(YamlView, YamlView)>,
    origin: OriginView,
    n: nat,
    at: int,
) -> (j: int)
    requires
        n <= pairs.len(),
        0 <= at < item_operations(path, item, pairs, origin, n).len(),
    ensures
        0 <= j < n,
        operation_in(path, item, pairs[j].0, pairs[j].1, origin) == Some(
            item_operations(path, item, pairs, origin, n)[at],
        ),
    decreases n,
{
    let before = item_operations(path, item, pairs, origin, (n - 1) as nat);
    if at < before.len() {
        item_operation_comes_from(path, item, pairs, origin, (n - 1) as nat, at)
    } else {
        n - 1
    }
}

/// Nothing is an operation but the members of a path item that are named like a
/// method and have an id: of each that is found the method is the one it is
/// named by, and the id the one it declares.
pub proof fn only_methods_with_ids_are_operations(
    path: Seq<char>,
    item: YamlView,
    pairs: Seq<(YamlView, YamlView)>,
    origin: OriginView,
    at: int,
)
    requires
        0 <= at < item_operations(path, item, pairs, origin, pairs.len()).len(),
    ensures
        exists|j: int|
            0 <= j < pairs.len() && {
                let op = item_operations(path, item, pairs, origin, pairs.len())[at];
                &&& text_in((#[trigger] pairs[j]).0) matches Some(key) && Some(op.1.method)
                    == method_by_name(lower_text(key))
                &&& member_text(pairs[j].1, "operationId"@) == Some(op.0)
                &&& op.0.len() > 0
                &&& op.1.path == path
                &&& op.1.origin == origin
            },
{
    let j = item_operation_comes_from(path, item, pairs, origin, pairs.len(), at);
    let op = item_operations(path, item, pairs, origin, pairs.len())[at];
    methods_go_by_their_names(text_in(pairs[j].0)->0);
    assert(member_text(pairs[j].1, "operationId"@) == Some(op.0));
}

/// A document answers to the URI that it declares itself, else to the one that
/// it was found at.
pub proof fn documents_answer_to_their_own_uri(d: crate::documents::ProvidedDocument)
    ensures
        crate::documents::own_identity(d.data@) matches Some(i)
            ==> crate::documents::provided_identity(d) == Some(i),
        crate::documents::own_identity(d.data@) is None ==> (d.retrieval_uri matches Some(u)
            ==> crate::documents::provided_identity(d) == Some(u@)),
{
}

/// The base of a document is the URI that it declares, resolved against the one
/// that it was found at where it is relative, else the latter.
pub proof fn a_declared_uri_is_the_base(declared: Seq<char>, found: Option<Seq<char>>)
    ensures
        crate::documents::base_for(None, found) == found,
        url_parsed(declared) matches Ok(u) ==> crate::documents::base_for(Some(declared), found)
            == Some(u),
        url_parsed(declared) is Err ==> (found matches Some(b) ==> (crate::web_url::url_joined(
            b,
            declared,
        ) matches Ok(u) ==> crate::documents::base_for(Some(declared), found) == Some(u))),
        url_parsed(declared) is Err && found is None ==> crate::documents::base_for(
            Some(declared),
            found,
        ) is None,
{
}

/// Documents that are provided by themselves are read in order, behind those of
/// the sources, and each counts by its number; one that cannot be read refuses
/// them all.
pub proof fn provided_documents_are_read_in_order(
    start: IndexView,
    specs: Seq<(usize, Vec<u8>)>,
    n: nat,
)
    requires
        0 < n <= specs.len(),
    ensures
        specs_indexed(start, specs, 0) == Ok::<IndexView, crate::error::ErrorView>(start),
        specs_indexed(start, specs, (n - 1) as nat) is Err ==> specs_indexed(start, specs, n)
            == specs_indexed(start, specs, (n - 1) as nat),
        specs_indexed(start, specs, (n - 1) as nat) is Ok && yaml_parsed(specs[n - 1].1@) is Err
            ==> (specs_indexed(start, specs, n) matches Err(e) && e.kind
            == RuntimeErrorKind::SourceDescriptionParse),
        specs_indexed(start, specs, (n - 1) as nat) matches Ok(v) ==> (yaml_parsed(
            specs[n - 1].1@,
        ) matches Ok(root) ==> specs_indexed(start, specs, n) == Ok::<
            IndexView,
            crate::error::ErrorView,
        >(document_indexed(v, root, OriginView::ExplicitSpec { ordinal: specs[n - 1].0 }))),
{
}

/// The files of the sources are those of the relative OpenAPI sources, in
/// order, each in the directory.
pub proof fn source_files_are_listed_in_order(
    a: Seq<SourceDescription>,
    b: Seq<SourceDescription>,
    one: SourceDescription,
    dir: Seq<char>,
)
    ensures
        source_files(a + b, dir) == source_files(a, dir) + source_files(b, dir),
        one.type_ is OpenApi && one.url@.len() > 0 && is_relative_reference(one.url@)
            ==> source_files(seq![one], dir) == seq![(one.name@, path_joined(dir, one.url@))],
        !(one.type_ is OpenApi) || one.url@.len() == 0 || !is_relative_reference(one.url@)
            ==> source_files(seq![one], dir).len() == 0,
    decreases b.len(),
{
    reveal_with_fuel(source_files, 2);
    assert(seq![one].drop_last() =~= Seq::<SourceDescription>::empty());
    assert(seq![one].last() == one);
    if one.type_ is OpenApi && one.url@.len() > 0 && is_relative_reference(one.url@) {
        assert(source_files(seq![one], dir) =~= seq![(one.name@, path_joined(dir, one.url@))]);
    }
    if b.len() == 0 {
        assert(a + b =~= a);
        assert(source_files(a, dir) + source_files(b, dir) =~= source_files(a, dir));
    } else {
        source_files_are_listed_in_order(a, b.drop_last(), one, dir);
        assert((a + b).drop_last() =~= a + b.drop_last());
        assert((a + b).last() == b.last());
        assert(source_files(a + b, dir) =~= source_files(a, dir) + source_files(b, dir));
    }
}

/// The URIs of the sources are those of the OpenAPI sources that have one, in
/// order: a whole URL as it is, and a relative one against the base.
pub proof fn source_uris_are_listed_in_order(
    base: Option<Seq<char>>,
    a: Seq<SourceDescription>,
    b: Seq<SourceDescription>,
    one: SourceDescription,
)
    ensures
        source_uris(base, a + b) == source_uris(base, a) + source_uris(base, b),
        one.type_ is OpenApi && one.url@.len() > 0 ==> (url_parsed(one.url@) matches Ok(u)
            ==> source_uris(base, seq![one]) == seq![(one.name@, u)]),
        one.type_ is OpenApi && one.url@.len() > 0 && is_relative_reference(one.url@) ==> (
        base matches Some(d) ==> (crate::web_url::url_joined(d, one.url@) matches Ok(u)
            ==> source_uris(base, seq![one]) == seq![(one.name@, u)])),
        !(one.type_ is OpenApi) ==> source_uris(base, seq![one]).len() == 0,
    decreases b.len(),
{
    reveal_with_fuel(source_uris, 2);
    assert(seq![one].drop_last() =~= Seq::<SourceDescription>::empty());
    assert(seq![one].last() == one);
    let none = Seq::<(Seq<char>, Seq<char>)>::empty();
    if one.type_ is OpenApi && one.url@.len() > 0 {
        if let Ok(u) = url_parsed(one.url@) {
            assert(none.push((one.name@, u)) =~= seq![(one.name@, u)]);
        }
        if let Some(d) = base {
            if let Ok(u) = crate::web_url::url_joined(d, one.url@) {
                assert(none.push((one.name@, u)) =~= seq![(one.name@, u)]);
            }
        }
    }
    if b.len() == 0 {
        assert(a + b =~= a);
        assert(source_uris(base, a) + source_uris(base, b) =~= source_uris(base, a));
    } else {
        source_uris_are_listed_in_order(base, a, b.drop_last(), one);
        assert((a + b).drop_last() =~= a + b.drop_last());
        assert((a + b).last() == b.last());
        assert(source_uris(base, a + b) =~= source_uris(base, a) + source_uris(base, b));
    }
}

} // verus!
