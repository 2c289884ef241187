//! Which operation a step names, and which server it is sent to.

use crate::error::{ErrorView, RuntimeError, RuntimeErrorKind};
use crate::model::{source_type_name, SourceDescription, SourceType};
use crate::openapi::{document_indexed, parse_openapi_into_index, IndexView};
use crate::operations::{
    defined, entry_ref_views, level_name, of_source, origin_source, origin_words,
    server_base, unqualified, EntryView, IssueView, OperationEntry, OperationIndex, OperationMatch,
    OperationOrigin, OriginView, ServerIssue, ServerLevel, UnusableServer,
};
use crate::text::{
    contains_text, decimal, decimal_text, has_text, join_texts, joined, same_text, texts,
};
use crate::text_map::TextMap;
use crate::yaml::yaml_parsed;
use vstd::prelude::*;
use vstd::string::*;

verus! {

/// What the text of an `operationId` stands for.
#[derive(Debug, PartialEq)]
pub enum OperationIdTarget {
    SourceQualified { source_name: String, operation_id: String },
    Bare(String),
    /// A text of no supported form: why, and which forms are supported.
    Malformed { reason: String, supported: String },
}

/// An `operationId`, resolved to the request that it names.
#[derive(Debug, PartialEq)]
pub struct ResolvedOperation {
    pub method: String,
    pub path: String,
    /// The request base that the operation belongs to; `None` for one that
    /// belongs to no source description.
    pub base: Option<String>,
}

/// The content of a resolved operation.
#[verifier::ext_equal]
pub struct ResolvedView {
    pub method: Seq<char>,
    pub path: Seq<char>,
    pub base: Option<Seq<char>>,
}

impl View for ResolvedOperation {
    type V = ResolvedView;

    open spec fn view(&self) -> ResolvedView {
        ResolvedView {
            method: self.method@,
            path: self.path@,
            base: match self.base {
                Some(b) => Some(b@),
                None => None,
            },
        }
    }
}

/// The content of an attempt to resolve an operation.
pub open spec fn resolved_view(r: Result<ResolvedOperation, RuntimeError>) -> Result<
    ResolvedView,
    ErrorView,
> {
    match r {
        Ok(o) => Ok(o@),
        Err(e) => Err(e@),
    }
}

/// What requests are routed by: the source descriptions of the document and
/// the request base of each, the base of the first, and the documents that
/// were provided by themselves, each with its number.
#[derive(Debug, PartialEq)]
pub struct RequestIndex {
    pub source_descriptions: Vec<SourceDescription>,
    pub base_url: String,
    pub source_bases: TextMap<String>,
    pub explicit_specs: Vec<(usize, Vec<u8>)>,
}

/// The request base of a source description.
pub open spec fn base_of(index: RequestIndex, source: Seq<char>) -> Option<Seq<char>> {
    if index.source_bases@.contains_key(source) {
        Some(index.source_bases@[source]@)
    } else {
        None
    }
}

/// The position of the first source description of a name, at or after `from`.
pub open spec fn source_from(list: Seq<SourceDescription>, name: Seq<char>, from: int) -> int
    decreases list.len() - from,
{
    if from >= list.len() {
        list.len() as int
    } else if list[from].name@ == name {
        from
    } else {
        source_from(list, name, from + 1)
    }
}

// ---------------------------------------------------------------------
// The whole index
// ---------------------------------------------------------------------

/// The operations of the source descriptions and of the first `n` documents
/// that were provided by themselves, or why one of them cannot be read.
pub open spec fn specs_indexed(
    start: IndexView,
    specs: Seq<(usize, Vec<u8>)>,
    n: nat,
) -> Result<IndexView, ErrorView>
    decreases n,
{
    if n == 0 {
        Ok(start)
    } else {
        match specs_indexed(start, specs, (n - 1) as nat) {
            Err(e) => Err(e),
            Ok(before) => match yaml_parsed(specs[n - 1].1@) {
                Ok(root) => Ok(
                    document_indexed(
                        before,
                        root,
                        OriginView::ExplicitSpec { ordinal: specs[n - 1].0 },
                    ),
                ),
                Err(e) => Err(
                    ErrorView {
                        kind: RuntimeErrorKind::SourceDescriptionParse,
                        message: "parsing OpenAPI spec: "@ + e,
                    },
                ),
            },
        }
    }
}

/// All operations, and the warnings that indexing them leaves, or why a
/// document cannot be read.
pub open spec fn whole_index(
    source_ops: Map<Seq<char>, Seq<EntryView>>,
    specs: Seq<(usize, Vec<u8>)>,
) -> Result<IndexView, ErrorView> {
    specs_indexed(
        IndexView { operations: source_ops, warnings: Seq::empty() },
        specs,
        specs.len(),
    )
}

proof fn failed_index_stays(start: IndexView, specs: Seq<(usize, Vec<u8>)>, m: nat, n: nat)
    requires
        m <= n,
        specs_indexed(start, specs, m) is Err,
    ensures
        specs_indexed(start, specs, n) == specs_indexed(start, specs, m),
    decreases n,
{
    if m < n {
        failed_index_stays(start, specs, m, (n - 1) as nat);
    }
}

/// Indexes all operations: those of the source descriptions, and then those
/// of the documents that were provided by themselves.
pub fn operation_index(source_ops: OperationIndex, specs: &Vec<(usize, Vec<u8>)>) -> (r: Result<
    (OperationIndex, Vec<String>),
    RuntimeError,
>)
    ensures
        match r {
            Ok(x) => whole_index(source_ops@, specs@) == Ok::<IndexView, ErrorView>(
                IndexView { operations: x.0@, warnings: texts(x.1@) },
            ),
            Err(e) => whole_index(source_ops@, specs@) == Err::<IndexView, ErrorView>(e@),
        },
{
    let ghost start = IndexView { operations: source_ops@, warnings: Seq::empty() };
    let mut index = source_ops;
    let mut warnings: Vec<String> = Vec::new();
    assert(texts(warnings@) =~= Seq::<Seq<char>>::empty());
    let mut i: usize = 0;
    while i < specs.len()
        invariant
            i <= specs@.len(),
            start == (IndexView { operations: source_ops@, warnings: Seq::empty() }),
            specs_indexed(start, specs@, i as nat) == Ok::<IndexView, ErrorView>(
                IndexView { operations: index@, warnings: texts(warnings@) },
            ),
        decreases specs@.len() - i,
    {
        let origin = OperationOrigin::ExplicitSpec { ordinal: specs[i].0 };
        match parse_openapi_into_index(specs[i].1.as_slice(), &origin, &mut index, &mut warnings) {
            Ok(_) => {},
            Err(e) => {
                proof {
                    failed_index_stays(start, specs@, (i + 1) as nat, specs@.len());
                }
                return Err(e);
            },
        }
        i = i + 1;
    }
    Ok((index, warnings))
}

// ---------------------------------------------------------------------
// Refusals
// ---------------------------------------------------------------------

/// The texts of a list, each once, in the order in which they first come.
pub open spec fn distinct(list: Seq<Seq<char>>) -> Seq<Seq<char>>
    decreases list.len(),
{
    if list.len() == 0 {
        list
    } else {
        let before = distinct(list.drop_last());
        if before.contains(list.last()) {
            before
        } else {
            before.push(list.last())
        }
    }
}

/// The words that name the origins of definitions.
pub open spec fn origins_of(list: Seq<EntryView>) -> Seq<Seq<char>> {
    list.map_values(|e: EntryView| origin_words(e.origin))
}

/// The refusal of an id that several definitions have.
pub open spec fn ambiguous(target: Seq<char>, list: Seq<EntryView>) -> ErrorView {
    ErrorView {
        kind: RuntimeErrorKind::OperationIdAmbiguous,
        message: "operationId \""@ + target + "\" is defined "@ + decimal(list.len())
            + " times ("@ + joined(distinct(origins_of(list)), ", "@)
            + "); it does not name one operation"@,
    }
}

fn ambiguous_operation_id(target: &str, entries: &Vec<&OperationEntry>) -> (r: RuntimeError)
    ensures
        r@ == ambiguous(target@, entry_ref_views(entries@)),
{
    let ghost words = origins_of(entry_ref_views(entries@));
    let mut origins: Vec<String> = Vec::new();
    let mut i: usize = 0;
    assert(texts(origins@) =~= distinct(words.take(0)));
    while i < entries.len()
        invariant
            i <= entries@.len(),
            words == origins_of(entry_ref_views(entries@)),
            texts(origins@) == distinct(words.take(i as int)),
        decreases entries@.len() - i,
    {
        let origin = entries[i].origin.describe();
        assert(words[i as int] == origin@);
        assert(words.take(i + 1).drop_last() =~= words.take(i as int));
        let ghost before = origins@;
        if !contains_text(&origins, origin.as_str()) {
            assert(!texts(before).contains(origin@)) by {
                if texts(before).contains(origin@) {
                    let k = choose|k: int|
                        0 <= k < texts(before).len() && texts(before)[k] == origin@;
                    assert(before[k]@ == origin@);
                }
            }
            let ghost t = origin@;
            origins.push(origin);
            assert(texts(origins@) =~= texts(before).push(t));
        } else {
            assert(has_text(before, origin@));
            let k = Ghost(choose|k: int| 0 <= k < before.len() && (#[trigger] before[k])@ == origin@);
            assert(texts(before)[k@] == origin@);
        }
        i = i + 1;
    }
    assert(words.take(i as int) =~= words);
    let number = decimal_text(entries.len() as u64);
    let names = join_texts(&origins, ", ");
    let mut message = "operationId \"".to_owned();
    message.append(target);
    message.append("\" is defined ");
    message.append(number.as_str());
    message.append(" times (");
    message.append(names.as_str());
    message.append("); it does not name one operation");
    RuntimeError::new(RuntimeErrorKind::OperationIdAmbiguous, message)
}

/// The words for an issue with declared servers.
pub open spec fn issue_words(i: IssueView) -> Seq<char> {
    match i {
        IssueView::NotAnArray => "is not an array"@,
        IssueView::MissingUrl => "has no url in its first Server Object"@,
        IssueView::Relative(u) => "gives the relative url \""@ + u
            + "\", from which no request base follows"@,
    }
}

/// The refusal of an operation whose own servers give no request base.
pub open spec fn unusable_server(target: Seq<char>, level: ServerLevel, i: IssueView) -> ErrorView {
    ErrorView {
        kind: RuntimeErrorKind::SourceDescriptionParse,
        message: "operationId \""@ + target + "\": the servers field of its "@ + level_name(level)
            + " "@ + issue_words(i),
    }
}

fn unusable_server_error(target: &str, unusable: &UnusableServer) -> (r: RuntimeError)
    ensures
        r@ == unusable_server(target@, unusable.level, unusable.issue@),
{
    let words = match &unusable.issue {
        ServerIssue::NotAnArray => "is not an array".to_owned(),
        ServerIssue::MissingUrl => "has no url in its first Server Object".to_owned(),
        ServerIssue::Relative(u) => crate::text::concat3(
            "gives the relative url \"",
            u.as_str(),
            "\", from which no request base follows",
        ),
    };
    let mut message = "operationId \"".to_owned();
    message.append(target);
    message.append("\": the servers field of its ");
    message.append(unusable.level.object_name());
    message.append(" ");
    message.append(words.as_str());
    RuntimeError::new(RuntimeErrorKind::SourceDescriptionParse, message)
}

/// The request of an operation in a document with a request base.
pub open spec fn entry_request(target: Seq<char>, e: EntryView, base: Seq<char>) -> Result<
    ResolvedView,
    ErrorView,
> {
    match server_base(e.server, base) {
        Ok(b) => Ok(ResolvedView { method: e.method, path: e.path, base: Some(b) }),
        Err(u) => Err(unusable_server(target, u.0, u.1)),
    }
}

// ---------------------------------------------------------------------
// Qualified ids
// ---------------------------------------------------------------------

/// The refusal of a source description whose type has no operations that an
/// id could name here.
pub open spec fn wrong_source_type(
    target: Seq<char>,
    source: Seq<char>,
    type_: SourceType,
) -> ErrorView {
    let opening = "operationId \""@ + target + "\" names sourceDescription \""@ + source
        + "\", whose type is \""@ + source_type_name(type_);
    ErrorView {
        kind: RuntimeErrorKind::UnsupportedSourceDescriptionType,
        message: if type_ is Arazzo {
            opening
                + "\"; an arazzo source describes workflows rather than operations, so the specification does not let an operationId reference one — name it from workflowId as \"$sourceDescriptions."@
                + source + ".<workflowId>\" instead"@
        } else {
            opening
                + "\"; this runtime resolves an operationId only against a source of type \""@
                + source_type_name(SourceType::OpenApi) + "\""@
        },
    }
}

/// What `$sourceDescriptions.<source>.<id>` names: an operation of the
/// document of that source description, and of no other.
pub open spec fn qualified_operation(
    index: RequestIndex,
    operations: Result<Map<Seq<char>, Seq<EntryView>>, ErrorView>,
    target: Seq<char>,
    source: Seq<char>,
    id: Seq<char>,
) -> Result<ResolvedView, ErrorView> {
    let at = source_from(index.source_descriptions@, source, 0);
    if at >= index.source_descriptions@.len() {
        Err(
            ErrorView {
                kind: RuntimeErrorKind::SourceDescriptionNotFound,
                message: "sourceDescription \""@ + source + "\" referenced by operationId \""@
                    + target + "\" was not found"@,
            },
        )
    } else if !(index.source_descriptions@[at].type_ is OpenApi) {
        Err(wrong_source_type(target, source, index.source_descriptions@[at].type_))
    } else {
        match base_of(index, source) {
            None => Err(
                ErrorView {
                    kind: RuntimeErrorKind::InternalError,
                    message: "sourceDescription \""@ + source
                        + "\" has no effective request base"@,
                },
            ),
            Some(base) => match operations {
                Err(e) => Err(e),
                Ok(m) => {
                    let list = of_source(defined(m, id), Some(source));
                    if list.len() == 0 {
                        Err(
                            ErrorView {
                                kind: RuntimeErrorKind::OperationIdNotFound,
                                message: "operationId \""@ + id
                                    + "\" was not found in sourceDescription \""@ + source
                                    + "\", named by \""@ + target + "\""@,
                            },
                        )
                    } else if list.len() == 1 {
                        entry_request(target, list[0], base)
                    } else {
                        Err(ambiguous(target, list))
                    }
                },
            },
        }
    }
}

/// The content of an index that may have failed.
pub open spec fn operations_view(r: Result<OperationIndex, RuntimeError>) -> Result<
    Map<Seq<char>, Seq<EntryView>>,
    ErrorView,
> {
    match r {
        Ok(i) => Ok(i@),
        Err(e) => Err(e@),
    }
}

fn find_source<'a>(list: &'a Vec<SourceDescription>, name: &str) -> (r: Option<
    &'a SourceDescription,
>)
    ensures
        ({
            let at = source_from(list@, name@, 0);
            match r {
                Some(s) => 0 <= at < list@.len() && *s == list@[at],
                None => at >= list@.len(),
            }
        }),
{
    let mut i: usize = 0;
    while i < list.len()
        invariant
            i <= list@.len(),
            source_from(list@, name@, 0) == source_from(list@, name@, i as int),
        decreases list@.len() - i,
    {
        if same_text(list[i].name.as_str(), name) {
            return Some(&list[i]);
        }
        i = i + 1;
    }
    None
}

fn wrong_source_type_error(target: &str, source: &str, type_: SourceType) -> (r: RuntimeError)
    ensures
        r@ == wrong_source_type(target@, source@, type_),
{
    let mut message = "operationId \"".to_owned();
    message.append(target);
    message.append("\" names sourceDescription \"");
    message.append(source);
    message.append("\", whose type is \"");
    message.append(type_.name());
    match type_ {
        SourceType::Arazzo => {
            message.append(
                "\"; an arazzo source describes workflows rather than operations, so the specification does not let an operationId reference one — name it from workflowId as \"$sourceDescriptions.",
            );
            message.append(source);
            message.append(".<workflowId>\" instead");
        },
        _ => {
            message.append(
                "\"; this runtime resolves an operationId only against a source of type \"",
            );
            message.append(SourceType::OpenApi.name());
            message.append("\"");
        },
    }
    RuntimeError::new(RuntimeErrorKind::UnsupportedSourceDescriptionType, message)
}

fn entry_resolved(target: &str, entry: &OperationEntry, base: &str) -> (r: Result<
    ResolvedOperation,
    RuntimeError,
>)
    ensures
        resolved_view(r) == entry_request(target@, entry@, base@),
{
    match entry.server.base(base) {
        Ok(b) => Ok(
            ResolvedOperation {
                method: entry.method.clone(),
                path: entry.path.clone(),
                base: Some(b),
            },
        ),
        Err(u) => Err(unusable_server_error(target, u)),
    }
}

impl RequestIndex {
    /// Resolves an id of a source description.
    pub fn resolve_in_source(
        &self,
        operations: &Result<OperationIndex, RuntimeError>,
        target: &str,
        source_name: &str,
        operation_id: &str,
    ) -> (r: Result<ResolvedOperation, RuntimeError>)
        ensures
            resolved_view(r) == qualified_operation(
                *self,
                operations_view(*operations),
                target@,
                source_name@,
                operation_id@,
            ),
    {
        let source = match find_source(&self.source_descriptions, source_name) {
            Some(s) => s,
            None => {
                let mut message = "sourceDescription \"".to_owned();
                message.append(source_name);
                message.append("\" referenced by operationId \"");
                message.append(target);
                message.append("\" was not found");
                return Err(RuntimeError::new(RuntimeErrorKind::SourceDescriptionNotFound, message));
            },
        };
        match source.type_ {
            SourceType::OpenApi => {},
            t => {
                return Err(wrong_source_type_error(target, source_name, t));
            },
        }
        let base = match self.source_bases.get(source_name) {
            Some(b) => b,
            None => {
                let mut message = "sourceDescription \"".to_owned();
                message.append(source_name);
                message.append("\" has no effective request base");
                return Err(RuntimeError::new(RuntimeErrorKind::InternalError, message));
            },
        };
        let index = match operations {
            Ok(i) => i,
            Err(e) => {
                return Err(e.copy());
            },
        };
        match index.in_source(source_name, operation_id) {
            OperationMatch::One(entry) => entry_resolved(target, entry, base.as_str()),
            OperationMatch::Missing => {
                let mut message = "operationId \"".to_owned();
                message.append(operation_id);
                message.append("\" was not found in sourceDescription \"");
                message.append(source_name);
                message.append("\", named by \"");
                message.append(target);
                message.append("\"");
                Err(RuntimeError::new(RuntimeErrorKind::OperationIdNotFound, message))
            },
            OperationMatch::Ambiguous(entries) => Err(ambiguous_operation_id(target, &entries)),
        }
    }
}

// ---------------------------------------------------------------------
// Unqualified ids
// ---------------------------------------------------------------------

/// The names of the source descriptions that are no Arazzo documents.
pub open spec fn operation_sources(list: Seq<SourceDescription>) -> Seq<Seq<char>>
    decreases list.len(),
{
    if list.len() == 0 {
        Seq::empty()
    } else {
        let before = operation_sources(list.drop_last());
        if list.last().type_ is Arazzo {
            before
        } else {
            before.push(list.last().name@)
        }
    }
}

/// The refusal of an unqualified id where several source descriptions could
/// be meant.
pub open spec fn unqualified_refusal(
    target: Seq<char>,
    sources: Seq<Seq<char>>,
    explicit: bool,
) -> ErrorView {
    let message = "operationId \""@ + target + "\" is unqualified, but "@ + decimal(sources.len())
        + " non-arazzo sourceDescriptions are defined ("@ + joined(sources, ", "@)
        + "); name the source with \"$sourceDescriptions.<name>."@ + target
        + "\", or address the operation by path with an operationPath of \"{<name>}./<path>\""@;
    ErrorView {
        kind: RuntimeErrorKind::OperationIdAmbiguous,
        message: if explicit {
            message
                + ". An operation from a separately provided OpenAPI spec belongs to no sourceDescription, so neither of those forms can reach it — declare that document as a sourceDescription of type \"openapi\" and use the qualified form above, or give that step an absolute-URL operationPath, written \"<METHOD> <url>\" unless the default of POST with a requestBody and GET without is the method the step wants"@
        } else {
            message
        },
    }
}

/// What an unqualified id names. It is refused where the document has several
/// source descriptions with operations, whatever they define.
pub open spec fn unqualified_operation(
    index: RequestIndex,
    operations: Result<Map<Seq<char>, Seq<EntryView>>, ErrorView>,
    target: Seq<char>,
    id: Seq<char>,
) -> Result<ResolvedView, ErrorView> {
    let sources = operation_sources(index.source_descriptions@);
    if sources.len() > 1 {
        Err(unqualified_refusal(target, sources, index.explicit_specs@.len() > 0))
    } else {
        match operations {
            Err(e) => Err(e),
            Ok(m) => {
                let list = unqualified(defined(m, id));
                if list.len() == 0 {
                    Err(
                        ErrorView {
                            kind: RuntimeErrorKind::OperationIdNotFound,
                            message: "operationId \""@ + id
                                + "\" not found in loaded OpenAPI specs"@,
                        },
                    )
                } else if list.len() == 1 {
                    match origin_source(list[0].origin) {
                        Some(source) => match base_of(index, source) {
                            Some(base) => entry_request(target, list[0], base),
                            None => Ok(
                                ResolvedView {
                                    method: list[0].method,
                                    path: list[0].path,
                                    base: None,
                                },
                            ),
                        },
                        None => Ok(
                            ResolvedView {
                                method: list[0].method,
                                path: list[0].path,
                                base: None,
                            },
                        ),
                    }
                } else {
                    Err(ambiguous(target, list))
                }
            },
        }
    }
}

fn sources_of(list: &Vec<SourceDescription>) -> (r: Vec<String>)
    ensures
        texts(r@) == operation_sources(list@),
{
    let mut out: Vec<String> = Vec::new();
    let mut i: usize = 0;
    assert(texts(out@) =~= operation_sources(list@.take(0)));
    while i < list.len()
        invariant
            i <= list@.len(),
            texts(out@) == operation_sources(list@.take(i as int)),
        decreases list@.len() - i,
    {
        assert(list@.take(i + 1).drop_last() =~= list@.take(i as int));
        let ghost before = out@;
        match list[i].type_ {
            SourceType::Arazzo => {},
            _ => {
                let name = list[i].name.clone();
                let ghost n = name@;
                out.push(name);
                assert(texts(out@) =~= texts(before).push(n));
            },
        }
        i = i + 1;
    }
    assert(list@.take(i as int) =~= list@);
    out
}

impl RequestIndex {
    /// Resolves an unqualified id.
    pub fn resolve_bare(
        &self,
        operations: &Result<OperationIndex, RuntimeError>,
        target: &str,
        operation_id: &str,
    ) -> (r: Result<ResolvedOperation, RuntimeError>)
        ensures
            resolved_view(r) == unqualified_operation(
                *self,
                operations_view(*operations),
                target@,
                operation_id@,
            ),
    {
        let sources = sources_of(&self.source_descriptions);
        assert(texts(sources@).len() == sources@.len());
        if sources.len() > 1 {
            let number = decimal_text(sources.len() as u64);
            let names = join_texts(&sources, ", ");
            let mut message = "operationId \"".to_owned();
            message.append(target);
            message.append("\" is unqualified, but ");
            message.append(number.as_str());
            message.append(" non-arazzo sourceDescriptions are defined (");
            message.append(names.as_str());
            message.append("); name the source with \"$sourceDescriptions.<name>.");
            message.append(target);
            message.append(
                "\", or address the operation by path with an operationPath of \"{<name>}./<path>\"",
            );
            if self.explicit_specs.len() > 0 {
                message.append(
                    ". An operation from a separately provided OpenAPI spec belongs to no sourceDescription, so neither of those forms can reach it — declare that document as a sourceDescription of type \"openapi\" and use the qualified form above, or give that step an absolute-URL operationPath, written \"<METHOD> <url>\" unless the default of POST with a requestBody and GET without is the method the step wants",
                );
            }
            return Err(RuntimeError::new(RuntimeErrorKind::OperationIdAmbiguous, message));
        }
        let index = match operations {
            Ok(i) => i,
            Err(e) => {
                return Err(e.copy());
            },
        };
        match index.bare(operation_id) {
            OperationMatch::One(entry) => {
                match entry.origin.source_name() {
                    Some(source) => match self.source_bases.get(source) {
                        Some(base) => {
                            return entry_resolved(target, entry, base.as_str());
                        },
                        None => {},
                    },
                    None => {},
                }
                Ok(
                    ResolvedOperation {
                        method: entry.method.clone(),
                        path: entry.path.clone(),
                        base: None,
                    },
                )
            },
            OperationMatch::Missing => {
                let mut message = "operationId \"".to_owned();
                message.append(operation_id);
                message.append("\" not found in loaded OpenAPI specs");
                Err(RuntimeError::new(RuntimeErrorKind::OperationIdNotFound, message))
            },
            OperationMatch::Ambiguous(entries) => Err(ambiguous_operation_id(target, &entries)),
        }
    }

    /// Resolves the `operationId` of a step, classified as `form`.
    pub fn resolve_operation_target(
        &self,
        operations: &Result<OperationIndex, RuntimeError>,
        operation_id: &str,
        form: &OperationIdTarget,
    ) -> (r: Result<ResolvedOperation, RuntimeError>)
        ensures
            resolved_view(r) == operation_named(
                *self,
                operations_view(*operations),
                operation_id@,
                *form,
            ),
    {
        match form {
            OperationIdTarget::SourceQualified { source_name, operation_id: name } =>
                self.resolve_in_source(
                operations,
                operation_id,
                source_name.as_str(),
                name.as_str(),
            ),
            OperationIdTarget::Bare(name) => self.resolve_bare(
                operations,
                operation_id,
                name.as_str(),
            ),
            OperationIdTarget::Malformed { reason, supported } => {
                let mut message = "operationId \"".to_owned();
                message.append(operation_id);
                message.append("\" ");
                message.append(reason.as_str());
                message.append("; supported forms are ");
                message.append(supported.as_str());
                Err(RuntimeError::new(RuntimeErrorKind::UnsupportedOperationIdForm, message))
            },
        }
    }

    /// The method and the path of an operation.
    pub fn resolve_operation_id(
        &self,
        operations: &Result<OperationIndex, RuntimeError>,
        operation_id: &str,
        form: &OperationIdTarget,
    ) -> (r: Result<(String, String), RuntimeError>)
        ensures
            match operation_named(*self, operations_view(*operations), operation_id@, *form) {
                Ok(o) => r matches Ok(p) && p.0@ == o.method && p.1@ == o.path,
                Err(e) => r matches Err(x) && x@ == e,
            },
    {
        match self.resolve_operation_target(operations, operation_id, form) {
            Ok(o) => Ok((o.method, o.path)),
            Err(e) => Err(e),
        }
    }
}

/// What the `operationId` of a step names.
pub open spec fn operation_named(
    index: RequestIndex,
    operations: Result<Map<Seq<char>, Seq<EntryView>>, ErrorView>,
    operation_id: Seq<char>,
    form: OperationIdTarget,
) -> Result<ResolvedView, ErrorView> {
    match form {
        OperationIdTarget::SourceQualified { source_name, operation_id: name } =>
            qualified_operation(index, operations, operation_id, source_name@, name@),
        OperationIdTarget::Bare(name) => unqualified_operation(
            index,
            operations,
            operation_id,
            name@,
        ),
        OperationIdTarget::Malformed { reason, supported } => Err(
            ErrorView {
                kind: RuntimeErrorKind::UnsupportedOperationIdForm,
                message: "operationId \""@ + operation_id + "\" "@ + reason@
                    + "; supported forms are "@ + supported@,
            },
        ),
    }
}

/// A qualified id is sent to the server of its source description, or to the
/// one that its own objects declare.
pub proof fn qualified_id_reaches_its_source(
    index: RequestIndex,
    operations: Result<Map<Seq<char>, Seq<EntryView>>, ErrorView>,
    target: Seq<char>,
    source: Seq<char>,
    id: Seq<char>,
)
    requires
        qualified_operation(index, operations, target, source, id) is Ok,
    ensures
        ({
            let r = qualified_operation(index, operations, target, source, id)->Ok_0;
            let list = of_source(defined(operations->Ok_0, id), Some(source));
            &&& operations is Ok
            &&& list.len() == 1
            &&& r.method == list[0].method
            &&& r.path == list[0].path
            &&& match list[0].server {
                crate::operations::ServerView::Declared(b) => r.base == Some(b),
                _ => r.base == base_of(index, source),
            }
        }),
{
}

/// With several source descriptions that have operations, no unqualified id
/// is resolved.
pub proof fn unqualified_id_is_refused_among_sources(
    index: RequestIndex,
    operations: Result<Map<Seq<char>, Seq<EntryView>>, ErrorView>,
    target: Seq<char>,
    id: Seq<char>,
)
    requires
        operation_sources(index.source_descriptions@).len() > 1,
    ensures
        unqualified_operation(index, operations, target, id) matches Err(e)
            && e.kind is OperationIdAmbiguous,
{
}

} // verus!
