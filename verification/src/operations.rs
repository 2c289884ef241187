//! The operations that OpenAPI documents define, and the servers they are
//! sent to.

use crate::text::{concat2, concat5, decimal, decimal_text, same_text};
use crate::text_map::TextMap;
use vstd::prelude::*;
use vstd::string::*;

verus! {

// ---------------------------------------------------------------------
// Operations
// ---------------------------------------------------------------------

/// Where an operation came from.
#[derive(Debug, PartialEq)]
pub enum OperationOrigin {
    /// The document of a source description.
    Source { name: String, path: String },
    /// A document that was provided by itself; they are counted from one.
    ExplicitSpec { ordinal: usize },
}

/// The content of an origin.
#[verifier::ext_equal]
pub enum OriginView {
    Source { name: Seq<char>, path: Seq<char> },
    ExplicitSpec { ordinal: usize },
}

impl View for OperationOrigin {
    type V = OriginView;

    open spec fn view(&self) -> OriginView {
        match self {
            OperationOrigin::Source { name, path } => OriginView::Source {
                name: name@,
                path: path@,
            },
            OperationOrigin::ExplicitSpec { ordinal } => OriginView::ExplicitSpec {
                ordinal: *ordinal,
            },
        }
    }
}

/// The source description that an origin is of.
pub open spec fn origin_source(o: OriginView) -> Option<Seq<char>> {
    match o {
        OriginView::Source { name, path } => Some(name),
        OriginView::ExplicitSpec { ordinal } => None,
    }
}

/// The words that name an origin.
pub open spec fn origin_words(o: OriginView) -> Seq<char> {
    match o {
        OriginView::Source { name, path } => "sourceDescription \""@ + name + "\" ("@ + path + ")"@,
        OriginView::ExplicitSpec { ordinal } => "explicitly provided OpenAPI spec #"@ + decimal(
            ordinal as nat,
        ),
    }
}

impl OperationOrigin {
    /// The source description that owns the operation; none owns one of a
    /// document that was provided by itself.
    pub fn source_name(&self) -> (r: Option<&str>)
        ensures
            match r {
                Some(s) => origin_source(self@) == Some(s@),
                None => origin_source(self@) is None,
            },
    {
        match self {
            OperationOrigin::Source { name, path: _ } => Some(name.as_str()),
            OperationOrigin::ExplicitSpec { ordinal: _ } => None,
        }
    }

    /// The words that name the origin.
    pub fn describe(&self) -> (r: String)
        ensures
            r@ == origin_words(self@),
    {
        match self {
            OperationOrigin::Source { name, path } => concat5(
                "sourceDescription \"",
                name.as_str(),
                "\" (",
                path.as_str(),
                ")",
            ),
            OperationOrigin::ExplicitSpec { ordinal } => {
                let number = decimal_text(*ordinal as u64);
                concat2("explicitly provided OpenAPI spec #", number.as_str())
            },
        }
    }

    /// The same origin.
    pub fn copy(&self) -> (r: OperationOrigin)
        ensures
            r@ == self@,
    {
        match self {
            OperationOrigin::Source { name, path } => OperationOrigin::Source {
                name: name.clone(),
                path: path.clone(),
            },
            OperationOrigin::ExplicitSpec { ordinal } => OperationOrigin::ExplicitSpec {
                ordinal: *ordinal,
            },
        }
    }
}

/// The object below the root of a document that declares servers.
#[derive(Debug, Clone, Copy, PartialEq, Eq, Structural)]
pub enum ServerLevel {
    PathItem,
    Operation,
}

pub open spec fn level_name(l: ServerLevel) -> Seq<char> {
    match l {
        ServerLevel::PathItem => "Path Item Object"@,
        ServerLevel::Operation => "Operation Object"@,
    }
}

impl ServerLevel {
    /// The name of the object.
    pub fn object_name(self) -> (r: &'static str)
        ensures
            r@ == level_name(self),
    {
        match self {
            ServerLevel::PathItem => "Path Item Object",
            ServerLevel::Operation => "Operation Object",
        }
    }
}

/// Why declared servers give no request base. To declare none, or an empty
/// list, is no issue: it declares nothing.
#[derive(Debug, PartialEq)]
pub enum ServerIssue {
    NotAnArray,
    MissingUrl,
    Relative(String),
}

/// The content of an issue.
#[verifier::ext_equal]
pub enum IssueView {
    NotAnArray,
    MissingUrl,
    Relative(Seq<char>),
}

impl View for ServerIssue {
    type V = IssueView;

    open spec fn view(&self) -> IssueView {
        match self {
            ServerIssue::NotAnArray => IssueView::NotAnArray,
            ServerIssue::MissingUrl => IssueView::MissingUrl,
            ServerIssue::Relative(u) => IssueView::Relative(u@),
        }
    }
}

/// Declared servers that give no request base, and who declares them.
#[derive(Debug, PartialEq)]
pub struct UnusableServer {
    pub level: ServerLevel,
    pub issue: ServerIssue,
}

/// Where an operation is sent, as far as its own objects say so.
#[derive(Debug, PartialEq)]
pub enum OperationServer {
    /// Nothing is declared: the request base of the document holds.
    Inherited,
    /// The request base of the lowest level that declares one.
    Declared(String),
    /// The lowest level that declares servers gives no request base.
    Unusable(UnusableServer),
}

/// The content of a declared server.
#[verifier::ext_equal]
pub enum ServerView {
    Inherited,
    Declared(Seq<char>),
    Unusable(ServerLevel, IssueView),
}

impl View for OperationServer {
    type V = ServerView;

    open spec fn view(&self) -> ServerView {
        match self {
            OperationServer::Inherited => ServerView::Inherited,
            OperationServer::Declared(b) => ServerView::Declared(b@),
            OperationServer::Unusable(u) => ServerView::Unusable(u.level, u.issue@),
        }
    }
}

/// The request base of an operation in a document with a request base.
pub open spec fn server_base(s: ServerView, document_base: Seq<char>) -> Result<
    Seq<char>,
    (ServerLevel, IssueView),
> {
    match s {
        ServerView::Inherited => Ok(document_base),
        ServerView::Declared(b) => Ok(b),
        ServerView::Unusable(l, i) => Err((l, i)),
    }
}

impl OperationServer {
    /// The request base of the operation, given that of its document.
    pub fn base(&self, document_base: &str) -> (r: Result<String, &UnusableServer>)
        ensures
            match r {
                Ok(b) => server_base(self@, document_base@) == Ok::<
                    Seq<char>,
                    (ServerLevel, IssueView),
                >(b@),
                Err(u) => server_base(self@, document_base@) == Err::<
                    Seq<char>,
                    (ServerLevel, IssueView),
                >((u.level, u.issue@)),
            },
    {
        match self {
            OperationServer::Inherited => Ok(document_base.to_owned()),
            OperationServer::Declared(b) => Ok(b.clone()),
            OperationServer::Unusable(u) => Err(u),
        }
    }
}

/// An operation of a document.
#[derive(Debug, PartialEq)]
pub struct OperationEntry {
    pub method: String,
    pub path: String,
    pub origin: OperationOrigin,
    pub server: OperationServer,
}

/// The content of an operation.
#[verifier::ext_equal]
pub struct EntryView {
    pub method: Seq<char>,
    pub path: Seq<char>,
    pub origin: OriginView,
    pub server: ServerView,
}

impl View for OperationEntry {
    type V = EntryView;

    open spec fn view(&self) -> EntryView {
        EntryView {
            method: self.method@,
            path: self.path@,
            origin: self.origin@,
            server: self.server@,
        }
    }
}

/// The contents of a list of operations.
pub open spec fn entry_views(list: Seq<OperationEntry>) -> Seq<EntryView> {
    list.map_values(|e: OperationEntry| e@)
}

// ---------------------------------------------------------------------
// The index
// ---------------------------------------------------------------------

/// Every operation that was indexed, by its `operationId`, all definitions
/// kept in the order in which they came.
#[derive(Debug, PartialEq)]
pub struct OperationIndex {
    by_id: TextMap<Vec<OperationEntry>>,
}

/// What is defined under an id.
pub open spec fn defined(m: Map<Seq<char>, Seq<EntryView>>, id: Seq<char>) -> Seq<EntryView> {
    if m.contains_key(id) {
        m[id]
    } else {
        Seq::empty()
    }
}

/// An index with one more definition.
pub open spec fn with_definition(
    m: Map<Seq<char>, Seq<EntryView>>,
    id: Seq<char>,
    e: EntryView,
) -> Map<Seq<char>, Seq<EntryView>> {
    m.insert(id, defined(m, id).push(e))
}

/// The definitions that belong to a source description; or, for none, those
/// of documents that were provided by themselves.
pub open spec fn of_source(list: Seq<EntryView>, source: Option<Seq<char>>) -> Seq<EntryView>
    decreases list.len(),
{
    if list.len() == 0 {
        list
    } else {
        let before = of_source(list.drop_last(), source);
        if origin_source(list.last().origin) == source {
            before.push(list.last())
        } else {
            before
        }
    }
}

/// The definitions that an unqualified id stands for: documents that were
/// provided by themselves outrank those of source descriptions.
pub open spec fn unqualified(list: Seq<EntryView>) -> Seq<EntryView> {
    if of_source(list, None).len() > 0 {
        of_source(list, None)
    } else {
        list
    }
}

/// What an id matched.
#[derive(Debug)]
pub enum OperationMatch<'a> {
    Missing,
    One(&'a OperationEntry),
    /// Several definitions, none of which outranks the others.
    Ambiguous(Vec<&'a OperationEntry>),
}

/// The contents of a list of references to operations.
pub open spec fn entry_ref_views(list: Seq<&OperationEntry>) -> Seq<EntryView> {
    list.map_values(|e: &OperationEntry| e@)
}

/// Whether a match is the right one for the definitions that apply.
pub open spec fn is_match_of(m: OperationMatch, list: Seq<EntryView>) -> bool {
    match m {
        OperationMatch::Missing => list.len() == 0,
        OperationMatch::One(e) => list == seq![e@],
        OperationMatch::Ambiguous(all) => list.len() > 1 && entry_ref_views(all@) == list,
    }
}

impl View for OperationIndex {
    type V = Map<Seq<char>, Seq<EntryView>>;

    closed spec fn view(&self) -> Map<Seq<char>, Seq<EntryView>> {
        self.by_id@.map_values(|list: Vec<OperationEntry>| entry_views(list@))
    }
}

impl OperationIndex {
    /// An index without operations.
    pub fn new() -> (r: OperationIndex)
        ensures
            r@ == Map::<Seq<char>, Seq<EntryView>>::empty(),
    {
        let r = OperationIndex { by_id: TextMap::new() };
        assert(r@ =~= Map::<Seq<char>, Seq<EntryView>>::empty());
        r
    }

    /// Adds a definition.
    pub fn push(&mut self, operation_id: String, entry: OperationEntry)
        ensures
            final(self)@ == with_definition(old(self)@, operation_id@, entry@),
    {
        let ghost before = self@;
        let ghost added = entry@;
        let mut list: Vec<OperationEntry> = Vec::new();
        match self.by_id.get(operation_id.as_str()) {
            Some(entries) => {
                list = copy_entries(entries);
            },
            None => {
                assert(entry_views(list@) =~= Seq::<EntryView>::empty());
            },
        }
        assert(entry_views(list@) == defined(before, operation_id@));
        let ghost earlier = list@;
        list.push(entry);
        assert(entry_views(list@) =~= entry_views(earlier).push(added));
        let ghost id = operation_id@;
        self.by_id.insert(operation_id, list);
        assert(self@ =~= with_definition(before, id, added));
    }

    /// The origin of the latest definition of an id.
    pub fn last_origin(&self, operation_id: &str) -> (r: Option<&OperationOrigin>)
        ensures
            match r {
                Some(o) => defined(self@, operation_id@).len() > 0 && o@ == defined(
                    self@,
                    operation_id@,
                ).last().origin,
                None => defined(self@, operation_id@).len() == 0,
            },
    {
        match self.by_id.get(operation_id) {
            Some(entries) => if entries.len() == 0 {
                None
            } else {
                Some(&entries[entries.len() - 1].origin)
            },
            None => None,
        }
    }

    /// The operation that a source description defines under an id. Documents
    /// that were provided by themselves belong to no source description.
    pub fn in_source<'a>(&'a self, source_name: &str, operation_id: &str) -> (r: OperationMatch<'a>)
        ensures
            is_match_of(r, of_source(defined(self@, operation_id@), Some(source_name@))),
    {
        self.select(operation_id, Some(source_name))
    }

    /// The operation that an unqualified id names.
    pub fn bare<'a>(&'a self, operation_id: &str) -> (r: OperationMatch<'a>)
        ensures
            is_match_of(r, unqualified(defined(self@, operation_id@))),
    {
        let explicit = self.select(operation_id, None);
        let missing = match &explicit {
            OperationMatch::Missing => true,
            _ => false,
        };
        if !missing {
            return explicit;
        }
        match self.by_id.get(operation_id) {
            Some(entries) => {
                let mut all: Vec<&OperationEntry> = Vec::new();
                let mut i: usize = 0;
                while i < entries.len()
                    invariant
                        i <= entries@.len(),
                        all@.len() == i,
                        forall|j: int| 0 <= j < i ==> (#[trigger] all@[j])@ == entries@[j]@,
                    decreases entries@.len() - i,
                {
                    all.push(&entries[i]);
                    i = i + 1;
                }
                assert(entry_ref_views(all@) =~= entry_views(entries@));
                as_match(all)
            },
            None => OperationMatch::Missing,
        }
    }

    fn select<'a>(&'a self, operation_id: &str, source: Option<&str>) -> (r: OperationMatch<'a>)
        ensures
            is_match_of(
                r,
                of_source(
                    defined(self@, operation_id@),
                    match source {
                        Some(s) => Some(s@),
                        None => None,
                    },
                ),
            ),
    {
        let ghost wanted = match source {
            Some(s) => Some(s@),
            None => None,
        };
        let ghost list = defined(self@, operation_id@);
        let entries = match self.by_id.get(operation_id) {
            Some(e) => e,
            None => {
                return OperationMatch::Missing;
            },
        };
        let mut all: Vec<&OperationEntry> = Vec::new();
        let mut i: usize = 0;
        assert(entry_ref_views(all@) =~= of_source(list.take(0), wanted));
        while i < entries.len()
            invariant
                i <= entries@.len(),
                list == entry_views(entries@),
                wanted == (match source {
                    Some(s) => Some(s@),
                    None => None,
                }),
                entry_ref_views(all@) == of_source(list.take(i as int), wanted),
            decreases entries@.len() - i,
        {
            let entry = &entries[i];
            let keep = match (entry.origin.source_name(), source) {
                (Some(a), Some(b)) => same_text(a, b),
                (None, None) => true,
                _ => false,
            };
            assert(list[i as int] == entry@);
            assert(keep == (origin_source(entry@.origin) == wanted));
            assert(list.take(i + 1).drop_last() =~= list.take(i as int));
            let ghost before = all@;
            if keep {
                all.push(entry);
                assert(entry_ref_views(all@) =~= entry_ref_views(before).push(entry@));
            }
            i = i + 1;
        }
        assert(list.take(i as int) =~= list);
        as_match(all)
    }
}

fn as_match<'a>(all: Vec<&'a OperationEntry>) -> (r: OperationMatch<'a>)
    ensures
        is_match_of(r, entry_ref_views(all@)),
{
    if all.len() == 0 {
        OperationMatch::Missing
    } else if all.len() == 1 {
        assert(entry_ref_views(all@) =~= seq![all@[0]@]);
        OperationMatch::One(all[0])
    } else {
        OperationMatch::Ambiguous(all)
    }
}

impl OperationEntry {
    /// The same operation.
    pub fn copy(&self) -> (r: OperationEntry)
        ensures
            r@ == self@,
    {
        let server = match &self.server {
            OperationServer::Inherited => OperationServer::Inherited,
            OperationServer::Declared(b) => OperationServer::Declared(b.clone()),
            OperationServer::Unusable(u) => OperationServer::Unusable(
                UnusableServer {
                    level: u.level,
                    issue: match &u.issue {
                        ServerIssue::NotAnArray => ServerIssue::NotAnArray,
                        ServerIssue::MissingUrl => ServerIssue::MissingUrl,
                        ServerIssue::Relative(x) => ServerIssue::Relative(x.clone()),
                    },
                },
            ),
        };
        OperationEntry {
            method: self.method.clone(),
            path: self.path.clone(),
            origin: self.origin.copy(),
            server,
        }
    }
}

fn copy_entries(list: &Vec<OperationEntry>) -> (r: Vec<OperationEntry>)
    ensures
        entry_views(r@) == entry_views(list@),
{
    let mut out: Vec<OperationEntry> = Vec::new();
    let mut i: usize = 0;
    while i < list.len()
        invariant
            i <= list@.len(),
            out@.len() == i,
            forall|j: int| 0 <= j < i ==> (#[trigger] out@[j])@ == list@[j]@,
        decreases list@.len() - i,
    {
        out.push(list[i].copy());
        i = i + 1;
    }
    assert(entry_views(out@) =~= entry_views(list@));
    out
}

/// A definition of a document that was provided by itself is never what a
/// source-qualified id names.
pub proof fn qualified_ids_stay_in_their_source(
    list: Seq<EntryView>,
    source: Seq<char>,
    e: EntryView,
)
    requires
        of_source(list, Some(source)).contains(e),
    ensures
        list.contains(e),
        origin_source(e.origin) == Some(source),
    decreases list.len(),
{
    if list.len() > 0 {
        let before = of_source(list.drop_last(), Some(source));
        if before.contains(e) {
            qualified_ids_stay_in_their_source(list.drop_last(), source, e);
            let i = choose|i: int| 0 <= i < list.len() - 1 && list.drop_last()[i] == e;
            assert(list[i] == e);
        } else {
            let i = choose|i: int|
                0 <= i < of_source(list, Some(source)).len() && of_source(list, Some(source))[i]
                    == e;
            assert(of_source(list, Some(source)) == before.push(list.last()));
            assert(i == before.len());
            assert(list[list.len() - 1] == e);
        }
    }
}

/// Adding a definition under one id leaves what other ids stand for, and adds
/// to what this one stands for.
pub proof fn definitions_accumulate(
    m: Map<Seq<char>, Seq<EntryView>>,
    id: Seq<char>,
    other: Seq<char>,
    e: EntryView,
)
    ensures
        defined(with_definition(m, id, e), id) == defined(m, id).push(e),
        other != id ==> defined(with_definition(m, id, e), other) == defined(m, other),
{
}

} // verus!
