//! Which document a source description names: by its identity among the
//! documents that were provided, or by a file.

use crate::error::{ErrorView, RuntimeError, RuntimeErrorKind};
use crate::exchange::copy_bytes;
use crate::model::{SourceDescription, SourceType};
use crate::text::{concat2, concat3, same_text, starts_with, stands_at, chars_of};
use crate::web_url::{
    copy_url, drop_fragment, is_relative_reference, join_url, opt_url_text, parse_url,
    relative_reference, scheme_of_url, text_of_url, url_joined, url_parsed, url_scheme, url_text,
    url_without_fragment,
};
use crate::xpath::opt_text;
use crate::yaml::{get_text, member_text, read_yaml, yaml_parsed};
use vstd::prelude::*;
use vstd::string::*;

verus! {

// ---------------------------------------------------------------------
// Paths
// ---------------------------------------------------------------------

/// One part of a path.
#[derive(Debug, PartialEq)]
pub enum PathPart {
    Root,
    Current,
    Parent,
    Normal(String),
}

/// The content of a part.
#[verifier::ext_equal]
pub enum PartView {
    Root,
    Current,
    Parent,
    Normal(Seq<char>),
}

impl View for PathPart {
    type V = PartView;

    open spec fn view(&self) -> PartView {
        match self {
            PathPart::Root => PartView::Root,
            PathPart::Current => PartView::Current,
            PathPart::Parent => PartView::Parent,
            PathPart::Normal(n) => PartView::Normal(n@),
        }
    }
}

/// The contents of the parts of a path.
pub open spec fn part_views(parts: Seq<PathPart>) -> Seq<PartView> {
    parts.map_values(|p: PathPart| p@)
}

/// A path with one more part: `.` adds nothing, `..` takes the last name away
/// where there is one, and the root starts over.
pub open spec fn part_added(path: Seq<PartView>, part: PartView) -> Seq<PartView> {
    match part {
        PartView::Root => seq![PartView::Root],
        PartView::Current => path,
        PartView::Parent => if path.len() > 0 && path.last() is Normal {
            path.drop_last()
        } else {
            path
        },
        PartView::Normal(n) => path.push(part),
    }
}

/// A path without `.` and `..`.
pub open spec fn without_dots(parts: Seq<PartView>) -> Seq<PartView>
    decreases parts.len(),
{
    if parts.len() == 0 {
        parts
    } else {
        part_added(without_dots(parts.drop_last()), parts.last())
    }
}

/// A path without `.` and `..`, by its text alone.
pub fn remove_dot_segments(parts: &Vec<PathPart>) -> (r: Vec<PathPart>)
    ensures
        part_views(r@) == without_dots(part_views(parts@)),
{
    let ghost given = part_views(parts@);
    let mut out: Vec<PathPart> = Vec::new();
    let mut i: usize = 0;
    assert(part_views(out@) =~= without_dots(given.take(0)));
    while i < parts.len()
        invariant
            i <= parts@.len(),
            given == part_views(parts@),
            part_views(out@) == without_dots(given.take(i as int)),
        decreases parts@.len() - i,
    {
        assert(given.take(i + 1).drop_last() =~= given.take(i as int));
        assert(given[i as int] == parts@[i as int]@);
        let ghost before = out@;
        match &parts[i] {
            PathPart::Root => {
                out = Vec::new();
                out.push(PathPart::Root);
                assert(part_views(out@) =~= seq![PartView::Root]);
            },
            PathPart::Current => {},
            PathPart::Parent => {
                let named = if out.len() > 0 {
                    match &out[out.len() - 1] {
                        PathPart::Normal(_) => true,
                        _ => false,
                    }
                } else {
                    false
                };
                assert(named == (part_views(before).len() > 0 && part_views(before).last()
                    is Normal)) by {
                    if before.len() > 0 {
                        assert(part_views(before).last() == before.last()@);
                    }
                }
                if named {
                    out.pop();
                    assert(part_views(out@) =~= part_views(before).drop_last());
                }
            },
            PathPart::Normal(n) => {
                out.push(PathPart::Normal(n.clone()));
                assert(part_views(out@) =~= part_views(before).push(given[i as int]));
            },
        }
        i = i + 1;
    }
    assert(given.take(i as int) =~= given);
    out
}

/// Whether a part may stand in a path without `.` and `..`: a name, or the
/// root at the start.
pub open spec fn is_plain(path: Seq<PartView>) -> bool {
    forall|i: int|
        0 <= i < path.len() ==> (#[trigger] path[i]) is Normal || (i == 0 && path[i] is Root)
}

/// What is left has no `.` and no `..`.
pub proof fn dots_are_gone(parts: Seq<PartView>)
    ensures
        is_plain(without_dots(parts)),
    decreases parts.len(),
{
    if parts.len() > 0 {
        dots_are_gone(parts.drop_last());
    }
}

/// Taking `.` and `..` away again changes nothing.
pub proof fn plain_path_stays(parts: Seq<PartView>)
    requires
        is_plain(parts),
    ensures
        without_dots(parts) == parts,
    decreases parts.len(),
{
    if parts.len() > 0 {
        let before = parts.drop_last();
        assert forall|i: int| 0 <= i < before.len() implies (#[trigger] before[i]) is Normal || (i
            == 0 && before[i] is Root) by {
            assert(before[i] == parts[i]);
        }
        plain_path_stays(before);
        let last = parts[parts.len() - 1];
        assert(last is Normal || (parts.len() == 1 && last is Root));
        assert(part_added(before, last) =~= parts);
    }
}

/// A path with another behind it; one that starts at the root replaces it.
pub open spec fn path_joined(base: Seq<char>, path: Seq<char>) -> Seq<char> {
    if stands_at(path, 0, "/"@) || base.len() == 0 {
        path
    } else if base.last() == '/' {
        base + path
    } else {
        base + "/"@ + path
    }
}

/// A path with another behind it.
pub fn join_path(base: &str, path: &str) -> (r: String)
    ensures
        r@ == path_joined(base@, path@),
{
    if starts_with(path, "/") || base.is_empty() {
        return path.to_owned();
    }
    let chars = chars_of(base);
    if chars[chars.len() - 1] == '/' {
        concat2(base, path)
    } else {
        concat3(base, "/", path)
    }
}

// ---------------------------------------------------------------------
// Relative sources
// ---------------------------------------------------------------------

/// Whether a source description names an OpenAPI file: its URL is a relative
/// reference.
pub open spec fn names_file(sd: SourceDescription) -> bool {
    sd.type_ is OpenApi && sd.url@.len() > 0 && is_relative_reference(sd.url@)
}

/// Whether a source description names an OpenAPI file.
pub fn is_relative_document_source(sd: &SourceDescription) -> (r: bool)
    ensures
        r == names_file(*sd),
{
    let openapi = match sd.type_ {
        SourceType::OpenApi => true,
        _ => false,
    };
    openapi && !sd.url.as_str().is_empty() && relative_reference(sd.url.as_str())
}

/// The files that source descriptions name, each with the name of its source.
pub open spec fn source_files(list: Seq<SourceDescription>, base_dir: Seq<char>) -> Seq<
    (Seq<char>, Seq<char>),
>
    decreases list.len(),
{
    if list.len() == 0 {
        Seq::empty()
    } else {
        let before = source_files(list.drop_last(), base_dir);
        if names_file(list.last()) {
            before.push((list.last().name@, path_joined(base_dir, list.last().url@)))
        } else {
            before
        }
    }
}

/// The files that source descriptions name, each with the name of its source.
pub fn relative_openapi_source_paths(sources: &Vec<SourceDescription>, base_dir: &str) -> (r: Vec<
    (String, String),
>)
    ensures
        crate::web_url::pair_views(r@) == source_files(sources@, base_dir@),
{
    let mut out: Vec<(String, String)> = Vec::new();
    let mut i: usize = 0;
    assert(crate::web_url::pair_views(out@) =~= source_files(sources@.take(0), base_dir@));
    while i < sources.len()
        invariant
            i <= sources@.len(),
            crate::web_url::pair_views(out@) == source_files(sources@.take(i as int), base_dir@),
        decreases sources@.len() - i,
    {
        assert(sources@.take(i + 1).drop_last() =~= sources@.take(i as int));
        let ghost before = out@;
        if is_relative_document_source(&sources[i]) {
            let path = join_path(base_dir, sources[i].url.as_str());
            let ghost pair = (sources@[i as int].name@, path@);
            out.push((sources[i].name.clone(), path));
            assert(crate::web_url::pair_views(out@) =~= crate::web_url::pair_views(before).push(
                pair,
            ));
        }
        i = i + 1;
    }
    assert(sources@.take(i as int) =~= sources@);
    out
}

// ---------------------------------------------------------------------
// Identities
// ---------------------------------------------------------------------

/// The URI that a document answers to: a URI without its fragment.
pub open spec fn identity(uri: Seq<char>) -> Seq<char> {
    url_without_fragment(uri)
}

fn identity_of(uri: &url::Url) -> (r: String)
    ensures
        r@ == identity(url_text(*uri)),
{
    let mut u = copy_url(uri);
    drop_fragment(&mut u);
    text_of_url(&u)
}

/// The identity that a document gives itself, where that is an absolute URI.
pub open spec fn own_identity(data: Seq<u8>) -> Option<Seq<char>> {
    match yaml_parsed(data) {
        Ok(root) => match member_text(root, "$self"@) {
            Some(declared) => match url_parsed(declared) {
                Ok(uri) => Some(identity(uri)),
                Err(_) => None,
            },
            None => None,
        },
        Err(_) => None,
    }
}

/// The identity that a document gives itself.
pub fn document_self_uri(data: &[u8]) -> (r: Option<String>)
    ensures
        match r {
            Some(s) => own_identity(data@) == Some(s@),
            None => own_identity(data@) is None,
        },
{
    let root = match read_yaml(data) {
        Ok(r) => r,
        Err(_) => {
            return None;
        },
    };
    match get_text(&root, "$self") {
        Some(declared) => match parse_url(declared) {
            Ok(uri) => Some(identity_of(&uri)),
            Err(_) => None,
        },
        None => None,
    }
}

/// The base that references are resolved against: the URI that the document
/// gives itself, resolved against where it was retrieved from where it is
/// relative; else where it was retrieved from.
pub open spec fn base_for(self_uri: Option<Seq<char>>, retrieval: Option<Seq<char>>) -> Option<
    Seq<char>,
> {
    match self_uri {
        Some(declared) => match url_parsed(declared) {
            Ok(u) => Some(u),
            Err(_) => match retrieval {
                Some(base) => match url_joined(base, declared) {
                    Ok(u) => Some(u),
                    Err(_) => None,
                },
                None => None,
            },
        },
        None => retrieval,
    }
}

/// The base that references are resolved against.
pub fn base_uri(self_uri: Option<&str>, retrieval: Option<url::Url>) -> (r: Option<url::Url>)
    ensures
        opt_url_text(r) == base_for(opt_text(self_uri), opt_url_text(retrieval)),
{
    match self_uri {
        Some(declared) => match parse_url(declared) {
            Ok(u) => Some(u),
            Err(_) => match retrieval {
                Some(base) => match join_url(&base, declared) {
                    Ok(u) => Some(u),
                    Err(_) => None,
                },
                None => None,
            },
        },
        None => retrieval,
    }
}

// ---------------------------------------------------------------------
// The set
// ---------------------------------------------------------------------

/// A document that was provided, and the URI of the place it was read from.
#[derive(Debug, PartialEq)]
pub struct ProvidedDocument {
    pub data: Vec<u8>,
    pub retrieval_uri: Option<String>,
}

/// One document of the set.
#[derive(Debug, PartialEq)]
pub struct SetMember {
    /// The URI that it answers to.
    pub identity: Option<String>,
    /// Its number among those that were provided, from one.
    pub ordinal: usize,
    pub data: Vec<u8>,
    /// Whether a source description names it.
    pub claimed: bool,
}

/// A document that a source description names.
#[derive(Debug, PartialEq)]
pub struct BoundDocument {
    pub data: Vec<u8>,
    /// How messages name it.
    pub label: String,
}

/// The documents that were provided, and the base that references are resolved
/// against.
#[derive(Debug)]
pub struct DocumentSet {
    pub base: Option<url::Url>,
    pub declared_self: Option<String>,
    pub had_retrieval_base: bool,
    pub members: Vec<SetMember>,
}

/// The content of a text that may be missing.
pub open spec fn own_text(t: Option<String>) -> Option<Seq<char>> {
    match t {
        Some(s) => Some(s@),
        None => None,
    }
}

/// The URI that a provided document answers to: the one it gives itself, else
/// the place it was read from.
pub open spec fn provided_identity(d: ProvidedDocument) -> Option<Seq<char>> {
    match own_identity(d.data@) {
        Some(i) => Some(i),
        None => own_text(d.retrieval_uri),
    }
}

/// Whether a member is a document that was provided, not yet named.
pub open spec fn is_member_for(m: SetMember, d: ProvidedDocument, i: int) -> bool {
    &&& own_text(m.identity) == provided_identity(d)
    &&& m.ordinal == i + 1
    &&& m.data@ == d.data@
    &&& !m.claimed
}

impl DocumentSet {
    /// The set of documents that were provided to a document that gives itself
    /// `self_uri` and was retrieved from `retrieval`.
    pub fn new(
        self_uri: Option<&str>,
        retrieval: Option<url::Url>,
        provided: Vec<ProvidedDocument>,
    ) -> (r: DocumentSet)
        requires
            provided@.len() < usize::MAX,
        ensures
            opt_url_text(r.base) == base_for(opt_text(self_uri), opt_url_text(retrieval)),
            own_text(r.declared_self) == opt_text(self_uri),
            r.had_retrieval_base == retrieval is Some,
            r.members@.len() == provided@.len(),
            forall|i: int|
                0 <= i < provided@.len() ==> is_member_for(
                    #[trigger] r.members@[i],
                    provided@[i],
                    i,
                ),
    {
        let had_retrieval_base = retrieval.is_some();
        let ghost list = provided@;
        let mut members: Vec<SetMember> = Vec::new();
        for document in it: provided
            invariant
                it.seq() == list,
                list.len() < usize::MAX,
                members@.len() == it.index(),
                forall|j: int|
                    0 <= j < members@.len() ==> is_member_for(
                        #[trigger] members@[j],
                        list[j],
                        j,
                    ),
        {
            let identity = match document_self_uri(document.data.as_slice()) {
                Some(i) => Some(i),
                None => document.retrieval_uri,
            };
            let ordinal = members.len() + 1;
            members.push(
                SetMember { identity, ordinal, data: document.data, claimed: false },
            );
        }
        DocumentSet {
            base: base_uri(self_uri, retrieval),
            declared_self: match self_uri {
                Some(s) => Some(s.to_owned()),
                None => None,
            },
            had_retrieval_base,
            members,
        }
    }
}

/// An error about a source description.
pub open spec fn source_error(
    kind: RuntimeErrorKind,
    name: Seq<char>,
    message: Seq<char>,
) -> ErrorView {
    ErrorView { kind, message: "sourceDescription \""@ + name + "\": "@ + message }
}

fn source_failure(kind: RuntimeErrorKind, name: &str, message: &str) -> (r: RuntimeError)
    ensures
        r@ == source_error(kind, name@, message@),
{
    let mut text = "sourceDescription \"".to_owned();
    text.append(name);
    text.append("\": ");
    text.append(message);
    RuntimeError::new(kind, text)
}

/// Why a relative reference has nothing to be resolved against.
pub open spec fn missing_base_cause(declared: Option<Seq<char>>, had_retrieval: bool) -> Seq<char> {
    match declared {
        Some(d) => if had_retrieval {
            "its $self \""@ + d
                + "\" is not a URI this runtime can resolve against the document's retrieval URI"@
        } else {
            "declare an absolute $self, or provide the Arazzo document's directory via EngineBuilder::source_base_dir"@
        },
        None =>
            "declare an absolute $self, or provide the Arazzo document's directory via EngineBuilder::source_base_dir"@,
    }
}

/// The URI that the URL of a source description stands for: itself where it is
/// absolute, else what it is at the base. A text that is no URI at all stands
/// for none.
pub open spec fn source_uri(set: DocumentSet, sd: SourceDescription) -> Result<
    Option<Seq<char>>,
    ErrorView,
> {
    match url_parsed(sd.url@) {
        Ok(u) => Ok(Some(u)),
        Err(p) => if !p.0 {
            Ok(None)
        } else {
            match set.base {
                None => Err(
                    source_error(
                        RuntimeErrorKind::SourceDescriptionLoad,
                        sd.name@,
                        "relative url \""@ + sd.url@ + "\" has no base URI to resolve against: "@
                            + missing_base_cause(
                            own_text(set.declared_self),
                            set.had_retrieval_base,
                        ),
                    ),
                ),
                Some(base) => match url_joined(url_text(base), sd.url@) {
                    Ok(u) => Ok(Some(u)),
                    Err(e) => Err(
                        source_error(
                            RuntimeErrorKind::SourceDescriptionLoad,
                            sd.name@,
                            "url \""@ + sd.url@ + "\" cannot be resolved against base URI \""@
                                + url_text(base) + "\": "@ + e,
                        ),
                    ),
                },
            }
        },
    }
}

/// The base of a set, for messages.
pub open spec fn shown_base(set: DocumentSet) -> Seq<char> {
    match set.base {
        Some(b) => url_text(b),
        None => "<none>"@,
    }
}

/// The first member, at or after `from`, that answers to a URI.
pub open spec fn answering_from(members: Seq<SetMember>, uri: Seq<char>, from: int) -> int
    decreases members.len() - from,
{
    if from >= members.len() {
        members.len() as int
    } else if own_text(members[from].identity) == Some(uri) {
        from
    } else {
        answering_from(members, uri, from + 1)
    }
}

/// The beginning of a message about the URI that a source description names.
pub open spec fn resolved_words(set: DocumentSet, sd: SourceDescription, uri: Seq<char>) -> Seq<
    char,
> {
    "url \""@ + sd.url@ + "\" resolved against base URI \""@ + shown_base(set) + "\" to \""@ + uri
        + "\""@
}

/// What a source description is bound to.
#[derive(Debug)]
pub enum Binding {
    /// No document: its URL is the request base.
    BaseUrl,
    /// A document that was provided.
    Provided(BoundDocument),
    /// The file of this URI, which is to be read.
    File(url::Url),
}

/// What a source description is bound to: its member, for a document that was
/// provided.
pub enum BindingView {
    BaseUrl,
    Provided(int),
    File(Seq<char>),
}

/// What a source description is bound to: a document that answers to its URI,
/// else a file. A URL that is neither, written out in full, is a request base;
/// nothing is retrieved over the network.
pub open spec fn binding(set: DocumentSet, sd: SourceDescription) -> Result<
    BindingView,
    ErrorView,
> {
    if !(sd.type_ is OpenApi) || sd.url@.len() == 0 {
        Ok(BindingView::BaseUrl)
    } else {
        match source_uri(set, sd) {
            Err(e) => Err(e),
            Ok(None) => Ok(BindingView::BaseUrl),
            Ok(Some(uri)) => {
                let at = answering_from(set.members@, identity(uri), 0);
                if at < set.members@.len() {
                    Ok(BindingView::Provided(at))
                } else if url_scheme(uri) == "file"@ {
                    Ok(BindingView::File(uri))
                } else if !is_relative_reference(sd.url@) {
                    Ok(BindingView::BaseUrl)
                } else {
                    Err(
                        source_error(
                            RuntimeErrorKind::SourceDescriptionNotFound,
                            sd.name@,
                            resolved_words(set, sd, uri)
                                + ", which is not a document provided to this engine; provide that document so it can be bound by identity — no document is retrieved over the network"@,
                        ),
                    )
                }
            },
        }
    }
}

/// Whether members are the same but for one that has been named.
pub open spec fn claimed_at(before: Seq<SetMember>, after: Seq<SetMember>, at: int) -> bool {
    &&& after.len() == before.len()
    &&& forall|i: int| 0 <= i < before.len() && i != at ==> #[trigger] after[i] == before[i]
    &&& after[at].claimed
    &&& after[at].identity == before[at].identity
    &&& after[at].ordinal == before[at].ordinal
    &&& after[at].data == before[at].data
}

impl DocumentSet {
    fn resolved_text(&self, sd: &SourceDescription, uri: &str) -> (r: String)
        ensures
            r@ == resolved_words(*self, *sd, uri@),
    {
        let base = match &self.base {
            Some(b) => text_of_url(b),
            None => "<none>".to_owned(),
        };
        let mut text = "url \"".to_owned();
        text.append(sd.url.as_str());
        text.append("\" resolved against base URI \"");
        text.append(base.as_str());
        text.append("\" to \"");
        text.append(uri);
        text.append("\"");
        text
    }

    /// The URI that the URL of a source description stands for.
    fn resolve(&self, sd: &SourceDescription) -> (r: Result<Option<url::Url>, RuntimeError>)
        ensures
            match source_uri(*self, *sd) {
                Ok(u) => r matches Ok(x) && opt_url_text(x) == u,
                Err(e) => r matches Err(x) && x@ == e,
            },
    {
        match parse_url(sd.url.as_str()) {
            Ok(u) => {
                return Ok(Some(u));
            },
            Err(p) => {
                if !p.relative {
                    return Ok(None);
                }
            },
        }
        match &self.base {
            None => {
                let advice = "declare an absolute $self, or provide the Arazzo document's directory via EngineBuilder::source_base_dir";
                let cause = match &self.declared_self {
                    Some(declared) => if self.had_retrieval_base {
                        concat3(
                            "its $self \"",
                            declared.as_str(),
                            "\" is not a URI this runtime can resolve against the document's retrieval URI",
                        )
                    } else {
                        advice.to_owned()
                    },
                    None => advice.to_owned(),
                };
                let mut message = "relative url \"".to_owned();
                message.append(sd.url.as_str());
                message.append("\" has no base URI to resolve against: ");
                message.append(cause.as_str());
                Err(
                    source_failure(
                        RuntimeErrorKind::SourceDescriptionLoad,
                        sd.name.as_str(),
                        message.as_str(),
                    ),
                )
            },
            Some(base) => match join_url(base, sd.url.as_str()) {
                Ok(u) => Ok(Some(u)),
                Err(e) => {
                    let shown = text_of_url(base);
                    let mut message = "url \"".to_owned();
                    message.append(sd.url.as_str());
                    message.append("\" cannot be resolved against base URI \"");
                    message.append(shown.as_str());
                    message.append("\": ");
                    message.append(e.as_str());
                    Err(
                        source_failure(
                            RuntimeErrorKind::SourceDescriptionLoad,
                            sd.name.as_str(),
                            message.as_str(),
                        ),
                    )
                },
            },
        }
    }

    /// Binds a source description. A document that it names is marked so.
    pub fn bind(&mut self, sd: &SourceDescription) -> (r: Result<Binding, RuntimeError>)
        ensures
            opt_url_text(final(self).base) == opt_url_text(old(self).base),
            final(self).declared_self == old(self).declared_self,
            final(self).had_retrieval_base == old(self).had_retrieval_base,
            match binding(*old(self), *sd) {
                Ok(BindingView::BaseUrl) => r matches Ok(Binding::BaseUrl) && final(self).members@
                    == old(self).members@,
                Ok(BindingView::Provided(at)) => {
                    &&& r matches Ok(Binding::Provided(d)) && d.data@ == old(
                        self,
                    ).members@[at].data@ && Some(d.label@) == own_text(
                        old(self).members@[at].identity,
                    )
                    &&& claimed_at(old(self).members@, final(self).members@, at)
                },
                Ok(BindingView::File(uri)) => {
                    &&& r matches Ok(Binding::File(u)) && url_text(u) == uri
                    &&& final(self).members@ == old(self).members@
                },
                Err(e) => {
                    &&& r matches Err(x) && x@ == e
                    &&& final(self).members@ == old(self).members@
                },
            },
    {
        let openapi = match sd.type_ {
            SourceType::OpenApi => true,
            _ => false,
        };
        if !openapi || sd.url.as_str().is_empty() {
            return Ok(Binding::BaseUrl);
        }
        let resolved = match self.resolve(sd) {
            Ok(Some(u)) => u,
            Ok(None) => {
                return Ok(Binding::BaseUrl);
            },
            Err(e) => {
                return Err(e);
            },
        };
        let id = identity_of(&resolved);
        let mut i: usize = 0;
        while i < self.members.len()
            invariant
                i <= self.members@.len(),
                self.members@ == old(self).members@,
                self.base == old(self).base,
                self.declared_self == old(self).declared_self,
                self.had_retrieval_base == old(self).had_retrieval_base,
                sd.type_ is OpenApi,
                sd.url@.len() > 0,
                source_uri(*old(self), *sd) == Ok::<Option<Seq<char>>, ErrorView>(
                    Some(url_text(resolved)),
                ),
                id@ == identity(url_text(resolved)),
                answering_from(old(self).members@, id@, 0) == answering_from(
                    old(self).members@,
                    id@,
                    i as int,
                ),
            decreases self.members@.len() - i,
        {
            let answers = match &self.members[i].identity {
                Some(own) => same_text(own.as_str(), id.as_str()),
                None => false,
            };
            if answers {
                let data = copy_bytes(&self.members[i].data);
                self.members[i].claimed = true;
                return Ok(Binding::Provided(BoundDocument { data, label: id }));
            }
            i = i + 1;
        }
        let scheme = scheme_of_url(&resolved);
        if same_text(scheme.as_str(), "file") {
            return Ok(Binding::File(resolved));
        }
        if !relative_reference(sd.url.as_str()) {
            return Ok(Binding::BaseUrl);
        }
        let uri = text_of_url(&resolved);
        let mut message = self.resolved_text(sd, uri.as_str());
        message.append(
            ", which is not a document provided to this engine; provide that document so it can be bound by identity — no document is retrieved over the network",
        );
        Err(
            source_failure(
                RuntimeErrorKind::SourceDescriptionNotFound,
                sd.name.as_str(),
                message.as_str(),
            ),
        )
    }

    /// The document of a file that a source description is bound to, given
    /// what reading it came to.
    pub fn bind_file(&self, sd: &SourceDescription, uri: &str, read: FileRead) -> (r: Result<
        BoundDocument,
        RuntimeError,
    >)
        ensures
            match read {
                FileRead::NotAPath => r matches Err(e) && e@ == source_error(
                    RuntimeErrorKind::SourceDescriptionNotFound,
                    sd.name@,
                    resolved_words(*self, *sd, uri@) + ", which is not a usable local file path"@,
                ),
                FileRead::Unreadable { path, reason } => r matches Err(e) && e@ == source_error(
                    RuntimeErrorKind::SourceDescriptionLoad,
                    sd.name@,
                    resolved_words(*self, *sd, uri@) + "; reading OpenAPI document \""@ + path@
                        + "\": "@ + reason@,
                ),
                FileRead::Read { path, data } => r == Ok::<BoundDocument, RuntimeError>(
                    BoundDocument { data, label: path },
                ),
            },
    {
        let mut message = self.resolved_text(sd, uri);
        match read {
            FileRead::NotAPath => {
                message.append(", which is not a usable local file path");
                Err(
                    source_failure(
                        RuntimeErrorKind::SourceDescriptionNotFound,
                        sd.name.as_str(),
                        message.as_str(),
                    ),
                )
            },
            FileRead::Unreadable { path, reason } => {
                message.append("; reading OpenAPI document \"");
                message.append(path.as_str());
                message.append("\": ");
                message.append(reason.as_str());
                Err(
                    source_failure(
                        RuntimeErrorKind::SourceDescriptionLoad,
                        sd.name.as_str(),
                        message.as_str(),
                    ),
                )
            },
            FileRead::Read { path, data } => Ok(BoundDocument { data, label: path }),
        }
    }

    /// The documents that no source description names, with their numbers.
    pub fn unclaimed(self) -> (r: Vec<(usize, Vec<u8>)>)
        ensures
            numbered_views(r@) == unclaimed_members(self.members@),
    {
        let ghost list = self.members@;
        let mut out: Vec<(usize, Vec<u8>)> = Vec::new();
        assert(numbered_views(out@) =~= unclaimed_members(list.take(0)));
        for m in it: self.members
            invariant
                it.seq() == list,
                numbered_views(out@) == unclaimed_members(list.take(it.index() as int)),
        {
            let ghost i = it.index() as int;
            assert(list.take(i + 1).drop_last() =~= list.take(i));
            let ghost before = out@;
            if !m.claimed {
                let ghost pair = (m.ordinal, m.data@);
                out.push((m.ordinal, m.data));
                assert(numbered_views(out@) =~= numbered_views(before).push(pair));
            }
        }
        assert(list.take(list.len() as int) =~= list);
        out
    }
}

/// The contents of numbered documents.
pub open spec fn numbered_views(list: Seq<(usize, Vec<u8>)>) -> Seq<(usize, Seq<u8>)> {
    list.map_values(|p: (usize, Vec<u8>)| (p.0, p.1@))
}

/// The documents that no source description names, with their numbers.
pub open spec fn unclaimed_members(members: Seq<SetMember>) -> Seq<(usize, Seq<u8>)>
    decreases members.len(),
{
    if members.len() == 0 {
        Seq::empty()
    } else {
        let before = unclaimed_members(members.drop_last());
        if members.last().claimed {
            before
        } else {
            before.push((members.last().ordinal, members.last().data@))
        }
    }
}

/// What reading the file of a source description came to.
#[derive(Debug, PartialEq)]
pub enum FileRead {
    /// The URI stands for no path.
    NotAPath,
    Unreadable { path: String, reason: String },
    Read { path: String, data: Vec<u8> },
}

/// The URIs that source descriptions stand for, each with the name of its
/// source; those that stand for none are left out.
pub open spec fn source_uris(
    base: Option<Seq<char>>,
    list: Seq<SourceDescription>,
) -> Seq<(Seq<char>, Seq<char>)>
    decreases list.len(),
{
    if list.len() == 0 {
        Seq::empty()
    } else {
        let before = source_uris(base, list.drop_last());
        let sd = list.last();
        if !(sd.type_ is OpenApi) || sd.url@.len() == 0 {
            before
        } else {
            match url_parsed(sd.url@) {
                Ok(u) => before.push((sd.name@, u)),
                Err(p) => match base {
                    Some(b) => match url_joined(b, sd.url@) {
                        Ok(u) => if p.0 {
                            before.push((sd.name@, u))
                        } else {
                            before
                        },
                        Err(_) => before,
                    },
                    None => before,
                },
            }
        }
    }
}

/// The contents of named URIs.
pub open spec fn named_uris(list: Seq<(String, url::Url)>) -> Seq<(Seq<char>, Seq<char>)> {
    list.map_values(|p: (String, url::Url)| (p.0@, url_text(p.1)))
}

/// The URIs that source descriptions stand for, each with the name of its
/// source: those that are files are the ones that can be read.
pub fn local_source_uris(
    self_uri: Option<&str>,
    retrieval: Option<url::Url>,
    sources: &Vec<SourceDescription>,
) -> (r: Vec<(String, url::Url)>)
    ensures
        named_uris(r@) == source_uris(
            base_for(opt_text(self_uri), opt_url_text(retrieval)),
            sources@,
        ),
{
    let base = base_uri(self_uri, retrieval);
    let ghost b = opt_url_text(base);
    let mut out: Vec<(String, url::Url)> = Vec::new();
    let mut i: usize = 0;
    assert(named_uris(out@) =~= source_uris(b, sources@.take(0)));
    while i < sources.len()
        invariant
            i <= sources@.len(),
            b == opt_url_text(base),
            named_uris(out@) == source_uris(b, sources@.take(i as int)),
        decreases sources@.len() - i,
    {
        let sd = &sources[i];
        assert(sources@.take(i + 1).drop_last() =~= sources@.take(i as int));
        let ghost before = out@;
        let openapi = match sd.type_ {
            SourceType::OpenApi => true,
            _ => false,
        };
        if openapi && !sd.url.as_str().is_empty() {
            let uri = match parse_url(sd.url.as_str()) {
                Ok(u) => Some(u),
                Err(p) => if p.relative {
                    match &base {
                        Some(x) => match join_url(x, sd.url.as_str()) {
                            Ok(u) => Some(u),
                            Err(_) => None,
                        },
                        None => None,
                    }
                } else {
                    None
                },
            };
            match uri {
                Some(u) => {
                    let ghost pair = (sd.name@, url_text(u));
                    out.push((sd.name.clone(), u));
                    assert(named_uris(out@) =~= named_uris(before).push(pair));
                },
                None => {},
            }
        }
        i = i + 1;
    }
    assert(sources@.take(i as int) =~= sources@);
    out
}

/// A document that a source description names is not among those that are
/// left over.
pub proof fn named_documents_are_not_left_over(members: Seq<SetMember>, p: (usize, Seq<u8>))
    requires
        unclaimed_members(members).contains(p),
    ensures
        exists|i: int|
            0 <= i < members.len() && !(#[trigger] members[i]).claimed && (
            members[i].ordinal, members[i].data@) == p,
    decreases members.len(),
{
    if members.len() > 0 {
        let before = members.drop_last();
        if unclaimed_members(before).contains(p) {
            named_documents_are_not_left_over(before, p);
            let i = choose|i: int|
                0 <= i < before.len() && !(#[trigger] before[i]).claimed && (
                before[i].ordinal, before[i].data@) == p;
            assert(members[i] == before[i]);
        } else {
            let i = choose|i: int|
                0 <= i < unclaimed_members(members).len() && unclaimed_members(members)[i] == p;
            assert(i == unclaimed_members(before).len());
            assert(members[members.len() - 1] == members.last());
        }
    }
}

} // verus!
