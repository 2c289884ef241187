//! Setting up an engine: the request base of each source description, the
//! operations of their documents, and where workflows and steps stand.

use crate::documents::{is_relative_document_source, names_file};
use crate::error::{ErrorView, RuntimeError, RuntimeErrorKind};
use crate::model::{SourceDescription, Workflow};
use crate::openapi::{
    base_view, document_error, document_indexed, load_source_document, servers_base, source_origin,
    IndexView,
};
use crate::operations::OperationIndex;
use crate::routing::RequestIndex;
use crate::text::texts;
use crate::text_map::TextMap;
use crate::trace::text_map_view;
use crate::yaml::yaml_parsed;
use vstd::prelude::*;
use vstd::string::*;

verus! {

/// What reading the document of a source description came to.
#[derive(Debug, PartialEq)]
pub enum SourceRead {
    /// There is no directory to read it from.
    NoDirectory,
    Unreadable { path: String, reason: String },
    Read { path: String, data: Vec<u8> },
}

/// What loading source descriptions leaves: their request bases, the first of
/// these, the operations of their documents, and warnings.
#[verifier::ext_equal]
pub struct LoadedView {
    pub bases: Map<Seq<char>, Seq<char>>,
    pub first: Seq<char>,
    pub index: IndexView,
}

/// The refusal of a source description whose document cannot be read.
pub open spec fn load_error(message: Seq<char>) -> ErrorView {
    ErrorView { kind: RuntimeErrorKind::SourceDescriptionLoad, message }
}

/// The request base of a source description that names a document, and the
/// index with its operations; or why there is none.
pub open spec fn document_loaded(sd: SourceDescription, read: SourceRead, index: IndexView) -> (
    Result<Seq<char>, ErrorView>,
    IndexView,
) {
    match read {
        SourceRead::NoDirectory => (
            Err(
                load_error(
                    "sourceDescription \""@ + sd.name@ + "\": relative url \""@ + sd.url@
                        + "\" requires the Arazzo document's directory; provide it via EngineBuilder::source_base_dir"@,
                ),
            ),
            index,
        ),
        SourceRead::Unreadable { path, reason } => (
            Err(
                load_error(
                    "sourceDescription \""@ + sd.name@ + "\": reading OpenAPI document \""@ + path@
                        + "\": "@ + reason@,
                ),
            ),
            index,
        ),
        SourceRead::Read { path, data } => match yaml_parsed(data@) {
            Err(e) => (
                Err(
                    document_error(
                        "sourceDescription \""@ + sd.name@ + "\": parsing OpenAPI document \""@
                            + path@ + "\": "@ + e,
                    ),
                ),
                index,
            ),
            Ok(root) => (
                servers_base(root, sd.name@, path@),
                document_indexed(index, root, source_origin(sd.name@, path@)),
            ),
        },
    }
}

/// Loads the document of a source description: adds its operations to an index
/// and gives its request base.
pub fn load_document_source(
    sd: &SourceDescription,
    read: &SourceRead,
    source_ops: &mut OperationIndex,
    warnings: &mut Vec<String>,
) -> (r: Result<String, RuntimeError>)
    ensures
        ({
            let done = document_loaded(
                *sd,
                *read,
                IndexView { operations: old(source_ops)@, warnings: texts(old(warnings)@) },
            );
            &&& base_view(r) == done.0
            &&& final(source_ops)@ == done.1.operations
            &&& texts(final(warnings)@) == done.1.warnings
        }),
{
    match read {
        SourceRead::NoDirectory => {
            let mut message = "sourceDescription \"".to_owned();
            message.append(sd.name.as_str());
            message.append("\": relative url \"");
            message.append(sd.url.as_str());
            message.append(
                "\" requires the Arazzo document's directory; provide it via EngineBuilder::source_base_dir",
            );
            Err(RuntimeError::new(RuntimeErrorKind::SourceDescriptionLoad, message))
        },
        SourceRead::Unreadable { path, reason } => {
            let mut message = "sourceDescription \"".to_owned();
            message.append(sd.name.as_str());
            message.append("\": reading OpenAPI document \"");
            message.append(path.as_str());
            message.append("\": ");
            message.append(reason.as_str());
            Err(RuntimeError::new(RuntimeErrorKind::SourceDescriptionLoad, message))
        },
        SourceRead::Read { path, data } => load_source_document(
            sd.name.as_str(),
            path.as_str(),
            data.as_slice(),
            source_ops,
            warnings,
        ),
    }
}

/// What was read for the `i`th source description.
pub open spec fn read_at(reads: Seq<SourceRead>, i: int) -> SourceRead {
    if 0 <= i < reads.len() {
        reads[i]
    } else {
        SourceRead::NoDirectory
    }
}

/// The first `n` source descriptions, loaded in order: one that names a
/// document has the base of that document, any other its URL.
pub open spec fn sources_loaded(
    list: Seq<SourceDescription>,
    reads: Seq<SourceRead>,
    n: nat,
) -> Result<LoadedView, ErrorView>
    decreases n,
{
    if n == 0 {
        Ok(
            LoadedView {
                bases: Map::empty(),
                first: ""@,
                index: IndexView { operations: Map::empty(), warnings: Seq::empty() },
            },
        )
    } else {
        match sources_loaded(list, reads, (n - 1) as nat) {
            Err(e) => Err(e),
            Ok(before) => {
                let sd = list[n - 1];
                let loaded = if names_file(sd) {
                    document_loaded(sd, read_at(reads, n - 1), before.index)
                } else {
                    (Ok(sd.url@), before.index)
                };
                match loaded.0 {
                    Err(e) => Err(e),
                    Ok(base) => Ok(
                        LoadedView {
                            bases: before.bases.insert(sd.name@, base),
                            first: if n == 1 {
                                base
                            } else {
                                before.first
                            },
                            index: loaded.1,
                        },
                    ),
                }
            },
        }
    }
}

proof fn failed_load_stays(
    list: Seq<SourceDescription>,
    reads: Seq<SourceRead>,
    m: nat,
    n: nat,
)
    requires
        m <= n,
        sources_loaded(list, reads, m) is Err,
    ensures
        sources_loaded(list, reads, n) == sources_loaded(list, reads, m),
    decreases n,
{
    if m < n {
        failed_load_stays(list, reads, m, (n - 1) as nat);
    }
}

/// Loads source descriptions, given what reading the documents that they name
/// came to: the routing of requests, the operations of the documents, and
/// warnings.
pub fn load_sources(
    sources: Vec<SourceDescription>,
    reads: &Vec<SourceRead>,
    explicit_specs: Vec<(usize, Vec<u8>)>,
) -> (r: Result<(RequestIndex, OperationIndex, Vec<String>), RuntimeError>)
    ensures
        match sources_loaded(sources@, reads@, sources@.len()) {
            Err(e) => r matches Err(x) && x@ == e,
            Ok(v) => {
                &&& r is Ok
                &&& (r->Ok_0).0.source_descriptions@ == sources@
                &&& (r->Ok_0).0.base_url@ == v.first
                &&& text_map_view((r->Ok_0).0.source_bases) == v.bases
                &&& (r->Ok_0).0.explicit_specs@ == explicit_specs@
                &&& (r->Ok_0).1@ == v.index.operations
                &&& texts((r->Ok_0).2@) == v.index.warnings
            },
        },
{
    let mut source_bases: TextMap<String> = TextMap::new();
    let mut source_ops = OperationIndex::new();
    let mut warnings: Vec<String> = Vec::new();
    let mut base_url = "".to_owned();
    let mut i: usize = 0;
    assert(text_map_view(source_bases) =~= Map::<Seq<char>, Seq<char>>::empty());
    assert(texts(warnings@) =~= Seq::<Seq<char>>::empty());
    while i < sources.len()
        invariant
            i <= sources@.len(),
            sources_loaded(sources@, reads@, i as nat) == Ok::<LoadedView, ErrorView>(
                LoadedView {
                    bases: text_map_view(source_bases),
                    first: base_url@,
                    index: IndexView { operations: source_ops@, warnings: texts(warnings@) },
                },
            ),
        decreases sources@.len() - i,
    {
        let sd = &sources[i];
        let ghost before = text_map_view(source_bases);
        let base = if is_relative_document_source(sd) {
            let missing = SourceRead::NoDirectory;
            let read = if i < reads.len() {
                &reads[i]
            } else {
                &missing
            };
            match load_document_source(sd, read, &mut source_ops, &mut warnings) {
                Ok(b) => b,
                Err(e) => {
                    proof {
                        failed_load_stays(sources@, reads@, (i + 1) as nat, sources@.len());
                    }
                    return Err(e);
                },
            }
        } else {
            sd.url.clone()
        };
        if i == 0 {
            base_url = base.clone();
        }
        let ghost b = base@;
        source_bases.insert(sd.name.clone(), base);
        assert(text_map_view(source_bases) =~= before.insert(sd.name@, b));
        i = i + 1;
    }
    Ok(
        (
            RequestIndex { source_descriptions: sources, base_url, source_bases, explicit_specs },
            source_ops,
            warnings,
        ),
    )
}

/// Every source description has a request base once all are loaded.
pub proof fn every_source_has_a_base(
    list: Seq<SourceDescription>,
    reads: Seq<SourceRead>,
    n: nat,
    i: int,
)
    requires
        0 <= i < n <= list.len(),
    ensures
        sources_loaded(list, reads, n) matches Ok(v) ==> v.bases.contains_key(list[i].name@),
    decreases n,
{
    if i < n - 1 {
        every_source_has_a_base(list, reads, (n - 1) as nat, i);
    }
}

// ---------------------------------------------------------------------
// Where workflows stand
// ---------------------------------------------------------------------

/// The position of the last of the first `n` workflows of an id; -1 where
/// there is none.
pub open spec fn workflow_at(list: Seq<Workflow>, id: Seq<char>, n: nat) -> int
    decreases n,
{
    if n == 0 {
        -1
    } else if list[n - 1].workflow_id@ == id {
        n - 1
    } else {
        workflow_at(list, id, (n - 1) as nat)
    }
}

/// Finds a workflow by its id; of several with that id the last counts.
pub fn find_workflow(list: &Vec<Workflow>, id: &str) -> (r: Option<usize>)
    ensures
        match r {
            Some(i) => i == workflow_at(list@, id@, list@.len()) && i < list@.len()
                && list@[i as int].workflow_id@ == id@,
            None => workflow_at(list@, id@, list@.len()) == -1,
        },
{
    let mut n: usize = list.len();
    while n > 0
        invariant
            n <= list@.len(),
            workflow_at(list@, id@, list@.len()) == workflow_at(list@, id@, n as nat),
        decreases n,
    {
        if crate::text::same_text(list[n - 1].workflow_id.as_str(), id) {
            return Some(n - 1);
        }
        n = n - 1;
    }
    None
}

} // verus!
